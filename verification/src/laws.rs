//! Laws of the library: what its operations achieve, told by their inputs and results.

pub mod functions;
pub mod gathering;
pub mod history;
pub mod numbers;
pub mod outputs;
pub mod pushing;
pub mod ranking;
pub mod screens;
pub mod session;
pub mod texts;
pub mod views;
