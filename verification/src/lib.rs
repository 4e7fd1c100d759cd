//! Rune: the engine of a terminal companion for competitive programming.

pub mod analytics;
pub mod app;
pub mod bars;
pub mod clock;
pub mod codeforces;
pub mod dashboard;
pub mod fetch;
pub mod full_view;
pub mod git;
pub mod judge;
pub mod labels;
pub mod laws;
pub mod layout;
pub mod number;
pub mod ordering;
pub mod output;
pub mod paths;
pub mod problem;
pub mod process;
pub mod recommend;
pub mod samples;
pub mod screen;
pub mod text;
pub mod ui;
