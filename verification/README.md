# Rune

Rune is a terminal companion for competitive programming on Codeforces. It picks up problems that
an ingestion daemon leaves in the workspace, compiles and judges a solution on the samples, pushes
solved problems to a git repository, keeps a record of solves, and recommends problems to solve
next.

The library in `src/` is written in Verus: what each function does is stated in its contract and
proved. The proofs rest on a few calls out of the library whose contracts are not proved but
believed, each with a doc comment that says what is claimed of it:

| Item | What it calls |
| --- | --- |
| `text`: specification of `String::push` | `String::push` |
| `labels::uppercase_of`, with the name `uppercase` | `char::to_uppercase` |
| `process::decode_lossy`, with the name `lossy_text` | `String::from_utf8_lossy` |
| `clock::read_clock` | `std::time::SystemTime::now`; nothing is claimed |
| `layout::split`, with the name `divisions` | `ratatui::layout::Layout::split` |
| `layout::inside_border` | `ratatui::widgets::Block::inner` |
| `problem::ExPathBuf` | declares `std::path::PathBuf`; nothing is claimed |

The modules:

| Modules | What they hold |
| --- | --- |
| `text`, `number`, `labels`, `ordering` | characters, lines, decimal numbers, labels, stable sorting |
| `output`, `judge`, `process` | comparing outputs, verdicts, test runs |
| `problem`, `paths`, `clock` | problems on disk, changes to files, places, the time of day |
| `analytics` | the record of solves and the tags that deserve practice |
| `codeforces`, `recommend`, `fetch` | replies of the Codeforces API, the ranking, and the steps that lead to it |
| `git` | the steps of a push |
| `app` | the state of the program and how each event changes it |
| `layout`, `screen`, `bars`, `dashboard`, `samples`, `full_view`, `ui` | what is drawn, and where |

The library decides and computes; it does not touch files, processes or the network. `app::App`
takes events and answers with an effect to perform; `fetch::RecRun`, `git::push_next` and
`judge::next_step` do the same for the background tasks; `ui::ui` returns a list of widgets with
their areas.

`app/` is the program around it: the main loop, the background tasks, the database, HTTP, and the
drawing of the widgets with ratatui.
