# dev-tools

The umbrella of the `dev-*` Rust verification collection: a report model,
producers that turn `cargo test`, `cargo clippy` and `cargo check` output
into reports, a self-contained HTML meta-report, and the `dev` command-line
tool.

The library under `src/` is written in Verus. Every function carries a
contract over a mathematical model of its inputs and output, and the
properties that relate several functions are stated and proved as `law_*`
proof functions.

| Module      | Contents |
|-------------|----------|
| `model`     | Verdicts, severities, checks, reports and multi-reports; verdict counts and the overall verdict; instants and their RFC 3339 text. |
| `producers` | libtest output and `--message-format=json` diagnostics mapped to checks; the cargo test, clippy and check producers. |
| `html`      | The HTML meta-report: header, summary counts and verdict bar, duration histogram, one block per producer. |
| `cli`       | Output formats, exit codes, manifest reading, subject resolution, argument checks and the colored terminal renderings. |
| `version`   | The component table of `dev version`. |
| `ci`        | The argument checks of `dev ci` and the workflow that `dev_ci` generates for them. |
| `text`      | Character-level helpers: trimming, lines, UTF-8 lengths, decimal text, HTML escaping. |
| `brand`     | Brand colors and footer text. |

`app/` is the `dev` binary: argument parsing, subprocesses, files, the
clock, JSON, and the `dev_report` wire types. `tests/` runs the library on
concrete values.
