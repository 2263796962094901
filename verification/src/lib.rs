//! Verified core of the `dev` verification toolkit: the report model,
//! cargo-output producers, the HTML meta-report, and the CLI's
//! renderings and decisions (exit codes, component table, CI workflow
//! arguments).

pub mod brand;
pub mod ci;
pub mod cli;
pub mod html;
pub mod model;
pub mod producers;
pub mod text;
pub mod version;
