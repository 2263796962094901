//! Brand-kit constants for rendered output: the colors of the HTML
//! meta-report (emitted as CSS custom properties) and its footer line.
//! The values are placeholders until the brand kit is final.

use vstd::prelude::*;

verus! {

/// Primary accent color (links, focused borders, hero badges).
pub const COLOR_ACCENT: &'static str = "#0066cc";

/// Color marking a passing verdict.
pub const COLOR_PASS: &'static str = "#1f8d3a";

/// Color marking a failing verdict.
pub const COLOR_FAIL: &'static str = "#c0392b";

/// Color marking a warning verdict.
pub const COLOR_WARN: &'static str = "#d68910";

/// Color marking a lint finding.
pub const COLOR_LINT: &'static str = "#d68910";

/// Background color for dark surfaces.
pub const COLOR_BG: &'static str = "#0e1116";

/// Foreground (body text) color.
pub const COLOR_FG: &'static str = "#e6e6e6";

/// Footer line of the HTML meta-report.
pub const FOOTER: &'static str = "dev-tools verification suite";

} // verus!
