//! Fixed configuration values of the desktop application: the color
//! scheme used for enrollment feedback.
use vstd::prelude::*;

verus! {

/// Color scheme for feedback messages, as hexadecimal color codes.
pub struct ColorScheme {
    pub progress: &'static str,
    pub warning: &'static str,
    pub error: &'static str,
    pub success: &'static str,
    pub neutral: &'static str,
    pub process: &'static str,
}

/// The color scheme for enrollment feedback: purple for progress and
/// completion, pink for retries, red for failures, gray as fallback, blue
/// for processing.
pub fn colors() -> (r: ColorScheme)
    ensures
        r.progress@ == "#a277ff"@,
        r.warning@ == "#ff6ac1"@,
        r.error@ == "#ff4d6d"@,
        r.success@ == "#a277ff"@,
        r.neutral@ == "#8a8f98"@,
        r.process@ == "#5ea2ff"@,
{
    ColorScheme {
        progress: "#a277ff",
        warning: "#ff6ac1",
        error: "#ff4d6d",
        success: "#a277ff",
        neutral: "#8a8f98",
        process: "#5ea2ff",
    }
}

} // verus!
