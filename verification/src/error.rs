//! Error taxonomy for the telemetry core.

use vstd::prelude::*;

verus! {

/// What went wrong while acquiring or normalizing a sensor value.
///
/// `Io` stands for an unreadable pseudo-filesystem entry or external
/// process, `Parse` for malformed numeric or textual content, `NotFound`
/// for a discovery or filter step that matched nothing, and `Backend` for
/// an IPC or property-query failure reported by a bus service.
#[derive(Debug, Clone, Copy, PartialEq, Eq, Structural)]
pub enum SensorError {
    Io,
    Parse,
    NotFound,
    Backend,
}

impl SensorError {
    /// A short human-readable label, used by callers when rendering
    /// a failed reading.
    pub fn label(&self) -> (r: &'static str)
        ensures
            *self == SensorError::Io ==> r@ == "I/O error"@,
            *self == SensorError::Parse ==> r@ == "parse error"@,
            *self == SensorError::NotFound ==> r@ == "not found"@,
            *self == SensorError::Backend ==> r@ == "backend error"@,
    {
        match self {
            SensorError::Io => "I/O error",
            SensorError::Parse => "parse error",
            SensorError::NotFound => "not found",
            SensorError::Backend => "backend error",
        }
    }
}

} // verus!
