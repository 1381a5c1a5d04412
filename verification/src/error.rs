use vstd::prelude::*;

verus! {

/// The failures the engine itself can report.
///
/// I/O failures (opening inputs, outputs or payload lists) never arise inside
/// the engine; they stay with the surrounding program that owns the files.
#[derive(Clone, Copy, PartialEq, Eq, Structural, Debug)]
pub enum EngineError {
    /// No region was detected where one is required: terminal in
    /// single-image mode, where no frame sequence exists to scan forward in.
    DetectionNotFound,
    /// A payload record is missing its payload field.
    MalformedPayloadRecord,
    /// An upstream capability handed the engine material it cannot use: a
    /// rectangle that does not fit inside the frame, or variant content not
    /// sized to the rectangle it must cover.
    UpstreamCapabilityFailure,
}

} // verus!
