//! Failures, in words.
use vstd::prelude::*;

verus! {

/// A failure of the conversation with the portal.
#[derive(Debug)]
pub struct DBusError(pub String);

/// A failure of the recording pipeline.
#[derive(Debug)]
pub struct GStreamerError(pub String);

} // verus!
