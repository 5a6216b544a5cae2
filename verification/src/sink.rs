//! The live output sink and the diagnostic channel.

use std::io::Write;

use vstd::prelude::*;

use crate::message::ChatMessage;

verus! {

/// Relies on std::io::Stdout::write_fmt and flush: writes a streamed delta to
/// standard output and flushes it immediately, so that partial output is
/// visible while a response is still streaming. Sink write failures are
/// ignored in favour of the accumulated transcript.
#[verifier::external_body]
pub(crate) fn emit_delta(delta: &str) {
    let mut out = std::io::stdout();
    let _ = write!(out, "{}", delta);
    let _ = out.flush();
}

/// Relies on std::io::Stderr::write_fmt: reports a message about to be handed
/// to the model as a diagnostic on standard error. Purely informational; its
/// failure is ignored.
#[verifier::external_body]
pub(crate) fn debug_note(model: &str, message: &ChatMessage) {
    let mut err = std::io::stderr();
    let _ = writeln!(err, "Hit {} with:", model);
    let _ = writeln!(err, "\t{:?}: '{}'", message.role, message.content);
}

} // verus!
