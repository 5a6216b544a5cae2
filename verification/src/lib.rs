//! A conversational orchestration layer in front of a remote text-generation
//! service.
//!
//! The heart of the crate is [`coordinator::Coordinator`]: it owns the
//! conversation identity (model name, generation options, debug flag, format
//! policy) together with the ordered message history, negotiates whether a
//! structured-output constraint may be attached to each request, accumulates
//! streamed response fragments into a single assistant reply, and dispatches
//! tool invocations requested by the model back into the conversation until a
//! tool-call-free answer arrives or the iteration ceiling is reached.
//!
//! Network transport and tool execution suspend, so they live outside this
//! crate; callers hand their outcomes in as plain values, either one event at
//! a time through the step API or as a whole transcript through
//! [`coordinator::Coordinator::chat`].

pub mod coordinator;
pub mod error;
pub mod message;
pub mod request;
mod sink;
pub mod stream;
