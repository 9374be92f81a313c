//! Verified core of a two-process pseudo-terminal bridge: transport naming and
//! read classification, session tokens and the worker launch line, the
//! forwarding and lifecycle decisions of both processes, the hold-back of
//! split UTF-8 characters on their way to the terminal, and the accumulator
//! that turns a raw terminal stream into clean log records.

pub mod escape;
pub mod log;
mod text;
pub mod pipe;
pub mod relay;
pub mod lifecycle;
pub mod session;
pub mod clock;
pub mod decode;
