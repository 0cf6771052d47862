//! The guest's side of a bridge between an isolated module and its scripting host: typed
//! values in wire form, routines synthesized from templates, handles to host-resident
//! objects, buffers that receive the host's output, callbacks that the host reenters, and
//! futures with the tasks that wait for them.
//!
//! Nothing here reaches the host. Each module says what is to be asked of the host and
//! what its answers come to; carrying the operations out is the caller's part.

pub mod allocations;
pub mod bytes;
pub mod callbacks;
pub mod components;
pub mod console;
pub mod element;
pub mod handlers;
pub mod http;
pub mod invoke;
pub mod js;
pub mod number;
pub mod router;
pub mod runtime;
pub mod signals;
pub mod slots;
pub mod template;
pub mod text;
