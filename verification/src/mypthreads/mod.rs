//! A cooperative thread runtime: thread bodies run one step at a time and
//! report a `ThreadSignal`; the runtime keeps the ready and blocked queues.

pub mod signals;
pub mod thread;
pub mod thread_data;
pub mod channels;
pub mod mutex;
pub mod sched;
pub mod runtime;
pub mod mypthreads_api;
pub mod api_rust;
pub mod api_context;
pub mod sync;
