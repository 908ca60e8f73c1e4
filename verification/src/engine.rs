//! The runtimes that drive the proxy.
pub mod io_runtime;
pub mod io_uring;
pub mod io_uring_transport;
