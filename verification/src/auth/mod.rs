//! Who calls the gateway, and what a sandbox may call.
pub mod principal;
pub mod sandbox_methods;
