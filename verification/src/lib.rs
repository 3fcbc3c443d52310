//! Core of a small virtual-machine monitor's I/O path: scatter/gather over
//! host memory, an asynchronous I/O engine with a bounded number of requests
//! in flight, the virtio console device with its multiport control protocol,
//! and the format tables of the camera backends.
//!
//! Every function here is verified against the contract it carries. Host and
//! guest memory enter as byte slices with the address of their first byte.
//! The kernel enters through the backend trait of [`aio`] and through
//! functions that the caller hands in; queues and character devices stay with
//! the caller, who takes chains from the queues, hands them to the functions
//! here and does with them what the functions return.

pub mod aio;
pub mod camera_backend;
pub mod hostmem;
pub mod serial;
pub mod virtio;
pub mod wire;
