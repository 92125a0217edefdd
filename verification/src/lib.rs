//! Message-passing and capability core of a sovereign node runtime.

pub mod types;
pub mod message;
pub mod capabilities;
pub mod crypto;
pub mod process;
pub mod net;
pub mod router;
pub mod services;
pub mod vfs;
pub mod memedeck;
pub mod ndns;
