//! Service discovery and request/response calls for processes that share
//! nothing but a reliable broadcast publish/subscribe transport.

mod assoc;
pub mod messages;
pub mod qos;
pub mod endpoint;
pub mod listener;
pub mod correlation;
pub mod correlation_laws;
pub mod gate;
pub mod call;
pub mod directory;
pub mod registration;
pub mod storage;
pub mod handle;
pub mod module;
pub mod application;
pub mod channel;
