pub mod actor;
pub mod agent;
pub mod broker;
pub mod client;
pub mod codec;
pub mod common;
pub mod config;
pub mod dispatch;
pub mod env;
pub mod errors;
pub mod system;

/// Types for defining and addressing actors.
pub use actor::{
    mailbox_name, queue_address, ActorKind, ActorMsg, ActorRequest, ActorSend, ActorSubscribe,
    DispatchType, HollywoodMsg, HollywoodPublish, HollywoodRequest, HollywoodResponse,
    HollywoodSend, MessageKind, RunOpts, SubscribeType,
};

/// The typed client-side binding.
pub use client::Mailbox;

/// The per-actor registration table.
pub use dispatch::DispatchTable;

/// The library's error values.
pub use errors::HollywoodError;
