//! Verified core of a robot harness that lets a language model plan and track
//! the atomic tasks of a vision-language-action policy.

pub mod text;
pub mod message;
pub mod session;
pub mod plan;
pub mod skill;
pub mod events;
pub mod chat;
pub mod agent;
pub mod turns;
pub mod stream;
pub mod schema;
pub mod tools;
pub mod frame;
pub mod request;
