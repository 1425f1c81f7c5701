use vstd::prelude::*;

pub mod cases;
pub mod client;
pub mod config;
pub mod error;
pub mod media;
pub mod naming;
pub mod node;
pub mod outgoing;
pub mod params;
pub mod proxy;
pub mod quality;
pub mod text;
pub mod time;
pub mod backoff;
pub mod retry;
pub mod server;
pub mod service_client;
pub mod socket;
pub mod request;
pub mod user_agent;
pub mod verification_client;
pub mod verification_error;
pub mod conjure_value;
