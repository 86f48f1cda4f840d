//! Model tables of the cloud embedding providers.

pub mod cohere;
pub mod openai;
pub mod retry;
pub mod voyage;
