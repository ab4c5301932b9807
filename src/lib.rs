//! Entity registry, schema composition and batch reference resolution for a
//! federated graph of subgraph services.
pub mod schema;
pub mod resolve;
pub mod compose;
pub mod facade;
pub mod market;
pub mod inventory;
