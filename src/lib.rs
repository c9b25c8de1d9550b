//! An embeddable HTTP server core: routing table, middleware pipeline,
//! request/response models, typed request extensions and the decisions of
//! the connection loop, each with its contract stated and proved.
pub mod text;
pub mod method;
pub mod path;
pub mod table;
pub mod router;
pub mod extensions;
pub mod res;
pub mod error;
pub mod req;
pub mod chain;
pub mod app;
pub mod server;
