//! Ergonomic remote procedure calls in which the trait is the interface.
//!
//! A service is a trait. Its expansion ([`service`]) implements the trait for
//! clients and dispatches calls on servers, so that `client.method(args)` calls
//! the method on the other side.
//!
//! - [`frame`] and [`wire`]: what travels over a connection.
//! - [`client`] and [`server`]: what either side does with it.
//! - [`exchange`]: what the two sides can rely on together.
//! - [`route`], [`method`] and [`naming`]: what a trait says of its methods.
//! - [`codegen`], [`http_codegen`] and [`mod@service`]: the code for a trait.
//! - [`http_client`]: requests to a service over HTTP.
//! - [`promises`]: what calls of the library give, stated of the calls.
//! - [`text`], [`listing`] and [`sequence`]: texts and the lists in them.

pub mod client;
pub mod codegen;
pub mod exchange;
pub mod frame;
pub mod http_client;
pub mod http_codegen;
pub mod listing;
pub mod method;
pub mod naming;
pub mod promises;
pub mod route;
pub mod sequence;
pub mod server;
pub mod service;
pub mod text;
pub mod wire;

pub use client::StreamFrame;
pub use frame::{decode_stream_header, encode_stream_header, FrameType, STREAM_HEADER_SIZE};
pub use http_client::HttpClient;
pub use server::{DispatchResult, ErasedStream, Server, ServerEncoding};
pub use service::service;
