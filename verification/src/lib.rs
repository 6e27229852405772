//! image_rs — the verified core of an image-processing service.
//!
//! The crate holds the domain model (value objects, operations, pipelines),
//! the URL DSL parser, the request-shaping rules of the HTTP layer and the
//! pure decisions of the image adapters. Pixel work, I/O and the async
//! server live in the companion application crate.

pub mod error;
pub mod text;
pub mod names;
pub mod numbers;
pub mod value_objects;
pub mod ops;
pub mod pipeline;
pub mod url_dsl;
pub mod ports;
pub mod get_image;
pub mod dto;
pub mod http;
pub mod codec;
pub mod imaging;
pub mod config;
pub mod fonts;
pub mod store;
pub mod upload;
