//! Incremental decoding of a JSON array delivered as a chunked, possibly
//! deflate-compressed HTTP response body.
//!
//! The library holds the logic: the element extractor, the response state
//! machine, the decisions around the inflate engine and the size arithmetic of
//! the engine's allocator callbacks. Transport and the native engine are driven
//! from outside through the event methods of [`JsonStream`].
pub mod block;
pub mod encoding;
pub mod error;
pub mod inflate;
pub mod json_stream;
pub mod partial_json;
pub mod util;
pub mod ztype;

pub use crate::block::{align_up, block_size};
pub use crate::encoding::ContentEncoding;
pub use crate::error::JsonStreamError;
pub use crate::inflate::{InflateFeed, InflateStep};
pub use crate::json_stream::{JsonStream, Output, State};
pub use crate::partial_json::PartialJson;
pub use crate::util::get_content_length;
pub use crate::ztype::ZType;
