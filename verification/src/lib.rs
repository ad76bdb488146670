//! A recursive, styled chat-text value together with its canonical JSON
//! encoding and decoding rules: compact field omission on encode, and
//! shape-based (untagged) variant discrimination on decode.

pub mod builder;
pub mod codec;
pub mod color;
pub mod decode;
pub mod encode;
pub mod inverse;
pub mod json;
pub mod laws;
pub mod model;
pub mod parse;
pub mod ser;
pub mod text;

pub use builder::BuildError;
pub use builder::ChatBuilder;
pub use builder::ClickEventBuilder;
pub use builder::HoverEventBuilder;
pub use color::Color;
pub use decode::DecodeError;
pub use json::Json;
pub use model::Chat;
pub use model::ChatOrString;
pub use model::ChatType;
pub use model::ClickEvent;
pub use model::ClickEventAction;
pub use model::HoverEvent;
pub use model::HoverEventAction;
pub use model::Score;
