//! A dense RGBA pixel canvas: bounds-checked, channel-masked writes, an
//! alpha-gated merge of one canvas onto another, and a read-only interleaved
//! view for image encoding. Every operation carries a proved contract over
//! the buffer's bytes.

pub mod canvas;
pub mod channel;
mod pixels;
pub mod view;
