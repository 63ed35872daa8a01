//! Texture storage and sampling for a small ray tracer, with the integer
//! parts of its rendering set-up: texel packing, the checkerboard placeholder,
//! clamped texel lookup, and the split of the framebuffer rows among workers.

pub mod partition;
pub mod pixel;
pub mod text;
pub mod texture;
pub mod viewer;

pub use partition::rows_per_chunk;
pub use pixel::{pack_rgb, unpack_rgb};
pub use text::push_decimal;
pub use texture::{
    DecodedImage, Texture, FALLBACK_SIDE, MISSING_TEXEL, PLACEHOLDER_BLOCK, PLACEHOLDER_DARK,
    PLACEHOLDER_LIGHT,
};
pub use viewer::{FrameAction, FrameInput, Viewer};
