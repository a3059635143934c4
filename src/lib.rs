//! Fixed-layout binary views of native values: each value is written in one linear
//! pass and read back after a single check of the bytes.
pub mod allocator;
pub mod byte;
pub mod error;
pub mod integer;
pub mod result;
pub mod scalar;
pub mod view;
pub mod wire;

pub use allocator::{Allocator, SliceAllocator, State, VecAllocator};
pub use byte::U8Serializer;
pub use error::Error;
pub use result::{Result, ResultSerializer};
pub use scalar::{Char, CharSerializer};
pub use view::{load, serialize, to_vec, view, Native, WireView};
