//! Packed bitfields: typed values laid out bit by bit inside one unsigned
//! integer, with verified accessors.

pub mod internal;
mod private;
pub mod prims;
pub mod uint;
pub mod page_table;
pub mod laws;
pub mod layout;

pub use internal::{check_bits_and_offset, BitSized, Bits, Storage, Widen};
pub use layout::{check_discriminants, field_offsets, EnumLayoutError, LayoutError};
pub use page_table::{Flags, Perm, Perm2};
pub use uint::UInt;
