//! The scalar types of the format.

pub mod blockinfo;
pub mod blocktype;
pub mod filetype;
pub mod timescale;
pub mod varint;
pub mod varint_encoding;
pub mod writer_pack_type;

pub use blockinfo::{BlockInfo, FramedBlock};
pub use blocktype::BlockType;
pub use filetype::FileType;
pub use timescale::TimeScale;
pub use varint::{SVarInt, VarInt};
pub use writer_pack_type::WriterPackType;
