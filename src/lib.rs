//! # psxmem
//!
//! Reads and writes raw PSX memory-card images: a card is sixteen 8 KiB blocks, each made of
//! sixty-four 128-byte frames. The first block holds the directory; the other fifteen hold one
//! save each (a title frame, up to three icon frames and the save payload).
//!
//! Every parser and serializer here is verified against a byte-level model of the layout.
use vstd::prelude::*;

pub mod checksum;
pub mod data_block;
pub mod directory;
pub mod error;
pub mod frames;
pub mod icon;
pub mod info_block;
pub mod memcard;
pub mod record;
pub mod search;
pub mod title;

pub use checksum::{calc_checksum, update_checksum, validate_checksum};
pub use data_block::DataBlock;
pub use directory::{BAState, License, Region, RegionInfo};
pub use error::MCError;
pub use frames::{Block, BrokenFrame, DirectoryFrame, Frame, Header, TitleFrame};
pub use icon::IconImages;
pub use info_block::InfoBlock;
pub use memcard::{MemCard, CARD_SIZE};
pub use record::Record;
pub use title::IconDisplay;

verus! {

/// Size in bytes of one frame, the card's smallest record.
pub const FRAME: usize = 128;

/// Size in bytes of one block: sixty-four frames.
pub const BLOCK: usize = 8192;

} // verus!
