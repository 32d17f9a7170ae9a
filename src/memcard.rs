//! The whole card: the info block followed by fifteen save blocks.
use vstd::prelude::*;

use crate::checksum::{checksum_ok, lemma_stamp_valid_is_identity, lemma_stamp_validates};
use crate::data_block::{DataBlock, DataBlockModel};
use crate::error::MCError;
use crate::frames::{Block, DirectoryFrame};
use crate::info_block::{InfoBlock, InfoBlockModel};
use crate::record::{
    frame_at, frames_valid, lemma_records_bytes, lemma_records_bytes_injective,
    lemma_stamped_bytes_valid, lemma_stamped_records, records_bytes, take_array, CheckedRecord,
    Record,
};
use crate::BLOCK;

verus! {

/// Size in bytes of a whole card: sixteen blocks.
pub const CARD_SIZE: usize = 131072;

/// #MemCard
///
/// The entire contents of the memory card are loaded into a `MemCard` struct. From here
/// the data can be manipulated and written back out.
#[derive(Clone, Debug, PartialEq, Eq)]
pub struct MemCard {
    /// The initial block of data on the memory card.
    pub info: InfoBlock,
    /// The save data blocks on the memory card.
    pub data: Vec<DataBlock>,
}

/// The contents of a `MemCard`.
pub struct MemCardModel {
    pub info: InfoBlockModel,
    pub data: Seq<DataBlockModel>,
}

impl View for MemCard {
    type V = MemCardModel;

    open spec fn view(&self) -> MemCardModel {
        MemCardModel { info: self.info@, data: self.data@.map_values(|d: DataBlock| d@) }
    }
}

/// The `k`-th 8 KiB block of `s`.
pub open spec fn block_at(s: Seq<u8>, k: int) -> Seq<u8> {
    s.subrange(8192 * k, 8192 * k + 8192)
}

/// The save blocks' bytes, one after another.
pub open spec fn blocks_bytes(s: Seq<DataBlockModel>) -> Seq<u8>
    decreases s.len(),
{
    if s.len() == 0 {
        Seq::empty()
    } else {
        blocks_bytes(s.drop_last()) + s.last().spec_bytes()
    }
}

impl MemCardModel {
    /// Every block has the layout's frame counts, and there are fifteen save blocks.
    pub open spec fn wf_shape(self) -> bool {
        &&& self.info.wf_shape()
        &&& self.data.len() == 15
        &&& forall|i: int| 0 <= i < self.data.len() ==> (#[trigger] self.data[i]).wf()
    }

    /// A card as `open` returns it: the right shape, and every checksum of the info block
    /// matches.
    pub open spec fn wf(self) -> bool {
        self.wf_shape() && self.info.checksums_ok()
    }

    /// The card's bytes as they stand.
    pub open spec fn spec_bytes(self) -> Seq<u8> {
        self.info.spec_bytes() + blocks_bytes(self.data)
    }

    /// The bytes that `write` produces: the info block with every checksum recomputed, then
    /// the save blocks.
    pub open spec fn written_bytes(self) -> Seq<u8> {
        self.info.written_bytes() + blocks_bytes(self.data)
    }

    /// The same card with every checksum of its info block recomputed.
    pub open spec fn stamped(self) -> MemCardModel {
        MemCardModel { info: self.info.stamped(), data: self.data }
    }
}

/// Bytes that `open` accepts: at least a whole card, with every frame of the first block
/// carrying a matching checksum.
pub open spec fn card_readable(s: Seq<u8>) -> bool {
    s.len() >= CARD_SIZE && frames_valid(s, 0, 64)
}

/// The card whose bytes are the first 128 KiB of `s`.
pub open spec fn card_of(s: Seq<u8>) -> MemCardModel {
    choose|m: MemCardModel| m.wf() && m.spec_bytes() == s.subrange(0, CARD_SIZE as int)
}

/// A save block with the layout's frame counts is exactly one block long.
pub proof fn lemma_data_block_len(d: DataBlockModel)
    requires
        d.wf(),
    ensures
        d.spec_bytes().len() == BLOCK,
{
    d.title_frame.lemma_bytes(&d.title_frame);
    lemma_records_bytes(d.icon_frames);
    lemma_records_bytes(d.data_frames);
}

/// No two save blocks of the right shape share their bytes.
pub proof fn lemma_data_block_injective(d: DataBlockModel, e: DataBlockModel)
    requires
        d.wf(),
        e.wf(),
        d.spec_bytes() == e.spec_bytes(),
    ensures
        d == e,
{
    let s = d.spec_bytes();
    d.title_frame.lemma_bytes(&e.title_frame);
    e.title_frame.lemma_bytes(&d.title_frame);
    lemma_records_bytes(d.icon_frames);
    lemma_records_bytes(e.icon_frames);
    lemma_records_bytes(d.data_frames);
    lemma_records_bytes(e.data_frames);
    assert(s.subrange(0, 128) =~= d.title_frame.spec_bytes());
    assert(s.subrange(0, 128) =~= e.title_frame.spec_bytes());
    let n = 128 + 128 * d.icon_frames.len() as int;
    assert(e.icon_frames.len() == d.icon_frames.len());
    assert(s.subrange(128, n) =~= records_bytes(d.icon_frames));
    assert(s.subrange(128, n) =~= records_bytes(e.icon_frames));
    assert(s.subrange(n, 8192) =~= records_bytes(d.data_frames));
    assert(s.subrange(n, 8192) =~= records_bytes(e.data_frames));
    lemma_records_bytes_injective(d.icon_frames, e.icon_frames);
    lemma_records_bytes_injective(d.data_frames, e.data_frames);
}

proof fn lemma_blocks_bytes(s: Seq<DataBlockModel>)
    requires
        forall|i: int| 0 <= i < s.len() ==> (#[trigger] s[i]).wf(),
    ensures
        blocks_bytes(s).len() == 8192 * s.len(),
        forall|k: int|
            0 <= k < s.len() ==> #[trigger] block_at(blocks_bytes(s), k) == s[k].spec_bytes(),
    decreases s.len(),
{
    if s.len() > 0 {
        let p = s.drop_last();
        assert forall|i: int| 0 <= i < p.len() implies (#[trigger] p[i]).wf() by {
            assert(p[i] == s[i]);
        }
        lemma_blocks_bytes(p);
        assert(s[s.len() - 1].wf());
        lemma_data_block_len(s.last());
        assert forall|k: int| 0 <= k < s.len() implies #[trigger] block_at(blocks_bytes(s), k)
            == s[k].spec_bytes() by {
            if k < p.len() {
                assert(block_at(blocks_bytes(s), k) =~= block_at(blocks_bytes(p), k));
            } else {
                assert(block_at(blocks_bytes(s), k) =~= s.last().spec_bytes());
            }
        }
    }
}

/// An info block with the layout's frame counts is exactly one block long.
pub proof fn lemma_info_len(m: InfoBlockModel)
    requires
        m.wf_shape(),
    ensures
        m.spec_bytes().len() == BLOCK,
{
    m.header.lemma_bytes(&m.header);
    m.wr_test_frame.lemma_bytes(&m.wr_test_frame);
    lemma_records_bytes(m.dir_frames);
    lemma_records_bytes(m.broken_frames);
    lemma_records_bytes(m.unused_frames);
}

/// No two info blocks of the right shape share their bytes.
pub proof fn lemma_info_injective(m: InfoBlockModel, n: InfoBlockModel)
    requires
        m.wf_shape(),
        n.wf_shape(),
        m.spec_bytes() == n.spec_bytes(),
    ensures
        m == n,
{
    let s = m.spec_bytes();
    m.header.lemma_bytes(&n.header);
    n.header.lemma_bytes(&m.header);
    m.wr_test_frame.lemma_bytes(&n.wr_test_frame);
    n.wr_test_frame.lemma_bytes(&m.wr_test_frame);
    lemma_records_bytes(m.dir_frames);
    lemma_records_bytes(n.dir_frames);
    lemma_records_bytes(m.broken_frames);
    lemma_records_bytes(n.broken_frames);
    lemma_records_bytes(m.unused_frames);
    lemma_records_bytes(n.unused_frames);
    assert(s.subrange(0, 128) =~= m.header.spec_bytes());
    assert(s.subrange(0, 128) =~= n.header.spec_bytes());
    assert(s.subrange(128, 2048) =~= records_bytes(m.dir_frames));
    assert(s.subrange(128, 2048) =~= records_bytes(n.dir_frames));
    assert(s.subrange(2048, 4608) =~= records_bytes(m.broken_frames));
    assert(s.subrange(2048, 4608) =~= records_bytes(n.broken_frames));
    assert(s.subrange(4608, 8064) =~= records_bytes(m.unused_frames));
    assert(s.subrange(4608, 8064) =~= records_bytes(n.unused_frames));
    assert(s.subrange(8064, 8192) =~= m.wr_test_frame.spec_bytes());
    assert(s.subrange(8064, 8192) =~= n.wr_test_frame.spec_bytes());
    lemma_records_bytes_injective(m.dir_frames, n.dir_frames);
    lemma_records_bytes_injective(m.broken_frames, n.broken_frames);
    lemma_records_bytes_injective(m.unused_frames, n.unused_frames);
}

/// A card's bytes are 128 KiB long, and no two cards of the right shape share them.
pub proof fn lemma_card_bytes(m: MemCardModel, n: MemCardModel)
    requires
        m.wf_shape(),
        n.wf_shape(),
    ensures
        m.spec_bytes().len() == CARD_SIZE,
        m.spec_bytes() == n.spec_bytes() ==> m == n,
{
    lemma_info_len(m.info);
    lemma_info_len(n.info);
    lemma_blocks_bytes(m.data);
    lemma_blocks_bytes(n.data);
    if m.spec_bytes() == n.spec_bytes() {
        let s = m.spec_bytes();
        assert(s.subrange(0, 8192) =~= m.info.spec_bytes());
        assert(s.subrange(0, 8192) =~= n.info.spec_bytes());
        lemma_info_injective(m.info, n.info);
        assert forall|k: int| 0 <= k < 15 implies m.data[k] == n.data[k] by {
            assert(block_at(blocks_bytes(m.data), k) =~= s.subrange(8192 + 8192 * k, 16384 + 8192 * k));
            assert(block_at(blocks_bytes(n.data), k) =~= s.subrange(8192 + 8192 * k, 16384 + 8192 * k));
            lemma_data_block_injective(m.data[k], n.data[k]);
        }
        assert(m.data =~= n.data);
    }
}

/// The bytes of a card as `open` returns it are readable, and they hold that very card.
pub proof fn lemma_card_of(m: MemCardModel)
    requires
        m.wf(),
    ensures
        card_readable(m.spec_bytes()),
        card_of(m.spec_bytes()) == m,
{
    let s = m.spec_bytes();
    lemma_card_bytes(m, m);
    lemma_info_len(m.info);
    assert(s.subrange(0, CARD_SIZE as int) =~= s);
    let c = card_of(s);
    lemma_card_bytes(c, m);
    let i = m.info;
    lemma_records_bytes(i.dir_frames);
    lemma_records_bytes(i.broken_frames);
    lemma_records_bytes(i.unused_frames);
    assert forall|k: int| 0 <= k < 64 implies #[trigger] checksum_ok(frame_at(s, k)) by {
        if k == 0 {
            assert(frame_at(s, k) =~= i.header.spec_bytes());
        } else if k < 16 {
            assert(frame_at(s, k) =~= frame_at(records_bytes(i.dir_frames), k - 1));
        } else if k < 36 {
            assert(frame_at(s, k) =~= frame_at(records_bytes(i.broken_frames), k - 16));
        } else if k < 63 {
            assert(frame_at(s, k) =~= frame_at(records_bytes(i.unused_frames), k - 36));
        } else {
            assert(frame_at(s, k) =~= i.wr_test_frame.spec_bytes());
        }
    }
}

proof fn lemma_written_is_stamped(m: MemCardModel)
    requires
        m.wf_shape(),
    ensures
        m.stamped().wf(),
        m.stamped().spec_bytes() == m.written_bytes(),
{
    let i = m.info;
    i.header.lemma_stamped();
    i.wr_test_frame.lemma_stamped();
    i.header.lemma_bytes(&i.header);
    i.wr_test_frame.lemma_bytes(&i.wr_test_frame);
    lemma_stamp_validates(i.header.spec_bytes(), 0);
    lemma_stamp_validates(i.wr_test_frame.spec_bytes(), 0);
    lemma_stamped_records(i.dir_frames);
    lemma_stamped_records(i.broken_frames);
    lemma_stamped_records(i.unused_frames);
    assert(m.stamped().spec_bytes() =~= m.written_bytes());
}

/// Writing a card and opening the bytes gives back the card with every checksum of its info
/// block recomputed from the current field values.
pub proof fn lemma_write_then_open_stamps(m: MemCardModel)
    requires
        m.wf_shape(),
    ensures
        m.written_bytes().len() == CARD_SIZE,
        card_readable(m.written_bytes()),
        card_of(m.written_bytes()) == m.stamped(),
{
    lemma_written_is_stamped(m);
    lemma_card_bytes(m.stamped(), m.stamped());
    lemma_card_of(m.stamped());
}

/// Round trip: writing a card as `open` returns it, then opening the bytes, gives back the
/// same card, checksum bytes included.
pub proof fn lemma_write_then_open(m: MemCardModel)
    requires
        m.wf(),
    ensures
        m.written_bytes() == m.spec_bytes(),
        card_readable(m.written_bytes()),
        card_of(m.written_bytes()) == m,
{
    let i = m.info;
    i.header.lemma_bytes(&i.header);
    i.wr_test_frame.lemma_bytes(&i.wr_test_frame);
    lemma_stamp_valid_is_identity(i.header.spec_bytes());
    lemma_stamp_valid_is_identity(i.wr_test_frame.spec_bytes());
    lemma_stamped_bytes_valid(i.dir_frames);
    lemma_stamped_bytes_valid(i.broken_frames);
    lemma_stamped_bytes_valid(i.unused_frames);
    assert(m.written_bytes() =~= m.spec_bytes());
    lemma_card_of(m);
}

/// The card `m` with the save size of directory slot `slot` set to `filesize`.
pub open spec fn with_filesize(m: MemCardModel, slot: int, filesize: u32) -> MemCardModel {
    MemCardModel {
        info: InfoBlockModel {
            dir_frames: m.info.dir_frames.update(
                slot,
                DirectoryFrame { filesize, ..m.info.dir_frames[slot] },
            ),
            ..m.info
        },
        ..m
    }
}

/// Editing a slot's save size on an opened card, writing it and opening the bytes again shows
/// the new size, in a directory frame whose checksum matches; the result is the edited card
/// with its checksums recomputed.
pub proof fn lemma_edit_filesize_then_save(m: MemCardModel, slot: int, filesize: u32)
    requires
        m.wf(),
        0 <= slot < 15,
    ensures
        card_readable(with_filesize(m, slot, filesize).written_bytes()),
        card_of(with_filesize(m, slot, filesize).written_bytes()) == with_filesize(
            m,
            slot,
            filesize,
        ).stamped(),
        card_of(with_filesize(m, slot, filesize).written_bytes()).info.dir_frames[slot].filesize
            == filesize,
        checksum_ok(
            card_of(
                with_filesize(m, slot, filesize).written_bytes(),
            ).info.dir_frames[slot].spec_bytes(),
        ),
{
    let e = with_filesize(m, slot, filesize);
    lemma_write_then_open_stamps(e);
    lemma_stamped_records(e.info.dir_frames);
}

impl MemCard {
    /// Parses a card image: the info block (every checksum checked), then fifteen save blocks.
    /// Bytes past the first 128 KiB are ignored.
    pub fn open(bytes: &[u8]) -> (r: Result<Self, MCError>)
        ensures
            r is Ok <==> card_readable(bytes@),
            r matches Ok(m) ==> m@.wf() && m@.spec_bytes() == bytes@.subrange(0, CARD_SIZE as int)
                && m@ == card_of(bytes@),
            r matches Err(e) ==> if bytes@.len() >= BLOCK && !frames_valid(bytes@, 0, 64) {
                e is BadChecksum
            } else {
                e is Truncated
            },
    {
        if bytes.len() < BLOCK {
            return Err(MCError::Truncated);
        }
        let block0 = Block { data: take_array(bytes, 0) };
        proof {
            assert forall|k: int| 0 <= k < 64 implies #[trigger] checksum_ok(frame_at(block0.data@, k))
                == checksum_ok(frame_at(bytes@, k)) by {
                assert(frame_at(block0.data@, k) =~= frame_at(bytes@, k));
            }
            if frames_valid(block0.data@, 0, 64) {
                assert forall|k: int| 0 <= k < 64 implies #[trigger] checksum_ok(frame_at(bytes@, k)) by {
                    assert(checksum_ok(frame_at(block0.data@, k)));
                }
            }
            if frames_valid(bytes@, 0, 64) {
                assert forall|k: int| 0 <= k < 64 implies #[trigger] checksum_ok(frame_at(block0.data@, k)) by {
                    assert(checksum_ok(frame_at(bytes@, k)));
                }
            }
        }
        let info = match InfoBlock::open(block0) {
            Ok(info) => info,
            Err(e) => return Err(e),
        };
        if bytes.len() < CARD_SIZE {
            return Err(MCError::Truncated);
        }
        let mut blocks: Vec<Block> = Vec::new();
        let mut i: usize = 1;
        while i < 16
            invariant
                1 <= i <= 16,
                bytes@.len() >= CARD_SIZE,
                blocks@.len() == i - 1,
                forall|j: int| 0 <= j < i - 1 ==> #[trigger] blocks@[j].data@ == block_at(bytes@, j + 1),
            decreases 16 - i,
        {
            blocks.push(Block { data: take_array(bytes, BLOCK * i) });
            i = i + 1;
        }
        let data = DataBlock::load_all_data_blocks(blocks.as_slice());
        let card = MemCard { info, data };
        proof {
            let m = card@;
            assert forall|k: int| 0 <= k < m.data.len() implies (#[trigger] m.data[k]).wf() by {
                assert(m.data[k] == card.data@[k]@);
            }
            lemma_blocks_bytes(m.data);
            lemma_info_len(m.info);
            assert(blocks_bytes(m.data) =~= bytes@.subrange(8192, CARD_SIZE as int)) by {
                assert forall|x: int| 0 <= x < 8192 * 15 implies #[trigger] blocks_bytes(m.data)[x]
                    == bytes@[8192 + x] by {
                    let k = x / 8192;
                    assert(block_at(blocks_bytes(m.data), k) == m.data[k].spec_bytes());
                    assert(m.data[k] == card.data@[k]@);
                    assert(block_at(blocks_bytes(m.data), k)[x - 8192 * k] == blocks_bytes(
                        m.data,
                    )[x]);
                    assert(block_at(bytes@, k + 1)[x - 8192 * k] == bytes@[8192 + x]);
                }
            }
            assert(m.spec_bytes() =~= bytes@.subrange(0, CARD_SIZE as int));
            lemma_card_of(m);
            assert(m.spec_bytes().subrange(0, CARD_SIZE as int) =~= bytes@.subrange(0, CARD_SIZE as int));
        }
        Ok(card)
    }

    /// Serializes the card: the info block with every checksum recomputed, then each save
    /// block in slot order.
    pub fn write(&self) -> (r: Vec<u8>)
        ensures
            r@ == self@.written_bytes(),
    {
        let mut out: Vec<u8> = Vec::new();
        self.info.write(&mut out);
        let ghost head = out@;
        let mut i: usize = 0;
        while i < self.data.len()
            invariant
                i <= self.data@.len(),
                head == self.info@.written_bytes(),
                out@ == head + blocks_bytes(self@.data.subrange(0, i as int)),
            decreases self.data@.len() - i,
        {
            self.data[i].write(&mut out);
            assert(self@.data.subrange(0, i + 1).drop_last() =~= self@.data.subrange(0, i as int));
            i = i + 1;
            assert(out@ =~= head + blocks_bytes(self@.data.subrange(0, i as int)));
        }
        assert(self@.data.subrange(0, self.data@.len() as int) =~= self@.data);
        out
    }
}

} // verus!
