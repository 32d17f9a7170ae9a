//! The fixed-layout records: one 128-byte frame each (and the 8 KiB block that holds 64).
use vstd::bytes::*;
use vstd::prelude::*;

use crate::checksum::{checksum_of, stamp};
use crate::record::{append_bytes, take_array, CheckedRecord, Record};
use crate::FRAME;

verus! {

/// The identification header that opens the card, and the write-test frame that closes the
/// first block: a two-byte id, padding and a checksum.
#[derive(Clone, Copy, Debug, PartialEq, Eq)]
pub struct Header {
    pub id: [u8; 2],
    pub pad: [u8; 125],
    pub checksum: u8,
}

/// One slot of the card's directory: allocation state, save size, link to the next block of
/// the save, and the save's file name.
#[derive(Clone, Copy, Debug, PartialEq, Eq)]
pub struct DirectoryFrame {
    pub state: u32,
    pub filesize: u32,
    pub next_block: u16,
    pub filename: [u8; 21],
    pub pad: [u8; 96],
    pub checksum: u8,
}

/// One entry of the bad-frame table.
#[derive(Clone, Copy, Debug, PartialEq, Eq)]
pub struct BrokenFrame {
    pub broken_frame: u32,
    pub pad: [u8; 123],
    pub checksum: u8,
}

/// Frame
///
/// A `Frame` is 128 bytes of data. Typically the final byte of data is a checksum, but several
/// `Frame` types do not follow that convention.
#[derive(Clone, Copy, Debug, PartialEq, Eq)]
pub struct Frame {
    /// The data contained in the `Frame`.
    pub data: [u8; 128],
}

/// Block
///
/// A `Block` is 8KB of data, or 64 `Frame`s.
#[derive(Clone, Copy, Debug, PartialEq, Eq)]
pub struct Block {
    /// The data contained in the `Block`.
    pub data: [u8; 8192],
}

/// TitleFrame
///
/// The `TitleFrame` contains the Title of the game save file, as well as other info on
/// how many frames are in the image, as well as block number and the icon palette.
#[derive(Clone, Copy, Debug, PartialEq, Eq)]
pub struct TitleFrame {
    pub id: [u8; 2],
    pub display: u8,
    pub block_num: u8,
    pub title: [u8; 64],
    pub reserved: [u8; 28],
    pub icon_palette: [u16; 16],
}

/// Little-endian encoding of the palette entries, two bytes each, in order.
pub open spec fn palette_bytes(p: Seq<u16>) -> Seq<u8>
    decreases p.len(),
{
    if p.len() == 0 {
        Seq::empty()
    } else {
        palette_bytes(p.drop_last()) + spec_u16_to_le_bytes(p.last())
    }
}

proof fn lemma_palette_bytes(p: Seq<u16>, q: Seq<u16>)
    ensures
        palette_bytes(p).len() == 2 * p.len(),
        p.len() == q.len() && palette_bytes(p) == palette_bytes(q) ==> p == q,
    decreases p.len(),
{
    lemma_auto_spec_u16_to_from_le_bytes();
    if p.len() > 0 {
        lemma_palette_bytes(p.drop_last(), q.drop_last());
        if p.len() == q.len() && palette_bytes(p) == palette_bytes(q) {
            let n = 2 * p.len() - 2;
            assert(palette_bytes(p).subrange(0, n) =~= palette_bytes(p.drop_last()));
            assert(palette_bytes(q).subrange(0, n) =~= palette_bytes(q.drop_last()));
            assert(palette_bytes(p).subrange(n, n + 2) =~= spec_u16_to_le_bytes(p.last()));
            assert(palette_bytes(q).subrange(n, n + 2) =~= spec_u16_to_le_bytes(q.last()));
            assert(p =~= p.drop_last().push(p.last()));
            assert(q =~= q.drop_last().push(q.last()));
        }
    }
}

/// Two bytes of `s` at `at`, little-endian.
fn read_u16(s: &[u8], at: usize) -> (v: u16)
    requires
        at + 2 <= s@.len(),
    ensures
        spec_u16_to_le_bytes(v) == s@.subrange(at as int, at + 2),
{
    assert(s@.len() == s.len());
    let v = u16_from_le_bytes(&s[at..at + 2]);
    proof {
        lemma_auto_spec_u16_to_from_le_bytes();
    }
    v
}

/// Four bytes of `s` at `at`, little-endian.
fn read_u32(s: &[u8], at: usize) -> (v: u32)
    requires
        at + 4 <= s@.len(),
    ensures
        spec_u32_to_le_bytes(v) == s@.subrange(at as int, at + 4),
{
    assert(s@.len() == s.len());
    let v = u32_from_le_bytes(&s[at..at + 4]);
    proof {
        lemma_auto_spec_u32_to_from_le_bytes();
    }
    v
}

impl Record for Header {
    open spec fn spec_bytes(&self) -> Seq<u8> {
        self.id@ + self.pad@ + seq![self.checksum]
    }

    proof fn lemma_bytes(&self, other: &Self) {
        let (a, b) = (self.spec_bytes(), other.spec_bytes());
        if a == b {
            assert(self.id@ =~= a.subrange(0, 2));
            assert(other.id@ =~= b.subrange(0, 2));
            assert(self.pad@ =~= a.subrange(2, 127));
            assert(other.pad@ =~= b.subrange(2, 127));
            assert(self.id =~= other.id);
            assert(self.pad =~= other.pad);
            assert(a[127] == self.checksum);
        }
    }

    fn from_bytes(s: &[u8]) -> (r: Self) {
        let r = Header { id: take_array(s, 0), pad: take_array(s, 2), checksum: s[127] };
        assert(r.spec_bytes() =~= s@.subrange(0, 128));
        r
    }

    fn write_bytes(&self, out: &mut Vec<u8>) {
        append_bytes(out, self.id.as_slice());
        append_bytes(out, self.pad.as_slice());
        out.push(self.checksum);
        assert(out@ =~= old(out)@ + self.spec_bytes());
    }
}

impl CheckedRecord for Header {
    open spec fn spec_stamped(&self) -> Self {
        Header { checksum: checksum_of(self.spec_bytes()), ..*self }
    }

    proof fn lemma_stamped(&self) {
        assert(self.spec_stamped().spec_bytes() =~= stamp(self.spec_bytes()));
    }
}

impl Record for DirectoryFrame {
    open spec fn spec_bytes(&self) -> Seq<u8> {
        spec_u32_to_le_bytes(self.state) + spec_u32_to_le_bytes(self.filesize)
            + spec_u16_to_le_bytes(self.next_block) + self.filename@ + self.pad@ + seq![
            self.checksum,
        ]
    }

    proof fn lemma_bytes(&self, other: &Self) {
        lemma_auto_spec_u32_to_from_le_bytes();
        lemma_auto_spec_u16_to_from_le_bytes();
        let (a, b) = (self.spec_bytes(), other.spec_bytes());
        if a == b {
            assert(spec_u32_to_le_bytes(self.state) =~= a.subrange(0, 4));
            assert(spec_u32_to_le_bytes(other.state) =~= b.subrange(0, 4));
            assert(spec_u32_to_le_bytes(self.filesize) =~= a.subrange(4, 8));
            assert(spec_u32_to_le_bytes(other.filesize) =~= b.subrange(4, 8));
            assert(spec_u16_to_le_bytes(self.next_block) =~= a.subrange(8, 10));
            assert(spec_u16_to_le_bytes(other.next_block) =~= b.subrange(8, 10));
            assert(self.filename@ =~= a.subrange(10, 31));
            assert(other.filename@ =~= b.subrange(10, 31));
            assert(self.pad@ =~= a.subrange(31, 127));
            assert(other.pad@ =~= b.subrange(31, 127));
            assert(self.filename =~= other.filename);
            assert(self.pad =~= other.pad);
            assert(a[127] == self.checksum);
        }
    }

    fn from_bytes(s: &[u8]) -> (r: Self) {
        let r = DirectoryFrame {
            state: read_u32(s, 0),
            filesize: read_u32(s, 4),
            next_block: read_u16(s, 8),
            filename: take_array(s, 10),
            pad: take_array(s, 31),
            checksum: s[127],
        };
        assert(r.spec_bytes() =~= s@.subrange(0, 128));
        r
    }

    fn write_bytes(&self, out: &mut Vec<u8>) {
        append_bytes(out, u32_to_le_bytes(self.state).as_slice());
        append_bytes(out, u32_to_le_bytes(self.filesize).as_slice());
        append_bytes(out, u16_to_le_bytes(self.next_block).as_slice());
        append_bytes(out, self.filename.as_slice());
        append_bytes(out, self.pad.as_slice());
        out.push(self.checksum);
        assert(out@ =~= old(out)@ + self.spec_bytes());
    }
}

impl CheckedRecord for DirectoryFrame {
    open spec fn spec_stamped(&self) -> Self {
        DirectoryFrame { checksum: checksum_of(self.spec_bytes()), ..*self }
    }

    proof fn lemma_stamped(&self) {
        lemma_auto_spec_u32_to_from_le_bytes();
        lemma_auto_spec_u16_to_from_le_bytes();
        assert(self.spec_stamped().spec_bytes() =~= stamp(self.spec_bytes()));
    }
}

impl Record for BrokenFrame {
    open spec fn spec_bytes(&self) -> Seq<u8> {
        spec_u32_to_le_bytes(self.broken_frame) + self.pad@ + seq![self.checksum]
    }

    proof fn lemma_bytes(&self, other: &Self) {
        lemma_auto_spec_u32_to_from_le_bytes();
        let (a, b) = (self.spec_bytes(), other.spec_bytes());
        if a == b {
            assert(spec_u32_to_le_bytes(self.broken_frame) =~= a.subrange(0, 4));
            assert(spec_u32_to_le_bytes(other.broken_frame) =~= b.subrange(0, 4));
            assert(self.pad@ =~= a.subrange(4, 127));
            assert(other.pad@ =~= b.subrange(4, 127));
            assert(self.pad =~= other.pad);
            assert(a[127] == self.checksum);
        }
    }

    fn from_bytes(s: &[u8]) -> (r: Self) {
        let r = BrokenFrame { broken_frame: read_u32(s, 0), pad: take_array(s, 4), checksum: s[127] };
        assert(r.spec_bytes() =~= s@.subrange(0, 128));
        r
    }

    fn write_bytes(&self, out: &mut Vec<u8>) {
        append_bytes(out, u32_to_le_bytes(self.broken_frame).as_slice());
        append_bytes(out, self.pad.as_slice());
        out.push(self.checksum);
        assert(out@ =~= old(out)@ + self.spec_bytes());
    }
}

impl CheckedRecord for BrokenFrame {
    open spec fn spec_stamped(&self) -> Self {
        BrokenFrame { checksum: checksum_of(self.spec_bytes()), ..*self }
    }

    proof fn lemma_stamped(&self) {
        lemma_auto_spec_u32_to_from_le_bytes();
        assert(self.spec_stamped().spec_bytes() =~= stamp(self.spec_bytes()));
    }
}

impl Record for Frame {
    open spec fn spec_bytes(&self) -> Seq<u8> {
        self.data@
    }

    proof fn lemma_bytes(&self, other: &Self) {
        if self.data@ == other.data@ {
            assert(self.data =~= other.data);
        }
    }

    fn from_bytes(s: &[u8]) -> (r: Self) {
        Frame { data: take_array(s, 0) }
    }

    fn write_bytes(&self, out: &mut Vec<u8>) {
        append_bytes(out, self.data.as_slice());
    }
}

impl CheckedRecord for Frame {
    open spec fn spec_stamped(&self) -> Self {
        Frame { data: vstd::array::spec_array_update(self.data, 127, checksum_of(self.data@)) }
    }

    proof fn lemma_stamped(&self) {
    }
}

impl Record for TitleFrame {
    open spec fn spec_bytes(&self) -> Seq<u8> {
        self.id@ + seq![self.display, self.block_num] + self.title@ + self.reserved@
            + palette_bytes(self.icon_palette@)
    }

    proof fn lemma_bytes(&self, other: &Self) {
        lemma_palette_bytes(self.icon_palette@, other.icon_palette@);
        lemma_palette_bytes(other.icon_palette@, self.icon_palette@);
        let (a, b) = (self.spec_bytes(), other.spec_bytes());
        if a == b {
            assert(self.id@ =~= a.subrange(0, 2));
            assert(other.id@ =~= b.subrange(0, 2));
            assert(self.title@ =~= a.subrange(4, 68));
            assert(other.title@ =~= b.subrange(4, 68));
            assert(self.reserved@ =~= a.subrange(68, 96));
            assert(other.reserved@ =~= b.subrange(68, 96));
            assert(palette_bytes(self.icon_palette@) =~= a.subrange(96, 128));
            assert(palette_bytes(other.icon_palette@) =~= b.subrange(96, 128));
            assert(self.id =~= other.id);
            assert(self.title =~= other.title);
            assert(self.reserved =~= other.reserved);
            assert(self.icon_palette =~= other.icon_palette);
            assert(a[2] == self.display && a[3] == self.block_num);
        }
    }

    fn from_bytes(s: &[u8]) -> (r: Self) {
        let mut icon_palette = [0u16; 16];
        let mut i: usize = 0;
        while i < 16
            invariant
                i <= 16,
                s@.len() >= FRAME,
                icon_palette@.len() == 16,
                palette_bytes(icon_palette@.subrange(0, i as int)) == s@.subrange(96, 96 + 2 * i),
            decreases 16 - i,
        {
            let v = read_u16(s, 96 + 2 * i);
            let ghost before = icon_palette@;
            icon_palette[i] = v;
            proof {
                assert(icon_palette@.subrange(0, i as int) =~= before.subrange(0, i as int));
                assert(icon_palette@.subrange(0, i + 1).drop_last() =~= icon_palette@.subrange(
                    0,
                    i as int,
                ));
                assert(s@.subrange(96, 96 + 2 * (i + 1)) =~= s@.subrange(96, 96 + 2 * i)
                    + s@.subrange(96 + 2 * i, 96 + 2 * i + 2));
            }
            i = i + 1;
        }
        let r = TitleFrame {
            id: take_array(s, 0),
            display: s[2],
            block_num: s[3],
            title: take_array(s, 4),
            reserved: take_array(s, 68),
            icon_palette,
        };
        assert(icon_palette@.subrange(0, 16) =~= icon_palette@);
        assert(r.spec_bytes() =~= s@.subrange(0, 128));
        r
    }

    fn write_bytes(&self, out: &mut Vec<u8>) {
        append_bytes(out, self.id.as_slice());
        out.push(self.display);
        out.push(self.block_num);
        append_bytes(out, self.title.as_slice());
        append_bytes(out, self.reserved.as_slice());
        let ghost head = out@;
        let mut i: usize = 0;
        while i < 16
            invariant
                i <= 16,
                out@ == head + palette_bytes(self.icon_palette@.subrange(0, i as int)),
            decreases 16 - i,
        {
            append_bytes(out, u16_to_le_bytes(self.icon_palette[i]).as_slice());
            proof {
                assert(self.icon_palette@.subrange(0, i + 1).drop_last() =~= self.icon_palette@.subrange(
                    0,
                    i as int,
                ));
            }
            i = i + 1;
        }
        assert(self.icon_palette@.subrange(0, 16) =~= self.icon_palette@);
        assert(out@ =~= old(out)@ + self.spec_bytes());
    }
}

} // verus!
