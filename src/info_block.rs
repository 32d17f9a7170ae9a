//! The first block of the card: identification header, directory, bad-frame table, unused
//! frames and the write-test frame. Every one of its 64 frames carries a checksum.
use vstd::prelude::*;

use crate::checksum::{checksum_ok, stamp, validate_checksum};
use crate::error::MCError;
use crate::frames::{Block, BrokenFrame, DirectoryFrame, Frame, Header};
use crate::record::{
    frame_at, frames_valid, lemma_records_bytes, records_bytes, records_valid, stamped_bytes,
    stamped_records, write_all_stamped, write_stamped, CheckedRecord, Record,
};
use crate::{BLOCK, FRAME};

verus! {

/// InfoBlock
///
/// The `InfoBlock` is the first block in the memory card and contains the directory info
/// for the locations of all the data / save file blocks, as well as any broken frame info.
#[derive(Clone, Debug, PartialEq, Eq)]
pub struct InfoBlock {
    /// The header info that identifies this as PSX/PS1 memory card data.
    pub header: Header,
    /// The directory `Frame`s that detail the save file info and `Block` locations. There are
    /// 15 `dir_frames`.
    pub dir_frames: Vec<DirectoryFrame>,
    /// The broken frames identify bad `Frame`s in the memory card. There are 20 `broken_frames`.
    pub broken_frames: Vec<BrokenFrame>,
    /// The 27 frames between the bad-frame table and the write-test frame.
    pub unused_frames: Vec<Frame>,
    /// The write-test frame that closes the block.
    pub wr_test_frame: Header,
}

/// The contents of an `InfoBlock`, with its frame lists as sequences.
pub struct InfoBlockModel {
    pub header: Header,
    pub dir_frames: Seq<DirectoryFrame>,
    pub broken_frames: Seq<BrokenFrame>,
    pub unused_frames: Seq<Frame>,
    pub wr_test_frame: Header,
}

impl View for InfoBlock {
    type V = InfoBlockModel;

    open spec fn view(&self) -> InfoBlockModel {
        InfoBlockModel {
            header: self.header,
            dir_frames: self.dir_frames@,
            broken_frames: self.broken_frames@,
            unused_frames: self.unused_frames@,
            wr_test_frame: self.wr_test_frame,
        }
    }
}

impl InfoBlockModel {
    /// 15 directory frames, 20 bad-frame entries and 27 unused frames: with the two headers,
    /// 64 frames.
    pub open spec fn wf_shape(self) -> bool {
        &&& self.dir_frames.len() == 15
        &&& self.broken_frames.len() == 20
        &&& self.unused_frames.len() == 27
    }

    /// Every frame of the block carries a matching checksum.
    pub open spec fn checksums_ok(self) -> bool {
        &&& checksum_ok(self.header.spec_bytes())
        &&& records_valid(self.dir_frames)
        &&& records_valid(self.broken_frames)
        &&& records_valid(self.unused_frames)
        &&& checksum_ok(self.wr_test_frame.spec_bytes())
    }

    /// The block as it is read: the shape is right and every checksum matches.
    pub open spec fn wf(self) -> bool {
        self.wf_shape() && self.checksums_ok()
    }

    /// The frames' bytes, in order, as they stand.
    pub open spec fn spec_bytes(self) -> Seq<u8> {
        self.header.spec_bytes() + records_bytes(self.dir_frames) + records_bytes(
            self.broken_frames,
        ) + records_bytes(self.unused_frames) + self.wr_test_frame.spec_bytes()
    }

    /// The frames' bytes, in order, each with its checksum recomputed.
    pub open spec fn written_bytes(self) -> Seq<u8> {
        stamp(self.header.spec_bytes()) + stamped_bytes(self.dir_frames) + stamped_bytes(
            self.broken_frames,
        ) + stamped_bytes(self.unused_frames) + stamp(self.wr_test_frame.spec_bytes())
    }

    /// The same block with every checksum recomputed.
    pub open spec fn stamped(self) -> InfoBlockModel {
        InfoBlockModel {
            header: self.header.spec_stamped(),
            dir_frames: stamped_records(self.dir_frames),
            broken_frames: stamped_records(self.broken_frames),
            unused_frames: stamped_records(self.unused_frames),
            wr_test_frame: self.wr_test_frame.spec_stamped(),
        }
    }
}

/// Frames `m .. m + n` of `s` are the frames of the slice of `s` that starts at frame `m`.
proof fn lemma_frames_of_suffix(s: Seq<u8>, m: int, n: int)
    requires
        0 <= m,
        0 <= n,
        128 * (m + n) <= s.len(),
    ensures
        frames_valid(s.subrange(128 * m, s.len() as int), 0, n) == frames_valid(s, m, n),
        s.subrange(128 * m, s.len() as int).subrange(0, 128 * n) == s.subrange(
            128 * m,
            128 * (m + n),
        ),
{
    let t = s.subrange(128 * m, s.len() as int);
    assert forall|k: int| 0 <= k < n implies #[trigger] frame_at(t, k) == frame_at(s, m + k) by {
        assert(frame_at(t, k) =~= frame_at(s, m + k));
    }
    assert(frames_valid(t, 0, n) == frames_valid(s, m, n)) by {
        if frames_valid(t, 0, n) {
            assert forall|k: int| m <= k < m + n implies #[trigger] checksum_ok(frame_at(s, k)) by {
                assert(frame_at(t, k - m) == frame_at(s, k));
            }
        }
        if frames_valid(s, m, n) {
            assert forall|k: int| 0 <= k < n implies #[trigger] checksum_ok(frame_at(t, k)) by {
                assert(frame_at(t, k) == frame_at(s, m + k));
            }
        }
    }
    assert(t.subrange(0, 128 * n) =~= s.subrange(128 * m, 128 * (m + n)));
}

/// Records read from checked frames all validate.
proof fn lemma_records_valid_from<R: Record>(v: Seq<R>, s: Seq<u8>, m: int)
    requires
        0 <= m,
        128 * (m + v.len()) <= s.len(),
        records_bytes(v) == s.subrange(128 * m, 128 * (m + v.len())),
        frames_valid(s, m, v.len() as int),
    ensures
        records_valid(v),
{
    lemma_records_bytes(v);
    assert forall|i: int| 0 <= i < v.len() implies #[trigger] checksum_ok(v[i].spec_bytes()) by {
        assert(frame_at(records_bytes(v), i) =~= frame_at(s, m + i));
        assert(checksum_ok(frame_at(s, m + i)));
    }
}

impl InfoBlock {
    /// Open and parse the first block of the memory card. Every frame's checksum is checked;
    /// any mismatch rejects the whole block.
    pub fn open(b: Block) -> (r: Result<Self, MCError>)
        ensures
            r is Ok <==> frames_valid(b.data@, 0, 64),
            r matches Ok(ib) ==> ib@.wf() && ib@.spec_bytes() == b.data@,
            r matches Err(e) ==> e is BadChecksum,
    {
        let data = b.data.as_slice();
        let ghost s = b.data@;
        assert(frame_at(s, 0) =~= data@.subrange(0, 128));
        if let Err(e) = validate_checksum(&data[0..FRAME]) {
            return Err(e);
        }
        let header = Header::from_bytes(data);

        proof {
            lemma_frames_of_suffix(s, 1, 15);
        }
        let dir_frames = match DirectoryFrame::load(&data[FRAME..BLOCK], 15) {
            Ok(v) => v,
            Err(e) => return Err(e),
        };

        let mut offset = (dir_frames.len() * FRAME) + FRAME;
        proof {
            lemma_frames_of_suffix(s, 16, 20);
        }
        let broken_frames = match BrokenFrame::load(&data[offset..BLOCK], 20) {
            Ok(v) => v,
            Err(e) => return Err(e),
        };

        offset = offset + broken_frames.len() * FRAME;
        proof {
            lemma_frames_of_suffix(s, 36, 27);
        }
        let unused_frames = match Frame::load(&data[offset..BLOCK], 27) {
            Ok(v) => v,
            Err(e) => return Err(e),
        };

        offset = offset + unused_frames.len() * FRAME;
        assert(frame_at(s, 63) =~= data@.subrange(offset as int, BLOCK as int));
        if let Err(e) = validate_checksum(&data[offset..BLOCK]) {
            return Err(e);
        }
        let wr_test_frame = Header::from_bytes(&data[offset..BLOCK]);

        let ib = InfoBlock { header, dir_frames, broken_frames, unused_frames, wr_test_frame };
        proof {
            assert(frames_valid(s, 0, 64)) by {
                assert forall|k: int| 0 <= k < 64 implies #[trigger] checksum_ok(frame_at(s, k)) by {
                    if 1 <= k < 16 {
                        assert(frames_valid(s, 1, 15));
                    } else if 16 <= k < 36 {
                        assert(frames_valid(s, 16, 20));
                    } else if 36 <= k < 63 {
                        assert(frames_valid(s, 36, 27));
                    }
                }
            }
            assert(header.spec_bytes() == frame_at(s, 0));
            assert(wr_test_frame.spec_bytes() =~= frame_at(s, 63));
            assert(records_bytes(ib.dir_frames@) == s.subrange(128, 2048));
            assert(records_bytes(ib.broken_frames@) == s.subrange(2048, 4608));
            assert(records_bytes(ib.unused_frames@) == s.subrange(4608, 8064));
            lemma_records_valid_from(ib.dir_frames@, s, 1);
            lemma_records_valid_from(ib.broken_frames@, s, 16);
            lemma_records_valid_from(ib.unused_frames@, s, 36);
            assert(ib@.spec_bytes() =~= s);
        }
        Ok(ib)
    }

    /// Write the contents of the `InfoBlock` to `out`, recomputing every frame's checksum.
    pub fn write(&self, out: &mut Vec<u8>)
        ensures
            final(out)@ == old(out)@ + self@.written_bytes(),
    {
        write_stamped(&self.header, out);
        write_all_stamped(&self.dir_frames, out);
        write_all_stamped(&self.broken_frames, out);
        write_all_stamped(&self.unused_frames, out);
        write_stamped(&self.wr_test_frame, out);
        assert(out@ =~= old(out)@ + self@.written_bytes());
    }
}

} // verus!
