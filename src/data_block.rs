//! Save blocks: a title frame, as many icon frames as the title's display byte announces, and
//! the save payload filling the rest of the block.
use vstd::prelude::*;

use crate::frames::{Block, Frame, TitleFrame};
use crate::record::{records_bytes, write_all, Record};
use crate::{BLOCK, FRAME};

verus! {

/// DataBlock
///
/// A `DataBlock` is a `Block` that is a game save block.
#[derive(Debug, PartialEq, Eq)]
pub struct DataBlock {
    /// The frame that contains the Title information.
    pub title_frame: TitleFrame,
    /// The frame(s) that contain the Icon information. This is the static or animated
    /// image that is displayed when viewing the memory card management. There can be
    /// 1 to 3 frames per save file.
    pub icon_frames: Vec<Frame>,
    /// The actual save data is stored here.
    pub data_frames: Vec<Frame>,
}

/// The contents of a `DataBlock`, with its frame lists as sequences.
pub struct DataBlockModel {
    pub title_frame: TitleFrame,
    pub icon_frames: Seq<Frame>,
    pub data_frames: Seq<Frame>,
}

impl View for DataBlock {
    type V = DataBlockModel;

    open spec fn view(&self) -> DataBlockModel {
        DataBlockModel {
            title_frame: self.title_frame,
            icon_frames: self.icon_frames@,
            data_frames: self.data_frames@,
        }
    }
}

/// Number of icon frames that a title's display byte announces: its two low bits.
pub open spec fn icon_count(display: u8) -> nat {
    (display & 0x03) as nat
}

impl DataBlockModel {
    /// The frame counts follow the layout: as many icon frames as the display byte announces,
    /// and payload frames for the rest of the 64.
    pub open spec fn wf(self) -> bool {
        &&& self.icon_frames.len() == icon_count(self.title_frame.display)
        &&& self.data_frames.len() + self.icon_frames.len() == 63
    }

    /// The block's bytes: title frame, icon frames, payload frames.
    pub open spec fn spec_bytes(self) -> Seq<u8> {
        self.title_frame.spec_bytes() + records_bytes(self.icon_frames) + records_bytes(
            self.data_frames,
        )
    }
}

/// The icon count is the display byte modulo 4, so at most 3.
pub proof fn lemma_icon_count(display: u8)
    ensures
        icon_count(display) <= 3,
        icon_count(display) == display % 4,
{
    assert(display & 0x03 <= 3 && display & 0x03 == display % 4) by (bit_vector);
}

/// Reads `n` consecutive frames, without checksum, from the start of `input`.
fn read_n_frames(input: &[u8], n: usize) -> (v: Vec<Frame>)
    requires
        128 * n <= input@.len(),
    ensures
        v@.len() == n,
        records_bytes(v@) == input@.subrange(0, 128 * n),
{
    let mut out: Vec<Frame> = Vec::new();
    let len = input.len();
    let mut k: usize = 0;
    while k < n
        invariant
            k <= n,
            128 * n <= input@.len(),
            len == input@.len(),
            out@.len() == k,
            records_bytes(out@) == input@.subrange(0, 128 * k),
        decreases n - k,
    {
        let f = Frame::from_bytes(&input[FRAME * k..FRAME * k + FRAME]);
        let ghost before = out@;
        out.push(f);
        assert(out@.drop_last() =~= before);
        assert(records_bytes(out@) =~= input@.subrange(0, 128 * (k + 1)));
        k = k + 1;
    }
    out
}

impl DataBlock {
    /// Parse a raw `Block` into a `DataBlock`.
    pub fn load_data_block(b: Block) -> (r: DataBlock)
        ensures
            r@.wf(),
            r@.spec_bytes() == b.data@,
    {
        let title_frame = TitleFrame::from_bytes(b.data.as_slice());
        let num_icons = (title_frame.display & 0x03) as usize;
        proof {
            lemma_icon_count(title_frame.display);
        }
        let icon_frames = read_n_frames(&b.data.as_slice()[FRAME..BLOCK], num_icons);
        let next = FRAME + FRAME * icon_frames.len();
        let num_data = (BLOCK - next) / FRAME;
        let data_frames = read_n_frames(&b.data.as_slice()[next..BLOCK], num_data);
        let r = DataBlock { title_frame, icon_frames, data_frames };
        assert(r@.spec_bytes() =~= b.data@);
        r
    }

    /// Parse all `Block`s into `DataBlock`s.
    pub fn load_all_data_blocks(v: &[Block]) -> (r: Vec<DataBlock>)
        ensures
            r@.len() == v@.len(),
            forall|i: int|
                0 <= i < v@.len() ==> (#[trigger] r@[i])@.wf() && r@[i]@.spec_bytes()
                    == v@[i].data@,
    {
        let mut out: Vec<DataBlock> = Vec::new();
        let mut i: usize = 0;
        while i < v.len()
            invariant
                i <= v@.len(),
                out@.len() == i,
                forall|j: int|
                    0 <= j < i ==> (#[trigger] out@[j])@.wf() && out@[j]@.spec_bytes()
                        == v@[j].data@,
            decreases v@.len() - i,
        {
            out.push(DataBlock::load_data_block(v[i]));
            i = i + 1;
        }
        out
    }

    /// Appends the block's bytes to `out`: title frame, icon frames, payload frames.
    pub fn write(&self, out: &mut Vec<u8>)
        ensures
            final(out)@ == old(out)@ + self@.spec_bytes(),
    {
        self.title_frame.write_bytes(out);
        write_all(&self.icon_frames, out);
        write_all(&self.data_frames, out);
        assert(out@ =~= old(out)@ + self@.spec_bytes());
    }
}

} // verus!
