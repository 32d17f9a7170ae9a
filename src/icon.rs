//! Turning a 4-bit palette-indexed icon frame into RGBA pixels.
use vstd::prelude::*;

use crate::data_block::DataBlock;
use crate::error::MCError;
use crate::frames::Frame;

verus! {

/// The 5-bit colour channel of a palette entry that starts at bit `shift`, scaled to eight
/// bits by multiplying by 8.
pub open spec fn channel(pixel: u16, shift: u16) -> u8 {
    (((pixel >> shift) & 0x1f) * 8) as u8
}

/// The RGBA pixel of a palette entry: red in bits 0-4, green in 5-9, blue in 10-14, and
/// always fully opaque.
pub open spec fn pixel_rgba(pixel: u16) -> Seq<u8> {
    seq![channel(pixel, 0), channel(pixel, 5), channel(pixel, 10), 255u8]
}

/// The RGBA pixels of the icon bytes `data`: each byte gives two pixels, its low nibble first,
/// each nibble indexing `palette`.
pub open spec fn icon_rgba(palette: Seq<u16>, data: Seq<u8>) -> Seq<u8>
    decreases data.len(),
{
    if data.len() == 0 {
        Seq::empty()
    } else {
        icon_rgba(palette, data.drop_last()) + pixel_rgba(palette[(data.last() & 0x0f) as int])
            + pixel_rgba(palette[((data.last() >> 4) & 0x0f) as int])
    }
}

proof fn lemma_icon_rgba_len(palette: Seq<u16>, data: Seq<u8>)
    ensures
        icon_rgba(palette, data).len() == 8 * data.len(),
    decreases data.len(),
{
    if data.len() > 0 {
        lemma_icon_rgba_len(palette, data.drop_last());
    }
}

/// The PNG file that png's encoder makes of an RGBA image with 8 bits per channel.
pub uninterp spec fn png_rgba8_of(width: u32, height: u32, pixels: Seq<u8>) -> Seq<u8>;

/// The GIF file that gif's encoder makes of RGBA frames shown in turn and repeated forever.
pub uninterp spec fn gif_looping_rgba_of(width: u16, height: u16, frames: Seq<Seq<u8>>) -> Seq<
    u8,
>;

/// Relies on png's `Encoder` and `Writer` (0.17): an RGBA image of 8 bits per channel,
/// encoded into memory; the bytes depend on the arguments alone. The encoder refuses only a
/// zero width or height and a buffer of the wrong size; writing into a `Vec` does not fail.
#[verifier::external_body]
fn encode_png_rgba8(width: u32, height: u32, pixels: &[u8]) -> (r: Result<Vec<u8>, png::EncodingError>)
    ensures
        r matches Ok(v) ==> v@ == png_rgba8_of(width, height, pixels@),
        width > 0 && height > 0 && pixels@.len() == 4 * width * height ==> r is Ok,
{
    let mut out: Vec<u8> = Vec::new();
    let mut enc = png::Encoder::new(&mut out, width, height);
    enc.set_color(png::ColorType::Rgba);
    enc.set_depth(png::BitDepth::Eight);
    let mut writer = enc.write_header()?;
    writer.write_image_data(pixels)?;
    writer.finish()?;
    Ok(out)
}

/// Relies on gif's `Encoder` and `Frame::from_rgba` (0.13): the RGBA frames, in order, as an
/// animation that repeats forever, encoded into memory; the bytes depend on the arguments
/// alone. `Frame::from_rgba` panics unless a frame holds `width * height` pixels; it always
/// gives the frame a palette of at most 256 colours, so the encoder, writing into a `Vec`, does
/// not fail.
#[verifier::external_body]
fn encode_gif_looping_rgba(width: u16, height: u16, frames: &Vec<Vec<u8>>) -> (r: Result<
    Vec<u8>,
    gif::EncodingError,
>)
    requires
        forall|i: int| 0 <= i < frames@.len() ==> #[trigger] frames@[i]@.len() == width * height * 4,
    ensures
        r is Ok,
        r matches Ok(v) ==> v@ == gif_looping_rgba_of(
            width,
            height,
            frames@.map_values(|f: Vec<u8>| f@),
        ),
{
    let mut enc = gif::Encoder::new(Vec::new(), width, height, &[])?;
    enc.set_repeat(gif::Repeat::Infinite)?;
    for f in frames.iter() {
        let mut pixels = f.clone();
        enc.write_frame(&gif::Frame::from_rgba(width, height, &mut pixels))?;
    }
    Ok(enc.into_inner()?)
}

/// The encoded icon images of a save block.
#[derive(Debug)]
pub struct IconImages {
    /// One 16x16 PNG per icon frame, in order.
    pub frames_png: Vec<Vec<u8>>,
    /// A looping 16x16 GIF of all icon frames, when there is more than one.
    pub animation_gif: Option<Vec<u8>>,
}

/// The RGBA images of a block's icon frames, in order.
pub open spec fn icon_images(palette: Seq<u16>, icons: Seq<Frame>) -> Seq<Seq<u8>> {
    icons.map_values(|f: Frame| icon_rgba(palette, f.data@))
}

/// Pushes the RGBA bytes of one palette entry.
fn push_pixel(out: &mut Vec<u8>, pixel: u16)
    ensures
        final(out)@ == old(out)@ + pixel_rgba(pixel),
{
    assert(pixel >> 0u16 == pixel && pixel & 0x1f < 32 && (pixel >> 5) & 0x1f < 32 && (pixel
        >> 10) & 0x1f < 32) by (bit_vector);
    out.push((pixel & 0x1f) as u8 * 8);
    out.push(((pixel >> 5) & 0x1f) as u8 * 8);
    out.push(((pixel >> 10) & 0x1f) as u8 * 8);
    out.push(255);
    assert(out@ =~= old(out)@ + pixel_rgba(pixel));
}

impl DataBlock {
    /// The 16x16 RGBA image of an icon frame, coloured with this block's palette: 256 pixels
    /// of four bytes each.
    pub fn translate_bmp_to_rgba(&self, f: &Frame) -> (r: Vec<u8>)
        ensures
            r@ == icon_rgba(self.title_frame.icon_palette@, f.data@),
            r@.len() == 1024,
    {
        let palette = &self.title_frame.icon_palette;
        let mut rgba: Vec<u8> = Vec::new();
        let mut i: usize = 0;
        while i < 128
            invariant
                i <= 128,
                palette@.len() == 16,
                *palette == self.title_frame.icon_palette,
                rgba@ == icon_rgba(palette@, f.data@.subrange(0, i as int)),
            decreases 128 - i,
        {
            let v = f.data[i];
            assert(v & 0x0f < 16 && (v >> 4) & 0x0f < 16) by (bit_vector);
            push_pixel(&mut rgba, palette[(v & 0x0f) as usize]);
            push_pixel(&mut rgba, palette[((v >> 4) & 0x0f) as usize]);
            assert(f.data@.subrange(0, i + 1).drop_last() =~= f.data@.subrange(0, i as int));
            i = i + 1;
        }
        assert(f.data@.subrange(0, 128) =~= f.data@);
        proof {
            lemma_icon_rgba_len(palette@, f.data@);
        }
        rgba
    }

    /// The RGBA images of all icon frames, in order.
    fn icon_rgba_frames(&self) -> (r: Vec<Vec<u8>>)
        ensures
            r@.map_values(|f: Vec<u8>| f@) == icon_images(
                self.title_frame.icon_palette@,
                self.icon_frames@,
            ),
            forall|i: int| 0 <= i < r@.len() ==> #[trigger] r@[i]@.len() == 1024,
    {
        let mut out: Vec<Vec<u8>> = Vec::new();
        let mut i: usize = 0;
        while i < self.icon_frames.len()
            invariant
                i <= self.icon_frames@.len(),
                out@.len() == i,
                forall|j: int|
                    0 <= j < i ==> #[trigger] out@[j]@ == icon_rgba(
                        self.title_frame.icon_palette@,
                        self.icon_frames@[j].data@,
                    ),
                forall|j: int| 0 <= j < i ==> #[trigger] out@[j]@.len() == 1024,
            decreases self.icon_frames@.len() - i,
        {
            out.push(self.translate_bmp_to_rgba(&self.icon_frames[i]));
            i = i + 1;
        }
        assert(out@.map_values(|f: Vec<u8>| f@) =~= icon_images(
            self.title_frame.icon_palette@,
            self.icon_frames@,
        ));
        out
    }

    /// The icon frames as one looping 16x16 GIF animation.
    fn export_gif(&self) -> (r: Result<Vec<u8>, MCError>)
        ensures
            r is Ok,
            r matches Ok(v) ==> v@ == gif_looping_rgba_of(
                16,
                16,
                icon_images(self.title_frame.icon_palette@, self.icon_frames@),
            ),
    {
        let frames = self.icon_rgba_frames();
        match encode_gif_looping_rgba(16, 16, &frames) {
            Ok(v) => Ok(v),
            Err(e) => Err(MCError::GifEncodingError(e)),
        }
    }

    /// Encodes every icon frame as a 16x16 PNG and, when there is more than one icon frame,
    /// all of them as a looping GIF as well.
    pub fn export_all_images(&self) -> (r: Result<IconImages, MCError>)
        ensures
            r is Ok,
            r matches Ok(imgs) ==> {
                let images = icon_images(self.title_frame.icon_palette@, self.icon_frames@);
                &&& imgs.frames_png@.len() == self.icon_frames@.len()
                &&& forall|i: int|
                    0 <= i < imgs.frames_png@.len() ==> #[trigger] imgs.frames_png@[i]@
                        == png_rgba8_of(16, 16, images[i])
                &&& (imgs.animation_gif is Some <==> self.icon_frames@.len() > 1)
                &&& imgs.animation_gif matches Some(g) ==> g@ == gif_looping_rgba_of(16, 16, images)
            },
    {
        let frames = self.icon_rgba_frames();
        let ghost images = icon_images(self.title_frame.icon_palette@, self.icon_frames@);
        assert(frames@.len() == images.len()) by {
            assert(frames@.map_values(|f: Vec<u8>| f@).len() == frames@.len());
        }
        let mut pngs: Vec<Vec<u8>> = Vec::new();
        let mut i: usize = 0;
        while i < frames.len()
            invariant
                i <= frames@.len(),
                frames@.len() == images.len(),
                frames@.map_values(|f: Vec<u8>| f@) == images,
                forall|j: int| 0 <= j < frames@.len() ==> #[trigger] frames@[j]@.len() == 1024,
                pngs@.len() == i,
                forall|j: int| 0 <= j < i ==> #[trigger] pngs@[j]@ == png_rgba8_of(16, 16, images[j]),
            decreases frames@.len() - i,
        {
            let png = match encode_png_rgba8(16, 16, frames[i].as_slice()) {
                Ok(v) => v,
                Err(e) => return Err(MCError::PngEncodingError(e)),
            };
            assert(images[i as int] == frames@[i as int]@);
            pngs.push(png);
            i = i + 1;
        }
        let animation_gif = if self.icon_frames.len() > 1 {
            match self.export_gif() {
                Ok(g) => Some(g),
                Err(e) => return Err(e),
            }
        } else {
            None
        };
        Ok(IconImages { frames_png: pngs, animation_gif })
    }
}

} // verus!
