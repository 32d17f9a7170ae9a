//! Decoding of the double-byte title text of a save: the space, the digits and the latin
//! letters are recognised; every other pair of bytes is skipped.
use vstd::prelude::*;

use crate::frames::TitleFrame;

verus! {

/// Relies on `String::push`: appends one character at the end of the string.
pub assume_specification[ String::push ](s: &mut String, ch: char)
    ensures
        final(s)@ == old(s)@.push(ch),
;

/// How many frames the save's icon animation announces.
#[derive(Clone, Copy, Debug, PartialEq, Eq)]
pub enum IconDisplay {
    OneFrame,
    TwoFrames,
    ThreeFrames,
    UNKNOWNFrames,
}

/// The icon display that a title's display byte stands for.
pub open spec fn icon_display_of(display: u8) -> IconDisplay {
    if display == 0x11 {
        IconDisplay::OneFrame
    } else if display == 0x12 {
        IconDisplay::TwoFrames
    } else if display == 0x13 {
        IconDisplay::ThreeFrames
    } else {
        IconDisplay::UNKNOWNFrames
    }
}

/// The text one pair of title bytes stands for: a space, a digit, an upper-case or a
/// lower-case letter, or nothing.
pub open spec fn pair_text(lead: u8, trail: u8) -> Seq<char> {
    if lead == 0x81 && trail == 0x40 {
        seq![' ']
    } else if lead == 0x82 && ((0x4f <= trail <= 0x58) || (0x60 <= trail <= 0x79)) {
        seq![((trail - 0x1f) as u8) as char]
    } else if lead == 0x82 && 0x81 <= trail <= 0x9a {
        seq![((trail - 0x20) as u8) as char]
    } else {
        Seq::empty()
    }
}

/// The text of the title bytes `t` from position `p` on: pairs are read until a zero lead byte
/// or the end of the field.
pub open spec fn title_text_from(t: Seq<u8>, p: int) -> Seq<char>
    decreases t.len() - p,
{
    if p < 0 || p + 1 >= t.len() || t[p] == 0 {
        Seq::empty()
    } else {
        pair_text(t[p], t[p + 1]) + title_text_from(t, p + 2)
    }
}

/// The decoded text of a title field.
pub open spec fn title_text(t: Seq<u8>) -> Seq<char> {
    title_text_from(t, 0)
}

impl TitleFrame {
    /// The icon display announced by the display byte.
    pub fn get_icon_display(&self) -> (r: IconDisplay)
        ensures
            r == icon_display_of(self.display),
    {
        match self.display {
            0x11 => IconDisplay::OneFrame,
            0x12 => IconDisplay::TwoFrames,
            0x13 => IconDisplay::ThreeFrames,
            _ => IconDisplay::UNKNOWNFrames,
        }
    }

    /// The decoded title, one character per element.
    pub fn title_chars(&self) -> (r: Vec<char>)
        ensures
            r@ == title_text(self.title@),
    {
        let mut out: Vec<char> = Vec::new();
        let mut p: usize = 0;
        let ghost t = self.title@;
        while p + 1 < 64 && self.title[p] != 0
            invariant
                p % 2 == 0,
                p <= 64,
                t == self.title@,
                t.len() == 64,
                title_text(t) == out@ + title_text_from(t, p as int),
            decreases 64 - p,
        {
            let lead = self.title[p];
            let trail = self.title[p + 1];
            let ghost before = out@;
            if lead == 0x81 {
                if trail == 0x40 {
                    out.push(' ');
                }
            } else if lead == 0x82 {
                if (trail >= 0x4f && trail <= 0x58) || (trail >= 0x60 && trail <= 0x79) {
                    out.push((trail - 0x1f) as char);
                } else if trail >= 0x81 && trail <= 0x9a {
                    out.push((trail - 0x20) as char);
                }
            }
            assert(out@ =~= before + pair_text(lead, trail));
            assert(title_text(t) =~= out@ + title_text_from(t, p + 2));
            p = p + 2;
        }
        out
    }

    /// Decodes the title into text: spaces, digits and latin letters are kept, other
    /// double-byte characters are dropped, and a zero lead byte ends the text.
    pub fn decode_title(self) -> (r: String)
        ensures
            r@ == title_text(self.title@),
    {
        let chars = self.title_chars();
        let mut s = String::new();
        let mut i: usize = 0;
        while i < chars.len()
            invariant
                i <= chars@.len(),
                s@ == chars@.subrange(0, i as int),
            decreases chars@.len() - i,
        {
            s.push(chars[i]);
            i = i + 1;
            assert(s@ =~= chars@.subrange(0, i as int));
        }
        assert(chars@.subrange(0, chars@.len() as int) =~= chars@);
        s
    }
}

} // verus!
