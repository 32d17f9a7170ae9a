//! Case-insensitive title search over the save blocks of a card.
use vstd::prelude::*;
use vstd::string::StrSliceExecFns;

use crate::data_block::{DataBlock, DataBlockModel};
use crate::frames::{Frame, TitleFrame};
use crate::memcard::MemCard;
use crate::title::title_text;

verus! {

/// ASCII lower case of one character; every other character is kept.
pub open spec fn ascii_lower(c: char) -> char {
    if 'A' <= c <= 'Z' {
        ((c as u32) + 32) as char
    } else {
        c
    }
}

/// ASCII lower case of a text.
pub open spec fn lower(s: Seq<char>) -> Seq<char> {
    s.map_values(|c: char| ascii_lower(c))
}

/// `needle` occurs in `hay` as a contiguous run (the empty text occurs everywhere).
pub open spec fn occurs_in(needle: Seq<char>, hay: Seq<char>) -> bool {
    exists|i: int| 0 <= i <= hay.len() - needle.len() && #[trigger] hay.subrange(i, i + needle.len()) == needle
}

/// The decoded title of `t` contains `needle`, ignoring ASCII case.
pub open spec fn title_matches(t: TitleFrame, needle: Seq<char>) -> bool {
    occurs_in(lower(needle), lower(title_text(t.title@)))
}

/// The blocks, in order, whose titles contain `needle`, ignoring ASCII case.
pub open spec fn matching_blocks(s: Seq<DataBlockModel>, needle: Seq<char>) -> Seq<DataBlockModel> {
    s.filter(|d: DataBlockModel| title_matches(d.title_frame, needle))
}

/// The search ignores ASCII case: two search terms that agree once lower-cased match the same
/// titles.
pub proof fn lemma_search_ignores_case(t: TitleFrame, a: Seq<char>, b: Seq<char>)
    requires
        lower(a) == lower(b),
    ensures
        title_matches(t, a) == title_matches(t, b),
{
}

fn lowercase_chars(s: &Vec<char>) -> (r: Vec<char>)
    ensures
        r@ == lower(s@),
{
    let mut out: Vec<char> = Vec::new();
    let mut i: usize = 0;
    while i < s.len()
        invariant
            i <= s@.len(),
            out@ == lower(s@.subrange(0, i as int)),
        decreases s@.len() - i,
    {
        let c = s[i];
        let l = if c >= 'A' && c <= 'Z' {
            ((c as u8) + 32) as char
        } else {
            c
        };
        out.push(l);
        i = i + 1;
        assert(out@ =~= lower(s@.subrange(0, i as int)));
    }
    assert(s@.subrange(0, s@.len() as int) =~= s@);
    out
}

/// Whether `needle` occurs at position `at` of `hay`.
fn occurs_at(needle: &Vec<char>, hay: &Vec<char>, at: usize) -> (r: bool)
    requires
        at + needle@.len() <= hay@.len(),
    ensures
        r == (hay@.subrange(at as int, at + needle@.len()) == needle@),
{
    let hay_len = hay.len();
    let mut j: usize = 0;
    while j < needle.len()
        invariant
            j <= needle@.len(),
            at + needle@.len() <= hay@.len(),
            hay_len == hay@.len(),
            forall|k: int| 0 <= k < j ==> hay@[at + k] == needle@[k],
        decreases needle@.len() - j,
    {
        if hay[at + j] != needle[j] {
            assert(hay@.subrange(at as int, at + needle@.len())[j as int] != needle@[j as int]);
            return false;
        }
        j = j + 1;
    }
    assert(hay@.subrange(at as int, at + needle@.len()) =~= needle@);
    true
}

fn contains_chars(hay: &Vec<char>, needle: &Vec<char>) -> (r: bool)
    ensures
        r == occurs_in(needle@, hay@),
{
    if needle.len() > hay.len() {
        return false;
    }
    let last = hay.len() - needle.len();
    let mut i: usize = 0;
    while i <= last
        invariant
            last == hay@.len() - needle@.len(),
            forall|k: int| 0 <= k < i ==> #[trigger] hay@.subrange(k, k + needle@.len()) != needle@,
        decreases last + 1 - i,
    {
        if occurs_at(needle, hay, i) {
            return true;
        }
        if i == last {
            return false;
        }
        i = i + 1;
    }
    false
}

fn str_chars(s: &str) -> (r: Vec<char>)
    ensures
        r@ == s@,
{
    let n = s.unicode_len();
    let mut out: Vec<char> = Vec::new();
    let mut i: usize = 0;
    while i < n
        invariant
            i <= n,
            n == s@.len(),
            out@ == s@.subrange(0, i as int),
        decreases n - i,
    {
        out.push(s.get_char(i));
        i = i + 1;
        assert(out@ =~= s@.subrange(0, i as int));
    }
    assert(s@.subrange(0, n as int) =~= s@);
    out
}

fn copy_frames(v: &Vec<Frame>) -> (r: Vec<Frame>)
    ensures
        r@ == v@,
{
    let mut out: Vec<Frame> = Vec::new();
    let mut i: usize = 0;
    while i < v.len()
        invariant
            i <= v@.len(),
            out@ == v@.subrange(0, i as int),
        decreases v@.len() - i,
    {
        out.push(v[i]);
        i = i + 1;
        assert(out@ =~= v@.subrange(0, i as int));
    }
    assert(v@.subrange(0, v@.len() as int) =~= v@);
    out
}

impl Clone for DataBlock {
    fn clone(&self) -> (r: Self)
        ensures
            r@ == self@,
    {
        DataBlock {
            title_frame: self.title_frame,
            icon_frames: copy_frames(&self.icon_frames),
            data_frames: copy_frames(&self.data_frames),
        }
    }
}

impl MemCard {
    /// Search for a game save block that matches the `search` term. The search is case
    /// insensitive.
    pub fn find_game(&self, search: &str) -> (r: Vec<DataBlock>)
        ensures
            r@.map_values(|d: DataBlock| d@) == matching_blocks(self@.data, search@),
    {
        let needle = lowercase_chars(&str_chars(search));
        let mut found: Vec<DataBlock> = Vec::new();
        let mut i: usize = 0;
        while i < self.data.len()
            invariant
                i <= self.data@.len(),
                needle@ == lower(search@),
                found@.map_values(|d: DataBlock| d@) == matching_blocks(
                    self@.data.subrange(0, i as int),
                    search@,
                ),
            decreases self.data@.len() - i,
        {
            let hay = lowercase_chars(&self.data[i].title_frame.title_chars());
            let ghost before = found@;
            if contains_chars(&hay, &needle) {
                found.push(self.data[i].clone());
            }
            proof {
                reveal(Seq::filter);
                let s = self@.data.subrange(0, i + 1);
                assert(s.drop_last() =~= self@.data.subrange(0, i as int));
                assert(s.last() == self.data@[i as int]@);
                assert(found@.map_values(|d: DataBlock| d@) =~= matching_blocks(s, search@));
            }
            i = i + 1;
        }
        assert(self@.data.subrange(0, self.data@.len() as int) =~= self@.data);
        found
    }
}

} // verus!
