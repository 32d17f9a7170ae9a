//! Fixed-size 128-byte records and the byte plumbing shared by all of them.
use vstd::prelude::*;

use crate::checksum::{
    checksum_ok, lemma_stamp_validates, lemma_stamp_valid_is_identity, stamp, update_checksum,
    validate_checksum,
};
use crate::error::MCError;
use crate::FRAME;

verus! {

/// The `k`-th 128-byte frame of `s`.
pub open spec fn frame_at(s: Seq<u8>, k: int) -> Seq<u8> {
    s.subrange(128 * k, 128 * k + 128)
}

/// The first `n` frames of `s` all carry a matching checksum.
pub open spec fn frames_valid(s: Seq<u8>, from: int, n: int) -> bool {
    forall|k: int| from <= k < from + n ==> #[trigger] checksum_ok(frame_at(s, k))
}

/// A record that occupies exactly one frame, stored field by field.
pub trait Record: Sized + Copy {
    /// The 128 bytes that encode this record.
    spec fn spec_bytes(&self) -> Seq<u8>;

    /// Encodings are 128 bytes long and no two records share one.
    proof fn lemma_bytes(&self, other: &Self)
        ensures
            self.spec_bytes().len() == FRAME,
            self.spec_bytes() == other.spec_bytes() ==> *self == *other,
    ;

    /// Decodes the record held by the first 128 bytes of `s`.
    fn from_bytes(s: &[u8]) -> (r: Self)
        requires
            s@.len() >= FRAME,
        ensures
            r.spec_bytes() == s@.subrange(0, 128),
    ;

    /// Appends the record's encoding to `out`.
    fn write_bytes(&self, out: &mut Vec<u8>)
        ensures
            final(out)@ == old(out)@ + self.spec_bytes(),
    ;
}

/// A record whose last byte is a checksum over the rest.
pub trait CheckedRecord: Record {
    /// The same record with its checksum byte recomputed.
    spec fn spec_stamped(&self) -> Self;

    /// Stamping the record stamps its bytes.
    proof fn lemma_stamped(&self)
        ensures
            self.spec_stamped().spec_bytes() == stamp(self.spec_bytes()),
    ;
}

/// The records' encodings, one after another.
pub open spec fn records_bytes<R: Record>(s: Seq<R>) -> Seq<u8>
    decreases s.len(),
{
    if s.len() == 0 {
        Seq::empty()
    } else {
        records_bytes(s.drop_last()) + s.last().spec_bytes()
    }
}

/// The records' encodings, each with its checksum byte recomputed, one after another.
pub open spec fn stamped_bytes<R: Record>(s: Seq<R>) -> Seq<u8>
    decreases s.len(),
{
    if s.len() == 0 {
        Seq::empty()
    } else {
        stamped_bytes(s.drop_last()) + stamp(s.last().spec_bytes())
    }
}

/// Every record carries a matching checksum.
pub open spec fn records_valid<R: Record>(s: Seq<R>) -> bool {
    forall|i: int| 0 <= i < s.len() ==> #[trigger] checksum_ok(s[i].spec_bytes())
}

/// The records with their checksum bytes recomputed.
pub open spec fn stamped_records<R: CheckedRecord>(s: Seq<R>) -> Seq<R> {
    s.map_values(|r: R| r.spec_stamped())
}

/// The records' bytes are 128 per record, and frame `k` of them is record `k`.
pub proof fn lemma_records_bytes<R: Record>(s: Seq<R>)
    ensures
        records_bytes(s).len() == 128 * s.len(),
        forall|k: int|
            0 <= k < s.len() ==> #[trigger] frame_at(records_bytes(s), k) == s[k].spec_bytes(),
    decreases s.len(),
{
    if s.len() > 0 {
        let p = s.drop_last();
        lemma_records_bytes(p);
        s.last().lemma_bytes(&s.last());
        assert forall|k: int| 0 <= k < s.len() implies #[trigger] frame_at(records_bytes(s), k)
            == s[k].spec_bytes() by {
            if k < p.len() {
                assert(frame_at(records_bytes(s), k) =~= frame_at(records_bytes(p), k));
            } else {
                assert(frame_at(records_bytes(s), k) =~= s.last().spec_bytes());
            }
        }
    }
}

/// Sequences of records with the same bytes are the same.
pub proof fn lemma_records_bytes_injective<R: Record>(s: Seq<R>, t: Seq<R>)
    requires
        records_bytes(s) == records_bytes(t),
    ensures
        s == t,
{
    lemma_records_bytes(s);
    lemma_records_bytes(t);
    assert forall|k: int| 0 <= k < s.len() implies s[k] == t[k] by {
        assert(frame_at(records_bytes(s), k) == s[k].spec_bytes());
        assert(frame_at(records_bytes(t), k) == t[k].spec_bytes());
        s[k].lemma_bytes(&t[k]);
    }
    assert(s =~= t);
}

/// Stamping records that all validate changes none of their bytes.
pub proof fn lemma_stamped_bytes_valid<R: Record>(s: Seq<R>)
    requires
        records_valid(s),
    ensures
        stamped_bytes(s) == records_bytes(s),
    decreases s.len(),
{
    if s.len() > 0 {
        assert(records_valid(s.drop_last())) by {
            assert forall|i: int| 0 <= i < s.drop_last().len() implies #[trigger] checksum_ok(
                s.drop_last()[i].spec_bytes(),
            ) by {
                assert(s.drop_last()[i] == s[i]);
            }
        }
        lemma_stamped_bytes_valid(s.drop_last());
        s.last().lemma_bytes(&s.last());
        assert(checksum_ok(s[s.len() - 1].spec_bytes()));
        lemma_stamp_valid_is_identity(s.last().spec_bytes());
    }
}

/// The stamped bytes of records are the bytes of the stamped records, which all validate.
pub proof fn lemma_stamped_records<R: CheckedRecord>(s: Seq<R>)
    ensures
        stamped_bytes(s) == records_bytes(stamped_records(s)),
        records_valid(stamped_records(s)),
        stamped_records(s).len() == s.len(),
    decreases s.len(),
{
    let t = stamped_records(s);
    assert forall|i: int| 0 <= i < t.len() implies #[trigger] checksum_ok(t[i].spec_bytes()) by {
        s[i].lemma_stamped();
        s[i].lemma_bytes(&s[i]);
        lemma_stamp_validates(s[i].spec_bytes(), 0);
    }
    if s.len() > 0 {
        lemma_stamped_records(s.drop_last());
        assert(stamped_records(s.drop_last()) =~= t.drop_last());
        s.last().lemma_stamped();
    }
}

/// Bytes `from .. from + N` of `s`.
pub(crate) fn take_array<const N: usize>(s: &[u8], from: usize) -> (a: [u8; N])
    requires
        from + N <= s@.len(),
    ensures
        a@ == s@.subrange(from as int, from + N),
{
    let mut a = [0u8; N];
    let len = s.len();
    let mut i: usize = 0;
    while i < N
        invariant
            i <= N,
            from + N <= s@.len(),
            len == s@.len(),
            a@.len() == N,
            forall|j: int| 0 <= j < i ==> a@[j] == s@[from + j],
        decreases N - i,
    {
        a[i] = s[from + i];
        i = i + 1;
    }
    assert(a@ =~= s@.subrange(from as int, from + N));
    a
}

/// Appends all of `a` to `out`.
pub(crate) fn append_bytes(out: &mut Vec<u8>, a: &[u8])
    ensures
        final(out)@ == old(out)@ + a@,
{
    let mut i: usize = 0;
    while i < a.len()
        invariant
            i <= a@.len(),
            out@ == old(out)@ + a@.subrange(0, i as int),
        decreases a@.len() - i,
    {
        out.push(a[i]);
        i = i + 1;
        assert(out@ =~= old(out)@ + a@.subrange(0, i as int));
    }
    assert(a@.subrange(0, a@.len() as int) =~= a@);
}

/// Appends the encoding of `r` with its checksum recomputed.
pub(crate) fn write_stamped<R: Record>(r: &R, out: &mut Vec<u8>)
    ensures
        final(out)@ == old(out)@ + stamp(r.spec_bytes()),
{
    let mut buf: Vec<u8> = Vec::new();
    r.write_bytes(&mut buf);
    proof {
        r.lemma_bytes(r);
        assert(buf@ =~= r.spec_bytes());
    }
    update_checksum(buf.as_mut_slice());
    append_bytes(out, buf.as_slice());
}

/// Appends the encoding of every record, each with its checksum recomputed.
pub(crate) fn write_all_stamped<R: Record>(v: &Vec<R>, out: &mut Vec<u8>)
    ensures
        final(out)@ == old(out)@ + stamped_bytes(v@),
{
    let mut i: usize = 0;
    while i < v.len()
        invariant
            i <= v@.len(),
            out@ == old(out)@ + stamped_bytes(v@.subrange(0, i as int)),
        decreases v@.len() - i,
    {
        write_stamped(&v[i], out);
        assert(v@.subrange(0, i + 1).drop_last() =~= v@.subrange(0, i as int));
        i = i + 1;
        assert(out@ =~= old(out)@ + stamped_bytes(v@.subrange(0, i as int)));
    }
    assert(v@.subrange(0, v@.len() as int) =~= v@);
}

/// Appends the encoding of every record.
pub(crate) fn write_all<R: Record>(v: &Vec<R>, out: &mut Vec<u8>)
    ensures
        final(out)@ == old(out)@ + records_bytes(v@),
{
    let mut i: usize = 0;
    while i < v.len()
        invariant
            i <= v@.len(),
            out@ == old(out)@ + records_bytes(v@.subrange(0, i as int)),
        decreases v@.len() - i,
    {
        v[i].write_bytes(out);
        assert(v@.subrange(0, i + 1).drop_last() =~= v@.subrange(0, i as int));
        i = i + 1;
        assert(out@ =~= old(out)@ + records_bytes(v@.subrange(0, i as int)));
    }
    assert(v@.subrange(0, v@.len() as int) =~= v@);
}

/// How many of `n` frames wanted are wholly present in `len` bytes.
pub open spec fn whole_frames(len: int, n: int) -> int {
    if len / 128 < n {
        len / 128
    } else {
        n
    }
}

/// Reads `n` consecutive records from the start of `input`, checking each record's checksum
/// before decoding it. The first frame that is cut short or fails its checksum ends the read.
pub(crate) fn load_checked<R: Record>(input: &[u8], n: usize) -> (r: Result<Vec<R>, MCError>)
    ensures
        r is Ok <==> 128 * n <= input@.len() && frames_valid(input@, 0, n as int),
        r matches Ok(v) ==> v@.len() == n && records_bytes(v@) == input@.subrange(0, 128 * n),
        r matches Err(e) ==> if frames_valid(input@, 0, whole_frames(input@.len() as int, n as int)) {
            e is Truncated
        } else {
            e is BadChecksum
        },
{
    let mut out: Vec<R> = Vec::new();
    let len = input.len();
    let mut k: usize = 0;
    while k < n
        invariant
            k <= n,
            128 * k <= input@.len(),
            len == input@.len(),
            out@.len() == k,
            frames_valid(input@, 0, k as int),
            records_bytes(out@) == input@.subrange(0, 128 * k),
        decreases n - k,
    {
        if len - FRAME * k < FRAME {
            assert(whole_frames(len as int, n as int) == k);
            return Err(MCError::Truncated);
        }
        let frame = &input[FRAME * k..FRAME * k + FRAME];
        assert(frame@ == frame_at(input@, k as int));
        match validate_checksum(frame) {
            Ok(()) => {},
            Err(e) => {
                assert(k < whole_frames(len as int, n as int));
                return Err(e);
            },
        }
        let rec = R::from_bytes(frame);
        assert(frame@.subrange(0, 128) =~= frame@);
        let ghost before = out@;
        out.push(rec);
        assert(out@.drop_last() =~= before);
        assert(records_bytes(out@) =~= input@.subrange(0, 128 * (k + 1)));
        k = k + 1;
    }
    Ok(out)
}

} // verus!
