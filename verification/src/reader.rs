//! Bounds-checked extraction of fields from raw kernel telemetry.

use crate::encoding::{
    decode_lossy, in_native_order, law_u32_round_trip, little_bytes_u32, lossy_text, native_u32,
    u32_from_ne_bytes,
};
use crate::text::chars_of;
use vstd::prelude::*;
use vstd::slice::slice_subrange;
use vstd::utf8::{
    decode_utf8, decode_utf8_encode_utf8, encode_scalar, encode_utf8, encode_utf8_decode_utf8,
    encode_utf8_valid_utf8, is_ascii_chars, is_ascii_chars_encode_utf8, valid_utf8,
};

verus! {

/// Whether a character may appear in a log line as it is: graphic ASCII, or a space.
pub open spec fn is_printable(c: char) -> bool {
    ' ' <= c <= '~'
}

/// `s` with each character that is not printable replaced by a question mark.
pub open spec fn sanitized(s: Seq<char>) -> Seq<char> {
    s.map_values(|c: char| if is_printable(c) { c } else { '?' })
}

/// How many bytes shorter the UTF-8 encoding of `s` gets when `s` is sanitized.
pub open spec fn bytes_lost(s: Seq<char>) -> nat {
    (encode_utf8(s).len() - encode_utf8(sanitized(s)).len()) as nat
}

/// How many bytes precede the first NUL; all of them when there is none.
pub open spec fn nul_index(bytes: Seq<u8>) -> nat
    decreases bytes.len(),
{
    if bytes.len() == 0 || bytes[0] == 0 {
        0
    } else {
        1 + nul_index(bytes.drop_first())
    }
}

/// The C string that a fixed-size field holds, before sanitizing.
pub open spec fn raw_field(bytes: Seq<u8>) -> Seq<char> {
    lossy_text(bytes.take(nul_index(bytes) as int))
}

/// The text that a fixed-size field of a kernel record yields.
pub open spec fn field_text(bytes: Seq<u8>) -> Seq<char> {
    sanitized(raw_field(bytes))
}

/// The field of `len` bytes at offset `at` of a record, as text.
pub open spec fn text_at(data: Seq<u8>, at: int, len: int) -> Seq<char> {
    field_text(data.subrange(at, at + len))
}

/// The native-order number at offset `at` of a record.
pub open spec fn u32_at(data: Seq<u8>, at: int) -> u32 {
    native_u32(data.subrange(at, at + 4))
}

/// The counts of lost bytes after one more field was read: only fields that got shorter leave one.
pub open spec fn with_mangled(counts: Seq<usize>, raw: Seq<char>) -> Seq<usize> {
    if bytes_lost(raw) > 0 {
        counts.push(bytes_lost(raw) as usize)
    } else {
        counts
    }
}

/// The message for a record that is shorter than its layout.
pub open spec fn undersized() -> Seq<char> {
    "Telemetry payload violates minimum size constraints."@
}

/// A cursor over one kernel record.
pub struct BpfReader<'a> {
    data: &'a [u8],
    offset: usize,
    mangled: Vec<usize>,
}

impl<'a> BpfReader<'a> {
    /// The whole record.
    pub closed spec fn record(&self) -> Seq<u8> {
        self.data@
    }

    /// How many bytes have been consumed.
    pub closed spec fn consumed(&self) -> nat {
        self.offset as nat
    }

    /// For each field read so far that sanitizing made shorter, how many bytes it lost.
    pub closed spec fn mangled_counts(&self) -> Seq<usize> {
        self.mangled@
    }

    /// The cursor never stands past the end of the record.
    pub open spec fn wf(&self) -> bool {
        self.consumed() <= self.record().len() <= usize::MAX
    }

    /// A cursor at the start of `data`.
    pub fn new(data: &'a [u8]) -> (r: Self)
        ensures
            r.wf(),
            r.record() == data@,
            r.consumed() == 0,
            r.mangled_counts() == Seq::<usize>::empty(),
    {
        let n: usize = data.len();
        BpfReader { data, offset: 0, mangled: Vec::new() }
    }

    /// The size of the whole record.
    pub fn record_len(&self) -> (r: usize)
        ensures
            r == self.record().len(),
    {
        self.data.len()
    }

    /// The position of the cursor.
    pub fn offset(&self) -> (r: usize)
        ensures
            r == self.consumed(),
    {
        self.offset
    }

    /// The counts of lost bytes, one for each field that got shorter, in the order of reading.
    pub fn into_mangled(self) -> (r: Vec<usize>)
        ensures
            r@ == self.mangled_counts(),
    {
        self.mangled
    }

    /// Extracts a 32-bit unsigned integer in native byte order.
    pub fn read_u32(&mut self) -> (r: Result<u32, &'static str>)
        requires
            old(self).wf(),
        ensures
            final(self).wf(),
            final(self).record() == old(self).record(),
            final(self).mangled_counts() == old(self).mangled_counts(),
            r is Ok <==> old(self).consumed() + 4 <= old(self).record().len(),
            r matches Ok(n) ==> {
                &&& n == u32_at(old(self).record(), old(self).consumed() as int)
                &&& final(self).consumed() == old(self).consumed() + 4
            },
            r matches Err(e) ==> {
                &&& e@ == "Buffer underrun: Failed to isolate u32 block."@
                &&& final(self).consumed() == old(self).consumed()
            },
    {
        if self.data.len() - self.offset < 4 {
            return Err("Buffer underrun: Failed to isolate u32 block.");
        }
        let at: usize = self.offset;
        let bytes: [u8; 4] = [
            self.data[at],
            self.data[at + 1],
            self.data[at + 2],
            self.data[at + 3],
        ];
        assert(bytes@ =~= self.data@.subrange(at as int, at + 4));
        self.offset = at + 4;
        Ok(u32_from_ne_bytes(bytes))
    }

    /// Extracts the NUL-terminated string held by the next `max_len` bytes, sanitized for logs.
    pub fn read_string(&mut self, max_len: usize) -> (r: Result<String, &'static str>)
        requires
            old(self).wf(),
        ensures
            final(self).wf(),
            final(self).record() == old(self).record(),
            r is Ok <==> old(self).consumed() + max_len <= old(self).record().len(),
            r matches Ok(s) ==> {
                let field = old(self).record().subrange(
                    old(self).consumed() as int,
                    old(self).consumed() + max_len,
                );
                &&& s@ == field_text(field)
                &&& s@.len() <= nul_index(field) <= max_len
                &&& final(self).consumed() == old(self).consumed() + max_len
                &&& final(self).mangled_counts() == with_mangled(
                    old(self).mangled_counts(),
                    raw_field(field),
                )
            },
            r matches Err(e) ==> {
                &&& e@ == "Buffer underrun: String boundary exceeds payload size."@
                &&& final(self).consumed() == old(self).consumed()
                &&& final(self).mangled_counts() == old(self).mangled_counts()
            },
    {
        if self.data.len() - self.offset < max_len {
            return Err("Buffer underrun: String boundary exceeds payload size.");
        }
        let field = slice_subrange(self.data, self.offset, self.offset + max_len);
        let end = nul_position(field);
        let raw = decode_lossy(slice_subrange(field, 0, end));
        assert(field@.subrange(0, end as int) =~= field@.take(end as int));
        self.offset = self.offset + max_len;
        let (clean, lost) = sanitize(raw.as_str());
        if lost > 0 {
            self.mangled.push(lost);
        }
        Ok(clean)
    }
}

/// The position of the first NUL, or the length.
fn nul_position(bytes: &[u8]) -> (r: usize)
    ensures
        r == nul_index(bytes@),
        r <= bytes@.len(),
{
    let mut i: usize = 0;
    assert(bytes@.skip(0) =~= bytes@);
    while i < bytes.len() && bytes[i] != 0
        invariant
            i <= bytes@.len(),
            i + nul_index(bytes@.skip(i as int)) == nul_index(bytes@),
        decreases bytes@.len() - i,
    {
        assert(bytes@.skip(i as int).drop_first() =~= bytes@.skip(i + 1));
        i = i + 1;
    }
    i
}

/// Replaces each character that is not printable, and counts the bytes that are lost by it.
pub fn sanitize(raw: &str) -> (r: (String, usize))
    ensures
        r.0@ == sanitized(raw@),
        r.1 == bytes_lost(raw@),
{
    let chars = chars_of(raw);
    let mut out = String::new();
    let mut i: usize = 0;
    while i < chars.len()
        invariant
            i <= chars@.len(),
            chars@ == raw@,
            out@ == sanitized(raw@.take(i as int)),
        decreases chars@.len() - i,
    {
        let c = chars[i];
        if ' ' <= c && c <= '~' {
            out.push(c);
        } else {
            out.push('?');
        }
        assert(out@ =~= sanitized(raw@.take(i + 1)));
        i = i + 1;
    }
    assert(raw@.take(i as int) =~= raw@);
    proof {
        lemma_sanitized_bytes(raw@);
    }
    let before: usize = raw.as_bytes().len();
    let after: usize = out.as_str().as_bytes().len();
    (out, before - after)
}

/// Sanitized text takes one byte for each character, and no more than before.
proof fn lemma_sanitized_bytes(s: Seq<char>)
    ensures
        encode_utf8(sanitized(s)).len() == s.len(),
        encode_utf8(s).len() >= s.len(),
{
    assert(is_ascii_chars(sanitized(s)));
    is_ascii_chars_encode_utf8(sanitized(s));
    lemma_encoded_len(s);
}

proof fn lemma_encoded_char(c: char)
    ensures
        '\0' <= c,
        encode_scalar(c as u32).len() >= 1,
        encode_scalar(c as u32).len() == 1 <==> c <= '\u{7f}',
{
}

proof fn lemma_encoded_len(s: Seq<char>)
    ensures
        encode_utf8(s).len() >= s.len(),
        encode_utf8(s).len() == s.len() <==> is_ascii_chars(s),
    decreases s.len(),
{
    if s.len() > 0 {
        let rest = s.drop_first();
        lemma_encoded_len(rest);
        lemma_encoded_char(s[0]);
        if is_ascii_chars(rest) && s[0] <= '\u{7f}' {
            assert forall|i: int| 0 <= i < s.len() implies '\0' <= #[trigger] s[i] <= '\u{7f}' by {
                if i > 0 {
                    assert(rest[i - 1] == s[i]);
                }
            }
        }
        if is_ascii_chars(s) {
            assert forall|i: int| 0 <= i < rest.len() implies '\0' <= #[trigger] rest[i]
                <= '\u{7f}' by {
                assert(rest[i] == s[i + 1]);
            }
        }
    }
}

/// Text that comes out of a kernel record holds printable characters only: no line break, no
/// terminal escape and no NUL padding can reach a log through it.
pub proof fn law_field_text_is_printable(bytes: Seq<u8>)
    ensures
        forall|i: int| 0 <= i < field_text(bytes).len() ==> is_printable(#[trigger] field_text(bytes)[i]),
{
}

/// Sanitizing keeps the number of characters, leaves printable text as it is, and loses nothing of
/// it.
pub proof fn law_printable_text_is_kept(s: Seq<char>)
    ensures
        sanitized(s).len() == s.len(),
        (forall|i: int| 0 <= i < s.len() ==> is_printable(#[trigger] s[i])) ==> sanitized(s) == s
            && bytes_lost(s) == 0,
{
    if forall|i: int| 0 <= i < s.len() ==> is_printable(#[trigger] s[i]) {
        assert(sanitized(s) =~= s);
    }
}

/// What is counted are the bytes beyond the first of each character: a text loses none exactly if
/// it is ASCII, also where some of its characters are replaced.
pub proof fn law_ascii_text_loses_no_bytes(s: Seq<char>)
    ensures
        bytes_lost(s) == encode_utf8(s).len() - s.len(),
        bytes_lost(s) == 0 <==> is_ascii_chars(s),
{
    lemma_sanitized_bytes(s);
    lemma_encoded_len(s);
}

/// A field whose bytes are well-formed text never yields more characters than it holds bytes before
/// its terminator.
pub proof fn law_field_text_is_no_longer_than_the_field(bytes: Seq<u8>)
    requires
        valid_utf8(bytes.take(nul_index(bytes) as int)),
    ensures
        field_text(bytes).len() <= nul_index(bytes) <= bytes.len(),
{
    lemma_nul_bound(bytes);
    let held = bytes.take(nul_index(bytes) as int);
    decode_utf8_encode_utf8(held);
    lemma_encoded_len(decode_utf8(held));
}

proof fn lemma_nul_bound(bytes: Seq<u8>)
    ensures
        nul_index(bytes) <= bytes.len(),
    decreases bytes.len(),
{
    if bytes.len() > 0 {
        lemma_nul_bound(bytes.drop_first());
    }
}

/// Sanitizing twice is the same as sanitizing once.
pub proof fn law_sanitizing_is_idempotent(s: Seq<char>)
    ensures
        sanitized(sanitized(s)) == sanitized(s),
{
    assert(sanitized(sanitized(s)) =~= sanitized(s));
}

proof fn lemma_nul_index(bytes: Seq<u8>, n: int)
    requires
        0 <= n <= bytes.len(),
        forall|i: int| 0 <= i < n ==> bytes[i] != 0,
        n < bytes.len() ==> bytes[n] == 0,
    ensures
        nul_index(bytes) == n,
    decreases bytes.len(),
{
    if n > 0 {
        lemma_nul_index(bytes.drop_first(), n - 1);
    }
}

/// Printable text that the kernel wrote into a field, NUL-terminated unless it fills the field,
/// is read back unchanged, whatever follows the terminator.
pub proof fn law_text_round_trip(s: Seq<char>, padding: Seq<u8>)
    requires
        forall|i: int| 0 <= i < s.len() ==> is_printable(#[trigger] s[i]),
        padding.len() > 0 ==> padding[0] == 0,
    ensures
        field_text(encode_utf8(s) + padding) == s,
{
    broadcast use {encode_utf8_valid_utf8, encode_utf8_decode_utf8};

    assert(is_ascii_chars(s));
    is_ascii_chars_encode_utf8(s);
    let bytes = encode_utf8(s) + padding;
    assert forall|i: int| 0 <= i < s.len() implies bytes[i] != 0 by {
        assert(is_printable(s[i]));
    }
    lemma_nul_index(bytes, s.len() as int);
    assert(bytes.take(s.len() as int) =~= encode_utf8(s));
    law_printable_text_is_kept(s);
}

/// Sanitizing goes character by character: what stands between the blank and the tilde stays, and
/// everything else becomes a question mark.
pub proof fn law_each_other_character_is_replaced(s: Seq<char>, i: int)
    requires
        0 <= i < s.len(),
    ensures
        sanitized(s).len() == s.len(),
        ' ' <= s[i] <= '~' ==> sanitized(s)[i] == s[i],
        !(' ' <= s[i] <= '~') ==> sanitized(s)[i] == '?',
{
}

/// The text of a field ends at its first NUL, or with the field; what stands behind does not matter.
pub proof fn law_field_ends_at_the_first_nul(bytes: Seq<u8>, n: int)
    requires
        0 <= n <= bytes.len(),
        forall|i: int| 0 <= i < n ==> bytes[i] != 0,
        n < bytes.len() ==> bytes[n] == 0,
    ensures
        raw_field(bytes) == lossy_text(bytes.take(n)),
        field_text(bytes) == sanitized(lossy_text(bytes.take(n))),
{
    lemma_nul_index(bytes, n);
}

/// A number that the kernel wrote into a record is read back at its offset, whatever stands around
/// it.
pub proof fn law_number_round_trip(before: Seq<u8>, n: u32, after: Seq<u8>)
    ensures
        u32_at(
            before + in_native_order(little_bytes_u32(n)) + after,
            before.len() as int,
        ) == n,
{
    law_u32_round_trip(n);
    let little = little_bytes_u32(n);
    let data = before + in_native_order(little) + after;
    assert(data.subrange(before.len() as int, before.len() as int + 4) =~= in_native_order(little));
}

/// Printable text that the kernel wrote into a field of a record is read back at its offset, whatever
/// stands around the field.
pub proof fn law_text_round_trip_in_a_record(
    before: Seq<u8>,
    s: Seq<char>,
    padding: Seq<u8>,
    after: Seq<u8>,
)
    requires
        forall|i: int| 0 <= i < s.len() ==> ' ' <= #[trigger] s[i] <= '~',
        padding.len() > 0 ==> padding[0] == 0,
    ensures
        text_at(
            before + (encode_utf8(s) + padding) + after,
            before.len() as int,
            (encode_utf8(s) + padding).len() as int,
        ) == s,
{
    assert forall|i: int| 0 <= i < s.len() implies is_printable(#[trigger] s[i]) by {}
    law_text_round_trip(s, padding);
    let field = encode_utf8(s) + padding;
    assert((before + field + after).subrange(before.len() as int, before.len() as int + field.len())
        =~= field);
}

/// A field leaves a count behind exactly if its text is not ASCII: the number of bytes by which its
/// encoding is longer than its text.
pub proof fn law_only_longer_encodings_are_counted(counts: Seq<usize>, raw: Seq<char>)
    requires
        encode_utf8(raw).len() <= usize::MAX,
    ensures
        is_ascii_chars(raw) ==> with_mangled(counts, raw) == counts,
        !is_ascii_chars(raw) ==> with_mangled(counts, raw) == counts.push(
            (encode_utf8(raw).len() - raw.len()) as usize,
        ),
{
    law_ascii_text_loses_no_bytes(raw);
}

} // verus!
