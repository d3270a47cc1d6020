//! Incremental decoder for the kernel's directory-change event stream.
//!
//! The stream is a packed sequence of records.  Each record is a fixed
//! 16-byte little-endian header `{ watch_id: i32, mask: u32, cookie: u32,
//! name_len: u32 }` immediately followed by `name_len` bytes holding a
//! null-padded file name.  Records arrive back to back; a read may deliver
//! several complete records, or end in the middle of one, whose bytes must be
//! kept for the next read.
//!
//! A decode attempt ([`next_match`]) strips complete leading records from the
//! buffer one by one, consuming each whole record whether or not its name
//! matches, until it either surfaces the first matching name or runs out of
//! complete records.  It never reads past the buffer and never consumes a
//! partial trailing record.

use vstd::prelude::*;
use vstd::slice::slice_subrange;
use vstd::string::StringExecFns;
use vstd::utf8::decode_utf8;
use vstd::utf8::valid_utf8;

verus! {

/// Number of bytes in a record header.
pub const HEADER_LEN: usize = 16;

/// The unsigned value of the four little-endian bytes of `b` starting at `off`.
pub open spec fn le32_at(b: Seq<u8>, off: int) -> nat
    recommends
        0 <= off,
        off + 4 <= b.len(),
{
    (b[off] + 256 * b[off + 1] + 65536 * b[off + 2] + 16777216 * b[off + 3]) as nat
}

/// The two's-complement reading of an unsigned 32-bit value.
pub open spec fn signed32(n: nat) -> int
    recommends
        n < 0x1_0000_0000,
{
    if n < 0x8000_0000 {
        n as int
    } else {
        n - 0x1_0000_0000
    }
}

/// Index of the first null byte of `s`, or `s.len()` when `s` has none.
pub open spec fn first_null(s: Seq<u8>) -> int
    decreases s.len(),
{
    if s.len() == 0 {
        0
    } else if s[0] == 0 {
        0
    } else {
        1 + first_null(s.drop_first())
    }
}

/// The bytes of `s` that precede its first null byte: the kernel pads names
/// with trailing nulls, which are no part of the file name.
pub open spec fn null_trim(s: Seq<u8>) -> Seq<u8> {
    s.take(first_null(s))
}

/// Declared length of the name field of the record at the front of `b`.
pub open spec fn rec_name_len(b: Seq<u8>) -> nat
    recommends
        b.len() >= 16,
{
    le32_at(b, 12)
}

/// Full length of the record at the front of `b`: header plus name field.
pub open spec fn rec_len(b: Seq<u8>) -> nat
    recommends
        b.len() >= 16,
{
    16 + rec_name_len(b)
}

/// True when `b` starts with one complete record: a full header whose
/// declared name field lies entirely within `b`.
pub open spec fn has_complete_record(b: Seq<u8>) -> bool {
    b.len() >= 16 && b.len() >= rec_len(b)
}

/// File name carried by the complete record at the front of `b`.
pub open spec fn rec_name(b: Seq<u8>) -> Seq<u8>
    recommends
        has_complete_record(b),
{
    null_trim(b.subrange(16, rec_len(b) as int))
}

/// Name surfaced by one decode attempt on `b`: the name of the first
/// complete leading record that starts with `prefix`, if the records before
/// it are all complete and none of them matches.
pub open spec fn decode_result(b: Seq<u8>, prefix: Seq<u8>) -> Option<Seq<u8>>
    decreases b.len(),
{
    if !has_complete_record(b) {
        None
    } else if prefix.is_prefix_of(rec_name(b)) {
        Some(rec_name(b))
    } else {
        decode_result(b.skip(rec_len(b) as int), prefix)
    }
}

/// Buffer left behind by one decode attempt on `b`: everything up to and
/// including the first matching record is consumed; with no match, every
/// complete leading record is consumed and a partial tail stays.
pub open spec fn decode_rest(b: Seq<u8>, prefix: Seq<u8>) -> Seq<u8>
    decreases b.len(),
{
    if !has_complete_record(b) {
        b
    } else if prefix.is_prefix_of(rec_name(b)) {
        b.skip(rec_len(b) as int)
    } else {
        decode_rest(b.skip(rec_len(b) as int), prefix)
    }
}

/// The whole records, in order, that one decode attempt on `b` consumes.
pub open spec fn consumed_records(b: Seq<u8>, prefix: Seq<u8>) -> Seq<Seq<u8>>
    decreases b.len(),
{
    if !has_complete_record(b) {
        Seq::empty()
    } else if prefix.is_prefix_of(rec_name(b)) {
        seq![b.take(rec_len(b) as int)]
    } else {
        seq![b.take(rec_len(b) as int)] + consumed_records(b.skip(rec_len(b) as int), prefix)
    }
}

/// Total byte length of a sequence of records.
pub open spec fn total_len(records: Seq<Seq<u8>>) -> nat
    decreases records.len(),
{
    if records.len() == 0 {
        0
    } else {
        records[0].len() + total_len(records.drop_first())
    }
}

/// One decoded record header.
#[derive(Clone, Copy, Debug)]
pub struct EventHeader {
    /// Kernel identifier of the watch that produced the record.
    pub watch_id: i32,
    /// Bit mask describing the change.
    pub mask: u32,
    /// Cookie correlating related records.
    pub cookie: u32,
    /// Number of name bytes that follow the header, padding included.
    pub name_len: u32,
}

/// Reads the unsigned little-endian 32-bit field of `b` at `off`.
fn read_le32(b: &[u8], off: usize) -> (r: u32)
    requires
        off + 4 <= b@.len(),
    ensures
        r as nat == le32_at(b@, off as int),
{
    let b0 = b[off] as u32;
    let b1 = b[off + 1] as u32;
    let b2 = b[off + 2] as u32;
    let b3 = b[off + 3] as u32;
    b0 + 256 * b1 + 65536 * b2 + 16777216 * b3
}

/// Reinterprets an unsigned 32-bit value as its two's-complement reading.
fn decode_i32(n: u32) -> (r: i32)
    ensures
        r as int == signed32(n as nat),
{
    if n < 0x8000_0000 {
        n as i32
    } else {
        let k: i32 = (n - 0x8000_0000) as i32;
        (k - 0x7fff_ffff) - 1
    }
}

/// Deserializes the four header fields from the first 16 bytes of `b`,
/// field by field; no byte beyond the header is read.
pub fn parse_header(b: &[u8]) -> (h: EventHeader)
    requires
        b@.len() >= 16,
    ensures
        h.watch_id as int == signed32(le32_at(b@, 0)),
        h.mask as nat == le32_at(b@, 4),
        h.cookie as nat == le32_at(b@, 8),
        h.name_len as nat == le32_at(b@, 12),
{
    EventHeader {
        watch_id: decode_i32(read_le32(b, 0)),
        mask: read_le32(b, 4),
        cookie: read_le32(b, 8),
        name_len: read_le32(b, 12),
    }
}

proof fn lemma_first_null_bounds(s: Seq<u8>)
    ensures
        0 <= first_null(s) <= s.len(),
    decreases s.len(),
{
    if s.len() != 0 && s[0] != 0 {
        lemma_first_null_bounds(s.drop_first());
    }
}

proof fn lemma_first_null_characterize(s: Seq<u8>, j: int)
    requires
        0 <= j <= s.len(),
        forall|k: int| 0 <= k < j ==> s[k] != 0,
        j < s.len() ==> s[j] == 0,
    ensures
        first_null(s) == j,
    decreases s.len(),
{
    if j == 0 {
    } else {
        assert(s[0] != 0);
        let t = s.drop_first();
        assert forall|k: int| 0 <= k < j - 1 implies t[k] != 0 by {
            assert(t[k] == s[k + 1]);
        }
        if j - 1 < t.len() {
            assert(t[j - 1] == s[j]);
        }
        lemma_first_null_characterize(t, j - 1);
    }
}

/// Index of the first null byte of `s`, or its length when it has none.
fn first_null_index(s: &[u8]) -> (r: usize)
    ensures
        r as int == first_null(s@),
{
    let mut i: usize = 0;
    while i < s.len()
        invariant
            i <= s@.len(),
            forall|k: int| 0 <= k < i ==> s@[k] != 0,
        decreases s@.len() - i,
    {
        if s[i] == 0 {
            proof {
                lemma_first_null_characterize(s@, i as int);
            }
            return i;
        }
        i += 1;
    }
    proof {
        lemma_first_null_characterize(s@, s@.len() as int);
    }
    i
}

/// True exactly when `prefix` is a byte prefix of `s`.
pub(crate) fn starts_with_bytes(s: &[u8], prefix: &[u8]) -> (r: bool)
    ensures
        r == prefix@.is_prefix_of(s@),
{
    if prefix.len() > s.len() {
        return false;
    }
    let mut i: usize = 0;
    while i < prefix.len()
        invariant
            i <= prefix@.len() <= s@.len(),
            forall|k: int| 0 <= k < i ==> prefix@[k] == s@[k],
        decreases prefix@.len() - i,
    {
        if s[i] != prefix[i] {
            assert(!prefix@.is_prefix_of(s@)) by {
                assert(prefix@[i as int] != s@.subrange(0, prefix@.len() as int)[i as int]);
            }
            return false;
        }
        i += 1;
    }
    assert(prefix@ =~= s@.subrange(0, prefix@.len() as int));
    true
}

/// Removes the first `n` bytes of `v`.
fn drop_front(v: &mut Vec<u8>, n: usize)
    requires
        n <= old(v)@.len(),
    ensures
        final(v)@ == old(v)@.skip(n as int),
{
    let tail = v.split_off(n);
    *v = tail;
    assert(v@ =~= old(v)@.skip(n as int));
}

/// Characters that a permissive decode of `bytes` yields.
pub uninterp spec fn lossy_decode(bytes: Seq<u8>) -> Seq<char>;

/// Relies on `String::from_utf8_lossy`: the result depends on the bytes
/// alone, and valid UTF-8 input decodes to exactly its own characters;
/// invalid sequences become replacement characters instead of failing.
#[verifier::external_body]
pub(crate) fn decode_name(bytes: &[u8]) -> (r: String)
    ensures
        r@ == lossy_decode(bytes@),
        valid_utf8(bytes@) ==> r@ == decode_utf8(bytes@),
{
    String::from_utf8_lossy(bytes).into_owned()
}

/// One decode attempt: strips complete leading records from `buffer` until a
/// name starting with `prefix` is found (returned appended to `dir`) or until
/// fewer bytes than one complete record remain (returns nothing).  Consumed
/// records are gone whether they matched or not; a partial tail is kept.
pub fn next_match(buffer: &mut Vec<u8>, prefix: &[u8], dir: &str) -> (r: Option<String>)
    ensures
        final(buffer)@ == decode_rest(old(buffer)@, prefix@),
        r is None <==> decode_result(old(buffer)@, prefix@) is None,
        decode_result(old(buffer)@, prefix@) matches Some(name) ==> (r matches Some(path)
            && path@ == dir@ + lossy_decode(name)),
{
    let ghost orig: Seq<u8> = buffer@;
    loop
        invariant
            orig == old(buffer)@,
            decode_result(buffer@, prefix@) == decode_result(orig, prefix@),
            decode_rest(buffer@, prefix@) == decode_rest(orig, prefix@),
        decreases buffer@.len(),
    {
        if buffer.len() < HEADER_LEN {
            assert(!has_complete_record(buffer@));
            assert(decode_result(buffer@, prefix@) is None);
            assert(decode_rest(buffer@, prefix@) == buffer@);
            return None;
        }
        let h = parse_header(buffer.as_slice());
        let name_len = h.name_len as usize;
        assert(name_len == rec_name_len(buffer@));
        if buffer.len() - HEADER_LEN < name_len {
            assert(!has_complete_record(buffer@));
            assert(decode_result(buffer@, prefix@) is None);
            assert(decode_rest(buffer@, prefix@) == buffer@);
            return None;
        }
        assert(has_complete_record(buffer@));
        let total = HEADER_LEN + name_len;
        let name_field = slice_subrange(buffer.as_slice(), HEADER_LEN, total);
        let j = first_null_index(name_field);
        proof {
            lemma_first_null_bounds(name_field@);
        }
        let name_bytes = slice_subrange(name_field, 0, j);
        assert(name_bytes@ =~= rec_name(buffer@));
        let matched = starts_with_bytes(name_bytes, prefix);
        if matched {
            let name = decode_name(name_bytes);
            let mut path = dir.to_owned();
            path.append(name.as_str());
            let ghost before: Seq<u8> = buffer@;
            drop_front(buffer, total);
            assert(decode_result(before, prefix@) == Some(rec_name(before)));
            assert(decode_rest(before, prefix@) == buffer@);
            return Some(path);
        }
        let ghost before: Seq<u8> = buffer@;
        drop_front(buffer, total);
        assert(decode_result(before, prefix@) == decode_result(buffer@, prefix@));
        assert(decode_rest(before, prefix@) == decode_rest(buffer@, prefix@));
    }
}

/// Incomplete data is untouched: while no complete record is buffered, a
/// decode attempt surfaces nothing and consumes nothing, however large the
/// declared name length is.
pub proof fn lemma_incomplete_consumes_nothing(b: Seq<u8>, prefix: Seq<u8>)
    requires
        !has_complete_record(b),
    ensures
        decode_result(b, prefix) is None,
        decode_rest(b, prefix) == b,
{
}

/// Prefix filtering: a decode attempt surfaces a name exactly when some fully
/// buffered record carries a name starting with the prefix and every record
/// before it does not; the non-matching records are consumed silently.
pub proof fn lemma_prefix_filter(b: Seq<u8>, prefix: Seq<u8>)
    ensures
        decode_result(b, prefix) matches Some(name) ==> prefix.is_prefix_of(name),
        has_complete_record(b) && prefix.is_prefix_of(rec_name(b)) ==> decode_result(b, prefix)
            == Some(rec_name(b)),
        has_complete_record(b) && !prefix.is_prefix_of(rec_name(b)) ==> decode_result(b, prefix)
            == decode_result(b.skip(rec_len(b) as int), prefix),
    decreases b.len(),
{
    if has_complete_record(b) && !prefix.is_prefix_of(rec_name(b)) {
        lemma_prefix_filter(b.skip(rec_len(b) as int), prefix);
    }
}

/// Exactly-once-per-byte consumption: one decode attempt removes precisely
/// the leading complete records it decoded, each of them whole (16 bytes of
/// header plus its declared name length), and nothing more; when no match was
/// found, what stays holds no complete record.
pub proof fn lemma_exact_consumption(b: Seq<u8>, prefix: Seq<u8>)
    ensures
        total_len(consumed_records(b, prefix)) <= b.len(),
        decode_rest(b, prefix) =~= b.skip(total_len(consumed_records(b, prefix)) as int),
        forall|i: int|
            0 <= i < consumed_records(b, prefix).len() ==> (#[trigger] consumed_records(
                b,
                prefix,
            )[i]).len() == rec_len(consumed_records(b, prefix)[i]),
        decode_result(b, prefix) is None ==> !has_complete_record(decode_rest(b, prefix)),
    decreases b.len(),
{
    if !has_complete_record(b) {
        assert(total_len(consumed_records(b, prefix)) == 0);
    } else {
        let rl = rec_len(b) as int;
        let block = b.take(rl);
        assert(block.len() == rl);
        assert(rec_len(block) == rec_len(b)) by {
            assert(block[12] == b[12] && block[13] == b[13] && block[14] == b[14] && block[15]
                == b[15]);
        }
        if prefix.is_prefix_of(rec_name(b)) {
            let records = consumed_records(b, prefix);
            assert(records == seq![block]);
            assert(records.drop_first() =~= Seq::<Seq<u8>>::empty());
            assert(total_len(Seq::<Seq<u8>>::empty()) == 0);
            assert(total_len(records) == block.len());
        } else {
            let tail = b.skip(rl);
            lemma_exact_consumption(tail, prefix);
            let records = consumed_records(b, prefix);
            let rest = consumed_records(tail, prefix);
            assert(records == seq![block] + rest);
            assert(records[0] == block);
            assert(records.drop_first() =~= rest);
            assert(total_len(records) == block.len() + total_len(rest));
            assert(decode_rest(b, prefix) =~= b.skip(total_len(records) as int)) by {
                assert(tail.skip(total_len(rest) as int) =~= b.skip(
                    rl + total_len(rest) as int,
                ));
            }
            assert forall|i: int| 0 <= i < records.len() implies (#[trigger] records[i]).len()
                == rec_len(records[i]) by {
                if i > 0 {
                    assert(records[i] == rest[i - 1]);
                }
            }
        }
    }
}

} // verus!
