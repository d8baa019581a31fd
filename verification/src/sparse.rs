//! Sparse entries of tarballs that declare more bytes than can be counted.
//!
//! A tarball is made of blocks of 512 bytes. A header is one block, with the size of the
//! entry at offset 124 and its type at offset 156. A sparse entry in the GNU format may
//! have more headers behind the first, and the reader of tarballs adds these to the size
//! of the entry unchecked.

use vstd::prelude::*;

verus! {

/// The number that the octal digits of `bytes` from index `at` on make up, behind those
/// of `value`. It ends at index `end` or with a zero byte; what is no digit is passed
/// over.
pub open spec fn octal_from(bytes: Seq<u8>, at: int, end: int, value: int) -> int
    decreases end - at,
{
    if at >= end || bytes[at] == 0 {
        value
    } else if 48 <= bytes[at] <= 55 {
        octal_from(bytes, at + 1, end, 8 * value + (bytes[at] - 48))
    } else {
        octal_from(bytes, at + 1, end, value)
    }
}

/// The number that the decimal digits of `bytes` from index `at` to `end` make up, behind
/// those of `value`.
pub open spec fn decimal_from(bytes: Seq<u8>, at: int, end: int, value: int) -> int
    decreases end - at,
{
    if at >= end {
        value
    } else if 48 <= bytes[at] <= 57 {
        decimal_from(bytes, at + 1, end, 10 * value + (bytes[at] - 48))
    } else {
        decimal_from(bytes, at + 1, end, value)
    }
}

/// The number that the eight bytes from index `at` on make up, the highest first.
pub open spec fn binary_at(bytes: Seq<u8>, at: int) -> int {
    let high = ((bytes[at] * 256 + bytes[at + 1]) * 256 + bytes[at + 2]) * 256 + bytes[at + 3];
    let low = ((bytes[at + 4] * 256 + bytes[at + 5]) * 256 + bytes[at + 6]) * 256 + bytes[at + 7];
    high * 0x1_0000_0000 + low
}

/// The size that the header at index `start` declares, in binary or in octal.
pub open spec fn size_at(bytes: Seq<u8>, start: int) -> int {
    if bytes[start + 124] >= 128 {
        binary_at(bytes, start + 128)
    } else {
        octal_from(bytes, start + 124, start + 136, 0)
    }
}

/// `size` bytes, rounded up to whole blocks.
pub open spec fn padded(size: int) -> int {
    (size + 511) / 512 * 512
}

/// Whether an entry of `size` bytes, with its header at index `start`, cannot be counted
/// together with all that could be headers behind it, out of `len` bytes: they come to
/// 2^64 or more, while the entry alone does not.
pub open spec fn is_uncountable(size: int, start: int, len: int) -> bool {
    let next = start + 512 + padded(size);
    next <= u64::MAX && next + (len - start - 512) > u64::MAX
}

/// Whether a header of a sparse entry in the GNU format, with more headers of its own
/// behind it, stands at index `start`.
pub open spec fn is_extended_sparse_at(bytes: Seq<u8>, start: int) -> bool {
    &&& 0 <= start <= bytes.len() - 512
    &&& start % 512 == 0
    &&& bytes[start + 156] == 83u8
    &&& is_ustar_at(bytes, start)
    &&& bytes[start + 262] == 32u8
    &&& bytes[start + 263] == 32u8
    &&& bytes[start + 264] == 0u8
    &&& bytes[start + 482] == 1u8
}

/// Whether the block at index `start` is marked as a header by the text `ustar`.
pub open spec fn is_ustar_at(bytes: Seq<u8>, start: int) -> bool {
    &&& bytes[start + 257] == 117u8
    &&& bytes[start + 258] == 115u8
    &&& bytes[start + 259] == 116u8
    &&& bytes[start + 260] == 97u8
    &&& bytes[start + 261] == 114u8
}

/// Whether a header stands at index `start` whose contents are records on the entry that
/// follows.
pub open spec fn is_records_at(bytes: Seq<u8>, start: int) -> bool {
    bytes[start + 156] == 120u8 && is_ustar_at(bytes, start)
}

/// Whether a header stands at index `start` that only says more of the entry that
/// follows: records, a long name or the long name of a link.
pub open spec fn is_extension_at(bytes: Seq<u8>, start: int) -> bool {
    &&& bytes[start + 156] == 120u8 || bytes[start + 156] == 76u8 || bytes[start + 156] == 75u8
    &&& is_ustar_at(bytes, start)
}

/// Whether the header at index `start` is that of the entry of which a header at index
/// `at` says more: nothing but such headers and their contents lies between.
pub open spec fn leads_to(bytes: Seq<u8>, at: int, start: int) -> bool
    decreases start - at,
{
    if at >= start {
        at == start
    } else {
        let next = at + 512 + padded(size_at(bytes, at));
        is_extension_at(bytes, at) && at < next <= start && leads_to(bytes, next, start)
    }
}

/// Whether a byte is a digit or a plus sign.
pub open spec fn is_number_byte(byte: u8) -> bool {
    48 <= byte <= 57 || byte == 43
}

/// Where the number that starts at index `at` ends, at index `end` at the latest.
pub open spec fn number_end(bytes: Seq<u8>, at: int, end: int) -> int
    decreases end - at,
{
    if at >= end || !is_number_byte(bytes[at]) {
        at
    } else {
        number_end(bytes, at + 1, end)
    }
}

/// Where the number that ends at index `at` starts, at index `from` at the earliest.
pub open spec fn number_start(bytes: Seq<u8>, from: int, at: int) -> int
    decreases at - from,
{
    if at <= from || !is_number_byte(bytes[at - 1]) {
        at
    } else {
        number_start(bytes, from, at - 1)
    }
}

/// Whether the key of a record on the size of an entry stands at index `at`, among
/// records from index `from` to `to`. A record is a line with its length, a space, its
/// key, an equals sign and its value.
pub open spec fn is_size_record_at(bytes: Seq<u8>, from: int, to: int, at: int) -> bool {
    &&& from < at <= to - 5
    &&& bytes[at - 1] == 32u8
    &&& bytes[at] == 115u8
    &&& bytes[at + 1] == 105u8
    &&& bytes[at + 2] == 122u8
    &&& bytes[at + 3] == 101u8
    &&& bytes[at + 4] == 61u8
    &&& ends_line(bytes, to, number_end(bytes, at + 5, to))
    &&& starts_line(bytes, from, number_start(bytes, from, at - 1))
}

/// Whether a line ends at index `at`, among lines that end at index `to`.
pub open spec fn ends_line(bytes: Seq<u8>, to: int, at: int) -> bool {
    at >= to || bytes[at] == 10u8
}

/// Whether a line starts at index `at`, among lines that start at index `from`.
pub open spec fn starts_line(bytes: Seq<u8>, from: int, at: int) -> bool {
    at <= from || bytes[at - 1] == 10u8
}

/// The size that the record with its key at index `at` declares, among records that end
/// at index `to`.
pub open spec fn recorded_size(bytes: Seq<u8>, to: int, at: int) -> int {
    decimal_from(bytes, at + 5, number_end(bytes, at + 5, to), 0)
}

/// Whether the records from index `from` to `to` hold a size with which the entry at
/// index `start` cannot be counted.
pub open spec fn holds_uncountable_size(bytes: Seq<u8>, from: int, to: int, start: int) -> bool {
    exists|at: int| #[trigger]
        is_size_record_at(bytes, from, to, at) && is_uncountable(
            recorded_size(bytes, to, at),
            start,
            bytes.len() as int,
        )
}

/// Whether the header at index `at` has records on the entry at index `start`, with a
/// size with which that entry cannot be counted.
pub open spec fn is_uncountable_by(bytes: Seq<u8>, at: int, start: int) -> bool {
    &&& 0 <= at < start
    &&& at % 512 == 0
    &&& is_records_at(bytes, at)
    &&& leads_to(bytes, at, start)
    &&& holds_uncountable_size(bytes, at + 512, at + 512 + size_at(bytes, at), start)
}

/// Whether the block at index `start` is the header of a sparse entry that cannot be
/// counted, with the size that the header itself declares or that records on this very
/// entry do.
pub open spec fn is_bogus_at(bytes: Seq<u8>, start: int) -> bool {
    &&& is_extended_sparse_at(bytes, start)
    &&& is_uncountable(size_at(bytes, start), start, bytes.len() as int) || exists|at: int|
        is_uncountable_by(bytes, at, start)
}

/// Whether `bytes` hold no sparse entry that cannot be counted.
pub open spec fn is_listable(bytes: Seq<u8>) -> bool {
    forall|start: int| !is_bogus_at(bytes, start)
}

/// `bytes`, where the headers of sparse entries that cannot be counted are spoiled: the
/// flag that more headers follow is cleared in each, so that its checksum is wrong.
///
/// A block within the contents of an entry may look like such a header. Then one byte of
/// these contents is changed, which shows in a listing only where they are a long name.
pub open spec fn defused(bytes: Seq<u8>) -> Seq<u8> {
    Seq::new(
        bytes.len(),
        |i: int|
            if i % 512 == 482 && is_bogus_at(bytes, i - 482) {
                0u8
            } else {
                bytes[i]
            },
    )
}

/// Whether the first `n` bytes of two sequences differ at most in flags that more headers
/// follow.
spec fn are_alike(a: Seq<u8>, b: Seq<u8>, n: int) -> bool {
    &&& n <= a.len()
    &&& n <= b.len()
    &&& forall|i: int|
        #![trigger a[i]]
        #![trigger b[i]]
        0 <= i < n ==> a[i] == b[i] || (i % 512 == 482 && a[i] <= 1 && b[i] <= 1)
}

proof fn lemma_octal_alike(a: Seq<u8>, b: Seq<u8>, at: int, end: int, value: int)
    requires
        forall|i: int| at <= i < end ==> #[trigger] a[i] == b[i],
    ensures
        octal_from(a, at, end, value) == octal_from(b, at, end, value),
    decreases end - at,
{
    if at < end && a[at] != 0 {
        if 48 <= a[at] <= 55 {
            lemma_octal_alike(a, b, at + 1, end, 8 * value + (a[at] - 48));
        } else {
            lemma_octal_alike(a, b, at + 1, end, value);
        }
    }
}

/// No flag lies in the size, the type and the mark of a header.
proof fn lemma_headers_alike(a: Seq<u8>, b: Seq<u8>, start: int)
    requires
        are_alike(a, b, start + 512),
        0 <= start,
        start % 512 == 0,
    ensures
        size_at(a, start) == size_at(b, start),
        is_extension_at(a, start) == is_extension_at(b, start),
        is_records_at(a, start) == is_records_at(b, start),
        a[start + 482] == b[start + 482] ==> is_extended_sparse_at(a, start)
            == is_extended_sparse_at(b, start),
{
    assert forall|i: int| start <= i < start + 482 implies #[trigger] a[i] == b[i] by {
        assert(i % 512 == i - start);
    }
    lemma_octal_alike(a, b, start + 124, start + 136, 0);
}

/// A size in octal is not negative.
proof fn lemma_octal_grows(bytes: Seq<u8>, at: int, end: int, value: int)
    requires
        value >= 0,
    ensures
        octal_from(bytes, at, end, value) >= value,
    decreases end - at,
{
    if at < end && bytes[at] != 0 {
        if 48 <= bytes[at] <= 55 {
            lemma_octal_grows(bytes, at + 1, end, 8 * value + (bytes[at] - 48));
        } else {
            lemma_octal_grows(bytes, at + 1, end, value);
        }
    }
}

/// A size is not negative, and takes whole blocks.
proof fn lemma_size_takes_blocks(bytes: Seq<u8>, start: int)
    ensures
        size_at(bytes, start) >= 0,
        padded(size_at(bytes, start)) >= size_at(bytes, start),
        padded(size_at(bytes, start)) % 512 == 0,
{
    lemma_octal_grows(bytes, start + 124, start + 136, 0);
}

/// Leading to an entry takes the contents of each header on the way.
proof fn lemma_leads_behind_contents(bytes: Seq<u8>, at: int, start: int)
    requires
        leads_to(bytes, at, start),
        at < start,
    ensures
        at + 512 + size_at(bytes, at) <= start,
{
    lemma_size_takes_blocks(bytes, at);
}

proof fn lemma_leads_alike(a: Seq<u8>, b: Seq<u8>, at: int, start: int)
    requires
        are_alike(a, b, start),
        0 <= at,
        at % 512 == 0,
        start % 512 == 0,
    ensures
        leads_to(a, at, start) == leads_to(b, at, start),
    decreases start - at,
{
    if at < start {
        assert(at + 512 <= start);
        lemma_headers_alike(a, b, at);
        lemma_size_takes_blocks(a, at);
        let next = at + 512 + padded(size_at(a, at));
        if next <= start {
            lemma_leads_alike(a, b, next, start);
        }
    }
}

proof fn lemma_number_end_alike(a: Seq<u8>, b: Seq<u8>, at: int, end: int)
    requires
        are_alike(a, b, end),
        0 <= at,
    ensures
        number_end(a, at, end) == number_end(b, at, end),
        at <= number_end(a, at, end) <= end || at > end,
        are_equal(a, b, at, number_end(a, at, end)),
    decreases end - at,
{
    if at < end && is_number_byte(a[at]) {
        lemma_number_end_alike(a, b, at + 1, end);
    }
}

/// Whether two sequences of bytes are equal from index `at` to `end`.
spec fn are_equal(a: Seq<u8>, b: Seq<u8>, at: int, end: int) -> bool {
    forall|i: int| at <= i < end ==> #[trigger] a[i] == b[i]
}

proof fn lemma_decimal_alike(a: Seq<u8>, b: Seq<u8>, at: int, end: int, value: int)
    requires
        are_equal(a, b, at, end),
    ensures
        decimal_from(a, at, end, value) == decimal_from(b, at, end, value),
    decreases end - at,
{
    if at < end {
        if 48 <= a[at] <= 57 {
            lemma_decimal_alike(a, b, at + 1, end, 10 * value + (a[at] - 48));
        } else {
            lemma_decimal_alike(a, b, at + 1, end, value);
        }
    }
}

proof fn lemma_number_start_alike(a: Seq<u8>, b: Seq<u8>, from: int, at: int)
    requires
        are_alike(a, b, at),
        0 <= from,
    ensures
        number_start(a, from, at) == number_start(b, from, at),
        number_start(a, from, at) <= at,
    decreases at - from,
{
    if at > from && is_number_byte(a[at - 1]) {
        lemma_number_start_alike(a, b, from, at - 1);
    }
}

/// No flag is part of a record on a size.
proof fn lemma_record_alike(a: Seq<u8>, b: Seq<u8>, from: int, to: int, at: int)
    requires
        are_alike(a, b, to),
        0 <= from,
        is_size_record_at(a, from, to, at),
    ensures
        is_size_record_at(b, from, to, at),
        recorded_size(a, to, at) == recorded_size(b, to, at),
{
    lemma_number_end_alike(a, b, at + 5, to);
    lemma_decimal_alike(a, b, at + 5, number_end(a, at + 5, to), 0);
    lemma_number_start_alike(a, b, from, at - 1);
}

/// The flag that more headers follow matters to no other entry, and nor does what stands
/// behind a header.
proof fn lemma_bogus_alike(a: Seq<u8>, b: Seq<u8>, start: int)
    requires
        are_alike(a, b, start + 512),
        a.len() <= b.len(),
        is_bogus_at(a, start),
        a[start + 482] == b[start + 482],
    ensures
        is_bogus_at(b, start),
{
    lemma_headers_alike(a, b, start);
    if !is_uncountable(size_at(a, start), start, a.len() as int) {
        let at = choose|at: int| is_uncountable_by(a, at, start);
        lemma_headers_alike(a, b, at);
        lemma_leads_alike(a, b, at, start);
        lemma_leads_behind_contents(a, at, start);
        let from = at + 512;
        let to = from + size_at(a, at);
        let key = choose|key: int| #[trigger]
            is_size_record_at(a, from, to, key) && is_uncountable(
                recorded_size(a, to, key),
                start,
                a.len() as int,
            );
        lemma_record_alike(a, b, from, to, key);
        assert(is_uncountable(recorded_size(b, to, key), start, b.len() as int));
        assert(holds_uncountable_size(b, from, to, start));
        assert(is_uncountable_by(b, at, start));
    }
}

/// Whether the header of an entry is taken for one that cannot be counted has nothing to
/// do with what stands behind it, except for how much it is.
pub proof fn law_what_stands_behind_a_header_has_no_bearing_on_it(
    a: Seq<u8>,
    b: Seq<u8>,
    start: int,
)
    requires
        0 <= start <= a.len() - 512,
        a.len() <= b.len(),
        a.take(start + 512) == b.take(start + 512),
    ensures
        is_bogus_at(a, start) ==> is_bogus_at(b, start),
        a.len() == b.len() ==> is_bogus_at(a, start) == is_bogus_at(b, start),
{
    assert forall|i: int| 0 <= i < start + 512 implies #[trigger] a[i] == b[i] by {
        assert(a.take(start + 512)[i] == a[i]);
        assert(b.take(start + 512)[i] == b[i]);
    }
    if is_bogus_at(a, start) {
        lemma_bogus_alike(a, b, start);
    } else if a.len() == b.len() && is_bogus_at(b, start) {
        lemma_bogus_alike(b, a, start);
    }
}

/// A sparse entry is taken for one that cannot be counted only for the size that it
/// declares itself or that records on it declare: where every such size leaves room for
/// all of the bytes below 2^64, none is.
pub proof fn law_sparse_entries_of_countable_size_are_kept(bytes: Seq<u8>)
    requires
        forall|start: int| #[trigger]
            is_extended_sparse_at(bytes, start) ==> size_at(bytes, start) + bytes.len() + 512
                <= u64::MAX,
        forall|start: int, at: int, key: int|
            #![trigger is_extended_sparse_at(bytes, start), is_size_record_at(
                bytes,
                at + 512,
                at + 512 + size_at(bytes, at),
                key,
            )]
            is_extended_sparse_at(bytes, start) && 0 <= at < start && is_records_at(bytes, at)
                && leads_to(bytes, at, start) && is_size_record_at(
                bytes,
                at + 512,
                at + 512 + size_at(bytes, at),
                key,
            ) ==> recorded_size(bytes, at + 512 + size_at(bytes, at), key) + bytes.len() + 512
                <= u64::MAX,
    ensures
        is_listable(bytes),
        defused(bytes) == bytes,
{
    assert forall|start: int| !is_bogus_at(bytes, start) by {
        if is_bogus_at(bytes, start) {
            assert(is_extended_sparse_at(bytes, start));
            let at = choose|at: int| is_uncountable_by(bytes, at, start);
            let to = at + 512 + size_at(bytes, at);
            let key = choose|key: int| #[trigger]
                is_size_record_at(bytes, at + 512, to, key) && is_uncountable(
                    recorded_size(bytes, to, key),
                    start,
                    bytes.len() as int,
                );
            assert(is_size_record_at(bytes, at + 512, at + 512 + size_at(bytes, at), key));
        }
    }
    assert(defused(bytes) =~= bytes);
}

/// Spoiling a header clears its flag that more headers follow.
proof fn lemma_defused_alike(bytes: Seq<u8>)
    ensures
        are_alike(defused(bytes), bytes, bytes.len() as int),
        forall|start: int|
            #![trigger defused(bytes)[start + 482]]
            0 <= start <= bytes.len() - 512 && start % 512 == 0 && defused(bytes)[start + 482] == 1
                ==> bytes[start + 482] == 1 && !is_bogus_at(bytes, start),
{
    let safe = defused(bytes);
    assert forall|i: int| 0 <= i < bytes.len() implies safe[i] == bytes[i] || (i % 512 == 482
        && safe[i] <= 1 && bytes[i] <= 1) by {
        if i % 512 == 482 && is_bogus_at(bytes, i - 482) {
            assert(is_extended_sparse_at(bytes, i - 482));
        }
    }
}

/// Spoiling the headers of entries that cannot be counted leaves none of them.
pub proof fn lemma_defused_is_listable(bytes: Seq<u8>)
    ensures
        is_listable(defused(bytes)),
{
    let safe = defused(bytes);
    lemma_defused_alike(bytes);
    assert forall|start: int| !is_bogus_at(safe, start) by {
        if is_bogus_at(safe, start) {
            assert(is_extended_sparse_at(safe, start));
            assert((start + 482) % 512 == 482);
            lemma_bogus_alike(safe, bytes, start);
        }
    }
}

/// The size that the header at index `start` declares.
fn declared_size(bytes: &Vec<u8>, start: usize) -> (size: u64)
    requires
        start + 512 <= bytes.len(),
    ensures
        size == size_at(bytes@, start as int),
{
    if bytes[start + 124] >= 128 {
        let at: usize = start + 128;
        let b0: u64 = bytes[at] as u64;
        let b1: u64 = bytes[at + 1] as u64;
        let b2: u64 = bytes[at + 2] as u64;
        let b3: u64 = bytes[at + 3] as u64;
        let b4: u64 = bytes[at + 4] as u64;
        let b5: u64 = bytes[at + 5] as u64;
        let b6: u64 = bytes[at + 6] as u64;
        let b7: u64 = bytes[at + 7] as u64;
        let high: u64 = ((b0 * 256 + b1) * 256 + b2) * 256 + b3;
        let low: u64 = ((b4 * 256 + b5) * 256 + b6) * 256 + b7;
        return high * 0x1_0000_0000 + low;
    }
    let mut value: u64 = 0;
    // The digits that are left cannot take the number beyond this bound.
    let mut bound: u64 = 1;
    let mut i: usize = 0;
    while i < 12
        invariant_except_break
            octal_from(bytes@, start + 124, start + 136, 0) == octal_from(
                bytes@,
                start + 124 + i,
                start + 136,
                value as int,
            ),
        invariant
            i <= 12,
            start + 512 <= bytes.len(),
            value < bound,
            bound == eights(i as nat),
        ensures
            octal_from(bytes@, start + 124, start + 136, 0) == value,
        decreases 12 - i,
    {
        proof {
            lemma_eights(i as nat);
        }
        let byte: u8 = bytes[start + 124 + i];
        if byte == 0 {
            break;
        }
        if 48 <= byte && byte <= 55 {
            value = 8 * value + (byte - 48) as u64;
        }
        bound = 8 * bound;
        i = i + 1;
    }
    value
}

/// The power of eight with exponent `n`.
spec fn eights(n: nat) -> nat
    decreases n,
{
    if n == 0 {
        1
    } else {
        8 * eights((n - 1) as nat)
    }
}

proof fn lemma_eights(n: nat)
    requires
        n < 12,
    ensures
        eights(n + 1) == 8 * eights(n),
        1 <= eights(n) <= 0x2_0000_0000,
{
    reveal_with_fuel(eights, 13);
}

/// Whether an entry of `size` bytes, with its header at index `start`, cannot be counted
/// together with all that could be headers behind it, out of `len` bytes.
fn uncountable(size: u64, start: usize, len: usize) -> (found: bool)
    requires
        start + 512 <= len,
    ensures
        found == is_uncountable(size as int, start as int, len as int),
{
    let most: u128 = 0xffff_ffff_ffff_ffff;
    let blocks: u128 = (size as u128 + 511) / 512;
    let next: u128 = start as u128 + 512 + blocks * 512;
    let behind: u128 = (len - start - 512) as u128;
    next <= most && next + behind > most
}

/// A number does not shrink with more digits.
proof fn lemma_decimal_grows(bytes: Seq<u8>, at: int, end: int, value: int)
    requires
        value >= 0,
    ensures
        decimal_from(bytes, at, end, value) >= value,
    decreases end - at,
{
    if at < end {
        if 48 <= bytes[at] <= 57 {
            lemma_decimal_grows(bytes, at + 1, end, 10 * value + (bytes[at] - 48));
        } else {
            lemma_decimal_grows(bytes, at + 1, end, value);
        }
    }
}

/// The number that the digits from index `at` to `end` make up, unless it is too large.
fn decimal(bytes: &Vec<u8>, at: usize, end: usize) -> (number: Option<u64>)
    requires
        at <= end <= bytes@.len(),
    ensures
        match number {
            Some(number) => decimal_from(bytes@, at as int, end as int, 0) == number,
            None => decimal_from(bytes@, at as int, end as int, 0) > u64::MAX,
        },
{
    let most: u128 = 0xffff_ffff_ffff_ffff;
    let mut value: u128 = 0;
    let mut i: usize = at;
    while i < end
        invariant
            at <= i <= end <= bytes@.len(),
            most == u64::MAX,
            value <= most,
            decimal_from(bytes@, at as int, end as int, 0) == decimal_from(
                bytes@,
                i as int,
                end as int,
                value as int,
            ),
        decreases end - i,
    {
        let byte: u8 = bytes[i];
        if 48 <= byte && byte <= 57 {
            value = 10 * value + (byte - 48) as u128;
            if value > most {
                proof {
                    lemma_decimal_grows(bytes@, i + 1, end as int, value as int);
                }
                return None;
            }
        }
        i = i + 1;
    }
    Some(value as u64)
}

/// Where the number that starts at index `at` ends.
fn end_of_number(bytes: &Vec<u8>, at: usize, end: usize) -> (i: usize)
    requires
        at <= end <= bytes@.len(),
    ensures
        i == number_end(bytes@, at as int, end as int),
        at <= i <= end,
{
    let mut i: usize = at;
    while i < end && ((48 <= bytes[i] && bytes[i] <= 57) || bytes[i] == 43)
        invariant
            at <= i <= end <= bytes@.len(),
            number_end(bytes@, at as int, end as int) == number_end(bytes@, i as int, end as int),
        decreases end - i,
    {
        i = i + 1;
    }
    i
}

/// Where the number that ends at index `at` starts.
fn start_of_number(bytes: &Vec<u8>, from: usize, at: usize) -> (i: usize)
    requires
        from <= at <= bytes@.len(),
    ensures
        i == number_start(bytes@, from as int, at as int),
        from <= i <= at,
{
    let mut i: usize = at;
    while i > from && ((48 <= bytes[i - 1] && bytes[i - 1] <= 57) || bytes[i - 1] == 43)
        invariant
            from <= i <= at <= bytes@.len(),
            number_start(bytes@, from as int, at as int) == number_start(
                bytes@,
                from as int,
                i as int,
            ),
        decreases i - from,
    {
        i = i - 1;
    }
    i
}

/// Whether the record with its key at index `at` holds a size with which the entry at
/// index `start` cannot be counted.
fn uncountable_record(
    bytes: &Vec<u8>,
    from: usize,
    to: usize,
    at: usize,
    start: usize,
) -> (found: bool)
    requires
        from < at,
        at + 5 <= to <= bytes@.len(),
        start + 512 <= bytes.len(),
    ensures
        found == (is_size_record_at(bytes@, from as int, to as int, at as int) && is_uncountable(
            recorded_size(bytes@, to as int, at as int),
            start as int,
            bytes@.len() as int,
        )),
{
    let len: usize = bytes.len();
    if bytes[at - 1] != 32u8 || bytes[at] != 115u8 || bytes[at + 1] != 105u8 || bytes[at + 2]
        != 122u8 || bytes[at + 3] != 101u8 || bytes[at + 4] != 61u8 {
        return false;
    }
    let first: usize = start_of_number(bytes, from, at - 1);
    let end: usize = end_of_number(bytes, at + 5, to);
    if (first > from && bytes[first - 1] != 10u8) || (end < to && bytes[end] != 10u8) {
        return false;
    }
    match decimal(bytes, at + 5, end) {
        Some(size) => uncountable(size, start, len),
        None => false,
    }
}

/// Whether the records from index `from` to `to` hold a size with which the entry at
/// index `start` cannot be counted.
fn uncountable_records(bytes: &Vec<u8>, from: usize, to: usize, start: usize) -> (found: bool)
    requires
        from <= to <= bytes@.len(),
        start + 512 <= bytes.len(),
    ensures
        found == holds_uncountable_size(bytes@, from as int, to as int, start as int),
{
    let mut at: usize = from;
    while to - at > 5
        invariant
            from <= at <= to <= bytes@.len(),
            start + 512 <= bytes@.len(),
            forall|k: int|
                k <= at ==> !(#[trigger] is_size_record_at(bytes@, from as int, to as int, k)
                    && is_uncountable(
                    recorded_size(bytes@, to as int, k),
                    start as int,
                    bytes@.len() as int,
                )),
        decreases to - at,
    {
        at = at + 1;
        if uncountable_record(bytes, from, to, at, start) {
            return true;
        }
    }
    false
}

/// Whether the header at index `start` only says more of the entry that follows.
fn extension_at(bytes: &Vec<u8>, start: usize) -> (found: bool)
    requires
        start + 512 <= bytes.len(),
    ensures
        found == is_extension_at(bytes@, start as int),
{
    let kind: u8 = bytes[start + 156];
    (kind == 120u8 || kind == 76u8 || kind == 75u8) && ustar_at(bytes, start)
}

/// Whether the block at index `start` is marked as a header by the text `ustar`.
fn ustar_at(bytes: &Vec<u8>, start: usize) -> (found: bool)
    requires
        start + 512 <= bytes.len(),
    ensures
        found == is_ustar_at(bytes@, start as int),
{
    bytes[start + 257] == 117u8 && bytes[start + 258] == 115u8 && bytes[start + 259] == 116u8
        && bytes[start + 260] == 97u8 && bytes[start + 261] == 114u8
}

/// Whether the header at index `start` is that of the entry of which a header at index
/// `from` says more.
fn leads(bytes: &Vec<u8>, from: usize, start: usize) -> (found: bool)
    requires
        from < start,
        start + 512 <= bytes.len(),
    ensures
        found == leads_to(bytes@, from as int, start as int),
{
    let mut at: usize = from;
    while at < start
        invariant
            at <= start,
            start + 512 <= bytes.len(),
            leads_to(bytes@, from as int, start as int) == leads_to(
                bytes@,
                at as int,
                start as int,
            ),
        decreases start - at,
    {
        proof {
            lemma_size_takes_blocks(bytes@, at as int);
        }
        if !extension_at(bytes, at) {
            return false;
        }
        let size: u64 = declared_size(bytes, at);
        let blocks: u128 = (size as u128 + 511) / 512;
        let next: u128 = at as u128 + 512 + blocks * 512;
        if next > start as u128 {
            return false;
        }
        at = next as usize;
    }
    true
}

/// Whether the block at index `start` is the header of a sparse entry that cannot be
/// counted.
fn bogus_at(bytes: &Vec<u8>, start: usize) -> (found: bool)
    requires
        start + 512 <= bytes@.len(),
        start % 512 == 0,
    ensures
        found == is_bogus_at(bytes@, start as int),
{
    let len: usize = bytes.len();
    if bytes[start + 156] != 83u8 || bytes[start + 482] != 1u8 || bytes[start + 262] != 32u8
        || bytes[start + 263] != 32u8 || bytes[start + 264] != 0u8 || !ustar_at(bytes, start) {
        return false;
    }
    if uncountable(declared_size(bytes, start), start, len) {
        return true;
    }
    let mut at: usize = 0;
    while at < start
        invariant
            at <= start,
            at % 512 == 0,
            start % 512 == 0,
            start + 512 <= bytes@.len(),
            bytes@.len() == len,
            is_extended_sparse_at(bytes@, start as int),
            !is_uncountable(size_at(bytes@, start as int), start as int, len as int),
            forall|k: int| k < at ==> !is_uncountable_by(bytes@, k, start as int),
        decreases start - at,
    {
        if bytes[at + 156] == 120u8 && ustar_at(bytes, at) && leads(bytes, at, start) {
            proof {
                lemma_leads_behind_contents(bytes@, at as int, start as int);
                lemma_size_takes_blocks(bytes@, at as int);
            }
            let size: usize = declared_size(bytes, at) as usize;
            if uncountable_records(bytes, at + 512, at + 512 + size, start) {
                assert(is_uncountable_by(bytes@, at as int, start as int));
                return true;
            }
        }
        assert(!is_uncountable_by(bytes@, at as int, start as int));
        assert forall|k: int| k < at + 512 implies !is_uncountable_by(bytes@, k, start as int) by {
            if at < k {
                assert(k % 512 != 0);
            }
        }
        at = at + 512;
    }
    false
}

/// Spoils the headers of sparse entries that cannot be counted.
pub fn defuse(bytes: Vec<u8>) -> (safe: Vec<u8>)
    ensures
        safe@ == defused(bytes@),
{
    let ghost given = bytes@;
    let mut safe = bytes;
    let end: usize = safe.len();
    let mut start: usize = 0;
    while end - start >= 512
        invariant
            start <= end,
            start % 512 == 0,
            end == given.len(),
            safe@.len() == end,
            forall|i: int|
                0 <= i < end ==> #[trigger] safe@[i] == if i < start {
                    defused(given)[i]
                } else {
                    given[i]
                },
        decreases end - start,
    {
        let ghost before = safe@;
        let found = bogus_at(&safe, start);
        proof {
            assert(are_alike(before, given, end as int));
            assert(are_alike(given, before, end as int));
            assert(before[start + 482] == given[start + 482]);
            if found {
                lemma_bogus_alike(before, given, start as int);
            } else if is_bogus_at(given, start as int) {
                lemma_bogus_alike(given, before, start as int);
            }
        }
        if found {
            safe.set(start + 482, 0u8);
        }
        let ghost next = start + 512;
        assert forall|i: int| 0 <= i < end implies #[trigger] safe@[i] == if i < next {
            defused(given)[i]
        } else {
            given[i]
        } by {
            if start <= i < next && i % 512 == 482 {
                assert(i == start + 482);
            }
        }
        start = start + 512;
    }
    assert(safe@ =~= defused(given)) by {
        assert forall|i: int| start <= i < end implies defused(given)[i] == given[i] by {
            if i % 512 == 482 {
                assert(i - 482 > end - 512);
            }
        }
    }
    safe
}

/// Adding the headers behind a sparse entry to its size never comes to 2^64 in a tarball
/// that is listable: neither with the size that its first header declares, nor with one
/// that records on it do, as long as that size itself can be counted.
pub proof fn law_sizes_in_listable_tarballs_can_be_added_up(
    bytes: Seq<u8>,
    start: int,
    headers: int,
    at: int,
    key: int,
)
    requires
        is_listable(bytes),
        0 <= start <= bytes.len() - 512,
        start % 512 == 0,
        bytes[start + 156] == 83u8,
        bytes[start + 257] == 117u8 && bytes[start + 258] == 115u8 && bytes[start + 259] == 116u8,
        bytes[start + 260] == 97u8 && bytes[start + 261] == 114u8 && bytes[start + 262] == 32u8,
        bytes[start + 263] == 32u8 && bytes[start + 264] == 0u8,
        bytes[start + 482] == 1u8,
        0 <= headers,
        start + 512 + 512 * headers <= bytes.len(),
    ensures
        ({
            let next = start + 512 + (size_at(bytes, start) + 511) / 512 * 512;
            next < 0x1_0000_0000_0000_0000 ==> next + 512 * headers < 0x1_0000_0000_0000_0000
        }),
        ({
            let to = at + 512 + size_at(bytes, at);
            let next = start + 512 + (recorded_size(bytes, to, key) + 511) / 512 * 512;
            0 <= at < start && at % 512 == 0 && bytes[at + 156] == 120u8 && bytes[at + 257] == 117u8
                && bytes[at + 258] == 115u8 && bytes[at + 259] == 116u8 && bytes[at + 260] == 97u8
                && bytes[at + 261] == 114u8 && leads_to(bytes, at, start) && is_size_record_at(
                bytes,
                at + 512,
                to,
                key,
            ) && next < 0x1_0000_0000_0000_0000 ==> next + 512 * headers < 0x1_0000_0000_0000_0000
        }),
{
    assert(is_extended_sparse_at(bytes, start));
    assert(!is_bogus_at(bytes, start));
    let to = at + 512 + size_at(bytes, at);
    if 0 <= at < start && at % 512 == 0 && is_records_at(bytes, at) && leads_to(bytes, at, start)
        && is_size_record_at(bytes, at + 512, to, key) {
        assert(!is_uncountable_by(bytes, at, start));
        assert(!holds_uncountable_size(bytes, at + 512, to, start));
    }
}

/// A size in octal is what its digits make up, each worth eight times the next, and one in
/// binary is what its bytes make up, each worth 256 times the next.
pub proof fn law_sizes_are_what_their_digits_make_up(
    bytes: Seq<u8>,
    start: int,
    at: int,
    end: int,
    value: int,
)
    requires
        at < end,
    ensures
        (forall|i: int| at <= i < end ==> #[trigger] bytes[i] != 0) && 48 <= bytes[end - 1] <= 55
            ==> octal_from(bytes, at, end, value) == 8 * octal_from(bytes, at, end - 1, value) + (
        bytes[end - 1] - 48),
        bytes[at] == 0 ==> octal_from(bytes, at, end, value) == value,
        octal_from(bytes, end, end, value) == value,
        48 <= bytes[end - 1] <= 57 ==> decimal_from(bytes, at, end, value) == 10 * decimal_from(
            bytes,
            at,
            end - 1,
            value,
        ) + (bytes[end - 1] - 48),
        decimal_from(bytes, end, end, value) == value,
        bytes[start + 124] < 128 ==> size_at(bytes, start) == octal_from(
            bytes,
            start + 124,
            start + 136,
            0,
        ),
        bytes[start + 124] >= 128 ==> size_at(bytes, start) == bytes[start + 128]
            * 0x100_0000_0000_0000 + bytes[start + 129] * 0x1_0000_0000_0000 + bytes[start + 130]
            * 0x100_0000_0000 + bytes[start + 131] * 0x1_0000_0000 + bytes[start + 132] * 0x100_0000
            + bytes[start + 133] * 0x1_0000 + bytes[start + 134] * 0x100 + bytes[start + 135],
    decreases end - at,
{
    if at + 1 < end {
        if 48 <= bytes[at] <= 55 {
            law_sizes_are_what_their_digits_make_up(
                bytes,
                start,
                at + 1,
                end,
                8 * value + (bytes[at] - 48),
            );
        } else {
            law_sizes_are_what_their_digits_make_up(bytes, start, at + 1, end, value);
        }
        if 48 <= bytes[at] <= 57 {
            law_sizes_are_what_their_digits_make_up(
                bytes,
                start,
                at + 1,
                end,
                10 * value + (bytes[at] - 48),
            );
        } else {
            law_sizes_are_what_their_digits_make_up(bytes, start, at + 1, end, value);
        }
    } else {
        assert(octal_from(bytes, end, end, 8 * value + (bytes[at] - 48)) == 8 * value + (bytes[at]
            - 48));
        assert(decimal_from(bytes, end, end, 10 * value + (bytes[at] - 48)) == 10 * value + (
        bytes[at] - 48));
    }
}

/// A line of records that is a number, a space, `size=` and a number is a record on a
/// size, and declares the second number.
pub proof fn law_line_on_a_size_is_a_record(
    bytes: Seq<u8>,
    from: int,
    to: int,
    first: int,
    key: int,
    last: int,
)
    requires
        from <= first < key,
        key + 5 <= last <= to,
        first == from || bytes[first - 1] == 10u8,
        last == to || bytes[last] == 10u8,
        forall|i: int| first <= i < key - 1 ==> 48 <= #[trigger] bytes[i] <= 57,
        bytes[key - 1] == 32u8,
        bytes[key] == 115u8 && bytes[key + 1] == 105u8 && bytes[key + 2] == 122u8,
        bytes[key + 3] == 101u8 && bytes[key + 4] == 61u8,
        forall|i: int| key + 5 <= i < last ==> 48 <= #[trigger] bytes[i] <= 57,
    ensures
        is_size_record_at(bytes, from, to, key),
        recorded_size(bytes, to, key) == decimal_from(bytes, key + 5, last, 0),
{
    lemma_number_end_at(bytes, key + 5, to, last);
    lemma_number_start_at(bytes, from, key - 1, first);
}

proof fn lemma_number_end_at(bytes: Seq<u8>, at: int, end: int, last: int)
    requires
        at <= last <= end,
        last == end || bytes[last] == 10u8,
        forall|i: int| at <= i < last ==> 48 <= #[trigger] bytes[i] <= 57,
    ensures
        number_end(bytes, at, end) == last,
    decreases last - at,
{
    if at < last {
        lemma_number_end_at(bytes, at + 1, end, last);
    }
}

proof fn lemma_number_start_at(bytes: Seq<u8>, from: int, at: int, first: int)
    requires
        from <= first <= at,
        first == from || bytes[first - 1] == 10u8,
        forall|i: int| first <= i < at ==> 48 <= #[trigger] bytes[i] <= 57,
    ensures
        number_start(bytes, from, at) == first,
    decreases at - first,
{
    if first < at {
        lemma_number_start_at(bytes, from, at - 1, first);
    }
}

/// An entry is led to by the header right in front of it, of records, a long name or the
/// long name of a link, and by what leads to that header.
pub proof fn law_headers_in_front_lead_to_an_entry(bytes: Seq<u8>, at: int, start: int)
    requires
        0 <= at < start,
    ensures
        leads_to(bytes, start, start),
        leads_to(bytes, at, start) <==> {
            let next = at + 512 + (size_at(bytes, at) + 511) / 512 * 512;
            &&& bytes[at + 156] == 120u8 || bytes[at + 156] == 76u8 || bytes[at + 156] == 75u8
            &&& bytes[at + 257] == 117u8 && bytes[at + 258] == 115u8 && bytes[at + 259] == 116u8
            &&& bytes[at + 260] == 97u8 && bytes[at + 261] == 114u8
            &&& next <= start
            &&& leads_to(bytes, next, start)
        },
{
    lemma_size_takes_blocks(bytes, at);
}

/// Spoiling changes no byte but the flag of a header that cannot be counted, and adds and
/// drops none.
pub proof fn law_spoiling_changes_only_flags(bytes: Seq<u8>, i: int)
    requires
        0 <= i < bytes.len(),
    ensures
        defused(bytes).len() == bytes.len(),
        i % 512 != 482 ==> defused(bytes)[i] == bytes[i],
        i % 512 == 482 && bytes[i] != 1 ==> defused(bytes)[i] == bytes[i],
        i % 512 == 482 && !is_bogus_at(bytes, i - 482) ==> defused(bytes)[i] == bytes[i],
        i % 512 == 482 && is_bogus_at(bytes, i - 482) ==> bytes[i] == 1 && defused(bytes)[i] == 0,
        is_listable(defused(bytes)),
        is_listable(bytes) ==> defused(bytes) == bytes,
{
    lemma_defused_is_listable(bytes);
    if is_bogus_at(bytes, i - 482) {
        assert(is_extended_sparse_at(bytes, i - 482));
    }
    if is_listable(bytes) {
        assert(defused(bytes) =~= bytes);
    }
}

} // verus!
