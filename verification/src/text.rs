//! Text as a sequence of characters: splitting, joining and searching.

use vstd::prelude::*;
use vstd::string::*;

verus! {

/// The pieces of `s` between the occurrences of `sep`, in order. There is always
/// one piece more than there are separators, so the pieces of an empty sequence
/// are one empty piece.
pub open spec fn pieces<T>(s: Seq<T>, sep: T) -> Seq<Seq<T>>
    decreases s.len(),
{
    if s.len() == 0 {
        seq![Seq::<T>::empty()]
    } else {
        let front = pieces(s.drop_last(), sep);
        if s.last() == sep {
            front.push(Seq::<T>::empty())
        } else {
            front.update(front.len() - 1, front.last().push(s.last()))
        }
    }
}

/// All of `parts` in order, with `sep` between each two of them.
pub open spec fn joined<T>(parts: Seq<Seq<T>>, sep: Seq<T>) -> Seq<T>
    decreases parts.len(),
{
    if parts.len() == 0 {
        Seq::<T>::empty()
    } else if parts.len() == 1 {
        parts[0]
    } else {
        joined(parts.drop_last(), sep) + sep + parts.last()
    }
}

/// `s` with `to` in place of each `from`.
pub open spec fn replaced<T>(s: Seq<T>, from: T, to: T) -> Seq<T> {
    Seq::new(
        s.len(),
        |i: int|
            if s[i] == from {
                to
            } else {
                s[i]
            },
    )
}

/// Whether `s` ends with `suffix`.
pub open spec fn has_suffix<T>(s: Seq<T>, suffix: Seq<T>) -> bool {
    s.len() >= suffix.len() && s.skip(s.len() - suffix.len()) == suffix
}

/// Whether `needle` occurs in `s` with its first element at index `at`.
pub open spec fn occurs_at<T>(s: Seq<T>, needle: Seq<T>, at: int) -> bool {
    0 <= at <= s.len() - needle.len() && s.subrange(at, at + needle.len()) == needle
}

/// Whether `needle` occurs somewhere in `s`.
pub open spec fn has_infix<T>(s: Seq<T>, needle: Seq<T>) -> bool {
    exists|at: int| occurs_at(s, needle, at)
}

/// Whether a text holds ASCII characters only.
pub open spec fn is_ascii_text(s: Seq<char>) -> bool {
    forall|i: int| 0 <= i < s.len() ==> (#[trigger] s[i]) as u32 <= 127
}

/// Whether a character is an ASCII letter or digit.
pub open spec fn is_ascii_alphanumeric(c: char) -> bool {
    'a' <= c <= 'z' || 'A' <= c <= 'Z' || '0' <= c <= '9'
}

/// A text with its ASCII letters in lower case.
pub open spec fn lowered(s: Seq<char>) -> Seq<char> {
    Seq::new(
        s.len(),
        |i: int|
            if 'A' <= s[i] <= 'Z' {
                (s[i] as u32 + 32) as char
            } else {
                s[i]
            },
    )
}

/// Whether the part of `s` from index `from` to `to` stands alone: there is no letter or
/// digit right in front of it, nor right behind it.
pub open spec fn stands_alone(s: Seq<char>, from: int, to: int) -> bool {
    &&& 0 <= from <= to <= s.len()
    &&& from == 0 || !is_ascii_alphanumeric(s[from - 1])
    &&& to == s.len() || !is_ascii_alphanumeric(s[to])
}

/// What each of a sequence of string slices holds.
pub open spec fn slices_text(parts: Seq<&str>) -> Seq<Seq<char>> {
    Seq::new(parts.len(), |i: int| parts[i]@)
}

/// What each of a sequence of strings holds.
pub open spec fn strings_text(parts: Seq<String>) -> Seq<Seq<char>> {
    Seq::new(parts.len(), |i: int| parts[i]@)
}

/// What an optional string holds.
pub open spec fn optional_text(s: Option<String>) -> Option<Seq<char>> {
    match s {
        Some(s) => Some(s@),
        None => None,
    }
}

/// What an optional string slice holds.
pub open spec fn optional_slice_text(s: Option<&str>) -> Option<Seq<char>> {
    match s {
        Some(s) => Some(s@),
        None => None,
    }
}

/// There is at least one piece.
pub proof fn lemma_pieces_nonempty<T>(s: Seq<T>, sep: T)
    ensures
        pieces(s, sep).len() > 0,
    decreases s.len(),
{
    if s.len() > 0 {
        lemma_pieces_nonempty(s.drop_last(), sep);
    }
}

/// No piece holds the separator.
pub proof fn lemma_pieces_hold_no_separator<T>(s: Seq<T>, sep: T)
    ensures
        forall|i: int| 0 <= i < pieces(s, sep).len() ==> !(#[trigger] pieces(s, sep)[i]).contains(sep),
    decreases s.len(),
{
    if s.len() > 0 {
        let front = pieces(s.drop_last(), sep);
        lemma_pieces_hold_no_separator(s.drop_last(), sep);
        lemma_pieces_nonempty(s.drop_last(), sep);
        assert forall|i: int| 0 <= i < pieces(s, sep).len() implies !(#[trigger] pieces(
            s,
            sep,
        )[i]).contains(sep) by {
            if s.last() != sep && i == front.len() - 1 {
                let last = front.last();
                assert(!front[i].contains(sep));
                assert forall|j: int| 0 <= j < last.push(s.last()).len() implies last.push(
                    s.last(),
                )[j] != sep by {
                    if j < last.len() {
                        assert(last.contains(last[j]));
                    }
                }
            } else if i < front.len() {
                assert(!front[i].contains(sep));
            }
        }
    }
}

/// Without a separator the whole sequence is the one piece.
pub proof fn lemma_pieces_of_unseparated<T>(s: Seq<T>, sep: T)
    requires
        !s.contains(sep),
    ensures
        pieces(s, sep) == seq![s],
    decreases s.len(),
{
    if s.len() > 0 {
        let front = s.drop_last();
        assert(s.contains(s.last()));
        assert forall|i: int| 0 <= i < front.len() implies front[i] != sep by {
            assert(s.contains(s[i]));
        }
        lemma_pieces_of_unseparated(front, sep);
        assert(front.push(s.last()) =~= s);
        assert(pieces(s, sep) =~= seq![s]);
    } else {
        assert(s =~= Seq::<T>::empty());
    }
}

/// Splitting at one separator splits both sides of it on their own.
pub proof fn lemma_pieces_of_concat<T>(a: Seq<T>, sep: T, b: Seq<T>)
    ensures
        pieces(a.push(sep) + b, sep) == pieces(a, sep) + pieces(b, sep),
    decreases b.len(),
{
    let s = a.push(sep) + b;
    lemma_pieces_nonempty(a, sep);
    lemma_pieces_nonempty(b, sep);
    if b.len() == 0 {
        assert(s.drop_last() =~= a);
        assert(pieces(s, sep) =~= pieces(a, sep) + pieces(b, sep));
    } else {
        assert(s.drop_last() =~= a.push(sep) + b.drop_last());
        assert(s.last() == b.last());
        lemma_pieces_of_concat(a, sep, b.drop_last());
        lemma_pieces_nonempty(b.drop_last(), sep);
        let front = pieces(b.drop_last(), sep);
        assert((pieces(a, sep) + front).last() == front.last());
        assert(pieces(s, sep) =~= pieces(a, sep) + pieces(b, sep));
    }
}

/// There is one piece exactly if the separator does not occur.
pub proof fn lemma_one_piece_iff_unseparated<T>(s: Seq<T>, sep: T)
    ensures
        pieces(s, sep).len() == 1 <==> !s.contains(sep),
{
    if s.contains(sep) {
        let at = choose|at: int| 0 <= at < s.len() && s[at] == sep;
        let a = s.take(at);
        let b = s.skip(at + 1);
        assert(s =~= a.push(sep) + b);
        lemma_pieces_of_concat(a, sep, b);
        lemma_pieces_nonempty(a, sep);
        lemma_pieces_nonempty(b, sep);
    } else {
        lemma_pieces_of_unseparated(s, sep);
    }
}

/// Joining one more part appends the separator and that part.
pub proof fn lemma_joined_push<T>(parts: Seq<Seq<T>>, sep: Seq<T>, part: Seq<T>)
    requires
        parts.len() > 0,
    ensures
        joined(parts.push(part), sep) == joined(parts, sep) + sep + part,
{
    assert(parts.push(part).drop_last() =~= parts);
}

/// Joining the pieces with another separator replaces each separator by it.
pub proof fn lemma_joining_replaces_the_separator<T>(s: Seq<T>, sep: T, other: T)
    ensures
        joined(pieces(s, sep), seq![other]) == replaced(s, sep, other),
    decreases s.len(),
{
    if s.len() > 0 {
        let front = pieces(s.drop_last(), sep);
        let done = replaced(s.drop_last(), sep, other);
        lemma_joining_replaces_the_separator(s.drop_last(), sep, other);
        lemma_pieces_nonempty(s.drop_last(), sep);
        if s.last() == sep {
            lemma_joined_push(front, seq![other], Seq::<T>::empty());
            assert(joined(pieces(s, sep), seq![other]) =~= done.push(other));
            assert(replaced(s, sep, other) =~= done.push(other));
        } else {
            let all = pieces(s, sep);
            assert(replaced(s, sep, other) =~= done.push(s.last()));
            if front.len() == 1 {
                assert(all[0] =~= done.push(s.last()));
            } else {
                assert(all.drop_last() =~= front.drop_last());
                assert(joined(all, seq![other]) =~= joined(front, seq![other]).push(s.last()));
            }
        }
    } else {
        assert(replaced(s, sep, other) =~= Seq::<T>::empty());
    }
}

/// Joining the pieces with the separator gives back what was split.
pub proof fn law_joining_the_pieces_restores_the_text<T>(s: Seq<T>, sep: T)
    ensures
        joined(pieces(s, sep), seq![sep]) == s,
{
    lemma_joining_replaces_the_separator(s, sep, sep);
    assert(replaced(s, sep, sep) =~= s);
}

/// A sequence has as a suffix whatever was appended to it.
pub proof fn lemma_appended_is_suffix<T>(s: Seq<T>, suffix: Seq<T>)
    ensures
        has_suffix(s + suffix, suffix),
{
    assert((s + suffix).skip(s.len() as int) =~= suffix);
}

/// The characters of `s`, in order.
pub fn chars_of(s: &str) -> (chars: Vec<char>)
    ensures
        chars@ == s@,
{
    let mut chars: Vec<char> = Vec::new();
    for c in it: s.chars()
        invariant
            it.seq() == s@,
            chars@ == s@.take(it.index()),
    {
        assert(s@.take(it.index() + 1) =~= s@.take(it.index()).push(c));
        chars.push(c);
    }
    assert(s@.take(s@.len() as int) =~= s@);
    chars
}

/// Whether two texts hold the same characters.
pub fn same_text(a: &str, b: &str) -> (same: bool)
    ensures
        same == (a@ == b@),
{
    a.to_owned() == b.to_owned()
}

/// Whether `chars` holds `needle` with its first character at index `at`.
fn matches_at(chars: &Vec<char>, needle: &Vec<char>, at: usize) -> (found: bool)
    requires
        at + needle@.len() <= chars@.len(),
    ensures
        found == occurs_at(chars@, needle@, at as int),
{
    let end: usize = chars.len();
    let mut i: usize = 0;
    while i < needle.len()
        invariant
            i <= needle@.len(),
            end == chars@.len(),
            at + needle@.len() <= end,
            forall|j: int| 0 <= j < i ==> chars@[at + j] == needle@[j],
        decreases needle@.len() - i,
    {
        if chars[at + i] != needle[i] {
            proof {
                let part = chars@.subrange(at as int, at + needle@.len());
                assert(part[i as int] != needle@[i as int]);
            }
            return false;
        }
        i = i + 1;
    }
    assert(chars@.subrange(at as int, at + needle@.len()) =~= needle@);
    true
}

/// Whether `s` ends with `suffix`.
pub fn ends_with(s: &str, suffix: &str) -> (found: bool)
    ensures
        found == has_suffix(s@, suffix@),
{
    let chars = chars_of(s);
    let tail = chars_of(suffix);
    if chars.len() < tail.len() {
        return false;
    }
    let at: usize = chars.len() - tail.len();
    assert(s@.subrange(at as int, s@.len() as int) =~= s@.skip(at as int));
    matches_at(&chars, &tail, at)
}

/// Whether `needle` occurs in `s`.
pub fn contains(s: &str, needle: &str) -> (found: bool)
    ensures
        found == has_infix(s@, needle@),
{
    let chars = chars_of(s);
    let wanted = chars_of(needle);
    if chars.len() < wanted.len() {
        return false;
    }
    let last: usize = chars.len() - wanted.len();
    let mut at: usize = 0;
    while at < last
        invariant
            at <= last,
            chars@ == s@,
            wanted@ == needle@,
            last == chars@.len() - wanted@.len(),
            forall|k: int| 0 <= k < at ==> !occurs_at(s@, needle@, k),
        decreases last - at,
    {
        if matches_at(&chars, &wanted, at) {
            assert(occurs_at(s@, needle@, at as int));
            return true;
        }
        at = at + 1;
    }
    let found = matches_at(&chars, &wanted, last);
    if found {
        assert(occurs_at(s@, needle@, last as int));
    }
    found
}

/// The pieces of `s` between the occurrences of `sep`, in order.
pub fn split<'a>(s: &'a str, sep: char) -> (parts: Vec<&'a str>)
    ensures
        slices_text(parts@) == pieces(s@, sep),
{
    let chars = chars_of(s);
    let mut parts: Vec<&'a str> = Vec::new();
    let mut start: usize = 0;
    let mut i: usize = 0;
    assert(s@.take(0) =~= Seq::<char>::empty());
    assert(s@.subrange(0, 0) =~= Seq::<char>::empty());
    assert(slices_text(parts@) =~= pieces(s@.take(0), sep).drop_last());
    while i < chars.len()
        invariant
            start <= i <= chars@.len(),
            chars@ == s@,
            pieces(s@.take(i as int), sep).len() > 0,
            slices_text(parts@) == pieces(s@.take(i as int), sep).drop_last(),
            s@.subrange(start as int, i as int) == pieces(s@.take(i as int), sep).last(),
        decreases chars@.len() - i,
    {
        let ghost before = pieces(s@.take(i as int), sep);
        let ghost seen = parts@;
        assert(s@.take(i + 1).drop_last() =~= s@.take(i as int));
        assert(s@.take(i + 1).last() == s@[i as int]);
        if chars[i] == sep {
            let part = s.substring_char(start, i);
            parts.push(part);
            start = i + 1;
            assert(pieces(s@.take(i + 1), sep).drop_last() =~= before);
            assert(slices_text(parts@) =~= slices_text(seen).push(before.last()));
            assert(slices_text(seen).push(before.last()) =~= before);
            assert(s@.subrange(i + 1, i + 1) =~= Seq::<char>::empty());
        } else {
            assert(pieces(s@.take(i + 1), sep).drop_last() =~= before.drop_last());
            assert(s@.subrange(start as int, i + 1) =~= s@.subrange(start as int, i as int).push(
                s@[i as int],
            ));
        }
        i = i + 1;
    }
    assert(s@.take(i as int) =~= s@);
    let ghost seen = parts@;
    parts.push(s.substring_char(start, i));
    assert(slices_text(parts@) =~= slices_text(seen).push(pieces(s@, sep).last()));
    assert(slices_text(parts@) =~= pieces(s@, sep));
    parts
}

/// All of `parts` in order, with `sep` between each two of them.
pub fn join(parts: &Vec<String>, sep: &str) -> (text: String)
    ensures
        text@ == joined(strings_text(parts@), sep@),
{
    let mut text = String::new();
    let mut i: usize = 0;
    assert(strings_text(parts@).take(0) =~= Seq::<Seq<char>>::empty());
    while i < parts.len()
        invariant
            i <= parts@.len(),
            text@ == joined(strings_text(parts@).take(i as int), sep@),
        decreases parts@.len() - i,
    {
        let ghost done = strings_text(parts@).take(i as int);
        let ghost before = text@;
        assert(strings_text(parts@).take(i + 1) =~= done.push(parts@[i as int]@));
        if i > 0 {
            proof {
                lemma_joined_push(done, sep@, parts@[i as int]@);
            }
            text.append(sep);
        }
        text.append(parts[i].as_str());
        assert(i == 0 ==> text@ =~= parts@[0]@);
        i = i + 1;
    }
    assert(strings_text(parts@).take(i as int) =~= strings_text(parts@));
    text
}

/// A text is split at every separator and nowhere else: what holds no separator is one
/// piece, and what stands in front of the first separator is the first of the pieces.
pub proof fn law_text_is_split_at_every_separator<T>(first: Seq<T>, sep: T, rest: Seq<T>)
    requires
        !first.contains(sep),
    ensures
        pieces(first, sep) == seq![first],
        pieces(first.push(sep) + rest, sep) == seq![first] + pieces(rest, sep),
{
    lemma_pieces_of_unseparated(first, sep);
    lemma_pieces_of_concat(first, sep, rest);
}

/// Joining puts the separator between each two parts, and nothing else.
pub proof fn law_parts_are_joined_with_the_separator_between_them<T>(
    first: Seq<T>,
    rest: Seq<Seq<T>>,
    sep: Seq<T>,
)
    ensures
        joined(Seq::<Seq<T>>::empty(), sep) == Seq::<T>::empty(),
        joined(seq![first], sep) == first,
        rest.len() > 0 ==> joined(seq![first] + rest, sep) == first + sep + joined(rest, sep),
    decreases rest.len(),
{
    let all = seq![first] + rest;
    if rest.len() == 1 {
        assert(all.drop_last() =~= seq![first]);
        assert(joined(all.drop_last(), sep) == first);
        assert(all.last() == rest[0]);
        assert(joined(all, sep) == first + sep + rest[0]);
    } else if rest.len() > 1 {
        law_parts_are_joined_with_the_separator_between_them(first, rest.drop_last(), sep);
        assert(all.drop_last() =~= seq![first] + rest.drop_last());
        assert(all.last() == rest.last());
        assert(joined(all, sep) =~= first + sep + joined(rest, sep));
    }
}

/// Replacing keeps the length, puts the new element in place of each old one, and leaves
/// everything else.
pub proof fn law_replacing_changes_only_what_is_replaced<T>(s: Seq<T>, from: T, to: T, i: int)
    requires
        0 <= i < s.len(),
    ensures
        replaced(s, from, to).len() == s.len(),
        s[i] == from ==> replaced(s, from, to)[i] == to,
        s[i] != from ==> replaced(s, from, to)[i] == s[i],
{
}

/// A text ends with a suffix exactly if it is some text with that suffix behind it.
pub proof fn law_suffix_stands_behind_a_stem<T>(s: Seq<T>, suffix: Seq<T>)
    ensures
        has_suffix(s, suffix) <==> exists|stem: Seq<T>| s == #[trigger] (stem + suffix),
{
    if has_suffix(s, suffix) {
        assert(s =~= s.take(s.len() - suffix.len()) + suffix);
    }
    if exists|stem: Seq<T>| s == #[trigger] (stem + suffix) {
        let stem = choose|stem: Seq<T>| s == #[trigger] (stem + suffix);
        lemma_appended_is_suffix(stem, suffix);
    }
}

/// A text holds another exactly if it is that text with something in front of it and
/// something behind it.
pub proof fn law_infix_stands_between_two_texts<T>(s: Seq<T>, needle: Seq<T>)
    ensures
        has_infix(s, needle) <==> exists|a: Seq<T>, b: Seq<T>| s == #[trigger] (a + needle + b),
{
    if has_infix(s, needle) {
        let at = choose|at: int| occurs_at(s, needle, at);
        assert(s =~= s.take(at) + needle + s.skip(at + needle.len()));
    }
    if exists|a: Seq<T>, b: Seq<T>| s == #[trigger] (a + needle + b) {
        let (a, b) = choose|a: Seq<T>, b: Seq<T>| s == #[trigger] (a + needle + b);
        assert(s.subrange(a.len() as int, (a.len() + needle.len()) as int) =~= needle);
        assert(occurs_at(s, needle, a.len() as int));
    }
}

/// Sequences of strings, and optional strings, are seen with all that they hold.
pub proof fn law_strings_are_seen_as_they_are(
    slices: Seq<&str>,
    strings: Seq<String>,
    slice: Option<&str>,
    string: Option<String>,
)
    ensures
        slices_text(slices).len() == slices.len(),
        forall|i: int| 0 <= i < slices.len() ==> #[trigger] slices_text(slices)[i] == slices[i]@,
        strings_text(strings).len() == strings.len(),
        forall|i: int|
            0 <= i < strings.len() ==> #[trigger] strings_text(strings)[i] == strings[i]@,
        slice is None <==> optional_slice_text(slice) is None,
        slice is Some ==> optional_slice_text(slice) == Some(slice->0@),
        string is None <==> optional_text(string) is None,
        string is Some ==> optional_text(string) == Some(string->0@),
{
}

/// A part of a text stands alone exactly if it has no ASCII letter or digit next to it,
/// and in lower case it differs from another only in letters.
pub proof fn law_words_are_told_apart_by_letters_and_digits(s: Seq<char>, from: int, to: int)
    requires
        0 <= from <= to <= s.len(),
    ensures
        stands_alone(s, from, to) <==> (from > 0 ==> !('a' <= s[from - 1] <= 'z' || 'A' <= s[from
            - 1] <= 'Z' || '0' <= s[from - 1] <= '9')) && (to < s.len() ==> !('a' <= s[to] <= 'z'
            || 'A' <= s[to] <= 'Z' || '0' <= s[to] <= '9')),
        lowered(s).len() == s.len(),
        forall|i: int|
            0 <= i < s.len() ==> if 'A' <= s[i] <= 'Z' {
                (#[trigger] lowered(s)[i]) as int == s[i] as int + 32
            } else {
                lowered(s)[i] == s[i]
            },
        is_ascii_text(s) <==> forall|i: int| 0 <= i < s.len() ==> (#[trigger] s[i]) as u32 <= 127,
{
}

} // verus!
