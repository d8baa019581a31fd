//! The file names that paths end with.

use vstd::prelude::*;
use vstd::string::*;
use vstd::utf8::{decode_utf8, valid_utf8};

use crate::error::{Fault, UbiError};
use crate::text::{
    chars_of, has_infix, join, lemma_joining_replaces_the_separator,
    lemma_one_piece_iff_unseparated, lemma_pieces_nonempty,
    lemma_pieces_of_concat, lemma_pieces_of_unseparated, optional_slice_text, optional_text,
    pieces, replaced, same_text, slices_text, split, strings_text,
};

verus! {

/// The last of the parts of a path that is neither empty nor a single dot.
pub open spec fn last_named<T>(parts: Seq<Seq<T>>, dot: T) -> Option<Seq<T>>
    decreases parts.len(),
{
    if parts.len() == 0 {
        None
    } else if parts.last().len() == 0 || parts.last() == seq![dot] {
        last_named(parts.drop_last(), dot)
    } else {
        Some(parts.last())
    }
}

/// The file name of a path whose parts are separated by `slash`: its last part, not
/// counting empty parts and single dots. A path has no file name if no part is left,
/// or if that part is two dots, which stand for the parent directory.
pub open spec fn file_name_of<T>(path: Seq<T>, slash: T, dot: T) -> Option<Seq<T>> {
    match last_named(pieces(path, slash), dot) {
        Some(name) if name != seq![dot, dot] => Some(name),
        _ => None,
    }
}

/// Whether `c` is a separator on Windows.
pub open spec fn is_windows_separator(c: char) -> bool {
    c == '/' || c == '\\'
}

/// Whether `path` is read part by part, with nothing in it that Windows may take for a
/// prefix: there a colon can belong to a drive, and two separators in front begin the
/// name of a share or of a device.
pub open spec fn is_plain(path: Seq<char>, windows: bool) -> bool {
    windows ==> {
        &&& !path.contains(':')
        &&& !(path.len() >= 2 && is_windows_separator(path[0]) && is_windows_separator(path[1]))
    }
}

/// The file name of a path that is read part by part. On Windows the backslash is a
/// separator too.
pub open spec fn plain_name(path: Seq<char>, windows: bool) -> Option<Seq<char>> {
    if windows {
        file_name_of(replaced(path, '\\', '/'), '/', '.')
    } else {
        file_name_of(path, '/', '.')
    }
}

/// Whether every platform reads `path` alike: it holds nothing that is a separator
/// or part of a prefix on one platform and part of a name on another.
pub open spec fn is_portable(path: Seq<char>) -> bool {
    is_plain(path, true) && !path.contains('\\')
}

/// What the bytes show as text, as `String::from_utf8_lossy` of the standard library
/// decodes them: what is not UTF-8 is replaced.
pub uninterp spec fn lossy_text(bytes: Seq<u8>) -> Seq<char>;

/// Calls `std::path::Path::file_name`, and claims that a file name is a part of the
/// path that is not empty. Which part it is depends on what the platform takes for a
/// prefix, and is not said.
#[verifier::external_body]
fn file_name(path: &str) -> (name: Option<String>)
    ensures
        name is Some ==> name->0@.len() > 0 && has_infix(path@, name->0@),
{
    std::path::Path::new(path).file_name().and_then(|n| n.to_str()).map(|n| n.to_string())
}

/// Calls `std::str::from_utf8`, and claims that it decodes bytes that are valid UTF-8
/// and rejects all others.
#[verifier::external_body]
fn utf8_text(bytes: &[u8]) -> (text: Option<&str>)
    ensures
        match text {
            Some(text) => valid_utf8(bytes@) && text@ == decode_utf8(bytes@),
            None => !valid_utf8(bytes@),
        },
{
    std::str::from_utf8(bytes).ok()
}

/// Calls `String::from_utf8_lossy`, and claims that its result depends on the bytes
/// alone.
#[verifier::external_body]
fn lossy(bytes: &[u8]) -> (text: String)
    ensures
        text@ == lossy_text(bytes@),
{
    String::from_utf8_lossy(bytes).into_owned()
}

/// The file name of a path, by the rules of Unix.
pub fn file_name_text(path: &str) -> (name: Option<&str>)
    ensures
        optional_slice_text(name) == file_name_of(path@, '/', '.'),
{
    let parts = split(path, '/');
    let ghost texts = pieces(path@, '/');
    assert(texts.len() == parts@.len());
    let mut left: usize = parts.len();
    assert(texts.take(left as int) =~= texts);
    while left > 0
        invariant
            left <= parts@.len(),
            texts == slices_text(parts@),
            texts == pieces(path@, '/'),
            last_named(texts.take(left as int), '.') == last_named(texts, '.'),
        decreases left,
    {
        let part = parts[left - 1];
        let ghost rest = texts.take(left as int);
        assert(rest.last() == part@);
        assert(rest.drop_last() =~= texts.take(left - 1));
        proof {
            reveal_strlit(".");
            reveal_strlit("..");
            assert("."@ =~= seq!['.']);
            assert(".."@ =~= seq!['.', '.']);
        }
        if !part.is_empty() && !same_text(part, ".") {
            if same_text(part, "..") {
                return None;
            }
            return Some(part);
        }
        left = left - 1;
    }
    None
}

/// The file name of a path of bytes, by the rules of Unix.
pub fn file_name_bytes(path: &[u8]) -> (name: Option<&[u8]>)
    ensures
        match name {
            Some(name) => file_name_of(path@, 47u8, 46u8) == Some(name@),
            None => file_name_of(path@, 47u8, 46u8) is None,
        },
{
    let mut end: usize = path.len();
    assert(path@.take(end as int) =~= path@);
    loop
        invariant
            end <= path@.len(),
            last_named(pieces(path@.take(end as int), 47u8), 46u8) == last_named(
                pieces(path@, 47u8),
                46u8,
            ),
        decreases end,
    {
        let mut start: usize = end;
        while start > 0 && path[start - 1] != 47u8
            invariant
                start <= end <= path@.len(),
                forall|k: int| start <= k < end ==> path@[k] != 47u8,
            decreases start,
        {
            start = start - 1;
        }
        let ghost part = path@.subrange(start as int, end as int);
        let ghost parts = pieces(path@.take(end as int), 47u8);
        assert(!part.contains(47u8));
        proof {
            lemma_pieces_of_unseparated(part, 47u8);
            if start == 0 {
                assert(path@.take(end as int) =~= part);
                assert(parts.drop_last() =~= Seq::<Seq<u8>>::empty());
            } else {
                let before = path@.take(start - 1);
                assert(path@.take(end as int) =~= before.push(47u8) + part);
                lemma_pieces_of_concat(before, 47u8, part);
                assert(parts.drop_last() =~= pieces(before, 47u8));
            }
            assert(parts.last() == part);
        }
        let length: usize = end - start;
        let unnamed = length == 0 || (length == 1 && path[start] == 46u8);
        assert(unnamed == (part.len() == 0 || part == seq![46u8])) by {
            if unnamed && length == 1 {
                assert(part =~= seq![46u8]);
            }
            if part == seq![46u8] {
                assert(part[0] == 46u8);
            }
        }
        if !unnamed {
            let parent = length == 2 && path[start] == 46u8 && path[start + 1] == 46u8;
            assert(parent == (part == seq![46u8, 46u8])) by {
                if parent {
                    assert(part =~= seq![46u8, 46u8]);
                }
                if part == seq![46u8, 46u8] {
                    assert(part[0] == 46u8 && part[1] == 46u8);
                }
            }
            if parent {
                return None;
            }
            let name = vstd::slice::slice_subrange(path, start, end);
            return Some(name);
        }
        assert(last_named(parts, 46u8) == last_named(parts.drop_last(), 46u8));
        if start == 0 {
            assert(last_named(parts.drop_last(), 46u8) is None);
            return None;
        }
        end = start - 1;
    }
}

/// Whether `name` is the file name that a platform reads in `path`. Where Windows may
/// take something for a prefix, it is a part of the path, if there is one.
pub open spec fn is_member_name(path: Seq<char>, windows: bool, name: Option<Seq<char>>) -> bool {
    if is_plain(path, windows) {
        name == plain_name(path, windows)
    } else {
        name is Some ==> name->0.len() > 0 && has_infix(path, name->0)
    }
}

/// `path` with slashes in place of its backslashes.
fn slashed(path: &str) -> (text: String)
    ensures
        text@ == replaced(path@, '\\', '/'),
{
    let parts = split(path, '\\');
    let ghost texts = pieces(path@, '\\');
    assert(texts.len() == parts@.len());
    let mut owned: Vec<String> = Vec::new();
    let mut i: usize = 0;
    while i < parts.len()
        invariant
            i <= parts@.len(),
            texts == slices_text(parts@),
            strings_text(owned@) == texts.take(i as int),
        decreases parts@.len() - i,
    {
        let ghost before = owned@;
        owned.push(parts[i].to_owned());
        assert(strings_text(owned@) =~= strings_text(before).push(texts[i as int]));
        assert(texts.take(i + 1) =~= texts.take(i as int).push(texts[i as int]));
        i = i + 1;
    }
    assert(texts.take(i as int) =~= texts);
    proof {
        reveal_strlit("/");
        assert("/"@ =~= seq!['/']);
        lemma_joining_replaces_the_separator(path@, '\\', '/');
    }
    join(&owned, "/")
}

/// Whether Windows reads `path` part by part.
fn is_plain_on_windows(path: &str) -> (plain: bool)
    ensures
        plain == is_plain(path@, true),
{
    let chars = chars_of(path);
    if chars.len() >= 2 && (chars[0] == '/' || chars[0] == '\\') && (chars[1] == '/' || chars[1]
        == '\\') {
        return false;
    }
    let mut i: usize = 0;
    while i < chars.len()
        invariant
            i <= chars@.len(),
            chars@ == path@,
            forall|j: int| 0 <= j < i ==> path@[j] != ':',
        decreases chars@.len() - i,
    {
        if chars[i] == ':' {
            assert(path@.contains(path@[i as int]));
            return false;
        }
        i = i + 1;
    }
    true
}

/// The file name that a platform reads in `path`.
pub fn member_name(path: &str, windows: bool) -> (name: Option<String>)
    ensures
        is_member_name(path@, windows, optional_text(name)),
{
    if windows && !is_plain_on_windows(path) {
        return file_name(path);
    }
    let text = if windows {
        slashed(path)
    } else {
        path.to_owned()
    };
    match file_name_text(text.as_str()) {
        Some(name) => Some(name.to_owned()),
        None => None,
    }
}

/// Where all platforms read a path alike, they read the same file name in it.
pub proof fn law_portable_paths_have_one_file_name(path: Seq<char>, windows: bool)
    requires
        is_portable(path),
    ensures
        is_plain(path, windows),
        plain_name(path, windows) == file_name_of(path, '/', '.'),
{
    assert forall|i: int| 0 <= i < path.len() implies path[i] != '\\' by {
        assert(path.contains(path[i]));
    }
    assert(replaced(path, '\\', '/') =~= path);
}

/// The file name that a platform other than Windows reads in a path of bytes: its last
/// part, if that part is Unicode.
pub open spec fn unix_entry_name(path: Seq<u8>) -> Option<Seq<char>> {
    if valid_utf8(path) {
        file_name_of(decode_utf8(path), '/', '.')
    } else {
        match file_name_of(path, 47u8, 46u8) {
            Some(name) if valid_utf8(name) => Some(decode_utf8(name)),
            _ => None,
        }
    }
}

/// Whether an entry's path is read part by part.
pub open spec fn is_plain_entry(path: Seq<u8>, windows: bool) -> bool {
    windows && valid_utf8(path) ==> is_plain(decode_utf8(path), windows)
}

/// The file name of an entry whose path is read part by part. Of paths that are not
/// Unicode, Windows makes nothing.
pub open spec fn plain_entry_name(path: Seq<u8>, windows: bool) -> Result<
    Option<Seq<char>>,
    Fault<Seq<char>>,
> {
    if !windows {
        Ok(unix_entry_name(path))
    } else if valid_utf8(path) {
        Ok(plain_name(decode_utf8(path), windows))
    } else {
        Err(Fault::NonUnicodePath(lossy_text(path)))
    }
}

/// Whether `r` is the file name that an archive's entry of this path is taken to
/// have: the one that the platform reads in it.
pub open spec fn is_entry_name(
    path: Seq<u8>,
    windows: bool,
    r: Result<Option<Seq<char>>, Fault<Seq<char>>>,
) -> bool {
    if is_plain_entry(path, windows) {
        r == plain_entry_name(path, windows)
    } else {
        r is Ok && is_member_name(decode_utf8(path), windows, r->Ok_0)
    }
}

/// An optional text, or the reason why there is no telling, by what it holds.
pub open spec fn name_view(r: Result<Option<String>, UbiError>) -> Result<
    Option<Seq<char>>,
    Fault<Seq<char>>,
> {
    match r {
        Ok(name) => Ok(optional_text(name)),
        Err(fault) => Err(fault@),
    }
}

/// The file name of an archive's entry of this path.
pub fn entry_name(path: &[u8], windows: bool) -> (r: Result<Option<String>, UbiError>)
    ensures
        is_entry_name(path@, windows, name_view(r)),
{
    match utf8_text(path) {
        Some(text) => Ok(member_name(text, windows)),
        None => {
            if windows {
                return Err(Fault::NonUnicodePath(lossy(path)));
            }
            match file_name_bytes(path) {
                Some(name) => match utf8_text(name) {
                    Some(text) => Ok(Some(text.to_owned())),
                    None => Ok(None),
                },
                None => Ok(None),
            }
        },
    }
}

/// The extension of a file of this name: what follows its last dot. A name without a
/// dot, or whose only dot is its first character, has no extension.
pub open spec fn extension_of(name: Seq<char>) -> Option<Seq<char>> {
    let parts = pieces(name, '.');
    if parts.len() == 1 || name == ".."@ || (parts.len() == 2 && parts[0].len() == 0) {
        None
    } else {
        Some(parts.last())
    }
}

/// The extension of a file of this name.
pub fn extension(name: &str) -> (extension: Option<&str>)
    ensures
        match extension {
            Some(extension) => extension_of(name@) == Some(extension@),
            None => extension_of(name@) is None,
        },
{
    let parts = split(name, '.');
    let ghost texts = pieces(name@, '.');
    assert(texts.len() == parts@.len());
    assert(forall|i: int| 0 <= i < parts@.len() ==> texts[i] == (#[trigger] parts@[i])@);
    let count: usize = parts.len();
    proof {
        lemma_pieces_nonempty(name@, '.');
    }
    if count == 1 || same_text(name, "..") || (count == 2 && parts[0].is_empty()) {
        None
    } else {
        Some(parts[count - 1])
    }
}

/// One more part of a path is its file name, unless it is empty or a single dot, which
/// count for nothing, or two dots, with which there is no file name.
pub proof fn law_the_last_part_is_the_file_name<T>(dir: Seq<T>, name: Seq<T>, slash: T, dot: T)
    requires
        slash != dot,
        !name.contains(slash),
    ensures
        name.len() == 0 || name == seq![dot] ==> file_name_of(dir.push(slash) + name, slash, dot)
            == file_name_of(dir, slash, dot) && file_name_of(name, slash, dot) is None,
        name == seq![dot, dot] ==> file_name_of(dir.push(slash) + name, slash, dot) is None
            && file_name_of(name, slash, dot) is None,
        name.len() > 0 && name != seq![dot] && name != seq![dot, dot] ==> file_name_of(
            dir.push(slash) + name,
            slash,
            dot,
        ) == Some(name) && file_name_of(name, slash, dot) == Some(name),
{
    lemma_pieces_of_concat(dir, slash, name);
    lemma_pieces_of_unseparated(name, slash);
    let before = pieces(dir, slash);
    let parts = pieces(dir.push(slash) + name, slash);
    assert(parts.drop_last() =~= before);
    assert(parts.last() == name);
    let alone = pieces(name, slash);
    assert(alone.drop_last() =~= Seq::<Seq<T>>::empty());
    assert(last_named(alone.drop_last(), dot) is None);
    assert(alone.last() == name);
}

/// On Windows both the slash and the backslash stand in front of the file name; on other
/// platforms only the slash does.
pub proof fn law_file_name_stands_behind_a_separator(
    dir: Seq<char>,
    separator: char,
    name: Seq<char>,
)
    requires
        separator == '/' || separator == '\\',
        !name.contains('/'),
        !name.contains('\\'),
    ensures
        name.len() > 0 && name != "."@ && name != ".."@ ==> plain_name(
            dir.push(separator) + name,
            true,
        ) == Some(name) && plain_name(name, true) == Some(name) && plain_name(
            dir.push('/') + name,
            false,
        ) == Some(name) && plain_name(name, false) == Some(name),
        name == ".."@ ==> plain_name(dir.push(separator) + name, true) is None && plain_name(
            dir.push('/') + name,
            false,
        ) is None,
        name.len() == 0 || name == "."@ ==> plain_name(dir.push(separator) + name, true)
            == plain_name(dir, true) && plain_name(dir.push('/') + name, false) == plain_name(
            dir,
            false,
        ),
{
    reveal_strlit(".");
    reveal_strlit("..");
    assert("."@ =~= seq!['.']);
    assert(".."@ =~= seq!['.', '.']);
    law_the_last_part_is_the_file_name(dir, name, '/', '.');
    law_the_last_part_is_the_file_name(replaced(dir, '\\', '/'), name, '/', '.');
    assert forall|i: int| 0 <= i < name.len() implies name[i] != '\\' by {
        assert(name.contains(name[i]));
    }
    assert(replaced(name, '\\', '/') =~= name);
    assert(replaced(dir.push(separator) + name, '\\', '/') =~= replaced(dir, '\\', '/').push('/')
        + name);
}

/// Only on Windows, and only with a colon or two separators in front, may a path have a
/// prefix.
pub proof fn law_paths_are_read_part_by_part(path: Seq<char>)
    ensures
        is_plain(path, false),
        is_plain(path, true) <==> !path.contains(':') && (path.len() >= 2 ==> !((path[0] == '/'
            || path[0] == '\\') && (path[1] == '/' || path[1] == '\\'))),
        is_portable(path) <==> is_plain(path, true) && !path.contains('\\'),
{
}

/// What is read in a path part by part is exact. Of a path that may have a prefix, a part
/// is read that is not empty, or nothing.
pub proof fn law_read_names_are_those_of_the_path(
    path: Seq<char>,
    windows: bool,
    name: Option<Seq<char>>,
)
    ensures
        is_plain(path, windows) ==> (is_member_name(path, windows, name) <==> name == plain_name(
            path,
            windows,
        )),
        !is_plain(path, windows) ==> (is_member_name(path, windows, name) <==> (name is Some
            ==> name->0.len() > 0 && has_infix(path, name->0))),
{
}

/// What is read in the path of an entry. It is decoded where it is Unicode. Otherwise
/// Windows gives up, and other platforms take the last part if that is Unicode.
pub proof fn law_read_entries_are_those_of_the_path(
    path: Seq<u8>,
    windows: bool,
    r: Result<Option<Seq<char>>, Fault<Seq<char>>>,
)
    requires
        is_entry_name(path, windows, r),
    ensures
        valid_utf8(path) ==> r is Ok && is_member_name(decode_utf8(path), windows, r->Ok_0),
        !valid_utf8(path) && windows ==> r == Err::<Option<Seq<char>>, Fault<Seq<char>>>(
            Fault::NonUnicodePath(lossy_text(path)),
        ),
        !valid_utf8(path) && !windows ==> {
            let name = file_name_of(path, 47u8, 46u8);
            &&& r is Ok
            &&& name is Some && valid_utf8(name->0) ==> r->Ok_0 == Some(decode_utf8(name->0))
            &&& name is None || !valid_utf8(name->0) ==> r->Ok_0 is None
        },
        is_plain_entry(path, windows) ==> r == plain_entry_name(path, windows),
        is_plain_entry(path, windows) <==> (windows && valid_utf8(path) ==> is_plain(
            decode_utf8(path),
            true,
        )),
{
}

/// An extension is what follows the last dot. There is none without a dot, and none where
/// the only dot is the first character; nor has the name of the parent directory one.
pub proof fn law_extension_follows_the_last_dot(stem: Seq<char>, ext: Seq<char>)
    requires
        !ext.contains('.'),
    ensures
        extension_of(ext) is None,
        extension_of(Seq::<char>::empty().push('.') + ext) is None,
        stem.len() > 0 && stem.push('.') + ext != ".."@ ==> extension_of(stem.push('.') + ext)
            == Some(ext),
        extension_of(".."@) is None,
{
    let none = Seq::<char>::empty();
    let name = stem.push('.') + ext;
    lemma_pieces_of_unseparated(ext, '.');
    lemma_pieces_of_unseparated(none, '.');
    lemma_pieces_of_concat(none, '.', ext);
    lemma_pieces_of_concat(stem, '.', ext);
    lemma_pieces_nonempty(stem, '.');
    assert(pieces(none.push('.') + ext, '.') =~= seq![none, ext]);
    let parts = pieces(name, '.');
    assert(parts.last() == ext);
    if parts.len() == 2 {
        lemma_one_piece_iff_unseparated(stem, '.');
        lemma_pieces_of_unseparated(stem, '.');
        assert(parts[0] == stem);
    }
}

/// A name that was read is seen with all that it holds.
pub proof fn law_names_are_seen_as_they_are(r: Result<Option<String>, UbiError>)
    ensures
        match r {
            Ok(Some(name)) => name_view(r) == Ok::<Option<Seq<char>>, Fault<Seq<char>>>(
                Some(name@),
            ),
            Ok(None) => name_view(r) == Ok::<Option<Seq<char>>, Fault<Seq<char>>>(None),
            Err(fault) => name_view(r) == Err::<Option<Seq<char>>, Fault<Seq<char>>>(fault@),
        },
{
}

} // verus!
