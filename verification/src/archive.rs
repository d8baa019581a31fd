//! Downloaded files: what kind of archive each is, and where in it the executable
//! lies.

use vstd::prelude::*;
use vstd::string::*;

use crate::error::{Fault, UbiError};
use crate::path::{
    extension, extension_of, law_extension_follows_the_last_dot, name_view,
};
use crate::text::{
    ends_with, has_suffix, law_suffix_stands_behind_a_stem, lemma_appended_is_suffix,
    lemma_one_piece_iff_unseparated, lemma_pieces_nonempty, lemma_pieces_of_concat,
    lemma_pieces_of_unseparated, optional_text, pieces, same_text,
};

verus! {

/// What is done with a downloaded file.
#[derive(Clone, Copy, Debug, PartialEq, Eq, Structural)]
pub enum ArchiveKind {
    /// An entry of it is unpacked.
    Tarball,
    /// A member of it is extracted.
    Zip,
    /// It is uncompressed.
    Gzip,
    /// It is copied.
    Executable,
}

/// How a tarball is compressed.
#[derive(Clone, Copy, Debug, PartialEq, Eq, Structural)]
pub enum Compression {
    Plain,
    Bzip2,
    Gzip,
    Xz,
}

/// What is done with a downloaded file of this name.
pub open spec fn kind_of(name: Seq<char>) -> ArchiveKind {
    if has_suffix(name, ".tar.gz"@) || has_suffix(name, ".tgz"@) || has_suffix(name, ".tar.bz"@)
        || has_suffix(name, ".tbz"@) {
        ArchiveKind::Tarball
    } else if has_suffix(name, ".zip"@) {
        ArchiveKind::Zip
    } else if has_suffix(name, ".gz"@) {
        ArchiveKind::Gzip
    } else {
        ArchiveKind::Executable
    }
}

/// How a tarball with this extension is compressed.
pub open spec fn compression_of(extension: Option<Seq<char>>) -> Result<
    Compression,
    Fault<Seq<char>>,
> {
    match extension {
        None => Ok(Compression::Plain),
        Some(e) => if e == "bz"@ || e == "tbz"@ {
            Ok(Compression::Bzip2)
        } else if e == "gz"@ || e == "tgz"@ {
            Ok(Compression::Gzip)
        } else if e == "xz"@ || e == "txz"@ {
            Ok(Compression::Xz)
        } else {
            Err(Fault::TarballExtension(e))
        },
    }
}

/// A compression, or the reason why there is none, by what it holds.
pub open spec fn compression_view(r: Result<Compression, UbiError>) -> Result<
    Compression,
    Fault<Seq<char>>,
> {
    match r {
        Ok(compression) => Ok(compression),
        Err(fault) => Err(fault@),
    }
}

/// What is done with a downloaded file of this name.
pub fn extract_binary(name: &str) -> (kind: ArchiveKind)
    ensures
        kind == kind_of(name@),
{
    if ends_with(name, ".tar.gz") || ends_with(name, ".tgz") || ends_with(name, ".tar.bz")
        || ends_with(name, ".tbz") {
        ArchiveKind::Tarball
    } else if ends_with(name, ".zip") {
        ArchiveKind::Zip
    } else if ends_with(name, ".gz") {
        ArchiveKind::Gzip
    } else {
        ArchiveKind::Executable
    }
}

/// How a tarball of this name is to be read.
pub fn tar_reader_for(name: &str) -> (r: Result<Compression, UbiError>)
    ensures
        compression_view(r) == compression_of(extension_of(name@)),
{
    match extension(name) {
        None => Ok(Compression::Plain),
        Some(e) => if same_text(e, "bz") || same_text(e, "tbz") {
            Ok(Compression::Bzip2)
        } else if same_text(e, "gz") || same_text(e, "tgz") {
            Ok(Compression::Gzip)
        } else if same_text(e, "xz") || same_text(e, "txz") {
            Ok(Compression::Xz)
        } else {
            Err(Fault::TarballExtension(e.to_owned()))
        },
    }
}

/// What is known of one member of an archive: its file name, where it has one, or
/// why it cannot be told.
pub type MemberName = Result<Option<Seq<char>>, Fault<Seq<char>>>;

/// Searches the members from index `from` on for one whose file name is `exe`. The
/// search ends at the first such member, or at a member that cannot be told.
pub open spec fn search(members: Seq<MemberName>, exe: Seq<char>, from: int) -> Result<
    Option<int>,
    Fault<Seq<char>>,
>
    decreases members.len() - from,
{
    if from >= members.len() {
        Ok(None)
    } else {
        match members[from] {
            Err(fault) => Err(fault),
            Ok(name) => if name == Some(exe) {
                Ok(Some(from))
            } else {
                search(members, exe, from + 1)
            },
        }
    }
}

/// What is known of each member of an archive.
pub open spec fn member_names(members: Seq<Result<Option<String>, UbiError>>) -> Seq<MemberName> {
    Seq::new(members.len(), |i: int| name_view(members[i]))
}

/// An index, or the reason why there is none, by what it holds.
pub open spec fn index_view(r: Result<usize, UbiError>) -> Result<int, Fault<Seq<char>>> {
    match r {
        Ok(index) => Ok(index as int),
        Err(fault) => Err(fault@),
    }
}

/// The index of the first member whose file name is `exe`, or why there is none:
/// `missing` if the search ended without finding it.
pub open spec fn located(
    members: Seq<MemberName>,
    exe: Seq<char>,
    missing: Fault<Seq<char>>,
) -> Result<int, Fault<Seq<char>>> {
    match search(members, exe, 0) {
        Ok(Some(index)) => Ok(index),
        Ok(None) => Err(missing),
        Err(fault) => Err(fault),
    }
}

/// Whether an optional text is this text.
fn is_named(name: &Option<String>, exe: &str) -> (same: bool)
    ensures
        same == (optional_text(*name) == Some(exe@)),
{
    match name {
        Some(name) => same_text(name.as_str(), exe),
        None => false,
    }
}

/// Finds the first member whose file name is `exe`; without one, `missing` is why.
pub fn locate(
    members: Vec<Result<Option<String>, UbiError>>,
    exe: &str,
    missing: UbiError,
) -> (r: Result<usize, UbiError>)
    ensures
        index_view(r) == located(member_names(members@), exe@, missing@),
{
    let ghost names = member_names(members@);
    let mut rest = members;
    let mut i: usize = 0;
    while i < rest.len()
        invariant
            i <= rest@.len(),
            names == member_names(members@),
            names == member_names(rest@),
            search(names, exe@, 0) == search(names, exe@, i as int),
        decreases rest@.len() - i,
    {
        match &rest[i] {
            Ok(name) => {
                if is_named(name, exe) {
                    return Ok(i);
                }
            },
            Err(_) => {
                match rest.swap_remove(i) {
                    Err(fault) => {
                        return Err(fault);
                    },
                    Ok(_) => {
                        assert(false);
                    },
                }
            },
        }
        i = i + 1;
    }
    Err(missing)
}

/// A search that starts at `from` ends at the first member from there on that either
/// has the file name `exe` or cannot be told, and comes to nothing if there is none.
pub proof fn lemma_search(members: Seq<MemberName>, exe: Seq<char>, from: int)
    requires
        0 <= from <= members.len(),
    ensures
        match search(members, exe, from) {
            Ok(Some(i)) => {
                &&& from <= i < members.len()
                &&& members[i] == Ok::<Option<Seq<char>>, Fault<Seq<char>>>(Some(exe))
                &&& forall|j: int| from <= j < i ==> is_passed_over(#[trigger] members[j], exe)
            },
            Ok(None) => forall|j: int|
                from <= j < members.len() ==> is_passed_over(#[trigger] members[j], exe),
            Err(fault) => exists|i: int|
                {
                    &&& from <= i < members.len()
                    &&& #[trigger] members[i] == Err::<Option<Seq<char>>, Fault<Seq<char>>>(fault)
                    &&& forall|j: int|
                        from <= j < i ==> is_passed_over(#[trigger] members[j], exe)
                },
        },
    decreases members.len() - from,
{
    if from < members.len() && is_passed_over(members[from], exe) {
        lemma_search(members, exe, from + 1);
    }
}

/// Whether a member is told to have another file name than `exe`, or none.
pub open spec fn is_passed_over(member: MemberName, exe: Seq<char>) -> bool {
    member is Ok && member->Ok_0 != Some(exe)
}

/// A member is located exactly if its file name is the executable's and every member
/// before it is told to have another one, or none.
pub proof fn law_the_first_member_of_that_name_is_located(
    members: Seq<MemberName>,
    exe: Seq<char>,
    missing: Fault<Seq<char>>,
    i: int,
)
    ensures
        located(members, exe, missing) == Ok::<int, Fault<Seq<char>>>(i) <==> {
            &&& 0 <= i < members.len()
            &&& members[i] == Ok::<Option<Seq<char>>, Fault<Seq<char>>>(Some(exe))
            &&& forall|j: int|
                0 <= j < i ==> (#[trigger] members[j]) is Ok && members[j]->Ok_0 != Some(exe)
        },
{
    lemma_search(members, exe, 0);
    if 0 <= i < members.len() && members[i] == Ok::<Option<Seq<char>>, Fault<Seq<char>>>(Some(exe))
        && (forall|j: int|
        0 <= j < i ==> (#[trigger] members[j]) is Ok && members[j]->Ok_0 != Some(exe)) {
        assert(!is_passed_over(members[i], exe));
        match search(members, exe, 0) {
            Ok(Some(k)) => {
                assert(!is_passed_over(members[k], exe));
                assert(k == i);
            },
            Ok(None) => {},
            Err(fault) => {
                let k = choose|k: int|
                    {
                        &&& 0 <= k < members.len()
                        &&& #[trigger] members[k] == Err::<Option<Seq<char>>, Fault<Seq<char>>>(
                            fault,
                        )
                        &&& forall|j: int|
                            0 <= j < k ==> is_passed_over(#[trigger] members[j], exe)
                    };
                assert(!is_passed_over(members[k], exe));
            },
        }
    }
}

/// Where every member can be told, the executable is missing exactly if no member has
/// its file name.
pub proof fn law_the_executable_is_missing_only_if_no_member_has_its_name(
    members: Seq<MemberName>,
    exe: Seq<char>,
    missing: Fault<Seq<char>>,
)
    requires
        forall|j: int| 0 <= j < members.len() ==> (#[trigger] members[j]) is Ok,
    ensures
        located(members, exe, missing) is Ok || located(members, exe, missing) == Err::<
            int,
            Fault<Seq<char>>,
        >(missing),
        located(members, exe, missing) is Err <==> forall|j: int|
            0 <= j < members.len() ==> (#[trigger] members[j])->Ok_0 != Some(exe),
{
    lemma_search(members, exe, 0);
    if forall|j: int| 0 <= j < members.len() ==> (#[trigger] members[j])->Ok_0 != Some(exe) {
        assert(search(members, exe, 0) is Ok);
    } else if search(members, exe, 0) == Ok::<Option<int>, Fault<Seq<char>>>(None) {
        assert forall|j: int| 0 <= j < members.len() implies (#[trigger] members[j])->Ok_0
            != Some(exe) by {
            assert(is_passed_over(members[j], exe));
        }
    }
}

/// A member that cannot be told ends the search with its own fault, unless the
/// executable or another such member comes before it.
pub proof fn law_a_member_that_cannot_be_told_ends_the_search(
    members: Seq<MemberName>,
    exe: Seq<char>,
    missing: Fault<Seq<char>>,
    i: int,
)
    requires
        0 <= i < members.len(),
        members[i] is Err,
        forall|j: int|
            0 <= j < i ==> (#[trigger] members[j]) is Ok && members[j]->Ok_0 != Some(exe),
    ensures
        located(members, exe, missing) == Err::<int, Fault<Seq<char>>>(members[i]->Err_0),
{
    lemma_search(members, exe, 0);
    assert(!is_passed_over(members[i], exe));
    match search(members, exe, 0) {
        Ok(Some(k)) => {
            assert(!is_passed_over(members[k], exe));
        },
        Ok(None) => {},
        Err(fault) => {
            let k = choose|k: int|
                {
                    &&& 0 <= k < members.len()
                    &&& #[trigger] members[k] == Err::<Option<Seq<char>>, Fault<Seq<char>>>(fault)
                    &&& forall|j: int| 0 <= j < k ==> is_passed_over(#[trigger] members[j], exe)
                };
            assert(!is_passed_over(members[k], exe));
            assert(k == i);
        },
    }
}

/// What follows the dot behind a non-empty stem is the extension, unless it holds a
/// dot itself.
pub proof fn lemma_extension_behind_stem(stem: Seq<char>, ext: Seq<char>)
    requires
        stem.len() > 0,
        ext.len() > 0,
        !ext.contains('.'),
    ensures
        extension_of(stem.push('.') + ext) == Some(ext),
{
    let name = stem.push('.') + ext;
    lemma_pieces_of_concat(stem, '.', ext);
    lemma_pieces_of_unseparated(ext, '.');
    lemma_pieces_nonempty(stem, '.');
    let parts = pieces(name, '.');
    assert(parts.last() == ext);
    assert(name != ".."@) by {
        assert(name.last() == ext.last());
        assert(ext.contains(ext.last()));
        reveal_strlit("..");
    }
    if parts.len() == 2 {
        lemma_one_piece_iff_unseparated(stem, '.');
        lemma_pieces_of_unseparated(stem, '.');
        assert(parts[0] == stem);
    }
}

/// A file that is taken for a tarball by its name is never rejected for its
/// extension: it is read through gzip or bzip2, as its name says. The exception are
/// names that are nothing but `.tgz` or `.tbz`. They have no extension, and such a
/// file is read as it is.
pub proof fn law_every_tarball_has_a_reader(name: Seq<char>)
    requires
        kind_of(name) == ArchiveKind::Tarball,
    ensures
        compression_of(extension_of(name)) == Ok::<Compression, Fault<Seq<char>>>(
            if name == ".tgz"@ || name == ".tbz"@ {
                Compression::Plain
            } else if has_suffix(name, ".tar.gz"@) || has_suffix(name, ".tgz"@) {
                Compression::Gzip
            } else {
                Compression::Bzip2
            },
        ),
{
    reveal_strlit(".tar.gz");
    reveal_strlit(".tar.bz");
    reveal_strlit(".tgz");
    reveal_strlit(".tbz");
    reveal_strlit("gz");
    reveal_strlit("bz");
    reveal_strlit("tgz");
    reveal_strlit("tbz");
    let n = name.len() as int;
    if name == ".tgz"@ || name == ".tbz"@ {
        let ext = name.skip(1);
        assert(name =~= Seq::<char>::empty().push('.') + ext);
        lemma_pieces_of_concat(Seq::<char>::empty(), '.', ext);
        lemma_pieces_of_unseparated(ext, '.');
    } else if has_suffix(name, ".tar.gz"@) {
        let tail = name.skip(n - 7);
        assert(tail[4] == name[n - 3] && tail[5] == name[n - 2] && tail[6] == name[n - 1]);
        assert(name =~= name.take(n - 3).push('.') + "gz"@);
        lemma_extension_behind_stem(name.take(n - 3), "gz"@);
    } else if has_suffix(name, ".tgz"@) {
        let tail = name.skip(n - 4);
        assert(tail[0] == name[n - 4] && tail[1] == name[n - 3]);
        assert(tail[2] == name[n - 2] && tail[3] == name[n - 1]);
        assert(n > 4) by {
            if n == 4 {
                assert(name =~= tail);
            }
        }
        assert(name =~= name.take(n - 4).push('.') + "tgz"@);
        lemma_extension_behind_stem(name.take(n - 4), "tgz"@);
    } else if has_suffix(name, ".tar.bz"@) {
        let tail = name.skip(n - 7);
        assert(tail[4] == name[n - 3] && tail[5] == name[n - 2] && tail[6] == name[n - 1]);
        assert(name =~= name.take(n - 3).push('.') + "bz"@);
        lemma_extension_behind_stem(name.take(n - 3), "bz"@);
    } else {
        let tail = name.skip(n - 4);
        assert(tail[0] == name[n - 4] && tail[1] == name[n - 3]);
        assert(tail[2] == name[n - 2] && tail[3] == name[n - 1]);
        assert(n > 4) by {
            if n == 4 {
                assert(name =~= tail);
            }
        }
        assert(name =~= name.take(n - 4).push('.') + "tbz"@);
        lemma_extension_behind_stem(name.take(n - 4), "tbz"@);
    }
}

/// What is done with a downloaded file follows from how its name ends, whatever stands in
/// front: `.tar.gz`, `.tgz`, `.tar.bz` and `.tbz` are tarballs, `.zip` is a zip file, any
/// other `.gz` is a compressed executable, and everything else is an executable.
pub proof fn law_kind_follows_the_suffix(stem: Seq<char>)
    ensures
        kind_of(stem + ".tar.gz"@) == ArchiveKind::Tarball,
        kind_of(stem + ".tgz"@) == ArchiveKind::Tarball,
        kind_of(stem + ".tar.bz"@) == ArchiveKind::Tarball,
        kind_of(stem + ".tbz"@) == ArchiveKind::Tarball,
        kind_of(stem + ".zip"@) == ArchiveKind::Zip,
        !has_suffix(stem, ".tar"@) ==> kind_of(stem + ".gz"@) == ArchiveKind::Gzip,
{
    reveal_strlit(".tar.gz");
    reveal_strlit(".tgz");
    reveal_strlit(".tar.bz");
    reveal_strlit(".tbz");
    reveal_strlit(".zip");
    reveal_strlit(".gz");
    reveal_strlit(".tar");
    lemma_appended_is_suffix(stem, ".tar.gz"@);
    lemma_appended_is_suffix(stem, ".tgz"@);
    lemma_appended_is_suffix(stem, ".tar.bz"@);
    lemma_appended_is_suffix(stem, ".tbz"@);
    lemma_appended_is_suffix(stem, ".zip"@);
    lemma_appended_is_suffix(stem, ".gz"@);
    let zip = stem + ".zip"@;
    lemma_suffixes_end_alike(zip, ".tar.gz"@, 1);
    lemma_suffixes_end_alike(zip, ".tgz"@, 1);
    lemma_suffixes_end_alike(zip, ".tar.bz"@, 1);
    lemma_suffixes_end_alike(zip, ".tbz"@, 1);
    let gz = stem + ".gz"@;
    lemma_suffixes_end_alike(gz, ".tgz"@, 3);
    lemma_suffixes_end_alike(gz, ".tar.bz"@, 2);
    lemma_suffixes_end_alike(gz, ".tbz"@, 2);
    lemma_suffixes_end_alike(gz, ".zip"@, 1);
    assert(gz[gz.len() - 1] == 'z' && gz[gz.len() - 2] == 'g' && gz[gz.len() - 3] == '.');
    assert(zip[zip.len() - 1] == 'p');
    if has_suffix(gz, ".tar.gz"@) {
        assert(stem.skip(stem.len() - 4) =~= ".tar"@) by {
            let tail = gz.skip(gz.len() - 7);
            assert forall|i: int| 0 <= i < 4 implies stem.skip(stem.len() - 4)[i] == ".tar"@[i] by {
                assert(tail[i] == ".tar.gz"@[i]);
                assert(tail[i] == gz[gz.len() - 7 + i]);
            }
        }
    }
}

/// A file whose name ends with none of these suffixes is an executable.
pub proof fn law_other_files_are_executables(name: Seq<char>)
    requires
        forall|stem: Seq<char>| name != #[trigger] (stem + ".tar.gz"@),
        forall|stem: Seq<char>| name != #[trigger] (stem + ".tgz"@),
        forall|stem: Seq<char>| name != #[trigger] (stem + ".tar.bz"@),
        forall|stem: Seq<char>| name != #[trigger] (stem + ".tbz"@),
        forall|stem: Seq<char>| name != #[trigger] (stem + ".zip"@),
        forall|stem: Seq<char>| name != #[trigger] (stem + ".gz"@),
    ensures
        kind_of(name) == ArchiveKind::Executable,
{
    law_suffix_stands_behind_a_stem(name, ".tar.gz"@);
    law_suffix_stands_behind_a_stem(name, ".tgz"@);
    law_suffix_stands_behind_a_stem(name, ".tar.bz"@);
    law_suffix_stands_behind_a_stem(name, ".tbz"@);
    law_suffix_stands_behind_a_stem(name, ".zip"@);
    law_suffix_stands_behind_a_stem(name, ".gz"@);
}

/// A text and its suffix have their last characters in common.
proof fn lemma_suffixes_end_alike(s: Seq<char>, suffix: Seq<char>, k: int)
    requires
        1 <= k <= suffix.len(),
    ensures
        has_suffix(s, suffix) ==> s[s.len() - k] == suffix[suffix.len() - k],
{
    if has_suffix(s, suffix) {
        let tail = s.skip(s.len() - suffix.len());
        assert(tail[suffix.len() - k] == s[s.len() - k]);
    }
}

/// How a tarball is uncompressed follows from what stands behind the last dot of its name,
/// whatever stands in front. Without such an extension it is read as it is, and with
/// another one it is refused.
pub proof fn law_reader_follows_the_extension(stem: Seq<char>, ext: Seq<char>)
    requires
        stem.len() > 0,
        !ext.contains('.'),
        stem.push('.') + ext != ".."@,
    ensures
        compression_of(extension_of(stem.push('.') + ext)) == if ext == "bz"@ || ext == "tbz"@ {
            Ok(Compression::Bzip2)
        } else if ext == "gz"@ || ext == "tgz"@ {
            Ok(Compression::Gzip)
        } else if ext == "xz"@ || ext == "txz"@ {
            Ok(Compression::Xz)
        } else {
            Err(Fault::TarballExtension(ext))
        },
        compression_of(extension_of(ext)) == Ok::<Compression, Fault<Seq<char>>>(
            Compression::Plain,
        ),
        compression_of(extension_of(Seq::<char>::empty().push('.') + ext)) == Ok::<
            Compression,
            Fault<Seq<char>>,
        >(Compression::Plain),
{
    law_extension_follows_the_last_dot(stem, ext);
}

/// What is known of members, and results, are seen with all that they hold.
pub proof fn law_members_are_seen_as_they_are(
    members: Seq<Result<Option<String>, UbiError>>,
    index: Result<usize, UbiError>,
    compression: Result<Compression, UbiError>,
)
    ensures
        member_names(members).len() == members.len(),
        forall|i: int|
            0 <= i < members.len() ==> #[trigger] member_names(members)[i] == name_view(
                members[i],
            ),
        index is Ok ==> index_view(index) == Ok::<int, Fault<Seq<char>>>(index->Ok_0 as int),
        index is Err ==> index_view(index) == Err::<int, Fault<Seq<char>>>(index->Err_0@),
        compression is Ok ==> compression_view(compression) == Ok::<Compression, Fault<Seq<char>>>(
            compression->Ok_0,
        ),
        compression is Err ==> compression_view(compression) == Err::<
            Compression,
            Fault<Seq<char>>,
        >(compression->Err_0@),
{
}

} // verus!
