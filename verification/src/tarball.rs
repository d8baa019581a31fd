//! Tarballs and files compressed with gzip.

use std::io::Read;

use vstd::prelude::*;
use vstd::string::*;
use vstd::utf8::{decode_utf8, valid_utf8};

use crate::archive::{
    compression_of, index_view, is_passed_over, law_a_member_that_cannot_be_told_ends_the_search,
    law_reader_follows_the_extension, law_the_executable_is_missing_only_if_no_member_has_its_name,
    law_the_first_member_of_that_name_is_located, locate, located, member_names, tar_reader_for,
    Compression, MemberName,
};
use crate::error::{Fault, UbiError};
use crate::path::{
    entry_name, extension_of, is_entry_name, is_plain_entry, is_portable,
    law_portable_paths_have_one_file_name, name_view, plain_entry_name, unix_entry_name,
};
use crate::sparse::{defuse, defused, is_listable, lemma_defused_is_listable};
use crate::text::optional_text;

verus! {

/// The entries of an archive in order, each by its path or by the message of the
/// error with which reading it fails; or the message of the error with which reading
/// the archive fails.
pub type Listing = Result<Seq<Result<Seq<u8>, Seq<char>>>, Seq<char>>;

/// What `Archive::entries` of the `tar` crate lists in the tarball `bytes`, and how many
/// bytes are left unread once it is done.
pub uninterp spec fn tar_listing(bytes: Seq<u8>) -> Result<
    (Seq<Result<Seq<u8>, Seq<char>>>, nat),
    Seq<char>,
>;

/// What `BzDecoder` of the `bzip2` crate decodes from `data`, read one byte at a time,
/// and the message of the error that ends it, if one does.
pub uninterp spec fn bzip2_decoded(data: Seq<u8>) -> (Seq<u8>, Option<Seq<char>>);

/// What `GzDecoder` of the `flate2` crate decodes from `data`, read one byte at a time,
/// and the message of the error that ends it, if one does.
pub uninterp spec fn gzip_decoded(data: Seq<u8>) -> (Seq<u8>, Option<Seq<char>>);

/// What `XzDecoder` of the `xz` crate decodes from `data`, read one byte at a time, and
/// the message of the error that ends it, if one does.
pub uninterp spec fn xz_decoded(data: Seq<u8>) -> (Seq<u8>, Option<Seq<char>>);

/// What was decoded and the message of what ended it, by what they hold.
pub open spec fn decoded_view(r: (Vec<u8>, Option<String>)) -> (Seq<u8>, Option<Seq<char>>) {
    (r.0@, optional_text(r.1))
}

/// The path of an entry, or why it cannot be read, by what it holds.
pub open spec fn entry_view(entry: Result<Vec<u8>, String>) -> Result<Seq<u8>, Seq<char>> {
    match entry {
        Ok(path) => Ok(path@),
        Err(message) => Err(message@),
    }
}

/// The entries of an archive, by what is held of each.
pub open spec fn entries_view(entries: Seq<Result<Vec<u8>, String>>) -> Seq<
    Result<Seq<u8>, Seq<char>>,
> {
    Seq::new(entries.len(), |i: int| entry_view(entries[i]))
}

/// A listing, or why there is none, by what it holds.
pub open spec fn listing_view(r: Result<Vec<Result<Vec<u8>, String>>, String>) -> Listing {
    match r {
        Ok(entries) => Ok(entries_view(entries@)),
        Err(message) => Err(message@),
    }
}

/// A listing with the number of bytes that were left unread, or why there is none, by
/// what it holds.
pub open spec fn counted_view(
    r: Result<(Vec<Result<Vec<u8>, String>>, usize), String>,
) -> Result<(Seq<Result<Seq<u8>, Seq<char>>>, nat), Seq<char>> {
    match r {
        Ok((entries, rest)) => Ok((entries_view(entries@), rest as nat)),
        Err(message) => Err(message@),
    }
}

/// The bytes to list where `bytes` were decoded. What was not decoded as a `whole` is
/// cut to whole blocks, and one more byte stands for what is missing.
pub open spec fn readable(bytes: Seq<u8>, whole: bool) -> Seq<u8> {
    if whole {
        defused(bytes)
    } else {
        defused(bytes.take(bytes.len() - bytes.len() % 512).push(255u8))
    }
}

/// Calls `Archive::entries` of the `tar` crate on `bytes`, `Entry::path_bytes` on each
/// entry and `Archive::into_inner` in the end, and claims that the paths, the messages
/// of errors and how much is left unread depend on the bytes alone. The entries are
/// read one after the other, so that those before damaged data are listed. The crate
/// adds the headers of a sparse entry to its size unchecked, so there may be none that
/// cannot be counted.
#[verifier::external_body]
fn list(bytes: &[u8]) -> (r: Result<(Vec<Result<Vec<u8>, String>>, usize), String>)
    requires
        is_listable(bytes@),
    ensures
        counted_view(r) == tar_listing(bytes@),
{
    let mut archive = tar::Archive::new(bytes);
    let entries = archive.entries().map_err(|e| e.to_string())?;
    let listed = entries
        .map(|e| e.map(|e| e.path_bytes().into_owned()).map_err(|e| e.to_string()))
        .collect();
    Ok((listed, archive.into_inner().len()))
}

/// Calls `BzDecoder` of the `bzip2` crate, which is built with the library that it
/// bundles, reading one byte at a time until it ends or fails. A larger read would lose
/// what it decoded in front of a failure. It claims that what is decoded, and with which
/// message it fails, depends on the data alone.
#[verifier::external_body]
fn decode_bzip2(data: &[u8]) -> (r: (Vec<u8>, Option<String>))
    ensures
        decoded_view(r) == bzip2_decoded(data@),
{
    let decoder = bzip2::read::BzDecoder::new(data);
    let mut bytes: Vec<u8> = Vec::new();
    let end = decoder.bytes().try_for_each(|b| b.map(|b| bytes.push(b)));
    (bytes, end.err().map(|e| e.to_string()))
}

/// Calls `GzDecoder` of the `flate2` crate, reading one byte at a time until it ends or
/// fails. A larger read would lose what it decoded in front of a failure. It claims that
/// what is decoded, and with which message it fails, depends on the data alone.
#[verifier::external_body]
fn decode_gzip(data: &[u8]) -> (r: (Vec<u8>, Option<String>))
    ensures
        decoded_view(r) == gzip_decoded(data@),
{
    let decoder = flate2::read::GzDecoder::new(data);
    let mut bytes: Vec<u8> = Vec::new();
    let end = decoder.bytes().try_for_each(|b| b.map(|b| bytes.push(b)));
    (bytes, end.err().map(|e| e.to_string()))
}

/// Calls `XzDecoder` of the `xz` crate, which is built with the library that it bundles,
/// reading one byte at a time until it ends or fails. A larger read would lose what it
/// decoded in front of a failure. It claims that what is decoded, and with which message
/// it fails, depends on the data alone.
#[verifier::external_body]
fn decode_xz(data: &[u8]) -> (r: (Vec<u8>, Option<String>))
    ensures
        decoded_view(r) == xz_decoded(data@),
{
    let decoder = xz::read::XzDecoder::new(data);
    let mut bytes: Vec<u8> = Vec::new();
    let end = decoder.bytes().try_for_each(|b| b.map(|b| bytes.push(b)));
    (bytes, end.err().map(|e| e.to_string()))
}

/// A tarball is listed as it is exactly if it holds no sparse entry that cannot be
/// counted.
pub proof fn law_listable_tarballs_are_listed_as_they_are(bytes: Seq<u8>)
    ensures
        readable(bytes, true) == bytes <==> is_listable(bytes),
{
    lemma_defused_is_listable(bytes);
    if is_listable(bytes) {
        assert(defused(bytes) =~= bytes);
    }
}

/// The bytes to list where `bytes` were decoded, as a `whole` or not.
pub fn prepare(bytes: Vec<u8>, whole: bool) -> (ready: Vec<u8>)
    ensures
        ready@ == readable(bytes@, whole),
        is_listable(ready@),
{
    let ghost given = bytes@;
    let mut cut = bytes;
    if !whole {
        let blocks: usize = cut.len() - cut.len() % 512;
        cut.truncate(blocks);
        assert(cut@ =~= given.take(blocks as int));
        cut.push(255u8);
    }
    proof {
        lemma_defused_is_listable(cut@);
    }
    defuse(cut)
}

/// `entries`, ended by the failure to decode what follows them in place of the failure
/// to read on.
pub open spec fn broken_off(
    entries: Seq<Result<Seq<u8>, Seq<char>>>,
    message: Seq<char>,
) -> Seq<Result<Seq<u8>, Seq<char>>> {
    let readable = if entries.len() > 0 && entries.last() is Err {
        entries.drop_last()
    } else {
        entries
    };
    readable.push(Err(message))
}

/// The entries of a tarball, of which `listed` says what was listed and how much was
/// left unread, and `failure` why no more of it was decoded. The failure matters only if
/// nothing was left unread: otherwise the archive ends before it.
pub open spec fn settled(
    listed: Result<(Seq<Result<Seq<u8>, Seq<char>>>, nat), Seq<char>>,
    failure: Option<Seq<char>>,
) -> Listing {
    match listed {
        Err(message) => Err(message),
        Ok((entries, rest)) => match failure {
            Some(message) if rest == 0 => Ok(broken_off(entries, message)),
            _ => Ok(entries),
        },
    }
}

/// The entries of a tarball, of which `listed` says what was listed and how much was
/// left unread, and `failure` why no more of it was decoded.
pub fn settle(
    listed: Result<(Vec<Result<Vec<u8>, String>>, usize), String>,
    failure: Option<String>,
) -> (r: Result<Vec<Result<Vec<u8>, String>>, String>)
    ensures
        listing_view(r) == settled(counted_view(listed), optional_text(failure)),
        listed is Ok && (failure is None || listed->Ok_0.1 > 0) ==> r is Ok && r->Ok_0
            == listed->Ok_0.0,
{
    let (listed_entries, rest) = match listed {
        Ok((entries, rest)) => (entries, rest),
        Err(message) => {
            return Err(message);
        },
    };
    let mut entries = listed_entries;
    let ghost given = entries_view(entries@);
    if let Some(message) = failure {
        if rest == 0 {
            if entries.len() > 0 && entries[entries.len() - 1].is_err() {
                entries.pop();
                assert(entries_view(entries@) =~= given.drop_last());
            }
            let ghost kept = entries_view(entries@);
            entries.push(Err(message));
            assert(entries_view(entries@) =~= kept.push(Err(message@)));
        }
    }
    Ok(entries)
}

/// What the decoder for each compression makes of `data`.
pub open spec fn decoded(compression: Compression, data: Seq<u8>) -> (Seq<u8>, Option<Seq<char>>) {
    match compression {
        Compression::Plain => (data, None),
        Compression::Bzip2 => bzip2_decoded(data),
        Compression::Gzip => gzip_decoded(data),
        Compression::Xz => xz_decoded(data),
    }
}

/// Decodes `data`, and says what ended it before its end, if anything did.
fn decode(compression: Compression, data: &[u8]) -> (r: (Vec<u8>, Option<String>))
    ensures
        decoded_view(r) == decoded(compression, data@),
{
    match compression {
        Compression::Plain => (vstd::slice::slice_to_vec(data), None),
        Compression::Bzip2 => decode_bzip2(data),
        Compression::Gzip => decode_gzip(data),
        Compression::Xz => decode_xz(data),
    }
}

/// The entries of the tarball `data`.
pub open spec fn listing(compression: Compression, data: Seq<u8>) -> Listing {
    let (bytes, failure) = decoded(compression, data);
    settled(tar_listing(readable(bytes, failure is None)), failure)
}

/// Lists the entries of the tarball `data`.
fn list_tarball(compression: Compression, data: &[u8]) -> (r: Result<
    Vec<Result<Vec<u8>, String>>,
    String,
>)
    ensures
        listing_view(r) == listing(compression, data@),
{
    let (bytes, failure) = decode(compression, data);
    let ready = prepare(bytes, failure.is_none());
    settle(list(ready.as_slice()), failure)
}

/// Whether `seen` is what is known of an entry of a tarball, where `entry` is its path
/// or the message with which it cannot be read.
pub open spec fn is_tar_member(
    entry: Result<Seq<u8>, Seq<char>>,
    windows: bool,
    seen: MemberName,
) -> bool {
    match entry {
        Ok(path) => is_entry_name(path, windows, seen),
        Err(message) => seen == Err::<Option<Seq<char>>, Fault<Seq<char>>>(
            Fault::Unreadable(message),
        ),
    }
}

/// Whether `seen` is what is known of each of the entries of a tarball.
pub open spec fn are_tar_members(
    entries: Seq<Result<Seq<u8>, Seq<char>>>,
    windows: bool,
    seen: Seq<MemberName>,
) -> bool {
    &&& seen.len() == entries.len()
    &&& forall|i: int|
        0 <= i < entries.len() ==> is_tar_member(entries[i], windows, #[trigger] seen[i])
}

/// Whether `r` is what looking for `exe` among these entries of a tarball comes to: the
/// index of the first entry with that file name, or why there is none.
pub open spec fn is_found_in_entries(
    entries: Seq<Result<Seq<u8>, Seq<char>>>,
    exe: Seq<char>,
    windows: bool,
    r: Result<int, Fault<Seq<char>>>,
) -> bool {
    exists|seen: Seq<MemberName>| #[trigger]
        are_tar_members(entries, windows, seen) && r == located(
            seen,
            exe,
            Fault::NotInTarball(exe),
        )
}

/// Whether `r` is what looking for `exe` in a tarball with this listing comes to.
pub open spec fn is_found_in_listing(
    listing: Listing,
    exe: Seq<char>,
    windows: bool,
    r: Result<int, Fault<Seq<char>>>,
) -> bool {
    match listing {
        Err(message) => r == Err::<int, Fault<Seq<char>>>(Fault::Unreadable(message)),
        Ok(entries) => is_found_in_entries(entries, exe, windows, r),
    }
}

/// Where the executable lies in a tarball: at this index among the entries that a
/// reader for this compression lists.
#[derive(Clone, Copy, Debug, PartialEq, Eq, Structural)]
pub struct TarballEntry {
    pub compression: Compression,
    pub index: usize,
}

/// Looks for the executable `exe` among the entries that were listed.
pub fn find_in_listing(
    listed: Result<Vec<Result<Vec<u8>, String>>, String>,
    exe: &str,
    windows: bool,
) -> (r: Result<usize, UbiError>)
    ensures
        is_found_in_listing(listing_view(listed), exe@, windows, index_view(r)),
{
    let ghost view = listing_view(listed);
    let entries = match listed {
        Ok(entries) => entries,
        Err(message) => {
            return Err(Fault::Unreadable(message));
        },
    };
    let ghost listed_entries = view->Ok_0;
    let count: usize = entries.len();
    let mut seen: Vec<Result<Option<String>, UbiError>> = Vec::new();
    let mut i: usize = 0;
    while i < count
        invariant
            i <= count,
            count == entries@.len(),
            listed_entries == entries_view(entries@),
            seen@.len() == i,
            forall|j: int|
                0 <= j < i ==> is_tar_member(
                    listed_entries[j],
                    windows,
                    #[trigger] member_names(seen@)[j],
                ),
        decreases count - i,
    {
        let ghost before = member_names(seen@);
        let member: Result<Option<String>, UbiError> = match &entries[i] {
            Ok(path) => entry_name(path.as_slice(), windows),
            Err(message) => Err(Fault::Unreadable(message.clone())),
        };
        let ghost known = name_view(member);
        seen.push(member);
        assert(member_names(seen@) =~= before.push(known));
        i = i + 1;
    }
    assert(are_tar_members(listed_entries, windows, member_names(seen@)));
    locate(seen, exe, Fault::NotInTarball(exe.to_owned()))
}

/// Whether `r` is what looking for `exe` in the tarball `data` of this name comes to.
pub open spec fn is_found_in_tarball(
    name: Seq<char>,
    data: Seq<u8>,
    exe: Seq<char>,
    windows: bool,
    r: Result<TarballEntry, UbiError>,
) -> bool {
    match compression_of(extension_of(name)) {
        Err(fault) => r is Err && r->Err_0@ == fault,
        Ok(compression) => match r {
            Ok(entry) => entry.compression == compression && is_found_in_listing(
                listing(compression, data),
                exe,
                windows,
                Ok(entry.index as int),
            ),
            Err(fault) => is_found_in_listing(
                listing(compression, data),
                exe,
                windows,
                Err(fault@),
            ),
        },
    }
}

/// Finds the entry of the tarball `data`, a file of this name, that holds the
/// executable `exe`.
pub fn extract_tarball(name: &str, data: &[u8], exe: &str, windows: bool) -> (r: Result<
    TarballEntry,
    UbiError,
>)
    ensures
        is_found_in_tarball(name@, data@, exe@, windows, r),
{
    let compression = match tar_reader_for(name) {
        Ok(compression) => compression,
        Err(fault) => {
            return Err(fault);
        },
    };
    match find_in_listing(list_tarball(compression, data), exe, windows) {
        Ok(index) => Ok(TarballEntry { compression, index }),
        Err(fault) => Err(fault),
    }
}

/// What uncompressing comes to, by what it holds.
pub open spec fn bytes_view(r: Result<Vec<u8>, UbiError>) -> Result<Seq<u8>, Fault<Seq<char>>> {
    match r {
        Ok(bytes) => Ok(bytes@),
        Err(fault) => Err(fault@),
    }
}

/// What uncompressing comes to where `decoded` was decoded: all of it, or the fault that
/// ended it.
pub open spec fn uncompressed(decoded: (Seq<u8>, Option<Seq<char>>)) -> Result<
    Seq<u8>,
    Fault<Seq<char>>,
> {
    match decoded.1 {
        None => Ok(decoded.0),
        Some(message) => Err(Fault::Unreadable(message)),
    }
}

/// All that was decoded, or the fault that ended it.
pub fn whole_or_fault(decoded: (Vec<u8>, Option<String>)) -> (r: Result<Vec<u8>, UbiError>)
    ensures
        bytes_view(r) == uncompressed(decoded_view(decoded)),
        match decoded.1 {
            None => r is Ok && r->Ok_0 == decoded.0,
            Some(message) => r is Err && r->Err_0@ == Fault::Unreadable(message@),
        },
{
    match decoded.1 {
        None => Ok(decoded.0),
        Some(message) => Err(Fault::Unreadable(message)),
    }
}

/// Uncompresses the executable in `data`.
pub fn ungzip(data: &[u8]) -> (r: Result<Vec<u8>, UbiError>)
    ensures
        bytes_view(r) == uncompressed(gzip_decoded(data@)),
        match gzip_decoded(data@).1 {
            None => r is Ok && r->Ok_0@ == gzip_decoded(data@).0,
            Some(message) => r is Err && r->Err_0@ == Fault::Unreadable(message),
        },
{
    whole_or_fault(decode_gzip(data))
}

/// Whether every platform reads the paths of these entries alike.
pub open spec fn are_portable_entries(entries: Seq<Result<Seq<u8>, Seq<char>>>) -> bool {
    forall|i: int|
        0 <= i < entries.len() && #[trigger] entries[i] is Ok ==> valid_utf8(entries[i]->Ok_0)
            && is_portable(decode_utf8(entries[i]->Ok_0))
}

/// Where every platform reads the entries' paths alike, there is only one thing that
/// looking for the executable can come to.
pub proof fn law_tarball_outcome_is_the_same_on_every_platform(
    entries: Seq<Result<Seq<u8>, Seq<char>>>,
    exe: Seq<char>,
    windows1: bool,
    r1: Result<int, Fault<Seq<char>>>,
    windows2: bool,
    r2: Result<int, Fault<Seq<char>>>,
)
    requires
        are_portable_entries(entries),
        is_found_in_entries(entries, exe, windows1, r1),
        is_found_in_entries(entries, exe, windows2, r2),
    ensures
        r1 == r2,
{
    let seen1 = choose|seen: Seq<MemberName>| #[trigger]
        are_tar_members(entries, windows1, seen) && r1 == located(
            seen,
            exe,
            Fault::NotInTarball(exe),
        );
    let seen2 = choose|seen: Seq<MemberName>| #[trigger]
        are_tar_members(entries, windows2, seen) && r2 == located(
            seen,
            exe,
            Fault::NotInTarball(exe),
        );
    assert forall|i: int| 0 <= i < entries.len() implies seen1[i] == seen2[i] by {
        if entries[i] is Ok {
            law_portable_paths_have_one_file_name(decode_utf8(entries[i]->Ok_0), windows1);
            law_portable_paths_have_one_file_name(decode_utf8(entries[i]->Ok_0), windows2);
        }
        assert(is_tar_member(entries[i], windows1, seen1[i]));
        assert(is_tar_member(entries[i], windows2, seen2[i]));
    }
    assert(seen1 =~= seen2);
}

/// An executable that is found among the entries is found where decoding failed behind
/// them, too.
pub proof fn law_failure_to_decode_hides_no_executable(
    entries: Seq<Result<Seq<u8>, Seq<char>>>,
    message: Seq<char>,
    exe: Seq<char>,
    windows: bool,
    i: int,
)
    requires
        is_found_in_entries(entries, exe, windows, Ok(i)),
    ensures
        is_found_in_entries(broken_off(entries, message), exe, windows, Ok(i)),
{
    let missing = Fault::NotInTarball(exe);
    let broken = broken_off(entries, message);
    let seen = choose|seen: Seq<MemberName>| #[trigger]
        are_tar_members(entries, windows, seen) && Ok::<int, Fault<Seq<char>>>(i) == located(
            seen,
            exe,
            missing,
        );
    law_the_first_member_of_that_name_is_located(seen, exe, missing, i);
    assert(is_tar_member(entries[i], windows, seen[i]));
    let kept = seen.take(broken.len() - 1).push(Err(Fault::Unreadable(message)));
    assert forall|j: int| 0 <= j < broken.len() implies is_tar_member(
        broken[j],
        windows,
        #[trigger] kept[j],
    ) by {
        if j < broken.len() - 1 {
            assert(is_tar_member(entries[j], windows, seen[j]));
        }
    }
    assert(are_tar_members(broken, windows, kept));
    assert forall|j: int| 0 <= j < i implies is_passed_over(#[trigger] kept[j], exe) by {
        assert(is_passed_over(seen[j], exe));
    }
    assert(i < broken.len() - 1);
    assert(kept[i] == seen[i]);
    law_the_first_member_of_that_name_is_located(kept, exe, missing, i);
    assert(is_found_in_entries(broken, exe, windows, Ok(i)));
}

/// Whether the paths of these entries are read part by part.
pub open spec fn are_plain_entries(
    entries: Seq<Result<Seq<u8>, Seq<char>>>,
    windows: bool,
) -> bool {
    forall|i: int|
        0 <= i < entries.len() && #[trigger] entries[i] is Ok ==> is_plain_entry(
            entries[i]->Ok_0,
            windows,
        )
}

/// Where the entries' paths are read part by part, as they always are on a platform
/// other than Windows, there is only one thing that looking for the executable can
/// come to.
pub proof fn law_tarball_outcome_is_determined(
    listing: Listing,
    exe: Seq<char>,
    windows: bool,
    r1: Result<int, Fault<Seq<char>>>,
    r2: Result<int, Fault<Seq<char>>>,
)
    requires
        listing is Ok ==> are_plain_entries(listing->Ok_0, windows),
        is_found_in_listing(listing, exe, windows, r1),
        is_found_in_listing(listing, exe, windows, r2),
    ensures
        r1 == r2,
{
    if listing is Ok {
        let entries = listing->Ok_0;
        let seen1 = choose|seen: Seq<MemberName>| #[trigger]
            are_tar_members(entries, windows, seen) && r1 == located(
                seen,
                exe,
                Fault::NotInTarball(exe),
            );
        let seen2 = choose|seen: Seq<MemberName>| #[trigger]
            are_tar_members(entries, windows, seen) && r2 == located(
                seen,
                exe,
                Fault::NotInTarball(exe),
            );
        assert forall|i: int| 0 <= i < entries.len() implies seen1[i] == seen2[i] by {
            assert(is_tar_member(entries[i], windows, seen1[i]));
            assert(is_tar_member(entries[i], windows, seen2[i]));
        }
        assert(seen1 =~= seen2);
    }
}

/// The entry that is found is the first whose file name is that of the executable, so
/// far as the entries' paths are read part by part.
pub proof fn law_found_entry_has_the_name_of_the_executable(
    entries: Seq<Result<Seq<u8>, Seq<char>>>,
    exe: Seq<char>,
    windows: bool,
    i: int,
)
    requires
        is_found_in_entries(entries, exe, windows, Ok(i)),
    ensures
        0 <= i < entries.len(),
        entries[i] is Ok,
        is_plain_entry(entries[i]->Ok_0, windows) ==> plain_entry_name(entries[i]->Ok_0, windows)
            == Ok::<Option<Seq<char>>, Fault<Seq<char>>>(Some(exe)),
        forall|j: int|
            0 <= j < i ==> (#[trigger] entries[j]) is Ok && (is_plain_entry(
                entries[j]->Ok_0,
                windows,
            ) ==> is_passed_over(plain_entry_name(entries[j]->Ok_0, windows), exe)),
{
    let seen = choose|seen: Seq<MemberName>| #[trigger]
        are_tar_members(entries, windows, seen) && Ok::<int, Fault<Seq<char>>>(i) == located(
            seen,
            exe,
            Fault::NotInTarball(exe),
        );
    law_the_first_member_of_that_name_is_located(seen, exe, Fault::NotInTarball(exe), i);
    assert(is_tar_member(entries[i], windows, seen[i]));
    assert forall|j: int| 0 <= j < i implies (#[trigger] entries[j]) is Ok && (is_plain_entry(
        entries[j]->Ok_0,
        windows,
    ) ==> is_passed_over(plain_entry_name(entries[j]->Ok_0, windows), exe)) by {
        assert(is_tar_member(entries[j], windows, seen[j]));
        assert(is_passed_over(seen[j], exe));
    }
}

/// All that was decoded without an error is what comes out, every byte of it, and an error
/// is what comes out otherwise.
pub proof fn law_uncompressing_gives_all_that_is_decoded(bytes: Seq<u8>, message: Seq<char>)
    ensures
        uncompressed((bytes, None)) == Ok::<Seq<u8>, Fault<Seq<char>>>(bytes),
        uncompressed((bytes, Some(message))) == Err::<Seq<u8>, Fault<Seq<char>>>(
            Fault::Unreadable(message),
        ),
{
}

/// All entries that were listed are searched, unless decoding failed within the archive.
/// Then those are that were read, and the failure ends them.
pub proof fn law_all_listed_entries_are_searched(
    entries: Seq<Result<Seq<u8>, Seq<char>>>,
    rest: nat,
    message: Seq<char>,
    i: int,
)
    ensures
        settled(Ok((entries, rest)), None) == Ok::<
            Seq<Result<Seq<u8>, Seq<char>>>,
            Seq<char>,
        >(entries),
        rest > 0 ==> settled(Ok((entries, rest)), Some(message)) == Ok::<
            Seq<Result<Seq<u8>, Seq<char>>>,
            Seq<char>,
        >(entries),
        rest == 0 ==> {
            let searched = settled(Ok((entries, rest)), Some(message));
            &&& searched is Ok
            &&& entries.len() <= searched->Ok_0.len() <= entries.len() + 1
            &&& searched->Ok_0.len() > 0
            &&& searched->Ok_0.last() == Err::<Seq<u8>, Seq<char>>(message)
            &&& 0 <= i < entries.len() && entries[i] is Ok ==> i < searched->Ok_0.len() - 1
                && searched->Ok_0[i] == entries[i]
        },
        settled(Err(message), None) == Err::<Seq<Result<Seq<u8>, Seq<char>>>, Seq<char>>(message),
        settled(Err(message), Some(message)) == Err::<
            Seq<Result<Seq<u8>, Seq<char>>>,
            Seq<char>,
        >(message),
{
}

/// What is searched is what the tar reader lists in what the decoder for the compression
/// gives. Where that fails, its whole blocks are listed, with one byte behind them that is
/// read only if more of the archive is wanted.
pub proof fn law_decoded_tarballs_are_listed(compression: Compression, data: Seq<u8>)
    ensures
        ({
            let (bytes, failure) = match compression {
                Compression::Plain => (data, None),
                Compression::Bzip2 => bzip2_decoded(data),
                Compression::Gzip => gzip_decoded(data),
                Compression::Xz => xz_decoded(data),
            };
            let cut = bytes.take(bytes.len() - bytes.len() % 512).push(255u8);
            &&& decoded(compression, data) == (bytes, failure)
            &&& listing(compression, data) == settled(
                tar_listing(
                    defused(
                        if failure is None {
                            bytes
                        } else {
                            cut
                        },
                    ),
                ),
                failure,
            )
            &&& failure is None && is_listable(bytes) ==> listing(compression, data) == settled(
                tar_listing(bytes),
                failure,
            )
            &&& failure is Some && is_listable(cut) ==> listing(compression, data) == settled(
                tar_listing(cut),
                failure,
            )
        }),
{
    let (bytes, failure) = decoded(compression, data);
    let cut = bytes.take(bytes.len() - bytes.len() % 512).push(255u8);
    law_listable_tarballs_are_listed_as_they_are(bytes);
    law_listable_tarballs_are_listed_as_they_are(cut);
}

/// However many entries come before it, the first entry with the file name of the
/// executable is found.
pub proof fn law_the_first_entry_with_the_name_is_found(
    entries: Seq<Result<Seq<u8>, Seq<char>>>,
    exe: Seq<char>,
    windows: bool,
    i: int,
    r: Result<int, Fault<Seq<char>>>,
)
    requires
        is_found_in_listing(Ok(entries), exe, windows, r),
        0 <= i < entries.len(),
        entries[i] is Ok && is_plain_entry(entries[i]->Ok_0, windows),
        plain_entry_name(entries[i]->Ok_0, windows) == Ok::<Option<Seq<char>>, Fault<Seq<char>>>(
            Some(exe),
        ),
        forall|j: int|
            0 <= j < i ==> (#[trigger] entries[j]) is Ok && is_plain_entry(
                entries[j]->Ok_0,
                windows,
            ) && plain_entry_name(entries[j]->Ok_0, windows) is Ok && plain_entry_name(
                entries[j]->Ok_0,
                windows,
            )->Ok_0 != Some(exe),
    ensures
        r == Ok::<int, Fault<Seq<char>>>(i),
{
    let seen = choose|seen: Seq<MemberName>| #[trigger]
        are_tar_members(entries, windows, seen) && r == located(
            seen,
            exe,
            Fault::NotInTarball(exe),
        );
    assert(is_tar_member(entries[i], windows, seen[i]));
    assert forall|j: int| 0 <= j < i implies (#[trigger] seen[j]) is Ok && seen[j]->Ok_0 != Some(
        exe,
    ) by {
        assert(is_tar_member(entries[j], windows, seen[j]));
        assert(entries[j] is Ok);
    }
    law_the_first_member_of_that_name_is_located(seen, exe, Fault::NotInTarball(exe), i);
}

/// Where every entry can be read and none has the file name of the executable, that is
/// what is reported. An archive that cannot be listed gives the message of its reader.
pub proof fn law_executable_that_is_in_no_entry_is_reported(
    entries: Seq<Result<Seq<u8>, Seq<char>>>,
    message: Seq<char>,
    exe: Seq<char>,
    windows: bool,
    r: Result<int, Fault<Seq<char>>>,
)
    ensures
        is_found_in_listing(Err(message), exe, windows, r) ==> r == Err::<int, Fault<Seq<char>>>(
            Fault::Unreadable(message),
        ),
        is_found_in_listing(Ok(entries), exe, windows, r) && (forall|j: int|
            0 <= j < entries.len() ==> (#[trigger] entries[j]) is Ok && is_plain_entry(
                entries[j]->Ok_0,
                windows,
            ) && plain_entry_name(entries[j]->Ok_0, windows) is Ok && plain_entry_name(
                entries[j]->Ok_0,
                windows,
            )->Ok_0 != Some(exe)) ==> r == Err::<int, Fault<Seq<char>>>(Fault::NotInTarball(exe)),
{
    if is_found_in_listing(Ok(entries), exe, windows, r) && (forall|j: int|
        0 <= j < entries.len() ==> (#[trigger] entries[j]) is Ok && is_plain_entry(
            entries[j]->Ok_0,
            windows,
        ) && plain_entry_name(entries[j]->Ok_0, windows) is Ok && plain_entry_name(
            entries[j]->Ok_0,
            windows,
        )->Ok_0 != Some(exe)) {
        let seen = choose|seen: Seq<MemberName>| #[trigger]
            are_tar_members(entries, windows, seen) && r == located(
                seen,
                exe,
                Fault::NotInTarball(exe),
            );
        assert forall|j: int| 0 <= j < seen.len() implies (#[trigger] seen[j]) is Ok
            && seen[j]->Ok_0 != Some(exe) by {
            assert(is_tar_member(entries[j], windows, seen[j]));
            assert(entries[j] is Ok);
        }
        law_the_executable_is_missing_only_if_no_member_has_its_name(
            seen,
            exe,
            Fault::NotInTarball(exe),
        );
    }
}

/// An entry that cannot be read, with only entries of other names before it, ends the
/// search with the message of the reader.
pub proof fn law_entry_that_cannot_be_read_is_reported(
    entries: Seq<Result<Seq<u8>, Seq<char>>>,
    exe: Seq<char>,
    windows: bool,
    i: int,
    r: Result<int, Fault<Seq<char>>>,
)
    requires
        is_found_in_listing(Ok(entries), exe, windows, r),
        0 <= i < entries.len(),
        entries[i] is Err,
        forall|j: int|
            0 <= j < i ==> (#[trigger] entries[j]) is Ok && is_plain_entry(
                entries[j]->Ok_0,
                windows,
            ) && plain_entry_name(entries[j]->Ok_0, windows) is Ok && plain_entry_name(
                entries[j]->Ok_0,
                windows,
            )->Ok_0 != Some(exe),
    ensures
        r == Err::<int, Fault<Seq<char>>>(Fault::Unreadable(entries[i]->Err_0)),
{
    let seen = choose|seen: Seq<MemberName>| #[trigger]
        are_tar_members(entries, windows, seen) && r == located(
            seen,
            exe,
            Fault::NotInTarball(exe),
        );
    assert(is_tar_member(entries[i], windows, seen[i]));
    assert forall|j: int| 0 <= j < i implies (#[trigger] seen[j]) is Ok && seen[j]->Ok_0 != Some(
        exe,
    ) by {
        assert(is_tar_member(entries[j], windows, seen[j]));
        assert(entries[j] is Ok);
    }
    law_a_member_that_cannot_be_told_ends_the_search(seen, exe, Fault::NotInTarball(exe), i);
}

/// What comes of a tarball: the fault of an extension that no reader is known for, or what
/// the search of what the reader for its extension lists comes to.
pub proof fn law_tarball_is_searched_by_the_reader_for_its_name(
    name: Seq<char>,
    data: Seq<u8>,
    exe: Seq<char>,
    windows: bool,
    r: Result<TarballEntry, UbiError>,
)
    requires
        is_found_in_tarball(name, data, exe, windows, r),
    ensures
        match compression_of(extension_of(name)) {
            Err(fault) => r is Err && r->Err_0@ == fault,
            Ok(compression) => match r {
                Ok(entry) => entry.compression == compression && is_found_in_listing(
                    listing(compression, data),
                    exe,
                    windows,
                    Ok(entry.index as int),
                ),
                Err(fault) => is_found_in_listing(
                    listing(compression, data),
                    exe,
                    windows,
                    Err(fault@),
                ),
            },
        },
{
}

/// In a tarball that is compressed with gzip or bzip2 and decodes to its end, the
/// executable is found at the first of the listed entries that has its file name, on every
/// platform but Windows: at the index of that entry, however far behind it lies, with
/// the compression that the name of the tarball tells.
pub proof fn law_executable_of_a_sound_tarball_is_found(
    stem: Seq<char>,
    data: Seq<u8>,
    entries: Seq<Result<Seq<u8>, Seq<char>>>,
    rest: nat,
    exe: Seq<char>,
    i: int,
    gzip: Result<TarballEntry, UbiError>,
    bzip2: Result<TarballEntry, UbiError>,
)
    requires
        stem.len() > 0,
        is_found_in_tarball(stem + ".tar.gz"@, data, exe, false, gzip),
        is_found_in_tarball(stem + ".tar.bz"@, data, exe, false, bzip2),
        0 <= i < entries.len(),
        entries[i] is Ok && unix_entry_name(entries[i]->Ok_0) == Some(exe),
        forall|j: int|
            0 <= j < i ==> (#[trigger] entries[j]) is Ok && unix_entry_name(entries[j]->Ok_0)
                != Some(exe),
    ensures
        gzip_decoded(data).1 is None && is_listable(gzip_decoded(data).0) && tar_listing(
            gzip_decoded(data).0,
        ) == Ok::<(Seq<Result<Seq<u8>, Seq<char>>>, nat), Seq<char>>((entries, rest)) ==> gzip is Ok
            && gzip->Ok_0.index == i && gzip->Ok_0.compression == Compression::Gzip,
        bzip2_decoded(data).1 is None && is_listable(bzip2_decoded(data).0) && tar_listing(
            bzip2_decoded(data).0,
        ) == Ok::<(Seq<Result<Seq<u8>, Seq<char>>>, nat), Seq<char>>((entries, rest)) ==> bzip2
            is Ok && bzip2->Ok_0.index == i && bzip2->Ok_0.compression == Compression::Bzip2,
{
    reveal_strlit(".tar.gz");
    reveal_strlit(".tar.bz");
    reveal_strlit(".tar");
    reveal_strlit("gz");
    reveal_strlit("bz");
    reveal_strlit("..");
    let front = stem + ".tar"@;
    assert(stem + ".tar.gz"@ =~= front.push('.') + "gz"@);
    assert(stem + ".tar.bz"@ =~= front.push('.') + "bz"@);
    law_reader_follows_the_extension(front, "gz"@);
    law_reader_follows_the_extension(front, "bz"@);
    reveal_strlit("tbz");
    assert("gz"@[0] == 'g' && "bz"@[0] == 'b' && "tbz"@.len() == 3);
    law_decoded_tarballs_are_listed(Compression::Gzip, data);
    law_decoded_tarballs_are_listed(Compression::Bzip2, data);
    let seen_gzip = index_of_entry(gzip);
    let seen_bzip2 = index_of_entry(bzip2);
    if gzip_decoded(data).1 is None && is_listable(gzip_decoded(data).0) && tar_listing(
        gzip_decoded(data).0,
    ) == Ok::<(Seq<Result<Seq<u8>, Seq<char>>>, nat), Seq<char>>((entries, rest)) {
        law_the_first_entry_with_the_name_is_found(entries, exe, false, i, seen_gzip);
    }
    if bzip2_decoded(data).1 is None && is_listable(bzip2_decoded(data).0) && tar_listing(
        bzip2_decoded(data).0,
    ) == Ok::<(Seq<Result<Seq<u8>, Seq<char>>>, nat), Seq<char>>((entries, rest)) {
        law_the_first_entry_with_the_name_is_found(entries, exe, false, i, seen_bzip2);
    }
}

/// The index of an entry that was found, or why there is none.
spec fn index_of_entry(r: Result<TarballEntry, UbiError>) -> Result<int, Fault<Seq<char>>> {
    match r {
        Ok(entry) => Ok(entry.index as int),
        Err(fault) => Err(fault@),
    }
}

/// What was decoded and listed, and results, are seen with all that they hold.
pub proof fn law_listings_are_seen_as_they_are(
    decoded: (Vec<u8>, Option<String>),
    entries: Seq<Result<Vec<u8>, String>>,
    listed: Result<(Vec<Result<Vec<u8>, String>>, usize), String>,
    listing: Result<Vec<Result<Vec<u8>, String>>, String>,
    bytes: Result<Vec<u8>, UbiError>,
)
    ensures
        decoded_view(decoded).0 == decoded.0@,
        decoded.1 is None <==> decoded_view(decoded).1 is None,
        decoded.1 is Some ==> decoded_view(decoded).1 == Some(decoded.1->0@),
        entries_view(entries).len() == entries.len(),
        forall|i: int|
            0 <= i < entries.len() ==> match entries[i] {
                Ok(path) => #[trigger] entries_view(entries)[i] == Ok::<Seq<u8>, Seq<char>>(path@),
                Err(message) => entries_view(entries)[i] == Err::<Seq<u8>, Seq<char>>(message@),
            },
        match listed {
            Ok((entries, rest)) => counted_view(listed) == Ok::<
                (Seq<Result<Seq<u8>, Seq<char>>>, nat),
                Seq<char>,
            >((entries_view(entries@), rest as nat)),
            Err(message) => counted_view(listed) == Err::<
                (Seq<Result<Seq<u8>, Seq<char>>>, nat),
                Seq<char>,
            >(message@),
        },
        match listing {
            Ok(entries) => listing_view(listing) == Ok::<
                Seq<Result<Seq<u8>, Seq<char>>>,
                Seq<char>,
            >(entries_view(entries@)),
            Err(message) => listing_view(listing) == Err::<
                Seq<Result<Seq<u8>, Seq<char>>>,
                Seq<char>,
            >(message@),
        },
        bytes is Ok ==> bytes_view(bytes) == Ok::<Seq<u8>, Fault<Seq<char>>>(bytes->Ok_0@),
        bytes is Err ==> bytes_view(bytes) == Err::<Seq<u8>, Fault<Seq<char>>>(bytes->Err_0@),
{
}

} // verus!
