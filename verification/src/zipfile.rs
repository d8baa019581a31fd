//! Zip files.

use vstd::prelude::*;
use vstd::string::*;

use crate::archive::{
    index_view, law_a_member_that_cannot_be_told_ends_the_search,
    law_the_executable_is_missing_only_if_no_member_has_its_name,
    law_the_first_member_of_that_name_is_located, locate, located, member_names, MemberName,
};
use crate::error::{Fault, UbiError};
use crate::path::{
    file_name_of, is_member_name, is_plain, is_portable, law_file_name_stands_behind_a_separator,
    law_portable_paths_have_one_file_name, member_name,
    name_view, plain_name,
};

verus! {

/// `zip::ZipArchive`, the members of an archive that was opened.
#[verifier::external_type_specification]
#[verifier::external_body]
#[verifier::reject_recursive_types(R)]
pub struct ExZipArchive<R>(zip::ZipArchive<R>);

/// `std::io::Cursor`, through which an archive in memory is read.
#[verifier::external_type_specification]
#[verifier::external_body]
#[verifier::reject_recursive_types(T)]
pub struct ExCursor<T>(std::io::Cursor<T>);

/// What `ZipArchive::by_index_raw` of the `zip` crate gives for each index of an open
/// archive: the name of the member, or the message of the error with which it fails.
pub uninterp spec fn zip_members(archive: zip::ZipArchive<std::io::Cursor<&[u8]>>) -> Seq<
    Result<Seq<char>, Seq<char>>,
>;

/// What `ZipArchive::new` of the `zip` crate makes of `data` where a `usize` has
/// `word_bits` bits: the members of the archive, or the message of the error with
/// which it rejects the data.
pub uninterp spec fn zip_listing(data: Seq<u8>, word_bits: u32) -> Result<
    Seq<Result<Seq<char>, Seq<char>>>,
    Seq<char>,
>;

/// Calls `ZipArchive::new`, and claims that whether it opens the archive, with which
/// members, or with which message it fails, depends on the data and the size of a
/// `usize` alone. The size matters since the number of members that an archive declares
/// is cut down to a `usize`.
#[verifier::external_body]
fn open_zip(data: &[u8]) -> (r: Result<zip::ZipArchive<std::io::Cursor<&[u8]>>, String>)
    ensures
        match r {
            Ok(archive) => zip_listing(data@, usize::BITS) == Ok::<
                Seq<Result<Seq<char>, Seq<char>>>,
                Seq<char>,
            >(zip_members(archive)),
            Err(message) => zip_listing(data@, usize::BITS) == Err::<
                Seq<Result<Seq<char>, Seq<char>>>,
                Seq<char>,
            >(message@),
        },
{
    zip::ZipArchive::new(std::io::Cursor::new(data)).map_err(|e| e.to_string())
}

/// Calls `ZipArchive::len`, and claims that it returns the number of members.
#[verifier::external_body]
fn zip_len(archive: &zip::ZipArchive<std::io::Cursor<&[u8]>>) -> (count: usize)
    ensures
        count == zip_members(*archive).len(),
{
    archive.len()
}

/// Calls `ZipArchive::by_index_raw` and then `ZipFile::name`, and claims that they give
/// the name of the member at `index`, or the message with which it cannot be opened,
/// and leave the members as they are. The member is opened raw, since its name does
/// not depend on how its contents are stored, and `ZipArchive::by_index` panics on
/// some members of which only the contents cannot be read.
#[verifier::external_body]
fn zip_name(archive: &mut zip::ZipArchive<std::io::Cursor<&[u8]>>, index: usize) -> (r: Result<
    String,
    String,
>)
    requires
        index < zip_members(*old(archive)).len(),
    ensures
        zip_members(*final(archive)) == zip_members(*old(archive)),
        match r {
            Ok(name) => zip_members(*old(archive))[index as int] == Ok::<Seq<char>, Seq<char>>(
                name@,
            ),
            Err(message) => zip_members(*old(archive))[index as int] == Err::<
                Seq<char>,
                Seq<char>,
            >(message@),
        },
{
    archive.by_index_raw(index).map(|f| f.name().to_string()).map_err(|e| e.to_string())
}

/// Whether `seen` is what is known of a zip member, where `member` is its name or the
/// message with which it cannot be opened. It has the file name that the platform
/// reads in its name.
pub open spec fn is_zip_member(
    member: Result<Seq<char>, Seq<char>>,
    windows: bool,
    seen: MemberName,
) -> bool {
    match member {
        Ok(name) => seen is Ok && is_member_name(name, windows, seen->Ok_0),
        Err(message) => seen == Err::<Option<Seq<char>>, Fault<Seq<char>>>(
            Fault::ZipMember(message),
        ),
    }
}

/// Whether `seen` is what is known of each of the members of a zip file.
pub open spec fn are_zip_members(
    members: Seq<Result<Seq<char>, Seq<char>>>,
    windows: bool,
    seen: Seq<MemberName>,
) -> bool {
    &&& seen.len() == members.len()
    &&& forall|i: int|
        0 <= i < members.len() ==> is_zip_member(members[i], windows, #[trigger] seen[i])
}

/// The members of a zip file, by what is held of each.
pub open spec fn members_view(members: Seq<Result<String, String>>) -> Seq<
    Result<Seq<char>, Seq<char>>,
> {
    Seq::new(
        members.len(),
        |i: int|
            match members[i] {
                Ok(name) => Ok(name@),
                Err(message) => Err(message@),
            },
    )
}

/// Whether `r` is what looking for `exe` in a zip file with these members comes to:
/// the index of the first member with that file name, or why there is none.
pub open spec fn is_found_in_members(
    members: Seq<Result<Seq<char>, Seq<char>>>,
    exe: Seq<char>,
    windows: bool,
    r: Result<int, Fault<Seq<char>>>,
) -> bool {
    exists|seen: Seq<MemberName>| #[trigger]
        are_zip_members(members, windows, seen) && r == located(seen, exe, Fault::NotInZip(exe))
}

/// Whether `r` is what looking for `exe` in the zip file `data` comes to.
pub open spec fn is_found_in_zip(
    data: Seq<u8>,
    exe: Seq<char>,
    windows: bool,
    r: Result<int, Fault<Seq<char>>>,
) -> bool {
    match zip_listing(data, usize::BITS) {
        Err(message) => r == Err::<int, Fault<Seq<char>>>(Fault::Unreadable(message)),
        Ok(members) => is_found_in_members(members, exe, windows, r),
    }
}

/// Looks for the executable `exe` among these members of a zip file.
///
/// The search ends with the fault of a member that cannot be opened if it comes
/// before the executable.
pub fn find_in_members(
    members: &Vec<Result<String, String>>,
    exe: &str,
    windows: bool,
) -> (r: Result<usize, UbiError>)
    ensures
        is_found_in_members(members_view(members@), exe@, windows, index_view(r)),
{
    let ghost held = members_view(members@);
    let mut seen: Vec<Result<Option<String>, UbiError>> = Vec::new();
    let mut i: usize = 0;
    while i < members.len()
        invariant
            i <= members@.len(),
            held == members_view(members@),
            seen@.len() == i,
            forall|j: int|
                0 <= j < i ==> is_zip_member(
                    held[j],
                    windows,
                    #[trigger] member_names(seen@)[j],
                ),
        decreases members@.len() - i,
    {
        let ghost before = member_names(seen@);
        let member: Result<Option<String>, UbiError> = match &members[i] {
            Ok(name) => Ok(member_name(name.as_str(), windows)),
            Err(message) => Err(Fault::ZipMember(message.clone())),
        };
        let ghost known = name_view(member);
        seen.push(member);
        assert(member_names(seen@) =~= before.push(known));
        i = i + 1;
    }
    assert(are_zip_members(held, windows, member_names(seen@)));
    locate(seen, exe, Fault::NotInZip(exe.to_owned()))
}

/// Finds the member of the zip file `data` that holds the executable `exe`.
pub fn extract_zip(data: &[u8], exe: &str, windows: bool) -> (r: Result<usize, UbiError>)
    ensures
        is_found_in_zip(data@, exe@, windows, index_view(r)),
{
    let mut archive = match open_zip(data) {
        Ok(archive) => archive,
        Err(message) => {
            return Err(Fault::Unreadable(message));
        },
    };
    let ghost held = zip_listing(data@, usize::BITS)->Ok_0;
    let count: usize = zip_len(&archive);
    let mut members: Vec<Result<String, String>> = Vec::new();
    let mut i: usize = 0;
    while i < count
        invariant
            i <= count,
            count == held.len(),
            zip_members(archive) == held,
            members_view(members@) == held.take(i as int),
        decreases count - i,
    {
        let ghost before = members_view(members@);
        members.push(zip_name(&mut archive, i));
        assert(members_view(members@) =~= before.push(held[i as int]));
        assert(held.take(i + 1) =~= held.take(i as int).push(held[i as int]));
        i = i + 1;
    }
    assert(held.take(i as int) =~= held);
    find_in_members(&members, exe, windows)
}

/// Whether every platform reads the names of these members alike.
pub open spec fn are_portable_members(members: Seq<Result<Seq<char>, Seq<char>>>) -> bool {
    forall|i: int|
        0 <= i < members.len() && #[trigger] members[i] is Ok ==> is_portable(members[i]->Ok_0)
}

/// Where every platform reads the members' names alike, there is only one thing that
/// looking for the executable can come to.
pub proof fn law_zip_outcome_is_the_same_on_every_platform(
    members: Seq<Result<Seq<char>, Seq<char>>>,
    exe: Seq<char>,
    windows1: bool,
    r1: Result<int, Fault<Seq<char>>>,
    windows2: bool,
    r2: Result<int, Fault<Seq<char>>>,
)
    requires
        are_portable_members(members),
        is_found_in_members(members, exe, windows1, r1),
        is_found_in_members(members, exe, windows2, r2),
    ensures
        r1 == r2,
{
    let seen1 = choose|seen: Seq<MemberName>| #[trigger]
        are_zip_members(members, windows1, seen) && r1 == located(seen, exe, Fault::NotInZip(exe));
    let seen2 = choose|seen: Seq<MemberName>| #[trigger]
        are_zip_members(members, windows2, seen) && r2 == located(seen, exe, Fault::NotInZip(exe));
    assert forall|i: int| 0 <= i < members.len() implies seen1[i] == seen2[i] by {
        if members[i] is Ok {
            law_portable_paths_have_one_file_name(members[i]->Ok_0, windows1);
            law_portable_paths_have_one_file_name(members[i]->Ok_0, windows2);
        }
        assert(is_zip_member(members[i], windows1, seen1[i]));
        assert(is_zip_member(members[i], windows2, seen2[i]));
    }
    assert(seen1 =~= seen2);
}

/// Whether the names of these members are read part by part.
pub open spec fn are_plain_members(
    members: Seq<Result<Seq<char>, Seq<char>>>,
    windows: bool,
) -> bool {
    forall|i: int|
        0 <= i < members.len() && #[trigger] members[i] is Ok ==> is_plain(
            members[i]->Ok_0,
            windows,
        )
}

/// Where the members' names are read part by part, as they always are on a platform
/// other than Windows, there is only one thing that looking for the executable can
/// come to.
pub proof fn law_zip_outcome_is_determined(
    members: Seq<Result<Seq<char>, Seq<char>>>,
    exe: Seq<char>,
    windows: bool,
    r1: Result<int, Fault<Seq<char>>>,
    r2: Result<int, Fault<Seq<char>>>,
)
    requires
        are_plain_members(members, windows),
        is_found_in_members(members, exe, windows, r1),
        is_found_in_members(members, exe, windows, r2),
    ensures
        r1 == r2,
{
    let seen1 = choose|seen: Seq<MemberName>| #[trigger]
        are_zip_members(members, windows, seen) && r1 == located(seen, exe, Fault::NotInZip(exe));
    let seen2 = choose|seen: Seq<MemberName>| #[trigger]
        are_zip_members(members, windows, seen) && r2 == located(seen, exe, Fault::NotInZip(exe));
    assert forall|i: int| 0 <= i < members.len() implies seen1[i] == seen2[i] by {
        assert(is_zip_member(members[i], windows, seen1[i]));
        assert(is_zip_member(members[i], windows, seen2[i]));
    }
    assert(seen1 =~= seen2);
}

/// The member that is found is the first whose file name is that of the executable, so
/// far as the members' names are read part by part.
pub proof fn law_found_member_has_the_name_of_the_executable(
    members: Seq<Result<Seq<char>, Seq<char>>>,
    exe: Seq<char>,
    windows: bool,
    i: int,
)
    requires
        is_found_in_members(members, exe, windows, Ok(i)),
    ensures
        0 <= i < members.len(),
        members[i] is Ok,
        is_plain(members[i]->Ok_0, windows) ==> plain_name(members[i]->Ok_0, windows) == Some(exe),
        forall|j: int|
            0 <= j < i ==> (#[trigger] members[j]) is Ok && (is_plain(members[j]->Ok_0, windows)
                ==> plain_name(members[j]->Ok_0, windows) != Some(exe)),
{
    let seen = choose|seen: Seq<MemberName>| #[trigger]
        are_zip_members(members, windows, seen) && Ok::<int, Fault<Seq<char>>>(i) == located(
            seen,
            exe,
            Fault::NotInZip(exe),
        );
    law_the_first_member_of_that_name_is_located(seen, exe, Fault::NotInZip(exe), i);
    assert(is_zip_member(members[i], windows, seen[i]));
    assert forall|j: int| 0 <= j < i implies (#[trigger] members[j]) is Ok && (is_plain(
        members[j]->Ok_0,
        windows,
    ) ==> plain_name(members[j]->Ok_0, windows) != Some(exe)) by {
        assert(is_zip_member(members[j], windows, seen[j]));
        assert(seen[j] is Ok && seen[j]->Ok_0 != Some(exe));
    }
}

/// Data that cannot be opened as a zip file gives the message of the zip reader, and all
/// of the members of a zip file are looked at.
pub proof fn law_all_members_of_a_zip_file_are_looked_at(
    data: Seq<u8>,
    exe: Seq<char>,
    windows: bool,
    r: Result<int, Fault<Seq<char>>>,
)
    requires
        is_found_in_zip(data, exe, windows, r),
    ensures
        zip_listing(data, usize::BITS) is Err ==> r == Err::<int, Fault<Seq<char>>>(
            Fault::Unreadable(zip_listing(data, usize::BITS)->Err_0),
        ),
        zip_listing(data, usize::BITS) is Ok ==> is_found_in_members(
            zip_listing(data, usize::BITS)->Ok_0,
            exe,
            windows,
            r,
        ),
{
}

/// However many members come before it, the first member with the file name of the
/// executable is found.
pub proof fn law_the_first_member_with_the_name_is_found(
    members: Seq<Result<Seq<char>, Seq<char>>>,
    exe: Seq<char>,
    windows: bool,
    i: int,
    r: Result<int, Fault<Seq<char>>>,
)
    requires
        is_found_in_members(members, exe, windows, r),
        0 <= i < members.len(),
        members[i] is Ok && is_plain(members[i]->Ok_0, windows),
        plain_name(members[i]->Ok_0, windows) == Some(exe),
        forall|j: int|
            0 <= j < i ==> (#[trigger] members[j]) is Ok && is_plain(members[j]->Ok_0, windows)
                && plain_name(members[j]->Ok_0, windows) != Some(exe),
    ensures
        r == Ok::<int, Fault<Seq<char>>>(i),
{
    let seen = choose|seen: Seq<MemberName>| #[trigger]
        are_zip_members(members, windows, seen) && r == located(seen, exe, Fault::NotInZip(exe));
    assert(is_zip_member(members[i], windows, seen[i]));
    assert forall|j: int| 0 <= j < i implies (#[trigger] seen[j]) is Ok && seen[j]->Ok_0 != Some(
        exe,
    ) by {
        assert(is_zip_member(members[j], windows, seen[j]));
        assert(members[j] is Ok);
    }
    law_the_first_member_of_that_name_is_located(seen, exe, Fault::NotInZip(exe), i);
}

/// Where every member can be opened and none has the file name of the executable, that is
/// what is reported.
pub proof fn law_executable_that_is_in_no_member_is_reported(
    members: Seq<Result<Seq<char>, Seq<char>>>,
    exe: Seq<char>,
    windows: bool,
    r: Result<int, Fault<Seq<char>>>,
)
    requires
        is_found_in_members(members, exe, windows, r),
        forall|j: int|
            0 <= j < members.len() ==> (#[trigger] members[j]) is Ok && is_plain(
                members[j]->Ok_0,
                windows,
            ) && plain_name(members[j]->Ok_0, windows) != Some(exe),
    ensures
        r == Err::<int, Fault<Seq<char>>>(Fault::NotInZip(exe)),
{
    let seen = choose|seen: Seq<MemberName>| #[trigger]
        are_zip_members(members, windows, seen) && r == located(seen, exe, Fault::NotInZip(exe));
    assert forall|j: int| 0 <= j < seen.len() implies (#[trigger] seen[j]) is Ok && seen[j]->Ok_0
        != Some(exe) by {
        assert(is_zip_member(members[j], windows, seen[j]));
        assert(members[j] is Ok);
    }
    law_the_executable_is_missing_only_if_no_member_has_its_name(
        seen,
        exe,
        Fault::NotInZip(exe),
    );
}

/// A member that cannot be opened, with only members of other names before it, ends the
/// search with the message of the zip reader.
pub proof fn law_member_that_cannot_be_opened_is_reported(
    members: Seq<Result<Seq<char>, Seq<char>>>,
    exe: Seq<char>,
    windows: bool,
    i: int,
    r: Result<int, Fault<Seq<char>>>,
)
    requires
        is_found_in_members(members, exe, windows, r),
        0 <= i < members.len(),
        members[i] is Err,
        forall|j: int|
            0 <= j < i ==> (#[trigger] members[j]) is Ok && is_plain(members[j]->Ok_0, windows)
                && plain_name(members[j]->Ok_0, windows) != Some(exe),
    ensures
        r == Err::<int, Fault<Seq<char>>>(Fault::ZipMember(members[i]->Err_0)),
{
    let seen = choose|seen: Seq<MemberName>| #[trigger]
        are_zip_members(members, windows, seen) && r == located(seen, exe, Fault::NotInZip(exe));
    assert(is_zip_member(members[i], windows, seen[i]));
    assert forall|j: int| 0 <= j < i implies (#[trigger] seen[j]) is Ok && seen[j]->Ok_0 != Some(
        exe,
    ) by {
        assert(is_zip_member(members[j], windows, seen[j]));
        assert(members[j] is Ok);
    }
    law_a_member_that_cannot_be_told_ends_the_search(seen, exe, Fault::NotInZip(exe), i);
}

/// The members of a zip file are seen with all that is held of them.
pub proof fn law_zip_members_are_seen_as_they_are(members: Seq<Result<String, String>>)
    ensures
        members_view(members).len() == members.len(),
        forall|i: int|
            0 <= i < members.len() ==> match members[i] {
                Ok(name) => #[trigger] members_view(members)[i] == Ok::<Seq<char>, Seq<char>>(
                    name@,
                ),
                Err(message) => members_view(members)[i] == Err::<Seq<char>, Seq<char>>(message@),
            },
{
}

/// In a zip file that can be opened, the executable is found at the first member that is
/// called like it, in whatever directory, on every platform but Windows: at the index of
/// that member, however far behind it lies.
pub proof fn law_executable_of_a_sound_zip_file_is_found(
    data: Seq<u8>,
    members: Seq<Result<Seq<char>, Seq<char>>>,
    dir: Seq<char>,
    exe: Seq<char>,
    i: int,
    r: Result<int, Fault<Seq<char>>>,
)
    requires
        is_found_in_zip(data, exe, false, r),
        zip_listing(data, usize::BITS) == Ok::<Seq<Result<Seq<char>, Seq<char>>>, Seq<char>>(
            members,
        ),
        !exe.contains('/') && !exe.contains('\\'),
        exe.len() > 0 && exe != "."@ && exe != ".."@,
        0 <= i < members.len(),
        members[i] == Ok::<Seq<char>, Seq<char>>(exe) || members[i] == Ok::<Seq<char>, Seq<char>>(
            dir.push('/') + exe,
        ),
        forall|j: int|
            0 <= j < i ==> (#[trigger] members[j]) is Ok && file_name_of(
                members[j]->Ok_0,
                '/',
                '.',
            ) != Some(exe),
    ensures
        r == Ok::<int, Fault<Seq<char>>>(i),
{
    law_file_name_stands_behind_a_separator(dir, '/', exe);
    law_all_members_of_a_zip_file_are_looked_at(data, exe, false, r);
    law_the_first_member_with_the_name_is_found(members, exe, false, i, r);
}

} // verus!
