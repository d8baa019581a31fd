//! A project's release, and which of its assets to download.

use vstd::prelude::*;
use vstd::string::*;

use crate::error::{Fault, UbiError};
use crate::matcher::{arch_matcher, matcher_for, os_matcher, regex_error, regex_finds};
use crate::platform::{
    arch_pattern, is_rejected_arch, mentions_arch, mentions_os, os_pattern, Platform,
};
use crate::text::{
    contains, ends_with, has_infix, has_suffix, is_ascii_text, join, joined,
    law_suffix_stands_behind_a_stem, slices_text, strings_text,
};

verus! {

/// A release: its tag, and the names of the assets that were uploaded for it.
#[derive(Debug)]
pub struct ReleaseInfo {
    pub tag_name: String,
    pub assets: Vec<String>,
}

/// Whether an asset of this name is a package for a package manager.
pub open spec fn is_package(name: Seq<char>) -> bool {
    has_suffix(name, ".deb"@) || has_suffix(name, ".rpm"@)
}

/// The assets to pick from, in the order of the release: all but the packages that
/// fit the platform, where `fits` says of each asset whether it does.
pub open spec fn candidates(names: Seq<Seq<char>>, fits: Seq<bool>) -> Seq<Seq<char>>
    decreases names.len(),
{
    if names.len() == 0 {
        Seq::<Seq<char>>::empty()
    } else {
        let front = candidates(names.drop_last(), fits.drop_last());
        if fits.last() && !is_package(names.last()) {
            front.push(names.last())
        } else {
            front
        }
    }
}

/// Whether a name speaks of 64 bits.
pub open spec fn is_wide(name: Seq<char>) -> bool {
    has_infix(name, "64"@)
}

/// The first of the names that speaks of 64 bits, if there is one.
pub open spec fn first_wide(names: Seq<Seq<char>>) -> Option<Seq<char>>
    decreases names.len(),
{
    if names.len() == 0 {
        None
    } else if is_wide(names[0]) {
        Some(names[0])
    } else {
        first_wide(names.skip(1))
    }
}

/// Which of the candidates is picked on CPU architecture `arch`. On a 64-bit
/// architecture it is the first whose name speaks of 64 bits, where there is one; in
/// all other cases it is the first.
pub open spec fn picked(maybe: Seq<Seq<char>>, arch: Seq<char>) -> Seq<char> {
    match first_wide(maybe) {
        Some(name) if is_wide(arch) => name,
        _ => maybe[0],
    }
}

/// What choosing among assets of these names comes to, where `fits` says of each
/// whether it fits the platform and `arch` is the CPU architecture.
pub open spec fn choice(names: Seq<Seq<char>>, fits: Seq<bool>, arch: Seq<char>) -> Result<
    Seq<char>,
    Fault<Seq<char>>,
> {
    let maybe = candidates(names, fits);
    if maybe.len() == 0 {
        Err(Fault::NoMatchingAsset(joined(names, ", "@)))
    } else {
        Ok(picked(maybe, arch))
    }
}

/// Says of each name whether the patterns for operating system and architecture
/// both find a match in it.
pub open spec fn fitting(names: Seq<Seq<char>>, os: Seq<char>, arch: Seq<char>) -> Seq<bool> {
    Seq::new(names.len(), |i: int| regex_finds(os, names[i]) && regex_finds(arch, names[i]))
}

/// The name of the asset to download out of those of these names.
///
/// An asset that is alone is taken whatever its name. Otherwise there must be a
/// working pattern for the operating system, then one for the architecture, and the
/// choice is among the assets that match both.
pub open spec fn archive_choice(names: Seq<Seq<char>>, os: Seq<char>, arch: Seq<char>) -> Result<
    Seq<char>,
    Fault<Seq<char>>,
> {
    if names.len() == 1 {
        Ok(names[0])
    } else {
        match matcher_for(os_pattern(os), Fault::UnknownOs) {
            Err(fault) => Err(fault),
            Ok(os_regex) => match matcher_for(arch_pattern(arch), Fault::UnknownArch) {
                Err(fault) => Err(fault),
                Ok(arch_regex) => choice(names, fitting(names, os_regex, arch_regex), arch),
            },
        }
    }
}

/// Says of each name whether it mentions both operating system and architecture.
pub open spec fn mentioning(names: Seq<Seq<char>>, os: Seq<char>, arch: Seq<char>) -> Seq<bool> {
    Seq::new(names.len(), |i: int| mentions_os(names[i], os) && mentions_arch(names[i], arch))
}

/// Whether all of the names are ASCII.
pub open spec fn are_ascii(names: Seq<Seq<char>>) -> bool {
    forall|i: int| 0 <= i < names.len() ==> is_ascii_text(#[trigger] names[i])
}

/// Whether there is a working pattern for the platform.
pub open spec fn is_supported(os: Seq<char>, arch: Seq<char>) -> bool {
    os_pattern(os) is Some && arch_pattern(arch) is Some && !is_rejected_arch(arch)
}

/// The name of the asset to download out of those of these names, where all of them are
/// ASCII: unless there is only one, the choice is among those that mention the platform.
pub open spec fn ascii_choice(names: Seq<Seq<char>>, os: Seq<char>, arch: Seq<char>) -> Result<
    Seq<char>,
    Fault<Seq<char>>,
> {
    if names.len() == 1 {
        Ok(names[0])
    } else if os_pattern(os) is None {
        Err(Fault::UnknownOs)
    } else if arch_pattern(arch) is None {
        Err(Fault::UnknownArch)
    } else if is_rejected_arch(arch) {
        Err(Fault::Pattern(regex_error(arch_pattern(arch)->0)->0))
    } else {
        choice(names, mentioning(names, os, arch), arch)
    }
}

/// A text, or the reason why there is none, by what it holds.
pub open spec fn text_view(r: Result<String, UbiError>) -> Result<Seq<char>, Fault<Seq<char>>> {
    match r {
        Ok(text) => Ok(text@),
        Err(fault) => Err(fault@),
    }
}

/// Picks one of the candidates for CPU architecture `arch`.
pub fn pick_asset(maybe: &Vec<&str>, arch: &str) -> (name: String)
    requires
        maybe@.len() > 0,
    ensures
        name@ == picked(slices_text(maybe@), arch@),
{
    let ghost names = slices_text(maybe@);
    if maybe.len() == 1 {
        assert(first_wide(names.skip(1)) is None);
        return maybe[0].to_owned();
    }
    if contains(arch, "64") {
        let mut i: usize = 0;
        assert(names.skip(0) =~= names);
        while i < maybe.len()
            invariant
                i <= maybe@.len(),
                names == slices_text(maybe@),
                is_wide(arch@),
                first_wide(names) == first_wide(names.skip(i as int)),
            decreases maybe@.len() - i,
        {
            if contains(maybe[i], "64") {
                return maybe[i].to_owned();
            }
            assert(names.skip(i as int).skip(1) =~= names.skip(i + 1));
            i = i + 1;
        }
    }
    // There is nothing else to tell the candidates apart by.
    maybe[0].to_owned()
}

/// Chooses among assets of these names, where `fits` says of each whether it fits
/// the platform and `arch` is the CPU architecture.
pub fn choose_asset(names: &Vec<String>, fits: &Vec<bool>, arch: &str) -> (r: Result<
    String,
    UbiError,
>)
    requires
        fits@.len() == names@.len(),
    ensures
        text_view(r) == choice(strings_text(names@), fits@, arch@),
{
    let ghost all = strings_text(names@);
    let mut maybe: Vec<&str> = Vec::new();
    let mut i: usize = 0;
    assert(slices_text(maybe@) =~= candidates(all.take(0), fits@.take(0)));
    while i < names.len()
        invariant
            i <= names@.len(),
            fits@.len() == names@.len(),
            all == strings_text(names@),
            slices_text(maybe@) == candidates(all.take(i as int), fits@.take(i as int)),
        decreases names@.len() - i,
    {
        let ghost before = maybe@;
        let name = names[i].as_str();
        assert(all.take(i + 1).drop_last() =~= all.take(i as int));
        assert(fits@.take(i + 1).drop_last() =~= fits@.take(i as int));
        if fits[i] && !ends_with(name, ".deb") && !ends_with(name, ".rpm") {
            maybe.push(name);
            assert(slices_text(maybe@) =~= slices_text(before).push(name@));
        }
        i = i + 1;
    }
    assert(all.take(i as int) =~= all);
    assert(fits@.take(i as int) =~= fits@);
    if maybe.len() == 0 {
        return Err(Fault::NoMatchingAsset(join(names, ", ")));
    }
    Ok(pick_asset(&maybe, arch))
}

impl ReleaseInfo {
    /// The names of the assets.
    pub open spec fn names(self) -> Seq<Seq<char>> {
        strings_text(self.assets@)
    }

    /// The name of the asset to download for `platform`.
    pub fn archive_name(&self, platform: &Platform) -> (r: Result<String, UbiError>)
        ensures
            text_view(r) == archive_choice(self.names(), platform.os@, platform.arch@),
            are_ascii(self.names()) ==> text_view(r) == ascii_choice(
                self.names(),
                platform.os@,
                platform.arch@,
            ),
    {
        if self.assets.len() == 1 {
            return Ok(self.assets[0].clone());
        }
        let for_os = match os_matcher(platform.os.as_str()) {
            Ok(matcher) => matcher,
            Err(fault) => {
                return Err(fault);
            },
        };
        let for_arch = match arch_matcher(platform.arch.as_str()) {
            Ok(matcher) => matcher,
            Err(fault) => {
                return Err(fault);
            },
        };
        let ghost names = self.names();
        let ghost wanted = fitting(names, for_os@, for_arch@);
        let ghost mentioned = mentioning(names, platform.os@, platform.arch@);
        let mut fits: Vec<bool> = Vec::new();
        let mut i: usize = 0;
        while i < self.assets.len()
            invariant
                i <= self.assets@.len(),
                names == self.names(),
                wanted == fitting(names, for_os@, for_arch@),
                mentioned == mentioning(names, platform.os@, platform.arch@),
                os_pattern(platform.os@) == Some(for_os@),
                arch_pattern(platform.arch@) == Some(for_arch@),
                fits@ == wanted.take(i as int),
                are_ascii(names) ==> fits@ == mentioned.take(i as int),
            decreases self.assets@.len() - i,
        {
            let name = self.assets[i].as_str();
            let fit = for_os.is_match(name) && for_arch.is_match(name);
            assert(wanted.take(i + 1) =~= wanted.take(i as int).push(fit));
            assert(mentioned.take(i + 1) =~= mentioned.take(i as int).push(mentioned[i as int]));
            assert(name@ == names[i as int]);
            fits.push(fit);
            i = i + 1;
        }
        assert(wanted.take(i as int) =~= wanted);
        assert(mentioned.take(i as int) =~= mentioned);
        choose_asset(&self.assets, &fits, platform.arch.as_str())
    }
}

/// Every candidate is an asset that fits the platform and is no package.
pub proof fn lemma_candidates_are_fitting_assets(names: Seq<Seq<char>>, fits: Seq<bool>, i: int)
    requires
        names.len() == fits.len(),
        0 <= i < candidates(names, fits).len(),
    ensures
        exists|j: int|
            0 <= j < names.len() && #[trigger] names[j] == candidates(names, fits)[i] && fits[j]
                && !is_package(names[j]),
    decreases names.len(),
{
    if names.len() > 0 {
        let front = candidates(names.drop_last(), fits.drop_last());
        if i < front.len() {
            lemma_candidates_are_fitting_assets(names.drop_last(), fits.drop_last(), i);
            let j = choose|j: int|
                0 <= j < names.len() - 1 && #[trigger] names.drop_last()[j] == front[i]
                    && fits.drop_last()[j] && !is_package(names.drop_last()[j]);
            assert(names[j] == candidates(names, fits)[i]);
        } else {
            assert(names[names.len() - 1] == candidates(names, fits)[i]);
        }
    }
}

/// Every asset that fits the platform and is no package is a candidate.
pub proof fn lemma_fitting_assets_are_candidates(names: Seq<Seq<char>>, fits: Seq<bool>, j: int)
    requires
        names.len() == fits.len(),
        0 <= j < names.len(),
        fits[j],
        !is_package(names[j]),
    ensures
        candidates(names, fits).contains(names[j]),
    decreases names.len(),
{
    let front = candidates(names.drop_last(), fits.drop_last());
    let all = candidates(names, fits);
    if j < names.len() - 1 {
        lemma_fitting_assets_are_candidates(names.drop_last(), fits.drop_last(), j);
        let i = choose|i: int| 0 <= i < front.len() && front[i] == names[j];
        assert(all[i] == names[j]);
    } else {
        assert(all[all.len() - 1] == names[j]);
    }
}

/// The first name that speaks of 64 bits is one of the names and does speak of them,
/// and none exists only where no name speaks of them.
pub proof fn lemma_first_wide(names: Seq<Seq<char>>)
    ensures
        match first_wide(names) {
            Some(name) => names.contains(name) && is_wide(name),
            None => forall|i: int| 0 <= i < names.len() ==> !is_wide(#[trigger] names[i]),
        },
    decreases names.len(),
{
    if names.len() > 0 && !is_wide(names[0]) {
        let rest = names.skip(1);
        lemma_first_wide(rest);
        match first_wide(rest) {
            Some(name) => {
                let i = choose|i: int| 0 <= i < rest.len() && rest[i] == name;
                assert(names[i + 1] == name);
            },
            None => {
                assert forall|i: int| 0 <= i < names.len() implies !is_wide(#[trigger] names[i]) by {
                    if i > 0 {
                        assert(rest[i - 1] == names[i]);
                    }
                }
            },
        }
    }
}

/// What is picked is one of the candidates.
pub proof fn lemma_picked_is_a_candidate(maybe: Seq<Seq<char>>, arch: Seq<char>)
    requires
        maybe.len() > 0,
    ensures
        maybe.contains(picked(maybe, arch)),
{
    lemma_first_wide(maybe);
    assert(maybe.contains(maybe[0]));
}

/// A choice fails exactly if every asset is a package or does not fit, and otherwise
/// gives an asset that fits and is no package.
pub proof fn lemma_choice(names: Seq<Seq<char>>, fits: Seq<bool>, arch: Seq<char>)
    requires
        names.len() == fits.len(),
    ensures
        match choice(names, fits, arch) {
            Ok(name) => exists|j: int|
                0 <= j < names.len() && #[trigger] names[j] == name && fits[j] && !is_package(name),
            Err(_) => forall|j: int|
                0 <= j < names.len() ==> is_package(#[trigger] names[j]) || !fits[j],
        },
{
    let maybe = candidates(names, fits);
    if maybe.len() == 0 {
        assert forall|j: int| 0 <= j < names.len() implies is_package(#[trigger] names[j])
            || !fits[j] by {
            if !is_package(names[j]) && fits[j] {
                lemma_fitting_assets_are_candidates(names, fits, j);
            }
        }
    } else {
        lemma_picked_is_a_candidate(maybe, arch);
        let i = choose|i: int| 0 <= i < maybe.len() && maybe[i] == picked(maybe, arch);
        lemma_candidates_are_fitting_assets(names, fits, i);
    }
}

/// An asset that is chosen is an asset of the release, on every platform.
pub proof fn law_chosen_asset_belongs_to_the_release(
    names: Seq<Seq<char>>,
    os: Seq<char>,
    arch: Seq<char>,
)
    requires
        archive_choice(names, os, arch) is Ok,
    ensures
        names.contains(archive_choice(names, os, arch)->Ok_0),
{
    if names.len() == 1 {
        assert(names.contains(names[0]));
    } else {
        law_chosen_asset_fits_the_platform(names, os, arch);
    }
}

/// Among several assets, one that is chosen is never a package for a package manager,
/// and the patterns for the operating system and the architecture both match it.
pub proof fn law_chosen_asset_fits_the_platform(
    names: Seq<Seq<char>>,
    os: Seq<char>,
    arch: Seq<char>,
)
    requires
        names.len() != 1,
        archive_choice(names, os, arch) is Ok,
    ensures
        os_pattern(os) is Some,
        arch_pattern(arch) is Some,
        ({
            let name = archive_choice(names, os, arch)->Ok_0;
            &&& names.contains(name)
            &&& !is_package(name)
            &&& regex_finds(os_pattern(os)->0, name)
            &&& regex_finds(arch_pattern(arch)->0, name)
        }),
{
    lemma_choice(names, fitting(names, os_pattern(os)->0, arch_pattern(arch)->0), arch);
}

/// Among several assets, and with a working pattern for the platform, none is chosen
/// only if each of them is a package or was built for another platform.
pub proof fn law_no_asset_is_chosen_only_if_none_fits(
    names: Seq<Seq<char>>,
    os: Seq<char>,
    arch: Seq<char>,
)
    requires
        names.len() != 1,
        matcher_for(os_pattern(os), Fault::UnknownOs) is Ok,
        matcher_for(arch_pattern(arch), Fault::UnknownArch) is Ok,
    ensures
        archive_choice(names, os, arch) is Err <==> forall|j: int|
            0 <= j < names.len() ==> is_package(#[trigger] names[j]) || !regex_finds(
                os_pattern(os)->0,
                names[j],
            ) || !regex_finds(arch_pattern(arch)->0, names[j]),
{
    let fits = fitting(names, os_pattern(os)->0, arch_pattern(arch)->0);
    lemma_choice(names, fits, arch);
    assert(forall|j: int| 0 <= j < names.len() ==> #[trigger] fits[j] == (regex_finds(
        os_pattern(os)->0,
        names[j],
    ) && regex_finds(arch_pattern(arch)->0, names[j])));
}

/// Among several assets with ASCII names, and on a platform that there is a working
/// pattern for, one is chosen exactly if some asset that is no package mentions the
/// platform, and then such a one is.
pub proof fn law_an_asset_that_mentions_the_platform_is_chosen(
    names: Seq<Seq<char>>,
    os: Seq<char>,
    arch: Seq<char>,
)
    requires
        names.len() != 1,
        is_supported(os, arch),
    ensures
        match ascii_choice(names, os, arch) {
            Ok(name) => names.contains(name) && !is_package(name) && mentions_os(name, os)
                && mentions_arch(name, arch),
            Err(fault) => {
                &&& fault == Fault::NoMatchingAsset(joined(names, ", "@))
                &&& forall|j: int|
                    0 <= j < names.len() ==> is_package(#[trigger] names[j]) || !mentions_os(
                        names[j],
                        os,
                    ) || !mentions_arch(names[j], arch)
            },
        },
{
    let fits = mentioning(names, os, arch);
    lemma_choice(names, fits, arch);
    assert(forall|j: int| 0 <= j < names.len() ==> #[trigger] fits[j] == (mentions_os(names[j], os)
        && mentions_arch(names[j], arch)));
}

/// On a 64-bit architecture, a name that speaks of 64 bits is picked wherever one of
/// the candidates has such a name.
pub proof fn law_wide_asset_is_preferred(maybe: Seq<Seq<char>>, arch: Seq<char>, i: int)
    requires
        is_wide(arch),
        0 <= i < maybe.len(),
        is_wide(maybe[i]),
    ensures
        is_wide(picked(maybe, arch)),
{
    lemma_first_wide(maybe);
}

/// Looking on behind some names does not change which of them is the first that speaks of
/// 64 bits.
proof fn lemma_first_wide_push(names: Seq<Seq<char>>, name: Seq<char>)
    ensures
        first_wide(names.push(name)) == match first_wide(names) {
            Some(first) => Some(first),
            None => if is_wide(name) {
                Some(name)
            } else {
                None
            },
        },
    decreases names.len(),
{
    let all = names.push(name);
    if names.len() == 0 {
        assert(first_wide(all.skip(1)) is None);
        assert(all[0] == name);
    } else {
        assert(all[0] == names[0]);
        assert(all.skip(1) =~= names.skip(1).push(name));
        lemma_first_wide_push(names.skip(1), name);
    }
}

/// The first candidate is the first asset that fits and is no package.
proof fn lemma_first_candidate(names: Seq<Seq<char>>, fits: Seq<bool>, k: int)
    requires
        names.len() == fits.len(),
        0 <= k < names.len(),
        fits[k] && !is_package(names[k]),
        forall|j: int| 0 <= j < k ==> !fits[j] || is_package(#[trigger] names[j]),
    ensures
        candidates(names, fits).len() > 0,
        candidates(names, fits)[0] == names[k],
    decreases names.len(),
{
    let front = candidates(names.drop_last(), fits.drop_last());
    if k == names.len() - 1 {
        if front.len() > 0 {
            lemma_candidates_are_fitting_assets(names.drop_last(), fits.drop_last(), 0);
            let j = choose|j: int|
                0 <= j < names.len() - 1 && #[trigger] names.drop_last()[j] == front[0]
                    && fits.drop_last()[j] && !is_package(names.drop_last()[j]);
            assert(names[j] == names.drop_last()[j]);
        }
    } else {
        assert forall|j: int| 0 <= j < k implies !fits.drop_last()[j] || is_package(
            #[trigger] names.drop_last()[j],
        ) by {
            assert(names[j] == names.drop_last()[j]);
        }
        lemma_first_candidate(names.drop_last(), fits.drop_last(), k);
    }
}

/// The first candidate that speaks of 64 bits is the first asset that does, fits and is no
/// package.
proof fn lemma_first_wide_candidate(names: Seq<Seq<char>>, fits: Seq<bool>, k: int)
    requires
        names.len() == fits.len(),
        0 <= k < names.len(),
        fits[k] && !is_package(names[k]) && is_wide(names[k]),
        forall|j: int|
            0 <= j < k ==> !fits[j] || is_package(#[trigger] names[j]) || !is_wide(names[j]),
    ensures
        first_wide(candidates(names, fits)) == Some(names[k]),
    decreases names.len(),
{
    let front = candidates(names.drop_last(), fits.drop_last());
    lemma_first_wide_push(front, names.last());
    if k == names.len() - 1 {
        lemma_no_wide_candidate(names.drop_last(), fits.drop_last());
    } else {
        assert forall|j: int| 0 <= j < k implies !fits.drop_last()[j] || is_package(
            #[trigger] names.drop_last()[j],
        ) || !is_wide(names.drop_last()[j]) by {
            assert(names[j] == names.drop_last()[j]);
        }
        lemma_first_wide_candidate(names.drop_last(), fits.drop_last(), k);
    }
}

/// No candidate speaks of 64 bits if no asset does that fits and is no package.
proof fn lemma_no_wide_candidate(names: Seq<Seq<char>>, fits: Seq<bool>)
    requires
        names.len() == fits.len(),
        forall|j: int|
            0 <= j < names.len() ==> !fits[j] || is_package(#[trigger] names[j]) || !is_wide(
                names[j],
            ),
    ensures
        first_wide(candidates(names, fits)) is None,
{
    let maybe = candidates(names, fits);
    lemma_first_wide(maybe);
    if let Some(name) = first_wide(maybe) {
        let i = choose|i: int| 0 <= i < maybe.len() && maybe[i] == name;
        lemma_candidates_are_fitting_assets(names, fits, i);
    }
}

/// A package is an asset whose name is something with `.deb` or `.rpm` behind it.
pub proof fn law_packages_end_in_deb_or_rpm(name: Seq<char>, stem: Seq<char>)
    ensures
        is_package(stem + ".deb"@),
        is_package(stem + ".rpm"@),
        is_package(name) ==> (exists|stem: Seq<char>| name == #[trigger] (stem + ".deb"@)) || (
        exists|stem: Seq<char>| name == #[trigger] (stem + ".rpm"@)),
{
    law_suffix_stands_behind_a_stem(stem + ".deb"@, ".deb"@);
    law_suffix_stands_behind_a_stem(stem + ".rpm"@, ".rpm"@);
    law_suffix_stands_behind_a_stem(name, ".deb"@);
    law_suffix_stands_behind_a_stem(name, ".rpm"@);
}

/// On a 64-bit architecture the earliest asset of the release is chosen that fits, is no
/// package and has `64` in its name, wherever there is one.
pub proof fn law_the_earliest_wide_asset_is_chosen(
    names: Seq<Seq<char>>,
    fits: Seq<bool>,
    arch: Seq<char>,
    k: int,
)
    requires
        names.len() == fits.len(),
        has_infix(arch, "64"@),
        0 <= k < names.len(),
        fits[k] && !has_suffix(names[k], ".deb"@) && !has_suffix(names[k], ".rpm"@),
        has_infix(names[k], "64"@),
        forall|j: int|
            0 <= j < k ==> !(fits[j] && !has_suffix(#[trigger] names[j], ".deb"@) && !has_suffix(
                names[j],
                ".rpm"@,
            ) && has_infix(names[j], "64"@)),
    ensures
        choice(names, fits, arch) == Ok::<Seq<char>, Fault<Seq<char>>>(names[k]),
{
    lemma_first_wide_candidate(names, fits, k);
    lemma_first_wide(candidates(names, fits));
}

/// In all other cases, where the architecture is not a 64-bit one or no asset that could
/// be taken has `64` in its name, the earliest asset of the release is chosen that fits
/// and is no package.
pub proof fn law_the_earliest_fitting_asset_is_chosen(
    names: Seq<Seq<char>>,
    fits: Seq<bool>,
    arch: Seq<char>,
    k: int,
)
    requires
        names.len() == fits.len(),
        0 <= k < names.len(),
        fits[k] && !has_suffix(names[k], ".deb"@) && !has_suffix(names[k], ".rpm"@),
        forall|j: int|
            0 <= j < k ==> !(fits[j] && !has_suffix(#[trigger] names[j], ".deb"@) && !has_suffix(
                names[j],
                ".rpm"@,
            )),
        !has_infix(arch, "64"@) || forall|j: int|
            0 <= j < names.len() ==> !(fits[j] && !has_suffix(#[trigger] names[j], ".deb"@)
                && !has_suffix(names[j], ".rpm"@) && has_infix(names[j], "64"@)),
    ensures
        choice(names, fits, arch) == Ok::<Seq<char>, Fault<Seq<char>>>(names[k]),
{
    lemma_first_candidate(names, fits, k);
    if has_infix(arch, "64"@) {
        lemma_no_wide_candidate(names, fits);
    }
}

/// Where no asset fits but packages, the choice fails and names all of the assets.
pub proof fn law_nothing_is_chosen_where_only_packages_fit(
    names: Seq<Seq<char>>,
    fits: Seq<bool>,
    arch: Seq<char>,
)
    requires
        names.len() == fits.len(),
        forall|j: int|
            0 <= j < names.len() ==> !fits[j] || has_suffix(#[trigger] names[j], ".deb"@)
                || has_suffix(names[j], ".rpm"@),
    ensures
        choice(names, fits, arch) == Err::<Seq<char>, Fault<Seq<char>>>(
            Fault::NoMatchingAsset(joined(names, ", "@)),
        ),
{
    let maybe = candidates(names, fits);
    if maybe.len() > 0 {
        lemma_candidates_are_fitting_assets(names, fits, 0);
    }
}

/// Of several candidates the first is picked, or on a 64-bit architecture the first with
/// `64` in its name, wherever there is one.
pub proof fn law_the_first_candidate_of_its_kind_is_picked(
    maybe: Seq<Seq<char>>,
    arch: Seq<char>,
    k: int,
)
    requires
        0 <= k < maybe.len(),
    ensures
        has_infix(arch, "64"@) && has_infix(maybe[k], "64"@) && (forall|j: int|
            0 <= j < k ==> !has_infix(#[trigger] maybe[j], "64"@)) ==> picked(maybe, arch)
            == maybe[k],
        !has_infix(arch, "64"@) || (forall|j: int|
            0 <= j < maybe.len() ==> !has_infix(#[trigger] maybe[j], "64"@)) ==> picked(maybe, arch)
            == maybe[0],
    decreases k,
{
    lemma_first_wide(maybe);
    if has_infix(maybe[k], "64"@) && (forall|j: int|
        0 <= j < k ==> !has_infix(#[trigger] maybe[j], "64"@)) {
        lemma_first_wide_at(maybe, k);
    }
}

proof fn lemma_first_wide_at(names: Seq<Seq<char>>, k: int)
    requires
        0 <= k < names.len(),
        is_wide(names[k]),
        forall|j: int| 0 <= j < k ==> !is_wide(#[trigger] names[j]),
    ensures
        first_wide(names) == Some(names[k]),
    decreases k,
{
    if k > 0 {
        let rest = names.skip(1);
        assert forall|j: int| 0 <= j < k - 1 implies !is_wide(#[trigger] rest[j]) by {
            assert(rest[j] == names[j + 1]);
        }
        assert(rest[k - 1] == names[k]);
        assert(!is_wide(names[0]));
        lemma_first_wide_at(rest, k - 1);
    }
}

/// Which asset is downloaded. One that is alone is. Otherwise a platform without a
/// pattern, or with one that the regex engine rejects, is a fault, first of the operating
/// system and then of the architecture; and else the choice is among the assets in whose
/// names both patterns have a match.
pub proof fn law_asset_is_looked_for_by_both_patterns(
    names: Seq<Seq<char>>,
    os: Seq<char>,
    arch: Seq<char>,
    fits: Seq<bool>,
)
    requires
        fits.len() == names.len(),
        forall|i: int|
            0 <= i < names.len() ==> #[trigger] fits[i] == (regex_finds(os_pattern(os)->0, names[i])
                && regex_finds(arch_pattern(arch)->0, names[i])),
    ensures
        archive_choice(names, os, arch) == if names.len() == 1 {
            Ok(names[0])
        } else if os_pattern(os) is None {
            Err(Fault::UnknownOs)
        } else if regex_error(os_pattern(os)->0) is Some {
            Err(Fault::Pattern(regex_error(os_pattern(os)->0)->0))
        } else if arch_pattern(arch) is None {
            Err(Fault::UnknownArch)
        } else if regex_error(arch_pattern(arch)->0) is Some {
            Err(Fault::Pattern(regex_error(arch_pattern(arch)->0)->0))
        } else {
            choice(names, fits, arch)
        },
{
    assert(fits =~= fitting(names, os_pattern(os)->0, arch_pattern(arch)->0));
}

/// Which asset is downloaded where all names are ASCII: as in
/// `law_asset_is_looked_for_by_both_patterns`, among those that mention the platform.
pub proof fn law_asset_is_looked_for_by_the_words_in_its_name(
    names: Seq<Seq<char>>,
    os: Seq<char>,
    arch: Seq<char>,
    fits: Seq<bool>,
)
    requires
        fits.len() == names.len(),
        forall|i: int|
            0 <= i < names.len() ==> #[trigger] fits[i] == (mentions_os(names[i], os)
                && mentions_arch(names[i], arch)),
    ensures
        ascii_choice(names, os, arch) == if names.len() == 1 {
            Ok(names[0])
        } else if os_pattern(os) is None {
            Err(Fault::UnknownOs)
        } else if arch_pattern(arch) is None {
            Err(Fault::UnknownArch)
        } else if arch == "powerpc"@ || arch == "powerpc64"@ || arch == "x86"@ {
            Err(Fault::Pattern(regex_error(arch_pattern(arch)->0)->0))
        } else {
            choice(names, fits, arch)
        },
        are_ascii(names) <==> forall|i: int, c: int|
            0 <= i < names.len() && 0 <= c < names[i].len() ==> (#[trigger] names[i][c]) as u32
                <= 127,
{
    assert(fits =~= mentioning(names, os, arch));
    if are_ascii(names) {
        assert forall|i: int, c: int|
            0 <= i < names.len() && 0 <= c < names[i].len() implies (#[trigger] names[i][c]) as u32
            <= 127 by {
            assert(is_ascii_text(names[i]));
        }
    } else {
        let i = choose|i: int| 0 <= i < names.len() && !is_ascii_text(#[trigger] names[i]);
        let c = choose|c: int| 0 <= c < names[i].len() && (#[trigger] names[i][c]) as u32 > 127;
        assert(names[i][c] as u32 > 127);
    }
}

/// A result is seen with all that it holds, and so are the names of a release.
pub proof fn law_results_are_seen_as_they_are(r: Result<String, UbiError>, release: ReleaseInfo)
    ensures
        r is Ok ==> text_view(r) == Ok::<Seq<char>, Fault<Seq<char>>>(r->Ok_0@),
        r is Err ==> text_view(r) == Err::<Seq<char>, Fault<Seq<char>>>(r->Err_0@),
        release.names().len() == release.assets@.len(),
        forall|i: int|
            0 <= i < release.assets@.len() ==> #[trigger] release.names()[i]
                == release.assets@[i]@,
{
}

/// Among several assets with ASCII names, and on a platform with a working pattern, the
/// earliest asset is downloaded that mentions operating system and architecture and is no
/// package. On a 64-bit architecture that is the earliest of those with `64` in their
/// names, wherever there is one.
pub proof fn law_the_earliest_asset_that_mentions_the_platform_is_downloaded(
    names: Seq<Seq<char>>,
    os: Seq<char>,
    arch: Seq<char>,
    k: int,
)
    requires
        names.len() != 1,
        os_pattern(os) is Some,
        arch_pattern(arch) is Some,
        arch != "powerpc"@ && arch != "powerpc64"@ && arch != "x86"@,
        0 <= k < names.len(),
        mentions_os(names[k], os) && mentions_arch(names[k], arch),
        !has_suffix(names[k], ".deb"@) && !has_suffix(names[k], ".rpm"@),
    ensures
        has_infix(arch, "64"@) && has_infix(names[k], "64"@) && (forall|j: int|
            0 <= j < k ==> !(mentions_os(#[trigger] names[j], os) && mentions_arch(names[j], arch)
                && !has_suffix(names[j], ".deb"@) && !has_suffix(names[j], ".rpm"@) && has_infix(
                names[j],
                "64"@,
            ))) ==> ascii_choice(names, os, arch) == Ok::<Seq<char>, Fault<Seq<char>>>(names[k]),
        !has_infix(arch, "64"@) && (forall|j: int|
            0 <= j < k ==> !(mentions_os(#[trigger] names[j], os) && mentions_arch(names[j], arch)
                && !has_suffix(names[j], ".deb"@) && !has_suffix(names[j], ".rpm"@)))
            ==> ascii_choice(names, os, arch) == Ok::<Seq<char>, Fault<Seq<char>>>(names[k]),
{
    let fits = mentioning(names, os, arch);
    law_asset_is_looked_for_by_the_words_in_its_name(names, os, arch, fits);
    if has_infix(arch, "64"@) && has_infix(names[k], "64"@) && (forall|j: int|
        0 <= j < k ==> !(mentions_os(#[trigger] names[j], os) && mentions_arch(names[j], arch)
            && !has_suffix(names[j], ".deb"@) && !has_suffix(names[j], ".rpm"@) && has_infix(
            names[j],
            "64"@,
        ))) {
        law_the_earliest_wide_asset_is_chosen(names, fits, arch, k);
    }
    if !has_infix(arch, "64"@) && (forall|j: int|
        0 <= j < k ==> !(mentions_os(#[trigger] names[j], os) && mentions_arch(names[j], arch)
            && !has_suffix(names[j], ".deb"@) && !has_suffix(names[j], ".rpm"@))) {
        law_the_earliest_fitting_asset_is_chosen(names, fits, arch, k);
    }
}

} // verus!
