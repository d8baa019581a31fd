//! Projects: their names, their executables and where their releases are asked for.

use vstd::prelude::*;
use vstd::string::*;

use crate::error::{Fault, UbiError};
use crate::release::text_view;
use crate::text::{
    ends_with, has_suffix, law_suffix_stands_behind_a_stem, lemma_appended_is_suffix,
    lemma_one_piece_iff_unseparated,
    lemma_pieces_hold_no_separator, lemma_pieces_nonempty, lemma_pieces_of_concat,
    lemma_pieces_of_unseparated, optional_slice_text, optional_text, pieces, split,
};

verus! {

/// The name of the project that `project` means, a name or a URL: its last two parts,
/// the organization and the project, with a slash between them.
pub open spec fn parsed_project(project: Seq<char>) -> Result<Seq<char>, Fault<Seq<char>>> {
    let parts = pieces(project, '/');
    if parts.len() < 2 {
        Err(Fault::ProjectName(project))
    } else {
        Ok(parts[parts.len() - 2] + "/"@ + parts[parts.len() - 1])
    }
}

/// The file name of a project's executable: the one that was given or else the last
/// part of the project's name. On Windows it gets the suffix `.exe` where it does not
/// have it.
pub open spec fn executable_name(
    exe: Option<Seq<char>>,
    project_name: Seq<char>,
    windows: bool,
) -> Seq<char> {
    let name = match exe {
        Some(exe) => exe,
        None => pieces(project_name, '/').last(),
    };
    if windows && !has_suffix(name, ".exe"@) {
        name + ".exe"@
    } else {
        name
    }
}

/// Reads the name of a project off `project`, which must be given.
pub fn parse_project_name(project: Option<&str>) -> (r: Result<String, UbiError>)
    requires
        project is Some,
    ensures
        text_view(r) == parsed_project(project->0@),
{
    let p = project.unwrap();
    let parts = split(p, '/');
    let ghost texts = pieces(p@, '/');
    assert(texts.len() == parts@.len());
    if parts.len() < 2 {
        return Err(Fault::ProjectName(p.to_owned()));
    }
    let org = parts[parts.len() - 2];
    let proj = parts[parts.len() - 1];
    assert(org@ == texts[texts.len() - 2] && proj@ == texts[texts.len() - 1]);
    let mut name = org.to_owned();
    name.append("/");
    name.append(proj);
    Ok(name)
}

/// The file name of a project's executable, where `exe` is the one that was given.
pub fn exe_name(exe: Option<&str>, project_name: &str, windows: bool) -> (name: String)
    ensures
        name@ == executable_name(optional_slice_text(exe), project_name@, windows),
{
    let e = match exe {
        Some(e) => e,
        None => {
            let parts = split(project_name, '/');
            let ghost texts = pieces(project_name@, '/');
            proof {
                lemma_pieces_nonempty(project_name@, '/');
            }
            assert(texts.len() == parts@.len());
            let e = parts[parts.len() - 1];
            assert(e@ == texts.last());
            e
        },
    };
    if windows && !ends_with(e, ".exe") {
        e.to_owned().concat(".exe")
    } else {
        e.to_owned()
    }
}

/// Where the executable is installed: as a file of name `exe` in directory `dir`,
/// which is below the current directory if `in_current_dir` says so.
#[derive(Debug)]
pub struct InstallPath {
    pub in_current_dir: bool,
    pub dir: String,
    pub exe: String,
}

/// Where the executable `exe` is installed: in the directory that was given, or else
/// in `bin` below the current directory.
pub fn install_path(in_dir: Option<&str>, exe: &str) -> (path: InstallPath)
    ensures
        path.in_current_dir == (in_dir is None),
        path.dir@ == match in_dir {
            Some(dir) => dir@,
            None => "bin"@,
        },
        path.exe@ == exe@,
{
    match in_dir {
        Some(dir) => InstallPath {
            in_current_dir: false,
            dir: dir.to_owned(),
            exe: exe.to_owned(),
        },
        None => InstallPath {
            in_current_dir: true,
            dir: "bin".to_owned(),
            exe: exe.to_owned(),
        },
    }
}

/// A release to ask for: the one with this tag, or else the latest, of a repository.
#[derive(Debug)]
pub struct ReleaseRequest {
    pub owner: String,
    pub repo: String,
    pub tag: Option<String>,
}

/// The release of a project to ask for. Its name must have two parts.
pub fn release_request(tag: Option<&str>, project_name: &str) -> (request: ReleaseRequest)
    requires
        pieces(project_name@, '/').len() >= 2,
    ensures
        request.owner@ == pieces(project_name@, '/')[0],
        request.repo@ == pieces(project_name@, '/')[1],
        optional_text(request.tag) == optional_slice_text(tag),
{
    let parts = split(project_name, '/');
    let ghost texts = pieces(project_name@, '/');
    assert(texts.len() == parts@.len());
    let owner = parts[0];
    let repo = parts[1];
    assert(owner@ == texts[0] && repo@ == texts[1]);
    ReleaseRequest {
        owner: owner.to_owned(),
        repo: repo.to_owned(),
        tag: match tag {
            Some(tag) => Some(tag.to_owned()),
            None => None,
        },
    }
}

/// Where an asset of a project's release is downloaded from.
pub open spec fn asset_url(project_name: Seq<char>, tag: Seq<char>, asset: Seq<char>) -> Seq<char> {
    "https://github.com/"@ + project_name + "/releases/download/"@ + tag + "/"@ + asset
}

/// Where an asset of a project's release is downloaded from.
pub fn download_url(project_name: &str, tag: &str, asset: &str) -> (url: String)
    ensures
        url@ == asset_url(project_name@, tag@, asset@),
{
    let mut url = "https://github.com/".to_owned();
    url.append(project_name);
    url.append("/releases/download/");
    url.append(tag);
    url.append("/");
    url.append(asset);
    url
}

/// A name of two parts, neither of which holds a slash, has these parts as its pieces.
pub proof fn lemma_pieces_of_project_name(org: Seq<char>, proj: Seq<char>)
    requires
        !org.contains('/'),
        !proj.contains('/'),
    ensures
        pieces(org + "/"@ + proj, '/') == seq![org, proj],
{
    reveal_strlit("/");
    assert(org + "/"@ + proj =~= org.push('/') + proj);
    lemma_pieces_of_concat(org, '/', proj);
    lemma_pieces_of_unseparated(org, '/');
    lemma_pieces_of_unseparated(proj, '/');
    assert(pieces(org + "/"@ + proj, '/') =~= seq![org, proj]);
}

/// A project can be given by its name or by any URL that ends with its name.
pub proof fn law_name_and_url_mean_the_same_project(
    prefix: Seq<char>,
    org: Seq<char>,
    proj: Seq<char>,
)
    requires
        !org.contains('/'),
        !proj.contains('/'),
    ensures
        parsed_project(org + "/"@ + proj) == Ok::<Seq<char>, Fault<Seq<char>>>(org + "/"@ + proj),
        parsed_project(prefix + "/"@ + org + "/"@ + proj) == Ok::<Seq<char>, Fault<Seq<char>>>(
            org + "/"@ + proj,
        ),
{
    reveal_strlit("/");
    lemma_pieces_of_project_name(org, proj);
    let name = org + "/"@ + proj;
    assert(prefix + "/"@ + org + "/"@ + proj =~= prefix.push('/') + name);
    lemma_pieces_of_concat(prefix, '/', name);
    let parts = pieces(prefix, '/') + seq![org, proj];
    assert(parts[parts.len() - 2] == org && parts[parts.len() - 1] == proj);
}

/// A project's name that was read off some text consists of exactly two parts: the
/// repository that its releases are asked from, and the default executable.
pub proof fn law_parsed_name_has_two_parts(project: Seq<char>)
    requires
        parsed_project(project) is Ok,
    ensures
        ({
            let name = parsed_project(project)->Ok_0;
            let parts = pieces(name, '/');
            &&& parts.len() == 2
            &&& name == parts[0] + "/"@ + parts[1]
            &&& executable_name(None, name, false) == parts[1]
            &&& executable_name(None, name, true) == executable_name(Some(parts[1]), name, true)
        }),
{
    let parts = pieces(project, '/');
    lemma_pieces_hold_no_separator(project, '/');
    lemma_pieces_of_project_name(parts[parts.len() - 2], parts[parts.len() - 1]);
}

/// Reading a project's name off itself changes nothing.
pub proof fn law_parsing_a_parsed_name_changes_nothing(project: Seq<char>)
    requires
        parsed_project(project) is Ok,
    ensures
        parsed_project(parsed_project(project)->Ok_0) == parsed_project(project),
{
    law_parsed_name_has_two_parts(project);
}

/// A text without a slash names no project, and every other text does.
pub proof fn law_a_project_needs_a_slash(project: Seq<char>)
    ensures
        parsed_project(project) is Ok <==> project.contains('/'),
        !project.contains('/') ==> parsed_project(project) == Err::<Seq<char>, Fault<Seq<char>>>(
            Fault::ProjectName(project),
        ),
{
    lemma_one_piece_iff_unseparated(project, '/');
    lemma_pieces_nonempty(project, '/');
}

/// On Windows every executable has the suffix `.exe`, which is added only where the
/// name does not have it.
pub proof fn law_executables_end_in_exe_on_windows(exe: Option<Seq<char>>, project_name: Seq<char>)
    ensures
        has_suffix(executable_name(exe, project_name, true), ".exe"@),
        has_suffix(executable_name(exe, project_name, false), ".exe"@) ==> executable_name(
            exe,
            project_name,
            true,
        ) == executable_name(exe, project_name, false),
{
    match exe {
        Some(exe) => lemma_appended_is_suffix(exe, ".exe"@),
        None => lemma_appended_is_suffix(pieces(project_name, '/').last(), ".exe"@),
    }
}

/// Giving the name of the executable that is looked for anyway changes nothing.
pub proof fn law_naming_the_executable_twice_changes_nothing(
    exe: Option<Seq<char>>,
    project_name: Seq<char>,
    windows: bool,
)
    ensures
        executable_name(Some(executable_name(exe, project_name, windows)), project_name, windows)
            == executable_name(exe, project_name, windows),
{
    law_executables_end_in_exe_on_windows(exe, project_name);
}

/// The executable is called as was asked for, or like the project. On Windows `.exe` is
/// put behind a name that is not something with `.exe` behind it; elsewhere nothing is.
pub proof fn law_executable_is_called_as_asked_or_like_the_project(
    org: Seq<char>,
    name: Seq<char>,
    project_name: Seq<char>,
    stem: Seq<char>,
)
    requires
        !name.contains('/'),
    ensures
        executable_name(Some(name), project_name, false) == name,
        executable_name(None, org + "/"@ + name, false) == name,
        name == stem + ".exe"@ ==> executable_name(Some(name), project_name, true) == name
            && executable_name(None, org + "/"@ + name, true) == name,
        (forall|stem: Seq<char>| name != #[trigger] (stem + ".exe"@)) ==> executable_name(
            Some(name),
            project_name,
            true,
        ) == name + ".exe"@ && executable_name(None, org + "/"@ + name, true) == name + ".exe"@,
{
    reveal_strlit("/");
    assert(org + "/"@ + name =~= org.push('/') + name);
    lemma_pieces_of_concat(org, '/', name);
    lemma_pieces_of_unseparated(name, '/');
    assert(pieces(org + "/"@ + name, '/').last() == name);
    law_suffix_stands_behind_a_stem(name, ".exe"@);
    lemma_appended_is_suffix(stem, ".exe"@);
}

/// An asset is downloaded from the site of the project: its address has the organization,
/// the project, the tag and the asset in their places, and nothing else but fixed parts.
pub proof fn law_address_of_an_asset_has_its_parts_in_place(
    org: Seq<char>,
    proj: Seq<char>,
    tag: Seq<char>,
    asset: Seq<char>,
)
    requires
        !org.contains('/'),
        !proj.contains('/'),
        !tag.contains('/'),
        !asset.contains('/'),
    ensures
        pieces(asset_url(org + "/"@ + proj, tag, asset), '/') == seq![
            "https:"@,
            Seq::<char>::empty(),
            "github.com"@,
            org,
            proj,
            "releases"@,
            "download"@,
            tag,
            asset,
        ],
{
    reveal_strlit("/");
    reveal_strlit("https://github.com/");
    reveal_strlit("/releases/download/");
    reveal_strlit("https:");
    reveal_strlit("github.com");
    reveal_strlit("releases");
    reveal_strlit("download");
    let none = Seq::<char>::empty();
    let u0 = "https:"@;
    let u1 = u0.push('/') + none;
    let u2 = u1.push('/') + "github.com"@;
    let u3 = u2.push('/') + org;
    let u4 = u3.push('/') + proj;
    let u5 = u4.push('/') + "releases"@;
    let u6 = u5.push('/') + "download"@;
    let u7 = u6.push('/') + tag;
    let u8 = u7.push('/') + asset;
    assert(!"https:"@.contains('/'));
    assert(!"github.com"@.contains('/'));
    assert(!"releases"@.contains('/'));
    assert(!"download"@.contains('/'));
    lemma_pieces_of_unseparated("https:"@, '/');
    lemma_pieces_of_unseparated(none, '/');
    lemma_pieces_of_unseparated("github.com"@, '/');
    lemma_pieces_of_unseparated(org, '/');
    lemma_pieces_of_unseparated(proj, '/');
    lemma_pieces_of_unseparated("releases"@, '/');
    lemma_pieces_of_unseparated("download"@, '/');
    lemma_pieces_of_unseparated(tag, '/');
    lemma_pieces_of_unseparated(asset, '/');
    lemma_pieces_of_concat(u0, '/', none);
    lemma_pieces_of_concat(u1, '/', "github.com"@);
    lemma_pieces_of_concat(u2, '/', org);
    lemma_pieces_of_concat(u3, '/', proj);
    lemma_pieces_of_concat(u4, '/', "releases"@);
    lemma_pieces_of_concat(u5, '/', "download"@);
    lemma_pieces_of_concat(u6, '/', tag);
    lemma_pieces_of_concat(u7, '/', asset);
    assert("https://github.com/"@ =~= u2.push('/'));
    assert("/releases/download/"@ =~= seq!['/'] + "releases"@ + seq!['/'] + "download"@ + seq!['/']);
    assert(asset_url(org + "/"@ + proj, tag, asset) =~= u8);
    assert(pieces(u8, '/') =~= seq![
        "https:"@,
        none,
        "github.com"@,
        org,
        proj,
        "releases"@,
        "download"@,
        tag,
        asset,
    ]);
}

/// Whatever the parts hold, an address is made of them in this order.
pub proof fn law_address_of_an_asset_holds_its_parts(
    project_name: Seq<char>,
    tag: Seq<char>,
    asset: Seq<char>,
)
    ensures
        asset_url(project_name, tag, asset) == "https://github.com/"@ + project_name
            + "/releases/download/"@ + tag + "/"@ + asset,
{
}

} // verus!
