//! One installation, from the options it was asked for with to its exit status.

use vstd::prelude::*;
use vstd::string::*;

use crate::archive::index_view;
use crate::error::{Fault, UbiError};
use crate::platform::{arch_names, os_names, Platform};
use crate::project::{
    asset_url, download_url, exe_name, executable_name, install_path,
    law_a_project_needs_a_slash, law_executable_is_called_as_asked_or_like_the_project,
    law_executables_end_in_exe_on_windows, law_name_and_url_mean_the_same_project,
    law_parsed_name_has_two_parts, lemma_pieces_of_project_name, parse_project_name,
    parsed_project, release_request, InstallPath, ReleaseRequest,
};
use crate::release::{
    archive_choice, are_ascii, ascii_choice, pick_asset, picked, text_view, ReleaseInfo,
};
use crate::tarball::{extract_tarball, is_found_in_tarball, TarballEntry};
use crate::text::{
    has_suffix, lemma_appended_is_suffix, optional_slice_text, optional_text, pieces, slices_text,
};
use crate::zipfile::{extract_zip, is_found_in_zip};

verus! {

/// What the user asked for.
#[derive(Debug)]
pub struct Options {
    /// The project, by its name or a URL.
    pub project: String,
    /// The tag of the release, or nothing for the latest.
    pub tag: Option<String>,
    /// The directory to install in, or nothing for `bin` below the current one.
    pub in_dir: Option<String>,
    /// The name of the executable, or nothing for the project's.
    pub exe: Option<String>,
    /// Whether most output is suppressed.
    pub quiet: bool,
}

/// What an installation needs before its release is known.
#[derive(Debug)]
pub struct Setup {
    pub project_name: String,
    pub exe: String,
    pub install_path: InstallPath,
    pub request: ReleaseRequest,
    pub quiet: bool,
    pub platform: Platform,
}

/// The installation of a project's executable.
#[derive(Debug)]
pub struct UBI {
    pub project_name: String,
    pub exe: String,
    pub install_path: InstallPath,
    pub release_info: ReleaseInfo,
    pub quiet: bool,
    pub platform: Platform,
}

/// How a run of the program ended.
#[derive(Clone, Copy, Debug, PartialEq, Eq, Structural)]
pub enum Outcome {
    /// The executable is installed.
    Installed,
    /// The release is known, but its executable could not be installed.
    InstallFailed,
    /// The options were not understood or the release could not be found.
    SetupFailed,
    /// The logger could not be started.
    LoggerFailed,
}

/// The slice of an optional string.
fn as_slice(s: &Option<String>) -> (slice: Option<&str>)
    ensures
        optional_slice_text(slice) == optional_text(*s),
{
    match s {
        Some(s) => Some(s.as_str()),
        None => None,
    }
}

/// Whether `setup` is what these options come to on `platform`.
pub open spec fn is_setup(options: Options, platform: Platform, setup: Setup) -> bool {
    let name = parsed_project(options.project@);
    let parts = pieces(setup.project_name@, '/');
    &&& name == Ok::<Seq<char>, Fault<Seq<char>>>(setup.project_name@)
    &&& setup.exe@ == executable_name(
        optional_text(options.exe),
        setup.project_name@,
        platform.windows(),
    )
    &&& setup.install_path.in_current_dir == (options.in_dir is None)
    &&& setup.install_path.dir@ == match options.in_dir {
        Some(dir) => dir@,
        None => "bin"@,
    }
    &&& setup.install_path.exe@ == setup.exe@
    &&& setup.request.owner@ == parts[0]
    &&& setup.request.repo@ == parts[1]
    &&& optional_text(setup.request.tag) == optional_text(options.tag)
    &&& setup.quiet == options.quiet
    &&& setup.platform == platform
}

impl Setup {
    /// Works out what these options come to on `platform`.
    pub fn on(options: &Options, platform: Platform) -> (r: Result<Setup, UbiError>)
        ensures
            match r {
                Ok(setup) => is_setup(*options, platform, setup),
                Err(fault) => parsed_project(options.project@) == Err::<
                    Seq<char>,
                    Fault<Seq<char>>,
                >(fault@),
            },
            r is Ok <==> options.project@.contains('/'),
            r is Err ==> r->Err_0@ == Fault::ProjectName(options.project@),
            r is Ok && platform.os@ != "windows"@ ==> r->Ok_0.exe@ == match options.exe {
                Some(exe) => exe@,
                None => r->Ok_0.request.repo@,
            },
            r is Ok && platform.os@ == "windows"@ ==> has_suffix(r->Ok_0.exe@, ".exe"@),
    {
        proof {
            law_a_project_needs_a_slash(options.project@);
        }
        let project_name = match parse_project_name(Some(options.project.as_str())) {
            Ok(name) => name,
            Err(fault) => {
                return Err(fault);
            },
        };
        proof {
            law_parsed_name_has_two_parts(options.project@);
            law_executables_end_in_exe_on_windows(optional_text(options.exe), project_name@);
        }
        let windows = platform.is_windows();
        let exe = exe_name(as_slice(&options.exe), project_name.as_str(), windows);
        let install_path = install_path(as_slice(&options.in_dir), exe.as_str());
        let request = release_request(as_slice(&options.tag), project_name.as_str());
        Ok(Setup { project_name, exe, install_path, request, quiet: options.quiet, platform })
    }

    /// Works out what these options come to on the platform that this program was
    /// compiled for.
    pub fn here(options: &Options) -> (r: Result<Setup, UbiError>)
        ensures
            match r {
                Ok(setup) => {
                    &&& is_setup(*options, setup.platform, setup)
                    &&& os_names().contains(setup.platform.os@)
                    &&& arch_names().contains(setup.platform.arch@)
                },
                Err(fault) => parsed_project(options.project@) == Err::<
                    Seq<char>,
                    Fault<Seq<char>>,
                >(fault@),
            },
    {
        Setup::on(options, Platform::current())
    }
}

impl UBI {
    /// The installation that was set up, of the release that was found for it.
    pub fn new(setup: Setup, release_info: ReleaseInfo) -> (ubi: UBI)
        ensures
            ubi.project_name == setup.project_name,
            ubi.exe == setup.exe,
            ubi.install_path == setup.install_path,
            ubi.release_info == release_info,
            ubi.quiet == setup.quiet,
            ubi.platform == setup.platform,
    {
        UBI {
            project_name: setup.project_name,
            exe: setup.exe,
            install_path: setup.install_path,
            release_info,
            quiet: setup.quiet,
            platform: setup.platform,
        }
    }

    /// The name of the asset to download.
    pub fn archive_name(&self) -> (r: Result<String, UbiError>)
        ensures
            text_view(r) == archive_choice(
                self.release_info.names(),
                self.platform.os@,
                self.platform.arch@,
            ),
            are_ascii(self.release_info.names()) ==> text_view(r) == ascii_choice(
                self.release_info.names(),
                self.platform.os@,
                self.platform.arch@,
            ),
    {
        self.release_info.archive_name(&self.platform)
    }

    /// Picks one of several assets that fit the platform.
    pub fn pick_asset(&self, maybe: Vec<&str>) -> (name: String)
        requires
            maybe@.len() > 0,
        ensures
            name@ == picked(slices_text(maybe@), self.platform.arch@),
    {
        pick_asset(&maybe, self.platform.arch.as_str())
    }

    /// Where the asset of this name is downloaded from.
    pub fn download_url(&self, archive_name: &str) -> (url: String)
        ensures
            url@ == asset_url(self.project_name@, self.release_info.tag_name@, archive_name@),
    {
        download_url(
            self.project_name.as_str(),
            self.release_info.tag_name.as_str(),
            archive_name,
        )
    }

    /// Finds the member of the zip file `data` that holds the executable.
    pub fn extract_zip(&self, data: &[u8]) -> (r: Result<usize, UbiError>)
        ensures
            is_found_in_zip(data@, self.exe@, self.platform.windows(), index_view(r)),
    {
        extract_zip(data, self.exe.as_str(), self.platform.is_windows())
    }

    /// Finds the entry of the tarball `data`, a file of this name, that holds the
    /// executable.
    pub fn extract_tarball(&self, name: &str, data: &[u8]) -> (r: Result<TarballEntry, UbiError>)
        ensures
            is_found_in_tarball(name@, data@, self.exe@, self.platform.windows(), r),
    {
        extract_tarball(name, data, self.exe.as_str(), self.platform.is_windows())
    }

    /// The mode that makes the installed file executable, on platforms where files
    /// have one: everybody may read and run it, and the owner may write it.
    pub fn make_binary_executable(&self) -> (mode: Option<u32>)
        ensures
            mode == if self.platform.windows() {
                None::<u32>
            } else {
                Some(0o755u32)
            },
            self.platform.os@ == "windows"@ <==> mode is None,
            self.platform.os@ != "windows"@ ==> mode == Some(0o755u32),
    {
        if self.platform.is_windows() {
            None
        } else {
            Some(0o755u32)
        }
    }
}

impl Outcome {
    /// The status that the program exits with.
    pub open spec fn status(self) -> i32 {
        match self {
            Outcome::Installed => 0,
            Outcome::InstallFailed => 1,
            Outcome::LoggerFailed => 126,
            Outcome::SetupFailed => 127,
        }
    }

    /// The status that the program exits with.
    pub fn exit_status(self) -> (status: i32)
        ensures
            status == self.status(),
    {
        match self {
            Outcome::Installed => 0,
            Outcome::InstallFailed => 1,
            Outcome::LoggerFailed => 126,
            Outcome::SetupFailed => 127,
        }
    }
}

/// The exit status tells the outcomes apart.
pub proof fn law_exit_status_tells_the_outcome(a: Outcome, b: Outcome)
    ensures
        a.status() == b.status() <==> a == b,
{
}

/// What is set up for a project that is given by its name or by a URL that ends with it.
/// The release is asked from the repository of that name. Unless the platform is Windows,
/// the executable is called as was asked for, or like the project; on Windows it is too,
/// with `.exe` behind it where it has none. It is installed under that name, in the
/// directory that was asked for or in `bin` below the current one.
pub proof fn law_setup_follows_the_options(
    options: Options,
    platform: Platform,
    setup: Setup,
    prefix: Seq<char>,
    org: Seq<char>,
    proj: Seq<char>,
    stem: Seq<char>,
)
    requires
        is_setup(options, platform, setup),
        options.project@ == org + "/"@ + proj || options.project@ == prefix + "/"@ + org + "/"@
            + proj,
        !org.contains('/'),
        !proj.contains('/'),
    ensures
        setup.project_name@ == org + "/"@ + proj,
        setup.request.owner@ == org,
        setup.request.repo@ == proj,
        setup.request.tag is None <==> options.tag is None,
        options.tag is Some ==> setup.request.tag->0@ == options.tag->0@,
        platform.os@ != "windows"@ ==> setup.exe@ == match options.exe {
            Some(exe) => exe@,
            None => proj,
        },
        platform.os@ == "windows"@ && options.exe is None ==> setup.exe@ == proj || setup.exe@
            == proj + ".exe"@,
        platform.os@ == "windows"@ && options.exe is Some ==> setup.exe@ == options.exe->0@
            || setup.exe@ == options.exe->0@ + ".exe"@,
        platform.os@ == "windows"@ ==> has_suffix(setup.exe@, ".exe"@),
        platform.os@ == "windows"@ && options.exe is None && proj == stem + ".exe"@ ==> setup.exe@
            == proj,
        platform.os@ == "windows"@ && options.exe is Some && options.exe->0@ == stem + ".exe"@
            ==> setup.exe@ == options.exe->0@,
        setup.install_path.exe@ == setup.exe@,
        options.in_dir is None ==> setup.install_path.in_current_dir && setup.install_path.dir@
            == "bin"@,
        options.in_dir is Some ==> !setup.install_path.in_current_dir && setup.install_path.dir@
            == options.in_dir->0@,
        setup.quiet == options.quiet,
        setup.platform == platform,
{
    law_name_and_url_mean_the_same_project(prefix, org, proj);
    lemma_pieces_of_project_name(org, proj);
    law_executable_is_called_as_asked_or_like_the_project(org, proj, proj, stem);
    law_executables_end_in_exe_on_windows(optional_text(options.exe), setup.project_name@);
    lemma_appended_is_suffix(stem, ".exe"@);
}

/// Only a run that installs the executable exits with zero; one that fails to install it
/// exits with 1, one that fails before with 127, and one without a logger with 126.
pub proof fn law_exit_status_is_zero_only_for_success(outcome: Outcome)
    ensures
        outcome.status() == 0 <==> outcome is Installed,
        outcome.status() == 1 <==> outcome is InstallFailed,
        outcome.status() == 127 <==> outcome is SetupFailed,
        outcome.status() == 126 <==> outcome is LoggerFailed,
{
}

} // verus!
