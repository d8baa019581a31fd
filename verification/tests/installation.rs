use ubi::archive::Compression;
use ubi::download::{accepts, request_error};
use ubi::error::UbiError;
use ubi::logging::{log_level, LogLevel};
use ubi::platform::Platform;
use ubi::release::ReleaseInfo;
use ubi::tarball::TarballEntry;
use ubi::ubi::{Options, Outcome, Setup, UBI};

fn options(project: &str) -> Options {
    Options {
        project: project.to_string(),
        tag: None,
        in_dir: None,
        exe: None,
        quiet: false,
    }
}

fn platform(os: &str, arch: &str) -> Platform {
    Platform { os: os.to_string(), arch: arch.to_string() }
}

fn precious(os: &str, arch: &str) -> UBI {
    let setup = Setup::on(
        &options("https://github.com/houseabsolute/precious"),
        platform(os, arch),
    )
    .unwrap();
    let release_info = ReleaseInfo {
        tag_name: "v0.0.5".to_string(),
        assets: vec![
            "precious-Linux-x86_64.tar.gz".to_string(),
            "precious-Windows-x86_64.zip".to_string(),
        ],
    };
    UBI::new(setup, release_info)
}

#[test]
fn setup_follows_the_options() {
    let setup = Setup::on(&options("houseabsolute/precious"), platform("linux", "x86_64")).unwrap();
    assert_eq!(setup.project_name, "houseabsolute/precious");
    assert_eq!(setup.exe, "precious");
    assert!(setup.install_path.in_current_dir);
    assert_eq!(setup.install_path.dir, "bin");
    assert_eq!(setup.install_path.exe, "precious");
    assert_eq!(setup.request.owner, "houseabsolute");
    assert_eq!(setup.request.repo, "precious");
    assert_eq!(setup.request.tag, None);
    assert!(!setup.quiet);

    let given = Options {
        project: "BurntSushi/ripgrep".to_string(),
        tag: Some("13.0.0".to_string()),
        in_dir: Some("tools".to_string()),
        exe: Some("rg".to_string()),
        quiet: true,
    };
    let setup = Setup::on(&given, platform("windows", "x86_64")).unwrap();
    assert_eq!(setup.exe, "rg.exe");
    assert!(!setup.install_path.in_current_dir);
    assert_eq!(setup.install_path.dir, "tools");
    assert_eq!(setup.install_path.exe, "rg.exe");
    assert_eq!(setup.request.repo, "ripgrep");
    assert_eq!(setup.request.tag, Some("13.0.0".to_string()));
    assert!(setup.quiet);
}

#[test]
fn setup_needs_a_project() {
    let r = Setup::here(&options("precious"));
    assert_eq!(r.err(), Some(UbiError::ProjectName("precious".to_string())));
    let setup = Setup::here(&options("houseabsolute/precious")).unwrap();
    assert_eq!(setup.platform.os, platforms::target::TARGET_OS.as_str());
}

#[test]
fn installation_on_linux() {
    let ubi = precious("linux", "x86_64");
    let name = ubi.archive_name().unwrap();
    assert_eq!(name, "precious-Linux-x86_64.tar.gz");
    assert_eq!(
        ubi.download_url(&name),
        "https://github.com/houseabsolute/precious/releases/download/v0.0.5/precious-Linux-x86_64.tar.gz"
    );
    assert_eq!(ubi.make_binary_executable(), Some(0o755));

    let mut builder = tar::Builder::new(Vec::new());
    for path in ["LICENSE", "precious"] {
        let mut header = tar::Header::new_gnu();
        header.set_size(0);
        header.set_cksum();
        builder.append_data(&mut header, path, std::io::empty()).unwrap();
    }
    let data = builder.into_inner().unwrap();
    assert_eq!(
        ubi.extract_tarball("precious", &data),
        Ok(TarballEntry { compression: Compression::Plain, index: 1 })
    );
}

#[test]
fn installation_on_windows() {
    let ubi = precious("windows", "x86_64");
    assert_eq!(ubi.exe, "precious.exe");
    assert_eq!(ubi.archive_name(), Ok("precious-Windows-x86_64.zip".to_string()));
    assert_eq!(ubi.make_binary_executable(), None);
    assert_eq!(ubi.pick_asset(vec!["a32", "a64"]), "a64");

    let mut writer = zip::ZipWriter::new(std::io::Cursor::new(Vec::new()));
    for name in ["dir/", "dir/precious.exe"] {
        writer.start_file(name, zip::write::FileOptions::default()).unwrap();
    }
    let data = writer.finish().unwrap().into_inner();
    assert_eq!(ubi.extract_zip(&data), Ok(1));
}

#[test]
fn only_ok_is_accepted() {
    assert!(accepts(200));
    for status in [100, 201, 206, 302, 404, 500, 999] {
        assert!(!accepts(status));
    }
}

#[test]
fn refused_download_is_reported() {
    let url = "https://github.com/a/b";
    let fault = request_error(url, 404, Some("Not here"));
    assert_eq!(
        fault,
        UbiError::Request {
            url: url.to_string(),
            status: "404 Not Found".to_string(),
            body: Some("Not here".to_string()),
        }
    );
    assert_eq!(
        fault.message(),
        "error requesting https://github.com/a/b: 404 Not Found\nNot here"
    );
    assert_eq!(
        request_error(url, 599, None).message(),
        "error requesting https://github.com/a/b: 599 <unknown status code>"
    );
}

#[test]
fn exit_status_tells_the_outcome() {
    assert_eq!(Outcome::Installed.exit_status(), 0);
    assert_eq!(Outcome::InstallFailed.exit_status(), 1);
    assert_eq!(Outcome::LoggerFailed.exit_status(), 126);
    assert_eq!(Outcome::SetupFailed.exit_status(), 127);
}

#[test]
fn debugging_output_wins_over_verbose_output() {
    assert_eq!(log_level(false, false), LogLevel::Warn);
    assert_eq!(log_level(false, true), LogLevel::Info);
    assert_eq!(log_level(true, false), LogLevel::Debug);
    assert_eq!(log_level(true, true), LogLevel::Debug);
}
