use ubi::error::UbiError;
use ubi::matcher::{arch_matcher, os_matcher};
use ubi::platform::{pattern_for_arch, pattern_for_os, Platform};
use ubi::release::{choose_asset, pick_asset, ReleaseInfo};

fn platform(os: &str, arch: &str) -> Platform {
    Platform { os: os.to_string(), arch: arch.to_string() }
}

fn release(names: &[&str]) -> ReleaseInfo {
    ReleaseInfo {
        tag_name: "v0.0.5".to_string(),
        assets: names.iter().map(|n| n.to_string()).collect(),
    }
}

fn archive_name(names: &[&str], os: &str, arch: &str) -> Result<String, UbiError> {
    release(names).archive_name(&platform(os, arch))
}

const PRECIOUS: [&str; 5] = [
    "precious-Darwin-x86_64.tar.gz",
    "precious-Linux-i686.tar.gz",
    "precious-Linux-x86_64.tar.gz",
    "precious-Windows-x86_64.zip",
    "precious-Linux-aarch64.tar.gz",
];

#[test]
fn platform_is_the_one_compiled_for() {
    let current = Platform::current();
    assert_eq!(current.os, platforms::target::TARGET_OS.as_str());
    assert_eq!(current.arch, platforms::target::TARGET_ARCH.as_str());
    assert_eq!(current.is_windows(), current.os == "windows");
    assert!(platform("windows", "x86_64").is_windows());
    assert!(!platform("linux", "x86_64").is_windows());
}

#[test]
fn operating_systems_are_matched_as_whole_words() {
    let linux = os_matcher("linux").unwrap();
    assert!(linux.is_match("tool-Linux-x86_64"));
    assert!(linux.is_match("tool_linux_amd64"));
    assert!(linux.is_match("LINUX"));
    assert!(!linux.is_match("tool-linux64"));
    assert!(!linux.is_match("tool-darwin"));
    let macos = os_matcher("macos").unwrap();
    assert!(macos.is_match("tool-Darwin"));
    assert!(macos.is_match("tool_macOS_arm64"));
    assert!(os_matcher("freebsd").unwrap().is_match("tool-freebsd"));
    assert!(os_matcher("openbsd").unwrap().is_match("tool-openbsd"));
    assert!(os_matcher("windows").unwrap().is_match("tool-windows"));
}

#[test]
fn architectures_are_matched_as_whole_words() {
    let x86_64 = arch_matcher("x86_64").unwrap();
    assert!(x86_64.is_match("tool-Linux-x86_64.tar.gz"));
    assert!(x86_64.is_match("tool_linux_amd64.tar.gz"));
    assert!(x86_64.is_match("tool_linux_386.tar.gz"));
    assert!(!x86_64.is_match("tool-linux-i686.tar.gz"));
    assert!(!x86_64.is_match("tool-linux-arm64.tar.gz"));
    let arm = arch_matcher("arm").unwrap();
    assert!(arm.is_match("tool-linux-armv7.tar.gz"));
    assert!(arm.is_match("tool-linux-arm64.tar.gz"));
    assert!(!arm.is_match("tool-linux-armhf.tar.gz"));
    for arch in ["aarch64", "mips", "mips64", "riscv", "s390x", "sparc", "sparc64"] {
        assert!(arch_matcher(arch).unwrap().is_match(&format!("tool-{}", arch)));
    }
}

#[test]
fn words_stand_alone_where_no_letter_or_digit_is_next_to_them() {
    let platforms: [(&str, &[&str]); 5] = [
        ("linux", &["linux"]),
        ("freebsd", &["freebsd"]),
        ("openbsd", &["openbsd"]),
        ("macos", &["darwin", "macos"]),
        ("windows", &["windows"]),
    ];
    let architectures: [(&str, &[&str]); 9] = [
        ("aarch64", &["aarch64"]),
        ("arm", &["arm", "arm64", "armv7", "armv10"]),
        ("mips", &["mips"]),
        ("mips64", &["mips64"]),
        ("riscv", &["riscv"]),
        ("s390x", &["s390x"]),
        ("sparc", &["sparc"]),
        ("sparc64", &["sparc", "sparc64"]),
        ("x86_64", &["x86", "386", "x86_64", "amd64"]),
    ];
    let mut matchers = Vec::new();
    for (os, words) in platforms {
        matchers.push((os_matcher(os).unwrap(), words));
    }
    for (arch, words) in architectures {
        matchers.push((arch_matcher(arch).unwrap(), words));
    }
    for (matcher, words) in matchers {
        for word in words {
            assert!(matcher.is_match(&word.to_uppercase()), "{}", word);
            for c in ['-', '_', '.', '\u{7f}', 'a', 'z', 'A', 'Z', '0', '9'] {
                let alone = !c.is_ascii_alphanumeric();
                let text = format!("{}{}", c, word);
                assert_eq!(matcher.is_match(&text), alone, "{:?}", text);
                // More digits make another version, and in `x86_64` another word stands alone.
                let text = format!("{}{}", word, c);
                let more = *word == "x86_64" || (word.starts_with("armv") && c.is_ascii_digit());
                assert_eq!(matcher.is_match(&text), alone || more, "{:?}", text);
            }
        }
        for text in ["", "-", "tool", "arm6", "armv", "x8664", "linu", "mac", "_"] {
            assert!(!matcher.is_match(text), "{:?}", text);
        }
    }
}

#[test]
fn asset_that_mentions_the_platform_is_chosen() {
    let names = ["t-darwin-arm64.zip", "t-linux-arm64.zip", "t-LINUX_AMD64.zip", "t-linux-amd64.deb"];
    assert_eq!(archive_name(&names, "linux", "x86_64"), Ok("t-LINUX_AMD64.zip".to_string()));
    assert_eq!(archive_name(&names, "linux", "arm"), Ok("t-linux-arm64.zip".to_string()));
    assert_eq!(archive_name(&names, "macos", "arm"), Ok("t-darwin-arm64.zip".to_string()));
}

#[test]
fn unknown_platforms_have_no_pattern() {
    assert_eq!(pattern_for_os("haiku"), None);
    assert_eq!(pattern_for_arch("wasm32"), None);
    let fault = os_matcher("haiku").err().unwrap();
    assert_eq!(fault, UbiError::UnknownOs);
    assert_eq!(
        fault.message(),
        "Cannot determine what type of compiled binary to use for this OS"
    );
    let fault = arch_matcher("wasm32").err().unwrap();
    assert_eq!(fault, UbiError::UnknownArch);
    assert_eq!(
        fault.message(),
        "Cannot determine what type of compiled binary to use for this CPU architecture"
    );
}

#[test]
fn rejected_patterns_are_reported() {
    for arch in ["powerpc", "powerpc64", "x86"] {
        let pattern = pattern_for_arch(arch).unwrap();
        let message = regex::Regex::new(pattern).unwrap_err().to_string();
        let fault = arch_matcher(arch).err().unwrap();
        assert_eq!(fault, UbiError::Pattern(message.clone()));
        assert_eq!(fault.message(), message);
        assert_eq!(
            archive_name(&PRECIOUS, "linux", arch),
            Err(UbiError::Pattern(message))
        );
    }
}

#[test]
fn asset_for_the_platform_is_chosen() {
    assert_eq!(
        archive_name(&PRECIOUS, "linux", "x86_64"),
        Ok("precious-Linux-x86_64.tar.gz".to_string())
    );
    assert_eq!(
        archive_name(&PRECIOUS, "linux", "aarch64"),
        Ok("precious-Linux-aarch64.tar.gz".to_string())
    );
    assert_eq!(
        archive_name(&PRECIOUS, "macos", "x86_64"),
        Ok("precious-Darwin-x86_64.tar.gz".to_string())
    );
    assert_eq!(
        archive_name(&PRECIOUS, "windows", "x86_64"),
        Ok("precious-Windows-x86_64.zip".to_string())
    );
}

#[test]
fn lone_asset_is_taken_on_every_platform() {
    assert_eq!(archive_name(&["tool.deb"], "haiku", "x86"), Ok("tool.deb".to_string()));
}

#[test]
fn packages_are_skipped() {
    assert_eq!(
        archive_name(
            &["t-linux-amd64.deb", "t-linux-amd64.rpm", "t-linux-amd64.tar.gz"],
            "linux",
            "x86_64"
        ),
        Ok("t-linux-amd64.tar.gz".to_string())
    );
}

#[test]
fn no_asset_is_chosen_if_none_fits() {
    let names = ["t-linux-amd64.deb", "t-darwin-amd64.zip"];
    let fault = archive_name(&names, "linux", "x86_64").unwrap_err();
    assert_eq!(
        fault,
        UbiError::NoMatchingAsset("t-linux-amd64.deb, t-darwin-amd64.zip".to_string())
    );
    assert_eq!(
        fault.message(),
        "could not find a release for this OS and architecture from t-linux-amd64.deb, t-darwin-amd64.zip"
    );
    assert_eq!(
        archive_name(&[], "linux", "x86_64"),
        Err(UbiError::NoMatchingAsset(String::new()))
    );
    assert_eq!(archive_name(&names, "haiku", "wasm32"), Err(UbiError::UnknownOs));
    assert_eq!(archive_name(&names, "linux", "wasm32"), Err(UbiError::UnknownArch));
}

#[test]
fn wide_asset_is_preferred_on_a_wide_architecture() {
    let maybe = vec!["t-linux-386", "t-linux-amd64", "t-linux-x86_64"];
    assert_eq!(pick_asset(&maybe, "x86_64"), "t-linux-amd64");
    assert_eq!(pick_asset(&maybe, "arm"), "t-linux-386");
    assert_eq!(pick_asset(&vec!["t-linux-386", "t-linux-x86"], "x86_64"), "t-linux-386");
    assert_eq!(pick_asset(&vec!["t-linux-386"], "x86_64"), "t-linux-386");
    assert_eq!(
        archive_name(&["t-linux-386.gz", "t-linux-amd64.gz"], "linux", "x86_64"),
        Ok("t-linux-amd64.gz".to_string())
    );
}

#[test]
fn choice_follows_what_fits() {
    let names: Vec<String> = ["a", "b64", "c", "d.rpm"].iter().map(|n| n.to_string()).collect();
    assert_eq!(choose_asset(&names, &vec![true, true, true, true], "x86_64"), Ok("b64".to_string()));
    assert_eq!(choose_asset(&names, &vec![false, false, true, true], "x86_64"), Ok("c".to_string()));
    assert_eq!(
        choose_asset(&names, &vec![false, false, false, true], "x86_64"),
        Err(UbiError::NoMatchingAsset("a, b64, c, d.rpm".to_string()))
    );
}
