//! The platform that a binary has to run on, and the patterns that the names of
//! its assets follow.

use vstd::prelude::*;
use vstd::string::*;

use crate::text::{
    has_infix, lowered, occurs_at, optional_slice_text, same_text, stands_alone,
};

verus! {

/// An operating system and a CPU architecture, by the names that Rust gives them.
#[derive(Debug)]
pub struct Platform {
    pub os: String,
    pub arch: String,
}

/// The names of the operating systems that the `platforms` crate knows.
pub open spec fn os_names() -> Seq<Seq<char>> {
    seq![
        "android"@,
        "cuda"@,
        "dragonfly"@,
        "emscripten"@,
        "freebsd"@,
        "fuchsia"@,
        "haiku"@,
        "hermit"@,
        "illumos"@,
        "ios"@,
        "linux"@,
        "macos"@,
        "netbsd"@,
        "openbsd"@,
        "redox"@,
        "solaris"@,
        "tvos"@,
        "wasi"@,
        "windows"@,
        "vxworks"@,
        "unknown"@,
    ]
}

/// The names of the CPU architectures that the `platforms` crate knows.
pub open spec fn arch_names() -> Seq<Seq<char>> {
    seq![
        "aarch64"@,
        "arm"@,
        "asmjs"@,
        "mips"@,
        "mips64"@,
        "msp430"@,
        "nvptx64"@,
        "powerpc"@,
        "powerpc64"@,
        "riscv"@,
        "s390x"@,
        "sparc"@,
        "sparc64"@,
        "thumbv6"@,
        "thumbv7"@,
        "wasm32"@,
        "x86"@,
        "x86_64"@,
        "unknown"@,
    ]
}

/// Calls `OS::as_str` of the `platforms` crate on the constant `TARGET_OS`, the
/// operating system that the crate was compiled for. Which one that is depends on
/// the machine; it is claimed to be one of those that the crate has a name for.
#[verifier::external_body]
fn target_os() -> (os: String)
    ensures
        os_names().contains(os@),
{
    platforms::target::TARGET_OS.as_str().to_string()
}

/// Calls `Arch::as_str` of the `platforms` crate on the constant `TARGET_ARCH`, the
/// CPU architecture that the crate was compiled for. Which one that is depends on
/// the machine; it is claimed to be one of those that the crate has a name for.
#[verifier::external_body]
fn target_arch() -> (arch: String)
    ensures
        arch_names().contains(arch@),
{
    platforms::target::TARGET_ARCH.as_str().to_string()
}

/// The pattern that the names of assets built for operating system `os` match.
///
/// The operating systems are those that Rust (by the `platforms` crate) and Go
/// support.
pub open spec fn os_pattern(os: Seq<char>) -> Option<Seq<char>> {
    if os == "linux"@ {
        Some(r"(?i:(?:\b|_)linux(?:\b|_))"@)
    } else if os == "freebsd"@ {
        Some(r"(?i:(?:\b|_)freebsd(?:\b|_))"@)
    } else if os == "openbsd"@ {
        Some(r"(?i:(?:\b|_)openbsd(?:\b|_))"@)
    } else if os == "macos"@ {
        Some(r"(?i:(?:\b|_)(?:darwin|macos)(?:\b|_))"@)
    } else if os == "windows"@ {
        Some(r"(?i:(?:\b|_)windows(?:\b|_))"@)
    } else {
        None
    }
}

/// The pattern that the names of assets built for CPU architecture `arch` match.
///
/// The patterns for `powerpc`, `powerpc64` and `x86` are ones that the regex
/// engine rejects.
pub open spec fn arch_pattern(arch: Seq<char>) -> Option<Seq<char>> {
    if arch == "aarch64"@ {
        Some(r"(?i:(?:\b|_)aarch64(?:\b|_))"@)
    } else if arch == "arm"@ {
        Some(r"(?i:(?:\b|_)arm(?:v[0-9]+|64)?(?:\b|_))"@)
    } else if arch == "mips"@ {
        Some(r"(?i:(?:\b|_)mips(?:\b|_))"@)
    } else if arch == "mips64"@ {
        Some(r"(?i:(?:\b|_)mips64(?:\b|_))"@)
    } else if arch == "powerpc"@ {
        Some(r"(?i:(?:\b|_)(?:powerpc32(?:\b|_))"@)
    } else if arch == "powerpc64"@ {
        Some(r"(?i:(?:\b|_)(?:powerpc64|ppc64(?:le|be)?)?)(?:\b|_))"@)
    } else if arch == "riscv"@ {
        Some(r"(?i:(?:\b|_)riscv(?:\b|_))"@)
    } else if arch == "s390x"@ {
        Some(r"(?i:(?:\b|_)s390x(?:\b|_))"@)
    } else if arch == "sparc"@ {
        Some(r"(?i:(?:\b|_)sparc(?:\b|_))"@)
    } else if arch == "sparc64"@ {
        Some(r"(?i:(?:\b|_)sparc(?:64)?(?:\b|_))"@)
    } else if arch == "x86"@ {
        Some(r"(?i:(?:\b|_)(?:x86|386)(?:\b|_(?!64)))"@)
    } else if arch == "x86_64"@ {
        Some(r"(?i:(?:\b|_)(?:x86|386|x86_64|amd64)(?:\b|_))"@)
    } else {
        None
    }
}

/// Whether `pattern` is the pattern for some operating system or architecture.
pub open spec fn is_platform_pattern(pattern: Seq<char>) -> bool {
    exists|name: Seq<char>|
        #[trigger] os_pattern(name) == Some(pattern) || arch_pattern(name) == Some(pattern)
}

/// Whether the pattern for `arch` is one that the regex engine rejects: its groups are
/// not balanced, or it looks ahead.
pub open spec fn is_rejected_arch(arch: Seq<char>) -> bool {
    arch == "powerpc"@ || arch == "powerpc64"@ || arch == "x86"@
}

/// Whether `word` is what operating system `os` is called in the names of assets.
pub open spec fn is_os_word(os: Seq<char>, word: Seq<char>) -> bool {
    ||| os == "linux"@ && word == "linux"@
    ||| os == "freebsd"@ && word == "freebsd"@
    ||| os == "openbsd"@ && word == "openbsd"@
    ||| os == "macos"@ && (word == "darwin"@ || word == "macos"@)
    ||| os == "windows"@ && word == "windows"@
}

/// Whether `word` is what CPU architecture `arch` is called in the names of assets.
pub open spec fn is_arch_word(arch: Seq<char>, word: Seq<char>) -> bool {
    ||| arch == "aarch64"@ && word == "aarch64"@
    ||| arch == "arm"@ && (word == "arm"@ || word == "arm64"@ || is_arm_version(word))
    ||| arch == "mips"@ && word == "mips"@
    ||| arch == "mips64"@ && word == "mips64"@
    ||| arch == "riscv"@ && word == "riscv"@
    ||| arch == "s390x"@ && word == "s390x"@
    ||| arch == "sparc"@ && word == "sparc"@
    ||| arch == "sparc64"@ && (word == "sparc"@ || word == "sparc64"@)
    ||| arch == "x86_64"@ && (word == "x86"@ || word == "386"@ || word == "x86_64"@ || word
        == "amd64"@)
}

/// Whether `word` is `armv` with a number behind it.
pub open spec fn is_arm_version(word: Seq<char>) -> bool {
    &&& word.len() > 4
    &&& word.take(4) == "armv"@
    &&& forall|i: int| 4 <= i < word.len() ==> '0' <= #[trigger] word[i] <= '9'
}

/// Whether a name mentions operating system `os`, by a word that stands alone and in
/// upper or lower case.
pub open spec fn mentions_os(name: Seq<char>, os: Seq<char>) -> bool {
    exists|from: int, to: int| #[trigger]
        stands_alone(name, from, to) && is_os_word(os, lowered(name.subrange(from, to)))
}

/// Whether a name mentions CPU architecture `arch`, by a word that stands alone and in
/// upper or lower case.
pub open spec fn mentions_arch(name: Seq<char>, arch: Seq<char>) -> bool {
    exists|from: int, to: int| #[trigger]
        stands_alone(name, from, to) && is_arch_word(arch, lowered(name.subrange(from, to)))
}

/// The pattern that the names of assets built for operating system `os` match.
pub fn pattern_for_os(os: &str) -> (pattern: Option<&'static str>)
    ensures
        optional_slice_text(pattern) == os_pattern(os@),
{
    if same_text(os, "linux") {
        Some(r"(?i:(?:\b|_)linux(?:\b|_))")
    } else if same_text(os, "freebsd") {
        Some(r"(?i:(?:\b|_)freebsd(?:\b|_))")
    } else if same_text(os, "openbsd") {
        Some(r"(?i:(?:\b|_)openbsd(?:\b|_))")
    } else if same_text(os, "macos") {
        Some(r"(?i:(?:\b|_)(?:darwin|macos)(?:\b|_))")
    } else if same_text(os, "windows") {
        Some(r"(?i:(?:\b|_)windows(?:\b|_))")
    } else {
        None
    }
}

/// The pattern that the names of assets built for CPU architecture `arch` match.
pub fn pattern_for_arch(arch: &str) -> (pattern: Option<&'static str>)
    ensures
        optional_slice_text(pattern) == arch_pattern(arch@),
{
    if same_text(arch, "aarch64") {
        Some(r"(?i:(?:\b|_)aarch64(?:\b|_))")
    } else if same_text(arch, "arm") {
        Some(r"(?i:(?:\b|_)arm(?:v[0-9]+|64)?(?:\b|_))")
    } else if same_text(arch, "mips") {
        Some(r"(?i:(?:\b|_)mips(?:\b|_))")
    } else if same_text(arch, "mips64") {
        Some(r"(?i:(?:\b|_)mips64(?:\b|_))")
    } else if same_text(arch, "powerpc") {
        Some(r"(?i:(?:\b|_)(?:powerpc32(?:\b|_))")
    } else if same_text(arch, "powerpc64") {
        Some(r"(?i:(?:\b|_)(?:powerpc64|ppc64(?:le|be)?)?)(?:\b|_))")
    } else if same_text(arch, "riscv") {
        Some(r"(?i:(?:\b|_)riscv(?:\b|_))")
    } else if same_text(arch, "s390x") {
        Some(r"(?i:(?:\b|_)s390x(?:\b|_))")
    } else if same_text(arch, "sparc") {
        Some(r"(?i:(?:\b|_)sparc(?:\b|_))")
    } else if same_text(arch, "sparc64") {
        Some(r"(?i:(?:\b|_)sparc(?:64)?(?:\b|_))")
    } else if same_text(arch, "x86") {
        Some(r"(?i:(?:\b|_)(?:x86|386)(?:\b|_(?!64)))")
    } else if same_text(arch, "x86_64") {
        Some(r"(?i:(?:\b|_)(?:x86|386|x86_64|amd64)(?:\b|_))")
    } else {
        None
    }
}

impl Platform {
    /// The platform that this program was compiled for.
    pub fn current() -> (platform: Platform)
        ensures
            os_names().contains(platform.os@),
            arch_names().contains(platform.arch@),
    {
        Platform { os: target_os(), arch: target_arch() }
    }

    /// Whether binaries run on Windows.
    pub open spec fn windows(self) -> bool {
        self.os@ == "windows"@
    }

    /// Whether binaries run on Windows.
    pub fn is_windows(&self) -> (windows: bool)
        ensures
            windows == self.windows(),
            windows == (self.os@ == "windows"@),
    {
        same_text(self.os.as_str(), "windows")
    }
}

/// Windows is the operating system called `windows`, and no other.
pub proof fn law_only_windows_is_windows(platform: Platform)
    ensures
        platform.windows() <==> platform.os@ == "windows"@,
{
}

/// The pattern for an operating system asks for its name, or on macOS for one of two,
/// in either case and with a word boundary or an underscore on both sides. There is one
/// for five operating systems.
pub proof fn law_os_pattern_asks_for_the_name(os: Seq<char>)
    ensures
        os_pattern(os) == if os == "linux"@ || os == "freebsd"@ || os == "openbsd"@ || os
            == "windows"@ {
            Some(r"(?i:(?:\b|_)"@ + os + r"(?:\b|_))"@)
        } else if os == "macos"@ {
            Some(r"(?i:(?:\b|_)"@ + "(?:darwin|macos)"@ + r"(?:\b|_))"@)
        } else {
            None
        },
{
    reveal_strlit(r"(?i:(?:\b|_)");
    reveal_strlit(r"(?:\b|_))");
    reveal_strlit("(?:darwin|macos)");
    reveal_strlit("linux");
    reveal_strlit("freebsd");
    reveal_strlit("openbsd");
    reveal_strlit("windows");
    reveal_strlit("macos");
    reveal_strlit(r"(?i:(?:\b|_)linux(?:\b|_))");
    reveal_strlit(r"(?i:(?:\b|_)freebsd(?:\b|_))");
    reveal_strlit(r"(?i:(?:\b|_)openbsd(?:\b|_))");
    reveal_strlit(r"(?i:(?:\b|_)windows(?:\b|_))");
    reveal_strlit(r"(?i:(?:\b|_)(?:darwin|macos)(?:\b|_))");
    let front = r"(?i:(?:\b|_)"@;
    let back = r"(?:\b|_))"@;
    assert(r"(?i:(?:\b|_)linux(?:\b|_))"@ =~= front + "linux"@ + back);
    assert(r"(?i:(?:\b|_)freebsd(?:\b|_))"@ =~= front + "freebsd"@ + back);
    assert(r"(?i:(?:\b|_)openbsd(?:\b|_))"@ =~= front + "openbsd"@ + back);
    assert(r"(?i:(?:\b|_)windows(?:\b|_))"@ =~= front + "windows"@ + back);
    assert(r"(?i:(?:\b|_)(?:darwin|macos)(?:\b|_))"@ =~= front + "(?:darwin|macos)"@ + back);
}

/// The pattern for a CPU architecture asks for its name, with the boundaries of
/// `law_os_pattern_asks_for_the_name`, except where it has several names. There is one
/// for twelve architectures.
pub proof fn law_arch_pattern_asks_for_the_name(arch: Seq<char>)
    ensures
        arch_pattern(arch) == if arch == "aarch64"@ {
            Some(r"(?i:(?:\b|_)"@ + arch + r"(?:\b|_))"@)
        } else if arch == "arm"@ {
            Some(r"(?i:(?:\b|_)"@ + "arm(?:v[0-9]+|64)?"@ + r"(?:\b|_))"@)
        } else if arch == "mips"@ {
            Some(r"(?i:(?:\b|_)"@ + arch + r"(?:\b|_))"@)
        } else if arch == "mips64"@ {
            Some(r"(?i:(?:\b|_)"@ + arch + r"(?:\b|_))"@)
        } else if arch == "powerpc"@ {
            Some(r"(?i:(?:\b|_)"@ + "(?:powerpc32"@ + r"(?:\b|_))"@)
        } else if arch == "powerpc64"@ {
            Some(r"(?i:(?:\b|_)"@ + "(?:powerpc64|ppc64(?:le|be)?)?)"@ + r"(?:\b|_))"@)
        } else if arch == "riscv"@ {
            Some(r"(?i:(?:\b|_)"@ + arch + r"(?:\b|_))"@)
        } else if arch == "s390x"@ {
            Some(r"(?i:(?:\b|_)"@ + arch + r"(?:\b|_))"@)
        } else if arch == "sparc"@ {
            Some(r"(?i:(?:\b|_)"@ + arch + r"(?:\b|_))"@)
        } else if arch == "sparc64"@ {
            Some(r"(?i:(?:\b|_)"@ + "sparc(?:64)?"@ + r"(?:\b|_))"@)
        } else if arch == "x86"@ {
            Some(r"(?i:(?:\b|_)"@ + "(?:x86|386)"@ + r"(?:\b|_(?!64)))"@)
        } else if arch == "x86_64"@ {
            Some(r"(?i:(?:\b|_)"@ + "(?:x86|386|x86_64|amd64)"@ + r"(?:\b|_))"@)
        } else {
            None
        },
{
    reveal_strlit(r"(?i:(?:\b|_)");
    reveal_strlit(r"(?:\b|_))");
    reveal_strlit(r"(?:\b|_(?!64)))");
    reveal_strlit("aarch64");
    reveal_strlit("mips");
    reveal_strlit("mips64");
    reveal_strlit("riscv");
    reveal_strlit("s390x");
    reveal_strlit("sparc");
    reveal_strlit("arm(?:v[0-9]+|64)?");
    reveal_strlit("sparc(?:64)?");
    reveal_strlit("(?:x86|386|x86_64|amd64)");
    reveal_strlit("(?:powerpc32");
    reveal_strlit("(?:powerpc64|ppc64(?:le|be)?)?)");
    reveal_strlit("(?:x86|386)");
    reveal_strlit(r"(?i:(?:\b|_)aarch64(?:\b|_))");
    reveal_strlit(r"(?i:(?:\b|_)mips(?:\b|_))");
    reveal_strlit(r"(?i:(?:\b|_)mips64(?:\b|_))");
    reveal_strlit(r"(?i:(?:\b|_)riscv(?:\b|_))");
    reveal_strlit(r"(?i:(?:\b|_)s390x(?:\b|_))");
    reveal_strlit(r"(?i:(?:\b|_)sparc(?:\b|_))");
    reveal_strlit(r"(?i:(?:\b|_)arm(?:v[0-9]+|64)?(?:\b|_))");
    reveal_strlit(r"(?i:(?:\b|_)sparc(?:64)?(?:\b|_))");
    reveal_strlit(r"(?i:(?:\b|_)(?:x86|386|x86_64|amd64)(?:\b|_))");
    reveal_strlit(r"(?i:(?:\b|_)(?:powerpc32(?:\b|_))");
    reveal_strlit(r"(?i:(?:\b|_)(?:powerpc64|ppc64(?:le|be)?)?)(?:\b|_))");
    reveal_strlit(r"(?i:(?:\b|_)(?:x86|386)(?:\b|_(?!64)))");
    let front = r"(?i:(?:\b|_)"@;
    let back = r"(?:\b|_))"@;
    assert(r"(?i:(?:\b|_)aarch64(?:\b|_))"@ =~= front + "aarch64"@ + back);
    assert(r"(?i:(?:\b|_)mips(?:\b|_))"@ =~= front + "mips"@ + back);
    assert(r"(?i:(?:\b|_)mips64(?:\b|_))"@ =~= front + "mips64"@ + back);
    assert(r"(?i:(?:\b|_)riscv(?:\b|_))"@ =~= front + "riscv"@ + back);
    assert(r"(?i:(?:\b|_)s390x(?:\b|_))"@ =~= front + "s390x"@ + back);
    assert(r"(?i:(?:\b|_)sparc(?:\b|_))"@ =~= front + "sparc"@ + back);
    assert(r"(?i:(?:\b|_)arm(?:v[0-9]+|64)?(?:\b|_))"@ =~= front + "arm(?:v[0-9]+|64)?"@ + back);
    assert(r"(?i:(?:\b|_)sparc(?:64)?(?:\b|_))"@ =~= front + "sparc(?:64)?"@ + back);
    assert(r"(?i:(?:\b|_)(?:x86|386|x86_64|amd64)(?:\b|_))"@ =~= front
        + "(?:x86|386|x86_64|amd64)"@ + back);
    assert(r"(?i:(?:\b|_)(?:powerpc32(?:\b|_))"@ =~= front + "(?:powerpc32"@ + back);
    assert(r"(?i:(?:\b|_)(?:powerpc64|ppc64(?:le|be)?)?)(?:\b|_))"@ =~= front
        + "(?:powerpc64|ppc64(?:le|be)?)?)"@ + back);
    assert(r"(?i:(?:\b|_)(?:x86|386)(?:\b|_(?!64)))"@ =~= front + "(?:x86|386)"@
        + r"(?:\b|_(?!64)))"@);
}

/// A name mentions a platform wherever a word for it, in either case, stands between
/// characters that are no letters or digits.
pub proof fn law_platform_is_mentioned_by_a_word_that_stands_alone(
    a: Seq<char>,
    word: Seq<char>,
    b: Seq<char>,
    os: Seq<char>,
    arch: Seq<char>,
)
    requires
        a.len() == 0 || !('a' <= a.last() <= 'z' || 'A' <= a.last() <= 'Z' || '0' <= a.last()
            <= '9'),
        b.len() == 0 || !('a' <= b[0] <= 'z' || 'A' <= b[0] <= 'Z' || '0' <= b[0] <= '9'),
    ensures
        lowered(word) == os && (os == "linux"@ || os == "freebsd"@ || os == "openbsd"@ || os
            == "windows"@ || os == "macos"@) ==> mentions_os(a + word + b, os),
        lowered(word) == "darwin"@ ==> mentions_os(a + word + b, "macos"@),
        lowered(word) == arch && (arch == "aarch64"@ || arch == "arm"@ || arch == "mips"@ || arch
            == "mips64"@ || arch == "riscv"@ || arch == "s390x"@ || arch == "sparc"@ || arch
            == "sparc64"@ || arch == "x86_64"@) ==> mentions_arch(a + word + b, arch),
        lowered(word) == "x86"@ || lowered(word) == "386"@ || lowered(word) == "amd64"@
            ==> mentions_arch(a + word + b, "x86_64"@),
        lowered(word) == "arm64"@ ==> mentions_arch(a + word + b, "arm"@),
        lowered(word) == "sparc"@ ==> mentions_arch(a + word + b, "sparc64"@),
{
    let name = a + word + b;
    let from = a.len() as int;
    let to = from + word.len();
    assert(name.subrange(from, to) =~= word);
    assert(stands_alone(name, from, to));
}

/// A name that mentions a platform holds one of the words for it.
pub proof fn law_name_without_the_words_mentions_no_platform(name: Seq<char>, arch: Seq<char>)
    ensures
        mentions_os(name, "linux"@) ==> has_infix(lowered(name), "linux"@),
        mentions_os(name, "freebsd"@) ==> has_infix(lowered(name), "freebsd"@),
        mentions_os(name, "openbsd"@) ==> has_infix(lowered(name), "openbsd"@),
        mentions_os(name, "windows"@) ==> has_infix(lowered(name), "windows"@),
        mentions_os(name, "macos"@) ==> has_infix(lowered(name), "macos"@) || has_infix(
            lowered(name),
            "darwin"@,
        ),
        mentions_arch(name, "x86_64"@) ==> has_infix(lowered(name), "x86"@) || has_infix(
            lowered(name),
            "386"@,
        ) || has_infix(lowered(name), "amd64"@) || has_infix(lowered(name), "x86_64"@),
        mentions_arch(name, arch) && (arch == "aarch64"@ || arch == "mips"@ || arch == "mips64"@
            || arch == "riscv"@ || arch == "s390x"@ || arch == "sparc"@) ==> has_infix(
            lowered(name),
            arch,
        ),
{
    reveal_strlit("linux");
    reveal_strlit("freebsd");
    reveal_strlit("openbsd");
    reveal_strlit("windows");
    reveal_strlit("macos");
    reveal_strlit("aarch64");
    reveal_strlit("arm");
    reveal_strlit("mips");
    reveal_strlit("mips64");
    reveal_strlit("riscv");
    reveal_strlit("s390x");
    reveal_strlit("sparc");
    reveal_strlit("sparc64");
    reveal_strlit("x86_64");
    assert("linux"@[0] == 'l' && "macos"@[0] == 'm');
    assert("freebsd"@[0] == 'f' && "openbsd"@[0] == 'o' && "windows"@[0] == 'w');
    assert("aarch64"@[0] == 'a' && "sparc64"@[0] == 's');
    assert("mips64"@[0] == 'm' && "x86_64"@[0] == 'x');
    assert("riscv"@[0] == 'r' && "s390x"@[1] == '3' && "sparc"@[1] == 'p' && "sparc"@[0] == 's'
        && "s390x"@[0] == 's');
    assert("riscv"@ != "sparc"@ && "riscv"@ != "s390x"@ && "sparc"@ != "s390x"@);
    assert("mips64"@ != "x86_64"@ && "aarch64"@ != "sparc64"@);
    assert("aarch64"@.len() == 7 && "mips"@.len() == 4 && "mips64"@.len() == 6);
    assert("riscv"@.len() == 5 && "s390x"@.len() == 5 && "sparc"@.len() == 5);
    assert("arm"@.len() == 3 && "sparc64"@.len() == 7 && "x86_64"@.len() == 6);
    assert forall|from: int, to: int| 0 <= from <= to <= name.len() implies has_infix(
        lowered(name),
        #[trigger] lowered(name.subrange(from, to)),
    ) by {
        let word = lowered(name.subrange(from, to));
        assert(lowered(name).subrange(from, from + word.len()) =~= word);
        assert(occurs_at(lowered(name), word, from));
    }
    if mentions_arch(name, arch) {
        let (from, to) = choose|from: int, to: int| #[trigger]
            stands_alone(name, from, to) && is_arch_word(arch, lowered(name.subrange(from, to)));
        assert(has_infix(lowered(name), lowered(name.subrange(from, to))));
    }
}

} // verus!
