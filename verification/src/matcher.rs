//! Patterns that compile, and the texts in which they find a match.

use vstd::prelude::*;
use vstd::string::*;

use crate::error::{Fault, UbiError};
use crate::platform::{
    arch_pattern, is_platform_pattern, is_rejected_arch, mentions_arch, mentions_os, os_pattern,
    pattern_for_arch, pattern_for_os,
};
use crate::text::is_ascii_text;

verus! {

/// The message of the error with which `Regex::new` of the `regex` crate rejects
/// `pattern`, or nothing if it compiles it.
pub uninterp spec fn regex_error(pattern: Seq<char>) -> Option<Seq<char>>;

/// What `Regex::is_match` of the `regex` crate answers: whether the compiled
/// `pattern` has a match anywhere in `text`.
pub uninterp spec fn regex_finds(pattern: Seq<char>, text: Seq<char>) -> bool;

/// Whether `compiles` says of the pattern for a platform whether the regex engine accepts
/// it. It accepts all of those for operating systems, and those for architectures that
/// are well-formed and do not look ahead.
pub open spec fn is_known_to_compile(pattern: Seq<char>, compiles: bool) -> bool {
    &&& forall|os: Seq<char>| #[trigger] os_pattern(os) == Some(pattern) ==> compiles
    &&& forall|arch: Seq<char>| #[trigger]
        arch_pattern(arch) == Some(pattern) ==> compiles == !is_rejected_arch(arch)
}

/// Whether `found` says of the pattern for a platform whether it has a match in `text`:
/// it has one where the text mentions the platform.
pub open spec fn is_known_to_find(pattern: Seq<char>, text: Seq<char>, found: bool) -> bool {
    &&& forall|os: Seq<char>| #[trigger]
        os_pattern(os) == Some(pattern) ==> found == mentions_os(text, os)
    &&& forall|arch: Seq<char>| #[trigger]
        arch_pattern(arch) == Some(pattern) ==> found == mentions_arch(text, arch)
}

/// Calls `Regex::new` of the `regex` crate, and claims that whether it compiles the
/// pattern, and with which message it rejects it, depends on the pattern alone. Of the
/// patterns for platforms, those are rejected that are not well-formed or look ahead,
/// which the syntax of the crate does not have. Only these patterns are handed to it: the
/// limit on the size of a compiled pattern, which is counted in bytes of the machine, is
/// far from any of them.
#[verifier::external_body]
fn compile(pattern: &str) -> (r: Result<(), String>)
    requires
        is_platform_pattern(pattern@),
    ensures
        match r {
            Ok(_) => regex_error(pattern@) is None,
            Err(message) => regex_error(pattern@) == Some(message@),
        },
        is_known_to_compile(pattern@, r is Ok),
{
    regex::Regex::new(pattern).map(|_| ()).map_err(|e| e.to_string())
}

/// Calls `Regex::is_match` of the `regex` crate on the compiled pattern, and claims
/// that its answer depends on the pattern and the text alone. In an ASCII text the
/// pattern for a platform has a match exactly where one of the words for the platform
/// stands alone, in upper or lower case: it asks for a word boundary or an underscore on
/// both sides of such a word, and in ASCII a boundary of a word lies where no letter,
/// digit or underscore follows. Of other texts no more is said, since there the case and
/// the boundaries of words are those of Unicode.
#[verifier::external_body]
fn find(pattern: &str, text: &str) -> (found: bool)
    requires
        is_platform_pattern(pattern@),
        regex_error(pattern@) is None,
    ensures
        found == regex_finds(pattern@, text@),
        is_ascii_text(text@) ==> is_known_to_find(pattern@, text@, found),
{
    regex::Regex::new(pattern).unwrap().is_match(text)
}

/// A pattern that compiles.
#[derive(Debug)]
pub struct Matcher {
    pattern: String,
}

impl View for Matcher {
    type V = Seq<char>;

    closed spec fn view(&self) -> Seq<char> {
        self.pattern@
    }
}

/// What compiling `pattern` comes to: the pattern, or the message of the regex engine
/// where it rejects it.
pub open spec fn compiled(pattern: Seq<char>) -> Result<Seq<char>, Fault<Seq<char>>> {
    match regex_error(pattern) {
        None => Ok(pattern),
        Some(message) => Err(Fault::Pattern(message)),
    }
}

/// What a matcher for `pattern` comes to, and `unknown` where there is no pattern.
pub open spec fn matcher_for(
    pattern: Option<Seq<char>>,
    unknown: Fault<Seq<char>>,
) -> Result<Seq<char>, Fault<Seq<char>>> {
    match pattern {
        None => Err(unknown),
        Some(pattern) => compiled(pattern),
    }
}

/// A matcher, or the reason why there is none, by what it holds.
pub open spec fn matcher_view(r: Result<Matcher, UbiError>) -> Result<
    Seq<char>,
    Fault<Seq<char>>,
> {
    match r {
        Ok(matcher) => Ok(matcher@),
        Err(fault) => Err(fault@),
    }
}

impl Matcher {
    #[verifier::type_invariant]
    spec fn compiles(self) -> bool {
        &&& is_platform_pattern(self.pattern@)
        &&& regex_error(self.pattern@) is None
    }

    /// Compiles `pattern`.
    fn new(pattern: &str) -> (r: Result<Matcher, UbiError>)
        requires
            is_platform_pattern(pattern@),
        ensures
            matcher_view(r) == compiled(pattern@),
            is_known_to_compile(pattern@, r is Ok),
    {
        match compile(pattern) {
            Ok(_) => Ok(Matcher { pattern: pattern.to_owned() }),
            Err(message) => Err(Fault::Pattern(message)),
        }
    }

    /// Whether the pattern has a match anywhere in `text`.
    pub fn is_match(&self, text: &str) -> (found: bool)
        ensures
            found == regex_finds(self@, text@),
            is_ascii_text(text@) ==> is_known_to_find(self@, text@, found),
    {
        proof {
            use_type_invariant(self);
        }
        find(self.pattern.as_str(), text)
    }
}

/// A matcher for the names of assets built for operating system `os`.
pub fn os_matcher(os: &str) -> (r: Result<Matcher, UbiError>)
    ensures
        matcher_view(r) == matcher_for(os_pattern(os@), Fault::UnknownOs),
        r is Ok <==> os_pattern(os@) is Some,
{
    match pattern_for_os(os) {
        Some(pattern) => {
            assert(os_pattern(os@) == Some(pattern@));
            Matcher::new(pattern)
        },
        None => Err(Fault::UnknownOs),
    }
}

/// A matcher for the names of assets built for CPU architecture `arch`.
pub fn arch_matcher(arch: &str) -> (r: Result<Matcher, UbiError>)
    ensures
        matcher_view(r) == matcher_for(arch_pattern(arch@), Fault::UnknownArch),
        r is Ok <==> arch_pattern(arch@) is Some && !is_rejected_arch(arch@),
{
    match pattern_for_arch(arch) {
        Some(pattern) => {
            assert(os_pattern(arch@) == Some(pattern@) || arch_pattern(arch@) == Some(pattern@));
            Matcher::new(pattern)
        },
        None => Err(Fault::UnknownArch),
    }
}

/// A matcher is for the pattern that it was asked for. Without a pattern there is the
/// fault that was given, and with one that is rejected the message of the regex engine.
pub proof fn law_matcher_is_for_its_pattern(
    pattern: Seq<char>,
    unknown: Fault<Seq<char>>,
    r: Result<Matcher, UbiError>,
)
    ensures
        matcher_for(None, unknown) == Err::<Seq<char>, Fault<Seq<char>>>(unknown),
        regex_error(pattern) is None ==> matcher_for(Some(pattern), unknown) == Ok::<
            Seq<char>,
            Fault<Seq<char>>,
        >(pattern),
        regex_error(pattern) is Some ==> matcher_for(Some(pattern), unknown) == Err::<
            Seq<char>,
            Fault<Seq<char>>,
        >(Fault::Pattern(regex_error(pattern)->0)),
        r is Ok ==> matcher_view(r) == Ok::<Seq<char>, Fault<Seq<char>>>(r->Ok_0@),
        r is Err ==> matcher_view(r) == Err::<Seq<char>, Fault<Seq<char>>>(r->Err_0@),
{
}

/// What is known of the patterns for a platform: all but three compile, and in an ASCII
/// text they find exactly what mentions the platform.
pub proof fn law_patterns_find_what_mentions_the_platform(
    os: Seq<char>,
    arch: Seq<char>,
    text: Seq<char>,
    compiles: bool,
    found: bool,
)
    requires
        os_pattern(os) is Some,
        arch_pattern(arch) is Some,
    ensures
        is_known_to_compile(os_pattern(os)->0, compiles) ==> compiles,
        is_known_to_compile(arch_pattern(arch)->0, compiles) ==> compiles == !(arch == "powerpc"@
            || arch == "powerpc64"@ || arch == "x86"@),
        is_known_to_find(os_pattern(os)->0, text, found) ==> found == mentions_os(text, os),
        is_known_to_find(arch_pattern(arch)->0, text, found) ==> found == mentions_arch(text, arch),
{
    assert(os_pattern(os) == Some(os_pattern(os)->0));
    assert(arch_pattern(arch) == Some(arch_pattern(arch)->0));
}

} // verus!
