//! What can go wrong, and how it is told to the user.

use vstd::prelude::*;
use vstd::string::*;

use crate::text::optional_text;

verus! {

/// A reason for which nothing was installed. The parameter is the kind of text
/// that the reason carries.
#[derive(Debug, PartialEq, Eq)]
pub enum Fault<S> {
    /// No organization and project can be read off this text.
    ProjectName(S),
    /// No pattern is known for assets built for this operating system.
    UnknownOs,
    /// No pattern is known for assets built for this CPU architecture.
    UnknownArch,
    /// A pattern does not compile; the regex engine says why.
    Pattern(S),
    /// None of the assets, listed here, was built for this platform.
    NoMatchingAsset(S),
    /// The server did not answer a download with "200 OK".
    Request { url: S, status: S, body: Option<S> },
    /// No member of the zip file has this file name.
    NotInZip(S),
    /// No entry of the tarball has this file name.
    NotInTarball(S),
    /// Tarballs with this extension cannot be uncompressed.
    TarballExtension(S),
    /// An entry's path, given here as far as it can be shown, is not Unicode.
    NonUnicodePath(S),
    /// A member of the zip file cannot be opened; the zip reader says why.
    ZipMember(S),
    /// The data cannot be read as what it should be; its reader says why.
    Unreadable(S),
}

/// A reason for which nothing was installed.
pub type UbiError = Fault<String>;

impl View for Fault<String> {
    type V = Fault<Seq<char>>;

    open spec fn view(&self) -> Fault<Seq<char>> {
        match *self {
            Fault::ProjectName(s) => Fault::ProjectName(s@),
            Fault::UnknownOs => Fault::UnknownOs,
            Fault::UnknownArch => Fault::UnknownArch,
            Fault::Pattern(s) => Fault::Pattern(s@),
            Fault::NoMatchingAsset(s) => Fault::NoMatchingAsset(s@),
            Fault::Request { url, status, body } => Fault::Request {
                url: url@,
                status: status@,
                body: optional_text(body),
            },
            Fault::NotInZip(s) => Fault::NotInZip(s@),
            Fault::NotInTarball(s) => Fault::NotInTarball(s@),
            Fault::TarballExtension(s) => Fault::TarballExtension(s@),
            Fault::NonUnicodePath(s) => Fault::NonUnicodePath(s@),
            Fault::ZipMember(s) => Fault::ZipMember(s@),
            Fault::Unreadable(s) => Fault::Unreadable(s@),
        }
    }
}

impl Fault<Seq<char>> {
    /// The message that tells the user what went wrong.
    pub open spec fn text(self) -> Seq<char> {
        match self {
            Fault::ProjectName(s) => "could not parse project name from "@ + s,
            Fault::UnknownOs =>
                "Cannot determine what type of compiled binary to use for this OS"@,
            Fault::UnknownArch =>
                "Cannot determine what type of compiled binary to use for this CPU architecture"@,
            Fault::Pattern(s) => s,
            Fault::NoMatchingAsset(s) =>
                "could not find a release for this OS and architecture from "@ + s,
            Fault::Request { url, status, body } => {
                let line = "error requesting "@ + url + ": "@ + status;
                match body {
                    Some(body) => line + "\n"@ + body,
                    None => line,
                }
            },
            Fault::NotInZip(s) => "could not find any files named "@ + s
                + " in the downloaded zip file"@,
            Fault::NotInTarball(s) => "could not find any files named "@ + s
                + " in the downloaded tarball"@,
            Fault::TarballExtension(s) =>
                "don't know how to uncompress a tarball with extension = "@ + s,
            Fault::NonUnicodePath(s) => "only Unicode paths are supported on Windows: "@ + s,
            Fault::ZipMember(s) => s,
            Fault::Unreadable(s) => s,
        }
    }
}

impl Fault<String> {
    /// The message that tells the user what went wrong.
    pub fn message(&self) -> (message: String)
        ensures
            message@ == self@.text(),
    {
        match self {
            Fault::ProjectName(s) => "could not parse project name from ".to_owned().concat(
                s.as_str(),
            ),
            Fault::UnknownOs =>
                "Cannot determine what type of compiled binary to use for this OS".to_owned(),
            Fault::UnknownArch =>
                "Cannot determine what type of compiled binary to use for this CPU architecture".to_owned(),
            Fault::Pattern(s) => s.clone(),
            Fault::NoMatchingAsset(s) =>
                "could not find a release for this OS and architecture from ".to_owned().concat(
                s.as_str(),
            ),
            Fault::Request { url, status, body } => {
                let mut message = "error requesting ".to_owned();
                message.append(url.as_str());
                message.append(": ");
                message.append(status.as_str());
                if let Some(body) = body {
                    message.append("\n");
                    message.append(body.as_str());
                }
                message
            },
            Fault::NotInZip(s) => {
                let mut message = "could not find any files named ".to_owned();
                message.append(s.as_str());
                message.append(" in the downloaded zip file");
                message
            },
            Fault::NotInTarball(s) => {
                let mut message = "could not find any files named ".to_owned();
                message.append(s.as_str());
                message.append(" in the downloaded tarball");
                message
            },
            Fault::TarballExtension(s) =>
                "don't know how to uncompress a tarball with extension = ".to_owned().concat(
                s.as_str(),
            ),
            Fault::NonUnicodePath(s) =>
                "only Unicode paths are supported on Windows: ".to_owned().concat(s.as_str()),
            Fault::ZipMember(s) => s.clone(),
            Fault::Unreadable(s) => s.clone(),
        }
    }
}

/// Every message tells what went wrong, with the text that the fault carries in full.
pub proof fn law_messages_tell_what_went_wrong(
    s: Seq<char>,
    url: Seq<char>,
    status: Seq<char>,
    body: Seq<char>,
)
    ensures
        Fault::ProjectName(s).text() == "could not parse project name from "@ + s,
        Fault::<Seq<char>>::UnknownOs.text()
            == "Cannot determine what type of compiled binary to use for this OS"@,
        Fault::<Seq<char>>::UnknownArch.text()
            == "Cannot determine what type of compiled binary to use for this CPU architecture"@,
        Fault::Pattern(s).text() == s,
        Fault::NoMatchingAsset(s).text()
            == "could not find a release for this OS and architecture from "@ + s,
        (Fault::Request { url, status, body: None }).text() == "error requesting "@ + url + ": "@
            + status,
        (Fault::Request { url, status, body: Some(body) }).text() == "error requesting "@ + url
            + ": "@ + status + "\n"@ + body,
        Fault::NotInZip(s).text() == "could not find any files named "@ + s
            + " in the downloaded zip file"@,
        Fault::NotInTarball(s).text() == "could not find any files named "@ + s
            + " in the downloaded tarball"@,
        Fault::TarballExtension(s).text()
            == "don't know how to uncompress a tarball with extension = "@ + s,
        Fault::NonUnicodePath(s).text() == "only Unicode paths are supported on Windows: "@ + s,
        Fault::ZipMember(s).text() == s,
        Fault::Unreadable(s).text() == s,
{
}

/// A fault is seen as the same fault, with all of the text that it carries.
pub proof fn law_faults_are_seen_as_they_are(fault: UbiError)
    ensures
        match fault {
            Fault::ProjectName(s) => fault@ == Fault::ProjectName(s@),
            Fault::UnknownOs => fault@ == Fault::<Seq<char>>::UnknownOs,
            Fault::UnknownArch => fault@ == Fault::<Seq<char>>::UnknownArch,
            Fault::Pattern(s) => fault@ == Fault::Pattern(s@),
            Fault::NoMatchingAsset(s) => fault@ == Fault::NoMatchingAsset(s@),
            Fault::Request { url, status, body } => fault@ is Request && fault@->url == url@
                && fault@->status == status@ && (body is None <==> fault@->body is None) && (
            body is Some ==> fault@->body == Some(body->0@)),
            Fault::NotInZip(s) => fault@ == Fault::NotInZip(s@),
            Fault::NotInTarball(s) => fault@ == Fault::NotInTarball(s@),
            Fault::TarballExtension(s) => fault@ == Fault::TarballExtension(s@),
            Fault::NonUnicodePath(s) => fault@ == Fault::NonUnicodePath(s@),
            Fault::ZipMember(s) => fault@ == Fault::ZipMember(s@),
            Fault::Unreadable(s) => fault@ == Fault::Unreadable(s@),
        },
{
}

} // verus!
