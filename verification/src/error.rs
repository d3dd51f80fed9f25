//! The errors of the library.

use vstd::prelude::*;
use vstd::string::*;

use crate::text::{begins_with, finishes_with};

verus! {

/// What can go wrong while components are looked up, checked, updated or repaired.
#[derive(Debug)]
pub enum Error {
    UnsupportedOS,
    NotKDE,
    MetadataNotFound,
    MetadataParse(String),
    InstallFailed(String),
    DownloadFailed(String),
    ComponentNotFound(String),
    RateLimited,
    Network(String),
    Io(String),
    Other(String),
}

/// An error with what its text holds.
pub enum ErrorView {
    UnsupportedOS,
    NotKDE,
    MetadataNotFound,
    MetadataParse(Seq<char>),
    InstallFailed(Seq<char>),
    DownloadFailed(Seq<char>),
    ComponentNotFound(Seq<char>),
    RateLimited,
    Network(Seq<char>),
    Io(Seq<char>),
    Other(Seq<char>),
}

impl View for Error {
    type V = ErrorView;

    open spec fn view(&self) -> ErrorView {
        match self {
            Error::UnsupportedOS => ErrorView::UnsupportedOS,
            Error::NotKDE => ErrorView::NotKDE,
            Error::MetadataNotFound => ErrorView::MetadataNotFound,
            Error::MetadataParse(m) => ErrorView::MetadataParse(m@),
            Error::InstallFailed(m) => ErrorView::InstallFailed(m@),
            Error::DownloadFailed(m) => ErrorView::DownloadFailed(m@),
            Error::ComponentNotFound(m) => ErrorView::ComponentNotFound(m@),
            Error::RateLimited => ErrorView::RateLimited,
            Error::Network(m) => ErrorView::Network(m@),
            Error::Io(m) => ErrorView::Io(m@),
            Error::Other(m) => ErrorView::Other(m@),
        }
    }
}

/// An error as it is shown.
pub open spec fn shown(error: ErrorView) -> Seq<char> {
    match error {
        ErrorView::UnsupportedOS => "only Linux is supported"@,
        ErrorView::NotKDE => "KDE Plasma was not detected"@,
        ErrorView::MetadataNotFound => "no metadata found in package"@,
        ErrorView::MetadataParse(m) => "failed to parse metadata: "@ + m,
        ErrorView::InstallFailed(m) => "installation failed: "@ + m,
        ErrorView::DownloadFailed(m) => "download failed: "@ + m,
        ErrorView::ComponentNotFound(m) => "component not found: "@ + m,
        ErrorView::RateLimited => "rate limited by the KDE Store"@,
        ErrorView::Network(m) => "network error: "@ + m,
        ErrorView::Io(m) => "I/O error: "@ + m,
        ErrorView::Other(m) => m,
    }
}

impl Error {
    /// The text by which the error is shown.
    pub fn text(&self) -> (text: String)
        ensures
            text@ == shown(self@),
    {
        match self {
            Error::UnsupportedOS => "only Linux is supported".to_owned(),
            Error::NotKDE => "KDE Plasma was not detected".to_owned(),
            Error::MetadataNotFound => "no metadata found in package".to_owned(),
            Error::MetadataParse(m) => "failed to parse metadata: ".to_owned().concat(m.as_str()),
            Error::InstallFailed(m) => "installation failed: ".to_owned().concat(m.as_str()),
            Error::DownloadFailed(m) => "download failed: ".to_owned().concat(m.as_str()),
            Error::ComponentNotFound(m) => "component not found: ".to_owned().concat(m.as_str()),
            Error::RateLimited => "rate limited by the KDE Store".to_owned(),
            Error::Network(m) => "network error: ".to_owned().concat(m.as_str()),
            Error::Io(m) => "I/O error: ".to_owned().concat(m.as_str()),
            Error::Other(m) => m.clone(),
        }
    }

    pub fn install(message: String) -> (e: Error)
        ensures
            e@ == ErrorView::InstallFailed(message@),
    {
        Error::InstallFailed(message)
    }

    pub fn other(message: String) -> (e: Error)
        ensures
            e@ == ErrorView::Other(message@),
    {
        Error::Other(message)
    }
}

/// An error that holds a message is shown with the message at its end, and one that has no kind of
/// its own is shown as the message alone. Two errors of one kind are shown alike only if their
/// messages are.
pub proof fn law_messages_are_shown(message: Seq<char>, other: Seq<char>)
    ensures
        shown(ErrorView::Other(message)) == message,
        finishes_with(shown(ErrorView::MetadataParse(message)), message),
        finishes_with(shown(ErrorView::InstallFailed(message)), message),
        finishes_with(shown(ErrorView::DownloadFailed(message)), message),
        finishes_with(shown(ErrorView::ComponentNotFound(message)), message),
        finishes_with(shown(ErrorView::Network(message)), message),
        finishes_with(shown(ErrorView::Io(message)), message),
        begins_with(shown(ErrorView::MetadataParse(message)), "failed to parse metadata: "@),
        begins_with(shown(ErrorView::InstallFailed(message)), "installation failed: "@),
        begins_with(shown(ErrorView::DownloadFailed(message)), "download failed: "@),
        begins_with(shown(ErrorView::ComponentNotFound(message)), "component not found: "@),
        begins_with(shown(ErrorView::Network(message)), "network error: "@),
        begins_with(shown(ErrorView::Io(message)), "I/O error: "@),
        shown(ErrorView::InstallFailed(message)) == shown(ErrorView::InstallFailed(other))
            ==> message == other,
{
    lemma_shown_after("failed to parse metadata: "@, message);
    lemma_shown_after("installation failed: "@, message);
    lemma_shown_after("installation failed: "@, other);
    lemma_shown_after("download failed: "@, message);
    lemma_shown_after("component not found: "@, message);
    lemma_shown_after("network error: "@, message);
    lemma_shown_after("I/O error: "@, message);
}

proof fn lemma_shown_after(prefix: Seq<char>, message: Seq<char>)
    ensures
        begins_with(prefix + message, prefix),
        finishes_with(prefix + message, message),
        (prefix + message).skip(prefix.len() as int) == message,
{
    let whole = prefix + message;
    assert(whole.subrange(0, prefix.len() as int) == prefix);
    assert(whole.subrange(whole.len() - message.len(), whole.len() as int) == message);
}

} // verus!
