//! Why a playlist cannot be resolved.

use vstd::prelude::*;
use vstd::string::*;

verus! {

/// Why a playlist cannot be resolved.
#[derive(Debug)]
pub enum DownloadError {
    /// A URL cannot be parsed or joined; holds what is wrong with it.
    Url(String),
    /// The path of a URL has no segments; holds the URL.
    NoSlice(String),
    /// The reply to a request breaks off; holds what is wrong with it.
    Body(String),
    /// No attempt to fetch the playlist succeeded.
    ConnectionTimeout,
    /// The playlist holds nothing but white space.
    EmptyContent,
    /// The playlist names nothing to download.
    NoDownloadable,
}

/// Model of a [`DownloadError`].
pub enum DownloadErrorView {
    Url(Seq<char>),
    NoSlice(Seq<char>),
    Body(Seq<char>),
    ConnectionTimeout,
    EmptyContent,
    NoDownloadable,
}

impl View for DownloadError {
    type V = DownloadErrorView;

    open spec fn view(&self) -> DownloadErrorView {
        match self {
            DownloadError::Url(e) => DownloadErrorView::Url(e@),
            DownloadError::NoSlice(u) => DownloadErrorView::NoSlice(u@),
            DownloadError::Body(e) => DownloadErrorView::Body(e@),
            DownloadError::ConnectionTimeout => DownloadErrorView::ConnectionTimeout,
            DownloadError::EmptyContent => DownloadErrorView::EmptyContent,
            DownloadError::NoDownloadable => DownloadErrorView::NoDownloadable,
        }
    }
}

impl DownloadErrorView {
    /// The text shown to the user.
    pub open spec fn message(self) -> Seq<char> {
        match self {
            DownloadErrorView::Url(e) => e,
            DownloadErrorView::NoSlice(u) => "no slice:"@ + u,
            DownloadErrorView::Body(e) => e,
            DownloadErrorView::ConnectionTimeout => "Connection timeout"@,
            DownloadErrorView::EmptyContent => "Content is empty"@,
            DownloadErrorView::NoDownloadable => "No downloadable"@,
        }
    }
}

impl DownloadError {
    /// The text shown to the user.
    pub fn message(&self) -> (res: String)
        ensures
            res@ == self@.message(),
            match self {
                DownloadError::Url(e) => res@ == e@,
                DownloadError::NoSlice(u) => res@ == "no slice:"@ + u@,
                DownloadError::Body(e) => res@ == e@,
                DownloadError::ConnectionTimeout => res@ == "Connection timeout"@,
                DownloadError::EmptyContent => res@ == "Content is empty"@,
                DownloadError::NoDownloadable => res@ == "No downloadable"@,
            },
    {
        match self {
            DownloadError::Url(e) => e.clone(),
            DownloadError::NoSlice(u) => "no slice:".to_owned().concat(u.as_str()),
            DownloadError::Body(e) => e.clone(),
            DownloadError::ConnectionTimeout => "Connection timeout".to_owned(),
            DownloadError::EmptyContent => "Content is empty".to_owned(),
            DownloadError::NoDownloadable => "No downloadable".to_owned(),
        }
    }
}

// ---------------------------------------------------------------------------
// Laws
// ---------------------------------------------------------------------------
/// An error that holds a text shows it: alone, or at the end, where it is the URL
/// that has no segments. The others each show a text of their own.
pub proof fn law_errors_show_what_they_hold(text: Seq<char>)
    ensures
        DownloadErrorView::Url(text).message() == text,
        DownloadErrorView::Body(text).message() == text,
        DownloadErrorView::NoSlice(text).message() == seq![
            'n', 'o', ' ', 's', 'l', 'i', 'c', 'e', ':',
        ] + text,
        DownloadErrorView::ConnectionTimeout.message() == "Connection timeout"@,
        DownloadErrorView::EmptyContent.message() == "Content is empty"@,
        DownloadErrorView::NoDownloadable.message() == "No downloadable"@,
{
    reveal_strlit("no slice:");
    assert("no slice:"@ == seq!['n', 'o', ' ', 's', 'l', 'i', 'c', 'e', ':']);
}

/// An error and its model are of one kind and hold one text.
pub proof fn law_errors_keep_their_text(text: String)
    ensures
        DownloadError::Url(text)@ == DownloadErrorView::Url(text@),
        DownloadError::NoSlice(text)@ == DownloadErrorView::NoSlice(text@),
        DownloadError::Body(text)@ == DownloadErrorView::Body(text@),
        DownloadError::ConnectionTimeout@ == DownloadErrorView::ConnectionTimeout,
        DownloadError::EmptyContent@ == DownloadErrorView::EmptyContent,
        DownloadError::NoDownloadable@ == DownloadErrorView::NoDownloadable,
{
}

} // verus!
