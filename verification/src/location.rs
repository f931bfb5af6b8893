//! Where a playlist's keys and segments are fetched from.
//!
//! URLs are handled by the `url` crate. A URL is held here as its
//! serialization: that crate compares URLs by it, and parsing it gives the URL
//! back.

use vstd::prelude::*;

use crate::error::{DownloadError, DownloadErrorView};
use crate::text::{chars_of, starts_with};

verus! {

// ---------------------------------------------------------------------------
// The `url` crate
// ---------------------------------------------------------------------------
/// Model of a text, or of the text of an error.
pub open spec fn text_result(r: Result<String, String>) -> Result<Seq<char>, Seq<char>> {
    match r {
        Ok(s) => Ok(s@),
        Err(e) => Err(e@),
    }
}

/// Model of a list of texts.
pub open spec fn texts(v: Seq<String>) -> Seq<Seq<char>> {
    v.map_values(|s: String| s@)
}

/// What `url::Url::parse` makes of a text: the serialization of the URL, or the
/// text of the error.
pub uninterp spec fn url_parsed(input: Seq<char>) -> Result<Seq<char>, Seq<char>>;

/// What `url::Url::join` makes of a reference against the URL `base`: the
/// serialization of the URL, or the text of the error.
pub uninterp spec fn url_joined(base: Seq<char>, reference: Seq<char>) -> Result<
    Seq<char>,
    Seq<char>,
>;

/// The segments that `url::Url::path_segments` gives for the URL `text`.
pub uninterp spec fn url_segments(text: Seq<char>) -> Option<Seq<Seq<char>>>;

/// Calls `url::Url::parse`, which parses an absolute URL. Its result depends on
/// the text alone and has a name here; the WHATWG algorithm behind it is not
/// spelled out.
#[verifier::external_body]
fn parse_url(input: &str) -> (res: Result<String, String>)
    ensures
        text_result(res) == url_parsed(input@),
{
    url::Url::parse(input).map(String::from).map_err(|e| e.to_string())
}

/// Calls `url::Url::join` on the URL that `base` is the serialization of. Its
/// result depends on the two texts alone and has a name here. Where `base` is
/// not a URL, the error is that of parsing it.
#[verifier::external_body]
fn join_url(base: &str, reference: &str) -> (res: Result<String, String>)
    ensures
        text_result(res) == url_joined(base@, reference@),
{
    let base = url::Url::parse(base).map_err(|e| e.to_string())?;
    base.join(reference).map(String::from).map_err(|e| e.to_string())
}

/// A part of a URL's path: it holds neither a slash, which separates such parts,
/// nor a question mark or a number sign, with which the query and the fragment
/// start.
pub open spec fn is_path_part(s: Seq<char>) -> bool {
    !s.contains('/') && !s.contains('?') && !s.contains('#')
}

/// Calls `url::Url::path_segments` on the URL that `text` is the serialization
/// of, and collects the segments. They depend on the text alone and have a name
/// here. Where there are segments there is at least one, and as they are what
/// the slashes of the path separate, none holds a slash. Nor does one hold a
/// question mark or a number sign, as the path ends before the first of these. A
/// text that is not a URL has none.
#[verifier::external_body]
fn path_segments(text: &str) -> (res: Option<Vec<String>>)
    ensures
        match res {
            Some(v) => url_segments(text@) == Some(texts(v@)),
            None => url_segments(text@) is None,
        },
        res matches Some(v) ==> v@.len() > 0 && forall|i: int|
            0 <= i < v@.len() ==> is_path_part((#[trigger] v@[i])@),
{
    let url = url::Url::parse(text).ok()?;
    url.path_segments().map(|segments| segments.map(|s| s.to_string()).collect())
}

// ---------------------------------------------------------------------------
// Models
// ---------------------------------------------------------------------------
/// The URL that the references in the playlist at `m3u8_url` are relative to.
pub open spec fn base_model(m3u8_url: Seq<char>) -> Result<Seq<char>, DownloadErrorView> {
    match url_parsed(m3u8_url) {
        Err(e) => Err(DownloadErrorView::Url(e)),
        Ok(url) => match url_joined(url, "."@) {
            Err(e) => Err(DownloadErrorView::Url(e)),
            Ok(base) => Ok(base),
        },
    }
}

/// Whether a reference is an absolute web address.
pub open spec fn is_absolute(s: Seq<char>) -> bool {
    "http://"@.is_prefix_of(s) || "https://"@.is_prefix_of(s)
}

/// The file name and the URL of what stands at `url`, whose path has the given
/// segments: the name is the last of them.
pub open spec fn slice_model(url: Seq<char>, segments: Option<Seq<Seq<char>>>) -> Result<
    (Seq<char>, Seq<char>),
    DownloadErrorView,
> {
    match segments {
        Some(v) => if v.len() > 0 {
            Ok((v.last(), url))
        } else {
            Err(DownloadErrorView::NoSlice(url))
        },
        None => Err(DownloadErrorView::NoSlice(url)),
    }
}

/// The file name and the URL that a reference in a playlist stands for.
pub open spec fn key_segment_model(base_url: Seq<char>, s: Seq<char>) -> Result<
    (Seq<char>, Seq<char>),
    DownloadErrorView,
> {
    let located = if is_absolute(s) {
        url_parsed(s)
    } else {
        url_joined(base_url, s)
    };
    match located {
        Err(e) => Err(DownloadErrorView::Url(e)),
        Ok(url) => slice_model(url, url_segments(url)),
    }
}

/// Model of a file name with its URL, or of the error in their place.
pub open spec fn slice_result(r: Result<(String, String), DownloadError>) -> Result<
    (Seq<char>, Seq<char>),
    DownloadErrorView,
> {
    match r {
        Ok((name, url)) => Ok((name@, url@)),
        Err(e) => Err(e@),
    }
}

// ---------------------------------------------------------------------------
// Executable functions
// ---------------------------------------------------------------------------
/// The URL that the references in the playlist at `m3u8_url` are relative to:
/// the directory that the playlist stands in.
pub fn resolve_base(m3u8_url: &str) -> (res: Result<String, DownloadError>)
    ensures
        match res {
            Ok(base) => base_model(m3u8_url@) == Ok::<Seq<char>, DownloadErrorView>(base@),
            Err(e) => base_model(m3u8_url@) == Err::<Seq<char>, DownloadErrorView>(e@),
        },
        match url_parsed(m3u8_url@) {
            Err(why) => res matches Err(DownloadError::Url(e)) && e@ == why,
            Ok(url) => match url_joined(url, "."@) {
                Err(why) => res matches Err(DownloadError::Url(e)) && e@ == why,
                Ok(directory) => res matches Ok(base) && base@ == directory,
            },
        },
{
    match parse_url(m3u8_url) {
        Err(e) => Err(DownloadError::Url(e)),
        Ok(url) => match join_url(url.as_str(), ".") {
            Err(e) => Err(DownloadError::Url(e)),
            Ok(base) => Ok(base),
        },
    }
}

/// Whether a reference is an absolute web address.
pub fn absolute(s: &str) -> (res: bool)
    ensures
        res == is_absolute(s@),
{
    let chars = chars_of(s);
    let http = chars_of("http://");
    let https = chars_of("https://");
    starts_with(chars.as_slice(), http.as_slice()) || starts_with(
        chars.as_slice(),
        https.as_slice(),
    )
}

/// The file name and the URL of what stands at `url`, whose path has the given
/// segments.
pub fn slice_of(url: String, segments: Option<Vec<String>>) -> (res: Result<
    (String, String),
    DownloadError,
>)
    ensures
        slice_result(res) == slice_model(
            url@,
            match segments {
                Some(v) => Some(texts(v@)),
                None => None,
            },
        ),
{
    match segments {
        Some(mut v) => {
            let ghost all = v@;
            match v.pop() {
                Some(name) => {
                    assert(texts(all).last() == name@);
                    Ok((name, url))
                },
                None => Err(DownloadError::NoSlice(url)),
            }
        },
        None => Err(DownloadError::NoSlice(url)),
    }
}

/// The file name and the URL that a reference in a playlist stands for. A file
/// name holds no slash, no question mark and no number sign. The URL of an
/// absolute web address is that address, parsed.
pub fn parse_m3u8_key_segment(base_url: &str, s: &str) -> (res: Result<
    (String, String),
    DownloadError,
>)
    ensures
        slice_result(res) == key_segment_model(base_url@, s@),
        res matches Ok((name, url)) ==> is_path_part(name@) && (is_absolute(s@) ==> url_parsed(s@)
            == Ok::<Seq<char>, Seq<char>>(url@)),
        match if "http://"@.is_prefix_of(s@) || "https://"@.is_prefix_of(s@) {
            url_parsed(s@)
        } else {
            url_joined(base_url@, s@)
        } {
            Err(why) => res matches Err(DownloadError::Url(e)) && e@ == why,
            Ok(located) => match url_segments(located) {
                None => res matches Err(DownloadError::NoSlice(url)) && url@ == located,
                Some(segments) => segments.len() > 0 && (res matches Ok((name, url)) && name@
                    == segments[segments.len() - 1] && url@ == located),
            },
        },
{
    let located = if absolute(s) {
        parse_url(s)
    } else {
        join_url(base_url, s)
    };
    match located {
        Err(e) => Err(DownloadError::Url(e)),
        Ok(url) => {
            let segments = path_segments(url.as_str());
            assert(segments matches Some(v) ==> texts(v@).last() == v@.last()@);
            slice_of(url, segments)
        },
    }
}

// ---------------------------------------------------------------------------
// Laws
// ---------------------------------------------------------------------------
/// An absolute web address stands for the same file in every playlist: for what
/// stands at that address.
pub proof fn law_absolute_reference_ignores_base(a: Seq<char>, b: Seq<char>, s: Seq<char>)
    requires
        is_absolute(s),
    ensures
        key_segment_model(a, s) == key_segment_model(b, s),
        key_segment_model(a, s) matches Ok((_, url)) ==> url_parsed(s) == Ok::<
            Seq<char>,
            Seq<char>,
        >(url),
{
}

/// An absolute web address is a text that starts with the seven characters of
/// `http://` or with the eight of `https://`, and no other is.
pub proof fn law_absolute_addresses_name_their_scheme(s: Seq<char>)
    ensures
        is_absolute(s) <==> {
            ||| s.len() >= 7 && s.subrange(0, 7) == seq!['h', 't', 't', 'p', ':', '/', '/']
            ||| s.len() >= 8 && s.subrange(0, 8) == seq!['h', 't', 't', 'p', 's', ':', '/', '/']
        },
{
    reveal_strlit("http://");
    reveal_strlit("https://");
    assert("http://"@ == seq!['h', 't', 't', 'p', ':', '/', '/']);
    assert("https://"@ == seq!['h', 't', 't', 'p', 's', ':', '/', '/']);
}

/// The base of a playlist is the directory that it stands in: what `.` stands for
/// at its address. It has none only where that is no URL, or has no directory.
pub proof fn law_base_is_the_directory_of_the_playlist(m3u8_url: Seq<char>)
    ensures
        match url_parsed(m3u8_url) {
            Err(why) => base_model(m3u8_url) == Err::<Seq<char>, DownloadErrorView>(
                DownloadErrorView::Url(why),
            ),
            Ok(url) => match url_joined(url, seq!['.']) {
                Err(why) => base_model(m3u8_url) == Err::<Seq<char>, DownloadErrorView>(
                    DownloadErrorView::Url(why),
                ),
                Ok(directory) => base_model(m3u8_url) == Ok::<Seq<char>, DownloadErrorView>(
                    directory,
                ),
            },
        },
{
    reveal_strlit(".");
    assert("."@ == seq!['.']);
}

/// Playlists whose addresses are one URL, however they are written, have one base.
pub proof fn law_base_depends_on_the_url_alone(a: Seq<char>, b: Seq<char>)
    requires
        url_parsed(a) == url_parsed(b),
    ensures
        base_model(a) == base_model(b),
{
}

/// A reference that is no absolute web address is taken against the base, and an
/// absolute one is not. Either way the file stands at the URL that comes of it,
/// and is named after the last part of that URL's path.
pub proof fn law_reference_stands_for_the_end_of_its_url(
    base_url: Seq<char>,
    s: Seq<char>,
    url: Seq<char>,
    first: Seq<Seq<char>>,
    name: Seq<char>,
)
    requires
        if is_absolute(s) {
            url_parsed(s) == Ok::<Seq<char>, Seq<char>>(url)
        } else {
            url_joined(base_url, s) == Ok::<Seq<char>, Seq<char>>(url)
        },
        url_segments(url) == Some(first.push(name)),
    ensures
        key_segment_model(base_url, s) == Ok::<(Seq<char>, Seq<char>), DownloadErrorView>(
            (name, url),
        ),
{
    assert(first.push(name).last() == name);
}

/// A reference fails only where its URL does, with the same error, or where that
/// URL's path has no parts.
pub proof fn law_reference_fails_with_its_url(base_url: Seq<char>, s: Seq<char>)
    ensures
        ({
            let located = if is_absolute(s) {
                url_parsed(s)
            } else {
                url_joined(base_url, s)
            };
            match key_segment_model(base_url, s) {
                Err(DownloadErrorView::Url(why)) => located == Err::<Seq<char>, Seq<char>>(why),
                Err(DownloadErrorView::NoSlice(url)) => located == Ok::<Seq<char>, Seq<char>>(url)
                    && (url_segments(url) matches Some(segments) ==> segments.len() == 0),
                Err(_) => false,
                Ok((name, url)) => located == Ok::<Seq<char>, Seq<char>>(url) && (url_segments(
                    url,
                ) matches Some(segments) && segments.len() > 0 && segments[segments.len() - 1]
                    == name),
            }
        }),
{
}

/// The name of a file is the last of the given parts of a path, whatever stands
/// before it; without parts there is no name.
pub proof fn law_name_is_the_last_part(url: Seq<char>, first: Seq<Seq<char>>, name: Seq<char>)
    ensures
        slice_model(url, Some(first.push(name))) == Ok::<
            (Seq<char>, Seq<char>),
            DownloadErrorView,
        >((name, url)),
        slice_model(url, Some(Seq::empty())) == Err::<(Seq<char>, Seq<char>), DownloadErrorView>(
            DownloadErrorView::NoSlice(url),
        ),
        slice_model(url, None) == Err::<(Seq<char>, Seq<char>), DownloadErrorView>(
            DownloadErrorView::NoSlice(url),
        ),
{
    assert(first.push(name).last() == name);
}

/// A part of a path holds no slash, no question mark and no number sign; any other
/// text is one.
pub proof fn law_path_parts_hold_no_delimiters(s: Seq<char>)
    ensures
        is_path_part(s) <==> forall|i: int|
            0 <= i < s.len() ==> #[trigger] s[i] != '/' && s[i] != '?' && s[i] != '#',
{
    if is_path_part(s) {
        assert forall|i: int| 0 <= i < s.len() implies #[trigger] s[i] != '/' && s[i] != '?'
            && s[i] != '#' by {
            assert(s.contains(s[i]));
        }
    }
}

/// The texts of strings are those of the strings, each in its place; what may
/// fail or be missing has the text of what it holds.
pub proof fn law_texts_keep_their_places(v: Seq<String>, i: int, s: String)
    ensures
        texts(v).len() == v.len(),
        0 <= i < v.len() ==> texts(v)[i] == v[i]@,
        text_result(Ok(s)) == Ok::<Seq<char>, Seq<char>>(s@),
        text_result(Err(s)) == Err::<Seq<char>, Seq<char>>(s@),
{
}

/// A located file has the name and the URL that it holds, and a failure the error
/// that it holds.
pub proof fn law_located_files_keep_name_and_url(name: String, url: String, e: DownloadError)
    ensures
        slice_result(Ok((name, url))) == Ok::<(Seq<char>, Seq<char>), DownloadErrorView>(
            (name@, url@),
        ),
        slice_result(Err(e)) == Err::<(Seq<char>, Seq<char>), DownloadErrorView>(e@),
{
}

} // verus!
