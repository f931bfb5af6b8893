//! Resolving a playlist: which files it takes to play it, and the local
//! playlist that refers to those files by name.

use vstd::prelude::*;
use vstd::string::*;

use crate::error::{DownloadError, DownloadErrorView};
use crate::location::{
    is_path_part, key_segment_model, law_path_parts_hold_no_delimiters, parse_m3u8_key_segment,
    slice_result,
};
use crate::text::{
    after, before, blank, chars_of, ends_with, find, is_blank, is_white_space,
    law_first_occurrence, lemma_find_is, lines, lines_of, push_chars, replace, replaced,
    slice_views, starts_with, string_of, text_after, text_before,
};

verus! {

/// The name under which the local playlist is saved.
pub const M3U8_FILENAME: &'static str = "index.m3u8";

/// A file to download.
#[derive(Debug)]
pub struct WaitDownloadFile {
    /// The name under which the file is saved.
    pub slice_name: String,
    /// The directory in which the file is saved.
    pub save_path: String,
    /// Where the file is fetched from.
    pub download_url: String,
}

/// Model of a [`WaitDownloadFile`].
pub struct WaitDownloadFileView {
    pub slice_name: Seq<char>,
    pub save_path: Seq<char>,
    pub download_url: Seq<char>,
}

impl View for WaitDownloadFile {
    type V = WaitDownloadFileView;

    open spec fn view(&self) -> WaitDownloadFileView {
        WaitDownloadFileView {
            slice_name: self.slice_name@,
            save_path: self.save_path@,
            download_url: self.download_url@,
        }
    }
}

/// Model of a list of files.
pub open spec fn files_view(v: Seq<WaitDownloadFile>) -> Seq<WaitDownloadFileView> {
    v.map_values(|f: WaitDownloadFile| f@)
}

/// What a line of a playlist is.
#[derive(Debug)]
pub enum LineKind {
    /// The address of another playlist. Reading ends here.
    Nested,
    /// A key, found at the reference that is held.
    Key(String),
    /// The reference of a segment.
    Segment,
    /// A tag or a comment.
    Comment,
    /// White space.
    Blank,
}

/// Model of a [`LineKind`].
pub enum LineKindView {
    Nested,
    Key(Seq<char>),
    Segment,
    Comment,
    Blank,
}

impl View for LineKind {
    type V = LineKindView;

    open spec fn view(&self) -> LineKindView {
        match self {
            LineKind::Nested => LineKindView::Nested,
            LineKind::Key(uri) => LineKindView::Key(uri@),
            LineKind::Segment => LineKindView::Segment,
            LineKind::Comment => LineKindView::Comment,
            LineKind::Blank => LineKindView::Blank,
        }
    }
}

/// The reference in a key line: what stands after the first `URI="`, up to a
/// second one or to a closing quote. A line without one refers to nothing.
pub open spec fn key_uri(line: Seq<char>) -> Seq<char> {
    match after(line, "URI=\""@) {
        None => ""@,
        Some(rest) => before(before(rest, "URI=\""@), "\""@),
    }
}

/// What a line of a playlist is.
pub open spec fn line_kind(line: Seq<char>) -> LineKindView {
    if ".m3u8"@.is_suffix_of(line) {
        LineKindView::Nested
    } else if "#EXT-X-KEY"@.is_prefix_of(line) {
        LineKindView::Key(key_uri(line))
    } else if is_blank(line) {
        LineKindView::Blank
    } else if "#"@.is_prefix_of(line) {
        LineKindView::Comment
    } else {
        LineKindView::Segment
    }
}

/// How far a playlist has been resolved: the local playlist so far, and the
/// files to download.
#[derive(Debug)]
pub struct Resolution {
    pub playlist: String,
    pub files: Vec<WaitDownloadFile>,
}

/// Model of a [`Resolution`].
pub struct ResolutionView {
    pub playlist: Seq<char>,
    pub files: Seq<WaitDownloadFileView>,
}

impl View for Resolution {
    type V = ResolutionView;

    open spec fn view(&self) -> ResolutionView {
        ResolutionView { playlist: self.playlist@, files: files_view(self.files@) }
    }
}

impl ResolutionView {
    /// Nothing resolved yet.
    pub open spec fn empty() -> Self {
        ResolutionView { playlist: Seq::empty(), files: Seq::empty() }
    }

    /// With one more line in the local playlist.
    pub open spec fn with_line(self, line: Seq<char>) -> Self {
        ResolutionView { playlist: self.playlist + line.push('\n'), ..self }
    }

    /// With one more file to download.
    pub open spec fn with_file(self, file: WaitDownloadFileView) -> Self {
        ResolutionView { files: self.files.push(file), ..self }
    }

    /// What becomes of a line whose reference stands for a file of the given
    /// name at the given URL. A key is always fetched, and its reference gives
    /// way to the name wherever it occurs in the line. A segment is fetched, and
    /// its line gives way to the name, unless the name is blank: then the line
    /// is left out.
    pub open spec fn with_slice(
        self,
        line: Seq<char>,
        kind: LineKindView,
        save_path: Seq<char>,
        name: Seq<char>,
        url: Seq<char>,
    ) -> Self {
        let file = WaitDownloadFileView { slice_name: name, save_path, download_url: url };
        match kind {
            LineKindView::Key(uri) => self.with_file(file).with_line(replaced(line, uri, name)),
            LineKindView::Segment => if is_blank(name) {
                self
            } else {
                self.with_file(file).with_line(name)
            },
            _ => self,
        }
    }
}

/// The reference that a line of the given kind is located by.
pub open spec fn line_reference(line: Seq<char>, kind: LineKindView) -> Seq<char> {
    match kind {
        LineKindView::Key(uri) => uri,
        _ => line,
    }
}

/// Whether a line has to be located.
pub open spec fn refers(line: Seq<char>) -> bool {
    line_kind(line) is Key || line_kind(line) is Segment
}

/// What becomes of a line that is not a nested playlist, `located` being what its
/// reference stands for, where it has one: it adds that, or fails as its reference
/// fails. A comment is kept, and a blank line is left out.
pub open spec fn resolve_located(
    save_path: Seq<char>,
    line: Seq<char>,
    kind: LineKindView,
    located: Option<Result<(Seq<char>, Seq<char>), DownloadErrorView>>,
    so_far: ResolutionView,
) -> Result<ResolutionView, DownloadErrorView> {
    match located {
        Some(Err(e)) => Err(e),
        Some(Ok((name, url))) => Ok(so_far.with_slice(line, kind, save_path, name, url)),
        None => if kind is Comment {
            Ok(so_far.with_line(line))
        } else {
            Ok(so_far)
        },
    }
}

/// What becomes of a line that is not a nested playlist, whose reference is taken
/// against `base_url`.
pub open spec fn resolve_line(
    base_url: Seq<char>,
    save_path: Seq<char>,
    line: Seq<char>,
    so_far: ResolutionView,
) -> Result<ResolutionView, DownloadErrorView> {
    let kind = line_kind(line);
    let located = if refers(line) {
        Some(key_segment_model(base_url, line_reference(line, kind)))
    } else {
        None
    };
    resolve_located(save_path, line, kind, located, so_far)
}

/// Resolves lines, one after the other, up to a nested playlist or to a
/// reference that stands for no file.
pub open spec fn resolve_lines(
    base_url: Seq<char>,
    save_path: Seq<char>,
    lines: Seq<Seq<char>>,
    so_far: ResolutionView,
) -> (ResolutionView, Option<DownloadErrorView>)
    decreases lines.len(),
{
    if lines.len() == 0 || line_kind(lines[0]) is Nested {
        (so_far, None)
    } else {
        match resolve_line(base_url, save_path, lines[0], so_far) {
            Err(e) => (so_far, Some(e)),
            Ok(next) => resolve_lines(
                base_url,
                save_path,
                lines.subrange(1, lines.len() as int),
                next,
            ),
        }
    }
}

/// The files to download, given how far the lines were resolved.
pub open spec fn downloadable(
    files: Seq<WaitDownloadFileView>,
    error: Option<DownloadErrorView>,
) -> Result<Seq<WaitDownloadFileView>, DownloadErrorView> {
    match error {
        Some(e) => Err(e),
        None => if files.len() == 0 {
            Err(DownloadErrorView::NoDownloadable)
        } else {
            Ok(files)
        },
    }
}

/// Model of a list of files, or of the error in its place.
pub open spec fn files_result(r: Result<Vec<WaitDownloadFile>, DownloadError>) -> Result<
    Seq<WaitDownloadFileView>,
    DownloadErrorView,
> {
    match r {
        Ok(v) => Ok(files_view(v@)),
        Err(e) => Err(e@),
    }
}

// ---------------------------------------------------------------------------
// Executable functions
// ---------------------------------------------------------------------------
/// The reference in a key line.
pub fn key_reference(line: &[char]) -> (res: String)
    ensures
        res@ == key_uri(line@),
{
    let opening = chars_of("URI=\"");
    let quote = chars_of("\"");
    match text_after(line, opening.as_slice()) {
        None => "".to_owned(),
        Some(rest) => {
            let part = text_before(rest, opening.as_slice());
            string_of(text_before(part, quote.as_slice()))
        },
    }
}

/// What a line of a playlist is.
pub fn classify(line: &[char]) -> (res: LineKind)
    ensures
        res@ == line_kind(line@),
        res is Nested <==> ".m3u8"@.is_suffix_of(line@),
        res is Key <==> "#EXT-X-KEY"@.is_prefix_of(line@) && !(".m3u8"@.is_suffix_of(line@)),
        res is Blank <==> is_blank(line@),
        res is Comment ==> line@.len() > 0 && line@[0] == '#',
        line@.len() > 0 && line@[0] != '#' && !is_blank(line@) && !(".m3u8"@.is_suffix_of(line@))
            ==> res is Segment,
        res is Segment ==> line@.len() > 0 && line@[0] != '#',
{
    let nested = chars_of(".m3u8");
    let key = chars_of("#EXT-X-KEY");
    let hash = chars_of("#");
    proof {
        law_lines_of_each_kind(line@);
        if is_blank(line@) {
            lemma_blank_lines_are_blank(line@);
        }
        lemma_markers();
    }
    if ends_with(line, nested.as_slice()) {
        LineKind::Nested
    } else if starts_with(line, key.as_slice()) {
        LineKind::Key(key_reference(line))
    } else if blank(line) {
        LineKind::Blank
    } else if starts_with(line, hash.as_slice()) {
        LineKind::Comment
    } else {
        LineKind::Segment
    }
}

/// What came of a playlist: the text of the local playlist, as far as it was
/// written, and the files to download.
#[derive(Debug)]
pub struct ResolvedM3u8 {
    pub playlist: String,
    pub files: Result<Vec<WaitDownloadFile>, DownloadError>,
}

impl Resolution {
    /// Nothing resolved yet.
    pub fn new() -> (res: Self)
        ensures
            res@ == ResolutionView::empty(),
    {
        let res = Resolution { playlist: String::new(), files: Vec::new() };
        assert(res@.files == Seq::<WaitDownloadFileView>::empty());
        res
    }

    /// Adds a line to the local playlist.
    pub fn add_line(&mut self, line: &[char])
        ensures
            final(self)@ == old(self)@.with_line(line@),
    {
        push_chars(&mut self.playlist, line);
        self.playlist.push('\n');
        assert(self.playlist@ == old(self).playlist@ + line@.push('\n'));
    }

    /// Adds a file to download.
    fn add_file(&mut self, file: WaitDownloadFile)
        ensures
            final(self)@ == old(self)@.with_file(file@),
    {
        self.files.push(file);
        assert(files_view(self.files@) == files_view(old(self).files@).push(file@));
    }

    /// Takes in a line whose reference stands for a file of the given name at
    /// the given URL.
    pub fn add_slice(
        &mut self,
        line: &[char],
        kind: &LineKind,
        save_path: &str,
        name: String,
        url: String,
    )
        ensures
            final(self)@ == old(self)@.with_slice(line@, kind@, save_path@, name@, url@),
    {
        let name_chars = chars_of(name.as_str());
        match kind {
            LineKind::Key(uri) => {
                let uri_chars = chars_of(uri.as_str());
                let rewritten = replace(line, uri_chars.as_slice(), name_chars.as_slice());
                self.add_file(
                    WaitDownloadFile {
                        slice_name: name,
                        save_path: save_path.to_owned(),
                        download_url: url,
                    },
                );
                let rewritten_chars = chars_of(rewritten.as_str());
                self.add_line(rewritten_chars.as_slice());
            },
            LineKind::Segment => {
                if !blank(name_chars.as_slice()) {
                    self.add_file(
                        WaitDownloadFile {
                            slice_name: name,
                            save_path: save_path.to_owned(),
                            download_url: url,
                        },
                    );
                    self.add_line(name_chars.as_slice());
                }
            },
            _ => {},
        }
    }

    /// Takes in a line that is not a nested playlist, `located` being what its
    /// reference stands for, where it has one. Gives the error where that fails.
    pub fn take_line(
        &mut self,
        line: &[char],
        kind: &LineKind,
        save_path: &str,
        located: Option<Result<(String, String), DownloadError>>,
    ) -> (res: Option<DownloadError>)
        ensures
            ({
                let slice = match located {
                    Some(r) => Some(slice_result(r)),
                    None => None,
                };
                match resolve_located(save_path@, line@, kind@, slice, old(self)@) {
                    Ok(next) => res is None && final(self)@ == next,
                    Err(e) => res is Some && res->0@ == e && final(self)@ == old(self)@,
                }
            }),
    {
        match located {
            Some(Ok((name, url))) => {
                self.add_slice(line, kind, save_path, name, url);
                None
            },
            Some(Err(e)) => Some(e),
            None => {
                if let LineKind::Comment = kind {
                    self.add_line(line);
                }
                None
            },
        }
    }

    /// What came of a playlist once its lines have been taken in, up to an error
    /// if there was one.
    pub fn finish(self, error: Option<DownloadError>) -> (res: ResolvedM3u8)
        ensures
            res.playlist@ == self@.playlist,
            files_result(res.files) == downloadable(
                self@.files,
                match error {
                    Some(e) => Some(e@),
                    None => None,
                },
            ),
    {
        let files = match error {
            Some(e) => Err(e),
            None => if self.files.len() == 0 {
                Err(DownloadError::NoDownloadable)
            } else {
                Ok(self.files)
            },
        };
        ResolvedM3u8 { playlist: self.playlist, files }
    }
}

/// Each file has the name of a part of a URL's path.
pub open spec fn names_are_path_parts(files: Seq<WaitDownloadFileView>) -> bool {
    forall|i: int| 0 <= i < files.len() ==> is_path_part((#[trigger] files[i]).slice_name)
}

/// Resolves the lines of a playlist, one after the other.
fn resolve_text(base_url: &str, contents: &str, save_path: &str) -> (res: (
    Resolution,
    Option<DownloadError>,
))
    ensures
        resolve_lines(base_url@, save_path@, lines_of(contents@), ResolutionView::empty()) == (
            res.0@,
            match res.1 {
                Some(e) => Some(e@),
                None => None,
            },
        ),
        names_are_path_parts(res.0@.files),
{
    let chars = chars_of(contents);
    let all = lines(chars.as_slice());
    let n: usize = all.len();
    let ghost model = slice_views(all@);
    let mut done = Resolution::new();
    let mut i: usize = 0;
    assert(model.subrange(0, n as int) == model);
    while i < n
        invariant
            n == all@.len(),
            i <= n,
            model == slice_views(all@),
            model == lines_of(contents@),
            resolve_lines(base_url@, save_path@, model, ResolutionView::empty()) == resolve_lines(
                base_url@,
                save_path@,
                model.subrange(i as int, n as int),
                done@,
            ),
            names_are_path_parts(done@.files),
        decreases n - i,
    {
        let line = all[i];
        let ghost rest = model.subrange(i as int, n as int);
        assert(rest[0] == line@);
        assert(rest.subrange(1, rest.len() as int) == model.subrange(i + 1, n as int));
        let kind = classify(line);
        let located = match &kind {
            LineKind::Nested => {
                return (done, None);
            },
            LineKind::Key(uri) => Some(parse_m3u8_key_segment(base_url, uri.as_str())),
            LineKind::Segment => {
                let reference = string_of(line);
                Some(parse_m3u8_key_segment(base_url, reference.as_str()))
            },
            LineKind::Comment | LineKind::Blank => None,
        };
        if let Some(e) = done.take_line(line, &kind, save_path, located) {
            return (done, Some(e));
        }
        i += 1;
    }
    (done, None)
}

/// Resolves a playlist: reads its lines up to a nested playlist, locates each
/// key and segment against `base_url`, and rewrites the lines to refer to local
/// files.
pub fn resolve_m3u8(base_url: &str, contents: &str, save_path: &str) -> (res: ResolvedM3u8)
    ensures
        ({
            let (done, error) = resolve_lines(
                base_url@,
                save_path@,
                lines_of(contents@),
                ResolutionView::empty(),
            );
            &&& res.playlist@ == done.playlist
            &&& files_result(res.files) == downloadable(done.files, error)
            &&& match error {
                Some(e) => res.files matches Err(why) && why@ == e,
                None => if done.files.len() == 0 {
                    res.files is Err && res.files->Err_0 is NoDownloadable
                } else {
                    res.files matches Ok(files) && files_view(files@) == done.files
                },
            }
        }),
        res.files matches Ok(files) ==> names_are_path_parts(files_view(files@)),
{
    let (done, error) = resolve_text(base_url, contents, save_path);
    done.finish(error)
}

/// What the attempts to fetch a playlist came to.
#[derive(Debug)]
pub enum Fetched {
    /// No attempt succeeded.
    Nothing,
    /// A server answered, but its reply breaks off; holds what is wrong.
    Broken(String),
    /// The text of the playlist.
    Text(String),
}

/// The text of a playlist, given what the attempts to fetch it came to.
pub fn playlist_text(fetched: Fetched) -> (res: Result<String, DownloadError>)
    ensures
        match fetched {
            Fetched::Nothing => res == Err::<String, DownloadError>(
                DownloadError::ConnectionTimeout,
            ),
            Fetched::Broken(e) => res == Err::<String, DownloadError>(DownloadError::Body(e)),
            Fetched::Text(text) => if is_blank(text@) {
                res == Err::<String, DownloadError>(DownloadError::EmptyContent)
            } else {
                res == Ok::<String, DownloadError>(text)
            },
        },
{
    match fetched {
        Fetched::Nothing => Err(DownloadError::ConnectionTimeout),
        Fetched::Broken(e) => Err(DownloadError::Body(e)),
        Fetched::Text(text) => {
            let chars = chars_of(text.as_str());
            if blank(chars.as_slice()) {
                Err(DownloadError::EmptyContent)
            } else {
                Ok(text)
            }
        },
    }
}

// ---------------------------------------------------------------------------
// Laws
// ---------------------------------------------------------------------------
/// A nested playlist ends the reading: neither its line nor what follows it has
/// any effect.
pub proof fn law_nested_playlist_ends_reading(
    base_url: Seq<char>,
    save_path: Seq<char>,
    first: Seq<Seq<char>>,
    nested: Seq<char>,
    rest: Seq<Seq<char>>,
    so_far: ResolutionView,
)
    requires
        line_kind(nested) is Nested,
    ensures
        resolve_lines(base_url, save_path, first + seq![nested] + rest, so_far) == resolve_lines(
            base_url,
            save_path,
            first,
            so_far,
        ),
    decreases first.len(),
{
    let all = first + seq![nested] + rest;
    if first.len() > 0 {
        let tail = first.subrange(1, first.len() as int);
        assert(all.subrange(1, all.len() as int) == tail + seq![nested] + rest);
        if let Ok(next) = resolve_line(base_url, save_path, first[0], so_far) {
            law_nested_playlist_ends_reading(base_url, save_path, tail, nested, rest, next);
        }
    }
}

/// A playlist can be resolved piece by piece: where no reference of the first
/// piece fails and no nested playlist stands in it, resolving goes on from what
/// the first piece gave.
pub proof fn law_resolution_is_stepwise(
    base_url: Seq<char>,
    save_path: Seq<char>,
    first: Seq<Seq<char>>,
    rest: Seq<Seq<char>>,
    so_far: ResolutionView,
)
    requires
        forall|i: int| 0 <= i < first.len() ==> !(line_kind(#[trigger] first[i]) is Nested),
        resolve_lines(base_url, save_path, first, so_far).1 is None,
    ensures
        resolve_lines(base_url, save_path, first + rest, so_far) == resolve_lines(
            base_url,
            save_path,
            rest,
            resolve_lines(base_url, save_path, first, so_far).0,
        ),
    decreases first.len(),
{
    let all = first + rest;
    if first.len() == 0 {
        assert(all == rest);
    } else {
        let tail = first.subrange(1, first.len() as int);
        assert(all.subrange(1, all.len() as int) == tail + rest);
        assert forall|i: int| 0 <= i < tail.len() implies !(line_kind(
            #[trigger] tail[i],
        ) is Nested) by {
            assert(tail[i] == first[i + 1]);
        }
        assert(!(line_kind(first[0]) is Nested));
        if let Ok(next) = resolve_line(base_url, save_path, first[0], so_far) {
            law_resolution_is_stepwise(base_url, save_path, tail, rest, next);
        }
    }
}

/// Whether a line that has to be located stands for a file.
pub open spec fn locates(base_url: Seq<char>, line: Seq<char>) -> bool {
    key_segment_model(base_url, line_reference(line, line_kind(line))) is Ok
}

/// In a playlist without a nested one, the first reference that stands for no
/// file decides: resolving stops there with its error. Where there is none,
/// resolving does not fail.
pub proof fn law_first_bad_reference_decides(
    base_url: Seq<char>,
    save_path: Seq<char>,
    lines: Seq<Seq<char>>,
    so_far: ResolutionView,
)
    requires
        forall|i: int| 0 <= i < lines.len() ==> !(line_kind(#[trigger] lines[i]) is Nested),
    ensures
        match resolve_lines(base_url, save_path, lines, so_far).1 {
            None => forall|i: int|
                0 <= i < lines.len() && refers(#[trigger] lines[i]) ==> locates(
                    base_url,
                    lines[i],
                ),
            Some(e) => exists|i: int|
                {
                    &&& 0 <= i < lines.len()
                    &&& refers(#[trigger] lines[i])
                    &&& key_segment_model(
                        base_url,
                        line_reference(lines[i], line_kind(lines[i])),
                    ) == Err::<(Seq<char>, Seq<char>), DownloadErrorView>(e)
                    &&& forall|j: int|
                        0 <= j < i && refers(#[trigger] lines[j]) ==> locates(base_url, lines[j])
                },
        },
    decreases lines.len(),
{
    if lines.len() > 0 {
        let line = lines[0];
        let tail = lines.subrange(1, lines.len() as int);
        assert(!(line_kind(line) is Nested));
        assert forall|i: int| 0 <= i < tail.len() implies !(line_kind(
            #[trigger] tail[i],
        ) is Nested) by {
            assert(tail[i] == lines[i + 1]);
        }
        if let Ok(next) = resolve_line(base_url, save_path, line, so_far) {
            law_first_bad_reference_decides(base_url, save_path, tail, next);
            match resolve_lines(base_url, save_path, tail, next).1 {
                None => {
                    assert forall|i: int|
                        0 <= i < lines.len() && refers(#[trigger] lines[i]) implies locates(
                        base_url,
                        lines[i],
                    ) by {
                        if i > 0 {
                            assert(tail[i - 1] == lines[i]);
                        }
                    }
                },
                Some(e) => {
                    let i = choose|i: int|
                        {
                            &&& 0 <= i < tail.len()
                            &&& refers(#[trigger] tail[i])
                            &&& key_segment_model(
                                base_url,
                                line_reference(tail[i], line_kind(tail[i])),
                            ) == Err::<(Seq<char>, Seq<char>), DownloadErrorView>(e)
                            &&& forall|j: int|
                                0 <= j < i && refers(#[trigger] tail[j]) ==> locates(
                                    base_url,
                                    tail[j],
                                )
                        };
                    assert(lines[i + 1] == tail[i]);
                    assert forall|j: int|
                        0 <= j < i + 1 && refers(#[trigger] lines[j]) implies locates(
                        base_url,
                        lines[j],
                    ) by {
                        if j > 0 {
                            assert(tail[j - 1] == lines[j]);
                        }
                    }
                },
            }
        }
    }
}

/// The text that the given lines make, each with its line ending.
pub open spec fn unlines(lines: Seq<Seq<char>>) -> Seq<char>
    decreases lines.len(),
{
    if lines.len() == 0 {
        Seq::empty()
    } else {
        unlines(lines.drop_last()) + lines.last().push('\n')
    }
}

/// The line of a key with its reference replaced by the name of a file.
pub open spec fn is_key_line_for(
    written: Seq<char>,
    lines: Seq<Seq<char>>,
    name: Seq<char>,
) -> bool {
    exists|i: int|
        0 <= i < lines.len() && line_kind(#[trigger] lines[i]) is Key && written == replaced(
            lines[i],
            key_uri(lines[i]),
            name,
        )
}

/// A line of the local playlist is a comment of the playlist, the name of a file
/// to download, or a key line that gives the name of a file to download.
pub open spec fn is_local_line(
    written: Seq<char>,
    lines: Seq<Seq<char>>,
    files: Seq<WaitDownloadFileView>,
) -> bool {
    ||| exists|i: int|
        0 <= i < lines.len() && line_kind(#[trigger] lines[i]) is Comment && written == lines[i]
    ||| exists|i: int|
        0 <= i < files.len() && (written == (#[trigger] files[i]).slice_name || is_key_line_for(
            written,
            lines,
            files[i].slice_name,
        ))
}

/// A line of the local playlist is the name of the file, or a key line that
/// gives its name.
pub open spec fn is_listed(
    name: Seq<char>,
    lines: Seq<Seq<char>>,
    written: Seq<Seq<char>>,
) -> bool {
    exists|i: int|
        0 <= i < written.len() && (#[trigger] written[i] == name || is_key_line_for(
            written[i],
            lines,
            name,
        ))
}

/// The local playlist, given as its lines, matches the files to download.
pub open spec fn is_local_playlist(
    done: ResolutionView,
    lines: Seq<Seq<char>>,
    save_path: Seq<char>,
    written: Seq<Seq<char>>,
) -> bool {
    &&& done.playlist == unlines(written)
    &&& forall|i: int|
        0 <= i < written.len() ==> is_local_line(#[trigger] written[i], lines, done.files)
    &&& forall|i: int|
        0 <= i < done.files.len() ==> is_listed(
            (#[trigger] done.files[i]).slice_name,
            lines,
            written,
        )
    &&& forall|i: int| 0 <= i < done.files.len() ==> (#[trigger] done.files[i]).save_path
        == save_path
}

proof fn lemma_unlines_push(written: Seq<Seq<char>>, line: Seq<char>)
    ensures
        unlines(written.push(line)) == unlines(written) + line.push('\n'),
{
    assert(written.push(line).drop_last() == written);
}

proof fn lemma_local_line(
    base_url: Seq<char>,
    save_path: Seq<char>,
    lines: Seq<Seq<char>>,
    at: int,
    so_far: ResolutionView,
    written: Seq<Seq<char>>,
) -> (more: Seq<Seq<char>>)
    requires
        0 <= at < lines.len(),
        !(line_kind(lines[at]) is Nested),
        is_local_playlist(so_far, lines, save_path, written),
        resolve_line(base_url, save_path, lines[at], so_far) is Ok,
    ensures
        is_local_playlist(
            resolve_line(base_url, save_path, lines[at], so_far)->Ok_0,
            lines,
            save_path,
            more,
        ),
{
    let line = lines[at];
    let kind = line_kind(line);
    let next = resolve_line(base_url, save_path, line, so_far)->Ok_0;
    if next == so_far {
        written
    } else {
        let text = match kind {
            LineKindView::Comment => line,
            LineKindView::Key(uri) => replaced(line, uri, next.files.last().slice_name),
            _ => next.files.last().slice_name,
        };
        let more = written.push(text);
        lemma_unlines_push(written, text);
        assert forall|i: int| 0 <= i < more.len() implies is_local_line(
            #[trigger] more[i],
            lines,
            next.files,
        ) by {
            if i < written.len() {
                assert(is_local_line(written[i], lines, so_far.files));
                if !(exists|k: int|
                    0 <= k < lines.len() && line_kind(#[trigger] lines[k]) is Comment && more[i]
                        == lines[k]) {
                    let k = choose|k: int|
                        0 <= k < so_far.files.len() && (written[i] == (
                        #[trigger] so_far.files[k]).slice_name || is_key_line_for(
                            written[i],
                            lines,
                            so_far.files[k].slice_name,
                        ));
                    assert(next.files[k] == so_far.files[k]);
                }
            } else if !(kind is Comment) {
                let k = next.files.len() - 1;
                assert(next.files[k] == next.files.last());
                assert(kind is Key ==> is_key_line_for(text, lines, next.files[k].slice_name));
            }
        }
        assert forall|i: int| 0 <= i < next.files.len() implies is_listed(
            (#[trigger] next.files[i]).slice_name,
            lines,
            more,
        ) by {
            let name = next.files[i].slice_name;
            if i < so_far.files.len() {
                assert(next.files[i] == so_far.files[i]);
                assert(is_listed(so_far.files[i].slice_name, lines, written));
                let k = choose|k: int|
                    0 <= k < written.len() && (#[trigger] written[k] == name || is_key_line_for(
                        written[k],
                        lines,
                        name,
                    ));
                assert(more[k] == written[k]);
            } else {
                assert(more[written.len() as int] == text);
                assert(kind is Key ==> is_key_line_for(text, lines, name));
            }
        }
        more
    }
}

proof fn lemma_local_playlist(
    base_url: Seq<char>,
    save_path: Seq<char>,
    lines: Seq<Seq<char>>,
    at: int,
    so_far: ResolutionView,
    written: Seq<Seq<char>>,
) -> (all: Seq<Seq<char>>)
    requires
        0 <= at <= lines.len(),
        is_local_playlist(so_far, lines, save_path, written),
    ensures
        is_local_playlist(
            resolve_lines(
                base_url,
                save_path,
                lines.subrange(at, lines.len() as int),
                so_far,
            ).0,
            lines,
            save_path,
            all,
        ),
    decreases lines.len() - at,
{
    let rest = lines.subrange(at, lines.len() as int);
    let step = resolve_line(base_url, save_path, rest[0], so_far);
    if rest.len() > 0 && !(line_kind(rest[0]) is Nested) && step is Ok {
        let more = lemma_local_line(base_url, save_path, lines, at, so_far, written);
        assert(rest.subrange(1, rest.len() as int) == lines.subrange(at + 1, lines.len() as int));
        lemma_local_playlist(base_url, save_path, lines, at + 1, step->Ok_0, more)
    } else {
        written
    }
}

/// The local playlist and the files to download belong together: each line of
/// it is a comment taken over, the name of a file to download, or a key line
/// that gives the name of one; each file to download is named by a line of it;
/// and each file is saved in the directory of the playlist.
pub proof fn law_local_playlist_matches_files(
    base_url: Seq<char>,
    save_path: Seq<char>,
    lines: Seq<Seq<char>>,
)
    ensures
        exists|written: Seq<Seq<char>>| #[trigger]
            is_local_playlist(
                resolve_lines(base_url, save_path, lines, ResolutionView::empty()).0,
                lines,
                save_path,
                written,
            ),
{
    let none = Seq::<Seq<char>>::empty();
    assert(is_local_playlist(ResolutionView::empty(), lines, save_path, none));
    let _ = lemma_local_playlist(base_url, save_path, lines, 0, ResolutionView::empty(), none);
    assert(lines.subrange(0, lines.len() as int) == lines);
}

/// The file that a line adds, if any: a key does, and a segment unless its name
/// is blank.
pub open spec fn line_files(
    base_url: Seq<char>,
    save_path: Seq<char>,
    line: Seq<char>,
) -> Seq<WaitDownloadFileView> {
    match key_segment_model(base_url, line_reference(line, line_kind(line))) {
        Ok((name, url)) => if line_kind(line) is Key || (line_kind(line) is Segment && !is_blank(
            name,
        )) {
            seq![WaitDownloadFileView { slice_name: name, save_path, download_url: url }]
        } else {
            Seq::empty()
        },
        Err(_) => Seq::empty(),
    }
}

/// The files that lines add, in order.
pub open spec fn lines_files(
    base_url: Seq<char>,
    save_path: Seq<char>,
    lines: Seq<Seq<char>>,
) -> Seq<WaitDownloadFileView>
    decreases lines.len(),
{
    if lines.len() == 0 {
        Seq::empty()
    } else {
        line_files(base_url, save_path, lines[0]) + lines_files(
            base_url,
            save_path,
            lines.subrange(1, lines.len() as int),
        )
    }
}

/// In a playlist without a nested one, where resolving does not fail, the files
/// to download are those that the keys and segments stand for, in the order of
/// their lines.
pub proof fn law_files_follow_the_playlist(
    base_url: Seq<char>,
    save_path: Seq<char>,
    lines: Seq<Seq<char>>,
    so_far: ResolutionView,
)
    requires
        forall|i: int| 0 <= i < lines.len() ==> !(line_kind(#[trigger] lines[i]) is Nested),
        resolve_lines(base_url, save_path, lines, so_far).1 is None,
    ensures
        resolve_lines(base_url, save_path, lines, so_far).0.files == so_far.files + lines_files(
            base_url,
            save_path,
            lines,
        ),
    decreases lines.len(),
{
    if lines.len() == 0 {
        assert(so_far.files + lines_files(base_url, save_path, lines) == so_far.files);
    } else {
        let tail = lines.subrange(1, lines.len() as int);
        assert forall|i: int| 0 <= i < tail.len() implies !(line_kind(
            #[trigger] tail[i],
        ) is Nested) by {
            assert(tail[i] == lines[i + 1]);
        }
        assert(!(line_kind(lines[0]) is Nested));
        if let Ok(next) = resolve_line(base_url, save_path, lines[0], so_far) {
            law_files_follow_the_playlist(base_url, save_path, tail, next);
            let added = line_files(base_url, save_path, lines[0]);
            assert(next.files == so_far.files + added);
            assert(so_far.files + added + lines_files(base_url, save_path, tail) == so_far.files + (
            added + lines_files(base_url, save_path, tail)));
        }
    }
}

/// The line of the local playlist that a line brings, if any: a comment stays, a
/// key has its reference replaced by the name of its file, and a segment gives way
/// to the name of its file unless that is blank.
pub open spec fn line_written(base_url: Seq<char>, line: Seq<char>) -> Seq<Seq<char>> {
    match (line_kind(line), key_segment_model(base_url, line_reference(line, line_kind(line)))) {
        (LineKindView::Comment, _) => seq![line],
        (LineKindView::Key(uri), Ok((name, _))) => seq![replaced(line, uri, name)],
        (LineKindView::Segment, Ok((name, _))) => if is_blank(name) {
            Seq::empty()
        } else {
            seq![name]
        },
        _ => Seq::empty(),
    }
}

/// The lines of the local playlist that lines bring, in order.
pub open spec fn lines_written(base_url: Seq<char>, lines: Seq<Seq<char>>) -> Seq<Seq<char>>
    decreases lines.len(),
{
    if lines.len() == 0 {
        Seq::empty()
    } else {
        line_written(base_url, lines[0]) + lines_written(
            base_url,
            lines.subrange(1, lines.len() as int),
        )
    }
}

proof fn lemma_unlines_concat(a: Seq<Seq<char>>, b: Seq<Seq<char>>)
    ensures
        unlines(a + b) == unlines(a) + unlines(b),
    decreases b.len(),
{
    if b.len() == 0 {
        assert(a + b == a);
        assert(unlines(a) + unlines(b) == unlines(a));
    } else {
        assert((a + b).drop_last() == a + b.drop_last());
        lemma_unlines_concat(a, b.drop_last());
        assert(unlines(a) + unlines(b) == unlines(a) + unlines(b.drop_last()) + b.last().push(
            '\n',
        ));
    }
}

/// In a playlist without a nested one, where resolving does not fail, the local
/// playlist is what the lines bring, in their order, each on a line of its own.
pub proof fn law_local_playlist_follows_the_playlist(
    base_url: Seq<char>,
    save_path: Seq<char>,
    lines: Seq<Seq<char>>,
    so_far: ResolutionView,
)
    requires
        forall|i: int| 0 <= i < lines.len() ==> !(line_kind(#[trigger] lines[i]) is Nested),
        resolve_lines(base_url, save_path, lines, so_far).1 is None,
    ensures
        resolve_lines(base_url, save_path, lines, so_far).0.playlist == so_far.playlist + unlines(
            lines_written(base_url, lines),
        ),
    decreases lines.len(),
{
    if lines.len() == 0 {
        assert(so_far.playlist + unlines(lines_written(base_url, lines)) == so_far.playlist);
    } else {
        let tail = lines.subrange(1, lines.len() as int);
        assert forall|i: int| 0 <= i < tail.len() implies !(line_kind(
            #[trigger] tail[i],
        ) is Nested) by {
            assert(tail[i] == lines[i + 1]);
        }
        assert(!(line_kind(lines[0]) is Nested));
        if let Ok(next) = resolve_line(base_url, save_path, lines[0], so_far) {
            law_local_playlist_follows_the_playlist(base_url, save_path, tail, next);
            let added = line_written(base_url, lines[0]);
            let rest = lines_written(base_url, tail);
            assert(next.playlist == so_far.playlist + unlines(added)) by {
                reveal_with_fuel(unlines, 2);
                if added.len() > 0 {
                    assert(added == Seq::<Seq<char>>::empty().push(added[0]));
                    lemma_unlines_push(Seq::empty(), added[0]);
                }
            }
            lemma_unlines_concat(added, rest);
            assert(so_far.playlist + unlines(added) + unlines(rest) == so_far.playlist + (unlines(
                added,
            ) + unlines(rest)));
        }
    }
}

proof fn lemma_markers()
    ensures
        ".m3u8"@ == seq!['.', 'm', '3', 'u', '8'],
        "#EXT-X-KEY"@ == seq!['#', 'E', 'X', 'T', '-', 'X', '-', 'K', 'E', 'Y'],
        "URI=\""@ == seq!['U', 'R', 'I', '=', '"'],
        "\""@ == seq!['"'],
        "#"@ == seq!['#'],
        ""@ == Seq::<char>::empty(),
{
    reveal_strlit(".m3u8");
    reveal_strlit("#EXT-X-KEY");
    reveal_strlit("URI=\"");
    reveal_strlit("\"");
    reveal_strlit("#");
    reveal_strlit("");
    assert(".m3u8"@ == seq!['.', 'm', '3', 'u', '8']);
    assert("#EXT-X-KEY"@ == seq!['#', 'E', 'X', 'T', '-', 'X', '-', 'K', 'E', 'Y']);
    assert("URI=\""@ == seq!['U', 'R', 'I', '=', '"']);
    assert("\""@ == seq!['"']);
    assert("#"@ == seq!['#']);
    assert(""@ == Seq::<char>::empty());
}

proof fn lemma_blank_lines_are_blank(line: Seq<char>)
    requires
        is_blank(line),
    ensures
        line_kind(line) is Blank,
        !".m3u8"@.is_suffix_of(line),
        !"#EXT-X-KEY"@.is_prefix_of(line),
{
    lemma_markers();
    if ".m3u8"@.is_suffix_of(line) {
        assert(line[line.len() - 1] == '8') by {
            assert(".m3u8"@[4] == '8');
        }
    }
    if "#EXT-X-KEY"@.is_prefix_of(line) {
        assert(line[0] == '#') by {
            assert("#EXT-X-KEY"@[0] == '#');
        }
    }
}

/// What a line is can be told from how it starts and ends. One that ends with
/// `.m3u8` is a nested playlist. Of the others, one that starts with `#EXT-X-KEY`
/// is a key, one that starts otherwise with `#` is a comment, one of white space
/// is blank, and any other is a segment, whatever its first character.
pub proof fn law_lines_of_each_kind(line: Seq<char>)
    ensures
        ({
            let nested = line.len() >= 5 && line.subrange(line.len() - 5, line.len() as int)
                == seq!['.', 'm', '3', 'u', '8'];
            let key = line.len() >= 10 && line.subrange(0, 10) == seq![
                '#', 'E', 'X', 'T', '-', 'X', '-', 'K', 'E', 'Y',
            ];
            let marked = line.len() > 0 && line[0] == '#';
            let blank = forall|i: int| 0 <= i < line.len() ==> is_white_space(#[trigger] line[i]);
            &&& line_kind(line) is Nested <==> nested
            &&& line_kind(line) is Key <==> !nested && key
            &&& line_kind(line) is Comment <==> !nested && !key && marked
            &&& line_kind(line) is Blank <==> blank
            &&& line_kind(line) is Segment <==> !nested && !marked && !blank
        }),
{
    lemma_markers();
    if is_blank(line) {
        lemma_blank_lines_are_blank(line);
    }
    if line.len() >= 5 && line.subrange(line.len() - 5, line.len() as int) == seq![
        '.', 'm', '3', 'u', '8',
    ] {
        assert(line.subrange(line.len() - 5, line.len() as int)[4] == line[line.len() - 1]);
    }
    assert("#"@.is_prefix_of(line) <==> line.len() > 0 && line[0] == '#') by {
        if line.len() > 0 && line[0] == '#' {
            assert(line.subrange(0, 1) == seq!['#']);
        }
        if "#"@.is_prefix_of(line) {
            assert("#"@[0] == line[0]);
        }
    }
    assert(is_blank(line) ==> line.len() == 0 || line[0] != '#');
    assert(".m3u8"@.is_suffix_of(line) <==> line.len() >= 5 && line.subrange(
        line.len() - 5,
        line.len() as int,
    ) == seq!['.', 'm', '3', 'u', '8']);
    assert("#EXT-X-KEY"@.is_prefix_of(line) <==> line.len() >= 10 && line.subrange(0, 10) == seq![
        '#', 'E', 'X', 'T', '-', 'X', '-', 'K', 'E', 'Y',
    ]);
    if line.len() >= 10 && line.subrange(0, 10) == seq![
        '#', 'E', 'X', 'T', '-', 'X', '-', 'K', 'E', 'Y',
    ] {
        assert(line.subrange(0, 10)[0] == line[0]);
    }
}

/// A key line holds the reference that is read from it.
pub proof fn law_key_lines_hold_their_reference(line: Seq<char>)
    requires
        line_kind(line) is Key,
    ensures
        line_kind(line) == LineKindView::Key(key_uri(line)),
        line_reference(line, line_kind(line)) == key_uri(line),
{
}

proof fn lemma_after_marker(a: Seq<char>, rest: Seq<char>)
    requires
        forall|j: int|
            0 <= j && j + 5 <= a.len() ==> #[trigger] a.subrange(j, j + 5) != seq![
                'U', 'R', 'I', '=', '"',
            ],
    ensures
        after(a + "URI=\""@ + rest, "URI=\""@) == Some(rest),
{
    lemma_markers();
    let mark = "URI=\""@;
    let line = a + mark + rest;
    assert(mark.len() == 5);
    assert(line.subrange(a.len() as int, (a.len() + 5) as int) == mark);
    assert forall|j: int| 0 <= j < a.len() implies #[trigger] line.subrange(j, j + mark.len())
        != mark by {
        let part = line.subrange(j, j + 5);
        if j + 5 <= a.len() {
            assert(part == a.subrange(j, j + 5));
        } else {
            let k = a.len() - j;
            assert(part[k] == line[a.len() as int]);
            assert(line[a.len() as int] == mark[0]);
            assert(mark[k] != 'U');
        }
    }
    lemma_find_is(line, mark, a.len() as int);
    assert(line.subrange((a.len() + 5) as int, line.len() as int) == rest);
}

/// The reference of a key is what its first `URI="` is followed by, up to the
/// closing quote, to another `URI="`, or to the end of the line.
pub proof fn law_key_reference_stands_in_quotes(a: Seq<char>, uri: Seq<char>, b: Seq<char>)
    requires
        forall|j: int|
            0 <= j && j + 5 <= a.len() ==> #[trigger] a.subrange(j, j + 5) != seq![
                'U', 'R', 'I', '=', '"',
            ],
        forall|i: int| 0 <= i < uri.len() ==> #[trigger] uri[i] != '"',
    ensures
        ({
            let mark = seq!['U', 'R', 'I', '=', '"'];
            &&& key_uri(a + mark + uri) == uri
            &&& key_uri(a + mark + (uri + mark + b)) == uri
            &&& uri.len() < 4 || uri.subrange(uri.len() - 4, uri.len() as int) != seq![
                'U', 'R', 'I', '=',
            ] ==> key_uri(a + mark + (uri + seq!['"'] + b)) == uri
        }),
{
    lemma_markers();
    let mark = "URI=\""@;
    let quote = "\""@;
    assert(mark.len() == 5 && quote.len() == 1);
    let n = uri.len() as int;

    lemma_after_marker(a, uri);
    law_first_occurrence(uri, mark);
    if let Some(i) = find(uri, mark) {
        assert(uri.subrange(i, i + 5)[4] == uri[i + 4]);
    }
    law_first_occurrence(uri, quote);
    if let Some(i) = find(uri, quote) {
        assert(uri.subrange(i, i + 1)[0] == uri[i]);
    }
    assert(before(uri, quote) == uri);

    let again = uri + mark + b;
    lemma_after_marker(a, again);
    assert(again.subrange(n, n + 5) == mark);
    assert forall|j: int| 0 <= j < n implies #[trigger] again.subrange(j, j + mark.len())
        != mark by {
        let part = again.subrange(j, j + 5);
        assert(part[4] == again[j + 4]);
        if j + 4 < n {
            assert(again[j + 4] == uri[j + 4]);
        } else {
            assert(again[j + 4] == mark[j + 4 - n]);
            assert(mark[j + 4 - n] != '"');
        }
    }
    lemma_find_is(again, mark, n);
    assert(again.subrange(0, n) == uri);

    let closed = uri + quote + b;
    if uri.len() < 4 || uri.subrange(n - 4, n) != seq!['U', 'R', 'I', '='] {
        lemma_after_marker(a, closed);
        law_first_occurrence(closed, mark);
        let part = before(closed, mark);
        match find(closed, mark) {
            None => {
                assert(part == closed);
            },
            Some(i) => {
                let found = closed.subrange(i, i + 5);
                assert(forall|k: int| 0 <= k < 5 ==> #[trigger] found[k] == closed[i + k]);
                if i + 4 < n {
                    assert(found[4] == uri[i + 4]);
                } else if i + 4 == n {
                    assert(uri.subrange(n - 4, n) == seq!['U', 'R', 'I', '=']) by {
                        assert(found[0] == uri[n - 4] && found[1] == uri[n - 3] && found[2]
                            == uri[n - 2] && found[3] == uri[n - 1]);
                    }
                } else if i <= n {
                    assert(found[n - i] == closed[n]);
                    assert(mark[n - i] != '"');
                }
                assert(n < i);
                assert(part == closed.subrange(0, i));
            },
        }
        assert(part.subrange(n, n + 1) == quote);
        assert forall|j: int| 0 <= j < n implies #[trigger] part.subrange(j, j + quote.len())
            != quote by {
            assert(part.subrange(j, j + 1)[0] == uri[j]);
        }
        lemma_find_is(part, quote, n);
        assert(part.subrange(0, n) == uri);
    }
}

/// A key line without `URI="` refers to nothing.
pub proof fn law_key_without_reference(line: Seq<char>)
    requires
        forall|j: int|
            0 <= j && j + 5 <= line.len() ==> #[trigger] line.subrange(j, j + 5) != seq![
                'U', 'R', 'I', '=', '"',
            ],
    ensures
        key_uri(line) == Seq::<char>::empty(),
{
    lemma_markers();
    let mark = "URI=\""@;
    assert(mark.len() == 5);
    law_first_occurrence(line, mark);
    if let Some(i) = find(line, mark) {
        assert(line.subrange(i, i + 5) == mark);
    }
}

/// A playlist without lines gives nothing, and fails in nothing.
pub proof fn law_no_lines_change_nothing(
    base_url: Seq<char>,
    save_path: Seq<char>,
    so_far: ResolutionView,
)
    ensures
        resolve_lines(base_url, save_path, Seq::empty(), so_far) == (
            so_far,
            None::<DownloadErrorView>,
        ),
{
}

/// A line that ends with `.m3u8` ends the reading; a blank one is passed over.
pub proof fn law_nested_and_blank_lines_add_nothing(
    base_url: Seq<char>,
    save_path: Seq<char>,
    line: Seq<char>,
    rest: Seq<Seq<char>>,
    so_far: ResolutionView,
)
    ensures
        ".m3u8"@.is_suffix_of(line) ==> resolve_lines(
            base_url,
            save_path,
            seq![line] + rest,
            so_far,
        ) == (so_far, None::<DownloadErrorView>),
        is_blank(line) ==> resolve_lines(base_url, save_path, seq![line] + rest, so_far)
            == resolve_lines(base_url, save_path, rest, so_far),
{
    let all = seq![line] + rest;
    assert(all.subrange(1, all.len() as int) == rest);
    law_lines_of_each_kind(line);
    if is_blank(line) {
        lemma_blank_lines_are_blank(line);
    }
}

/// A comment is taken over into the local playlist as it stands, and nothing is
/// downloaded for it.
pub proof fn law_comments_are_taken_over(
    base_url: Seq<char>,
    save_path: Seq<char>,
    line: Seq<char>,
    rest: Seq<Seq<char>>,
    so_far: ResolutionView,
)
    requires
        line.len() > 0,
        line[0] == '#',
        !"#EXT-X-KEY"@.is_prefix_of(line),
        !".m3u8"@.is_suffix_of(line),
    ensures
        resolve_lines(base_url, save_path, seq![line] + rest, so_far) == resolve_lines(
            base_url,
            save_path,
            rest,
            ResolutionView {
                playlist: so_far.playlist + line + seq!['\n'],
                files: so_far.files,
            },
        ),
{
    let all = seq![line] + rest;
    assert(all.subrange(1, all.len() as int) == rest);
    law_lines_of_each_kind(line);
    lemma_markers();
    if line.len() >= 10 && line.subrange(0, 10) == seq![
        '#', 'E', 'X', 'T', '-', 'X', '-', 'K', 'E', 'Y',
    ] {
        assert("#EXT-X-KEY"@.is_prefix_of(line));
    }
    assert(so_far.playlist + line.push('\n') == so_far.playlist + line + seq!['\n']);
}

/// A line that is neither blank nor starts with `#` nor ends with `.m3u8` is a
/// segment: what it refers to is downloaded, under the name that takes the line's
/// place in the local playlist. Where it refers to nothing, resolving fails there;
/// where the name is blank, the line is passed over.
pub proof fn law_segments_are_downloaded(
    base_url: Seq<char>,
    save_path: Seq<char>,
    line: Seq<char>,
    rest: Seq<Seq<char>>,
    so_far: ResolutionView,
)
    requires
        line.len() > 0,
        line[0] != '#',
        !is_blank(line),
        !".m3u8"@.is_suffix_of(line),
    ensures
        resolve_lines(base_url, save_path, seq![line] + rest, so_far) == match key_segment_model(
            base_url,
            line,
        ) {
            Err(e) => (so_far, Some(e)),
            Ok((name, url)) => resolve_lines(
                base_url,
                save_path,
                rest,
                if is_blank(name) {
                    so_far
                } else {
                    ResolutionView {
                        playlist: so_far.playlist + name + seq!['\n'],
                        files: so_far.files.push(
                            WaitDownloadFileView { slice_name: name, save_path, download_url: url },
                        ),
                    }
                },
            ),
        },
{
    let all = seq![line] + rest;
    assert(all.subrange(1, all.len() as int) == rest);
    law_lines_of_each_kind(line);
    lemma_markers();
    if let Ok((name, _)) = key_segment_model(base_url, line) {
        assert(so_far.playlist + name.push('\n') == so_far.playlist + name + seq!['\n']);
    }
}

/// A line that starts with `#EXT-X-KEY` and does not end with `.m3u8` is a key:
/// what its reference stands for is downloaded, and the name takes the reference's
/// place in the line wherever that occurs. Where it stands for nothing, resolving
/// fails there.
pub proof fn law_keys_are_downloaded(
    base_url: Seq<char>,
    save_path: Seq<char>,
    line: Seq<char>,
    rest: Seq<Seq<char>>,
    so_far: ResolutionView,
)
    requires
        "#EXT-X-KEY"@.is_prefix_of(line),
        !".m3u8"@.is_suffix_of(line),
    ensures
        resolve_lines(base_url, save_path, seq![line] + rest, so_far) == match key_segment_model(
            base_url,
            key_uri(line),
        ) {
            Err(e) => (so_far, Some(e)),
            Ok((name, url)) => resolve_lines(
                base_url,
                save_path,
                rest,
                ResolutionView {
                    playlist: so_far.playlist + replaced(line, key_uri(line), name) + seq!['\n'],
                    files: so_far.files.push(
                        WaitDownloadFileView { slice_name: name, save_path, download_url: url },
                    ),
                },
            ),
        },
{
    let all = seq![line] + rest;
    assert(all.subrange(1, all.len() as int) == rest);
    law_lines_of_each_kind(line);
    lemma_markers();
    assert(line.subrange(0, 10) == "#EXT-X-KEY"@);
    if let Ok((name, _)) = key_segment_model(base_url, key_uri(line)) {
        let written = replaced(line, key_uri(line), name);
        assert(so_far.playlist + written.push('\n') == so_far.playlist + written + seq!['\n']);
    }
}

/// What comes of a line can be told from it and from what its reference stands
/// for, however that was found out.
pub proof fn law_located_lines_are_resolved(
    save_path: Seq<char>,
    line: Seq<char>,
    uri: Seq<char>,
    located: Result<(Seq<char>, Seq<char>), DownloadErrorView>,
    so_far: ResolutionView,
)
    ensures
        match located {
            Err(e) => forall|kind: LineKindView| #[trigger]
                resolve_located(save_path, line, kind, Some(located), so_far) == Err::<
                    ResolutionView,
                    DownloadErrorView,
                >(e),
            Ok((name, url)) => {
                let file = WaitDownloadFileView { slice_name: name, save_path, download_url: url };
                let key = resolve_located(
                    save_path,
                    line,
                    LineKindView::Key(uri),
                    Some(located),
                    so_far,
                );
                let segment = resolve_located(
                    save_path,
                    line,
                    LineKindView::Segment,
                    Some(located),
                    so_far,
                );
                &&& key matches Ok(next) && next.files == so_far.files.push(file) && next.playlist
                    == so_far.playlist + replaced(line, uri, name) + seq!['\n']
                &&& segment matches Ok(next) && if is_blank(name) {
                    next == so_far
                } else {
                    next.files == so_far.files.push(file) && next.playlist == so_far.playlist + name
                        + seq!['\n']
                }
            },
        },
        resolve_located(save_path, line, LineKindView::Comment, None, so_far) matches Ok(next)
            && next.files == so_far.files && next.playlist == so_far.playlist + line + seq!['\n'],
        resolve_located(save_path, line, LineKindView::Blank, None, so_far) == Ok::<
            ResolutionView,
            DownloadErrorView,
        >(so_far),
{
    assert(so_far.playlist + line.push('\n') == so_far.playlist + line + seq!['\n']);
    if let Ok((name, _)) = located {
        let written = replaced(line, uri, name);
        assert(so_far.playlist + written.push('\n') == so_far.playlist + written + seq!['\n']);
        assert(so_far.playlist + name.push('\n') == so_far.playlist + name + seq!['\n']);
    }
}

/// There is something to download exactly where resolving has not failed and a
/// file was found; otherwise the first failure, or the want of files, is the error.
pub proof fn law_files_are_given_or_an_error(
    files: Seq<WaitDownloadFileView>,
    e: DownloadErrorView,
)
    ensures
        downloadable(files, Some(e)) == Err::<Seq<WaitDownloadFileView>, DownloadErrorView>(e),
        downloadable(files, None) is Ok <==> files.len() > 0,
        files.len() > 0 ==> downloadable(files, None) == Ok::<
            Seq<WaitDownloadFileView>,
            DownloadErrorView,
        >(files),
        downloadable(Seq::empty(), None) == Err::<Seq<WaitDownloadFileView>, DownloadErrorView>(
            DownloadErrorView::NoDownloadable,
        ),
{
}

/// A local playlist grows by a line and its line feed, and the list of files by
/// one file at its end; neither changes the other.
pub proof fn law_resolution_grows_at_the_end(
    so_far: ResolutionView,
    line: Seq<char>,
    file: WaitDownloadFileView,
)
    ensures
        ResolutionView::empty().playlist.len() == 0,
        ResolutionView::empty().files.len() == 0,
        so_far.with_line(line).playlist == so_far.playlist + line + seq!['\n'],
        so_far.with_line(line).files == so_far.files,
        so_far.with_file(file).playlist == so_far.playlist,
        so_far.with_file(file).files == so_far.files + seq![file],
{
    assert(so_far.playlist + line.push('\n') == so_far.playlist + line + seq!['\n']);
    assert(so_far.files.push(file) == so_far.files + seq![file]);
}

/// What becomes of a located line: a key is always downloaded, a segment unless
/// its name is blank, and nothing else ever is.
pub proof fn law_only_keys_and_segments_add_files(
    so_far: ResolutionView,
    line: Seq<char>,
    kind: LineKindView,
    save_path: Seq<char>,
    name: Seq<char>,
    url: Seq<char>,
)
    ensures
        ({
            let next = so_far.with_slice(line, kind, save_path, name, url);
            let file = WaitDownloadFileView { slice_name: name, save_path, download_url: url };
            match kind {
                LineKindView::Key(uri) => {
                    &&& next.files == so_far.files + seq![file]
                    &&& next.playlist == so_far.playlist + replaced(line, uri, name) + seq!['\n']
                },
                LineKindView::Segment => is_blank(name) && next == so_far || !is_blank(name)
                    && next.files == so_far.files + seq![file] && next.playlist == so_far.playlist
                    + name + seq!['\n'],
                _ => next == so_far,
            }
        }),
{
    assert(so_far.files.push(file_of(name, save_path, url)) == so_far.files + seq![
        file_of(name, save_path, url),
    ]);
    assert(so_far.playlist + name.push('\n') == so_far.playlist + name + seq!['\n']);
    if let LineKindView::Key(uri) = kind {
        let written = replaced(line, uri, name);
        assert(so_far.playlist + written.push('\n') == so_far.playlist + written + seq!['\n']);
    }
}

spec fn file_of(name: Seq<char>, save_path: Seq<char>, url: Seq<char>) -> WaitDownloadFileView {
    WaitDownloadFileView { slice_name: name, save_path, download_url: url }
}

/// Files and their models agree: each file has its name, its directory and its
/// link, in its place; a resolution has its text and its files.
pub proof fn law_files_keep_what_they_hold(
    files: Seq<WaitDownloadFile>,
    i: int,
    resolution: Resolution,
)
    ensures
        files_view(files).len() == files.len(),
        0 <= i < files.len() ==> files_view(files)[i] == files[i]@ && files[i]@.slice_name
            == files[i].slice_name@ && files[i]@.save_path == files[i].save_path@
            && files[i]@.download_url == files[i].download_url@,
        resolution@.playlist == resolution.playlist@,
        resolution@.files == files_view(resolution.files@),
{
}

/// What is given in place of the files is the error itself.
pub proof fn law_results_keep_files_or_error(files: Vec<WaitDownloadFile>, e: DownloadError)
    ensures
        files_result(Ok(files)) == Ok::<Seq<WaitDownloadFileView>, DownloadErrorView>(
            files_view(files@),
        ),
        files_result(Err(e)) == Err::<Seq<WaitDownloadFileView>, DownloadErrorView>(e@),
{
}

/// The kind of a line and its model agree.
pub proof fn law_kinds_keep_what_they_hold(uri: String)
    ensures
        LineKind::Nested@ == LineKindView::Nested,
        LineKind::Key(uri)@ == LineKindView::Key(uri@),
        LineKind::Segment@ == LineKindView::Segment,
        LineKind::Comment@ == LineKindView::Comment,
        LineKind::Blank@ == LineKindView::Blank,
{
}

/// The lines that have to be located are those that something is downloaded for:
/// keys, and lines that are neither blank nor start with `#`; a nested playlist is
/// not among them.
pub proof fn law_keys_and_segments_refer(base_url: Seq<char>, line: Seq<char>)
    ensures
        refers(line) <==> !".m3u8"@.is_suffix_of(line) && !is_blank(line) && (
        "#EXT-X-KEY"@.is_prefix_of(line) || line[0] != '#'),
        "#EXT-X-KEY"@.is_prefix_of(line) && refers(line) ==> (locates(base_url, line)
            <==> key_segment_model(base_url, key_uri(line)) is Ok),
        !"#EXT-X-KEY"@.is_prefix_of(line) && refers(line) ==> (locates(base_url, line)
            <==> key_segment_model(base_url, line) is Ok),
{
    law_lines_of_each_kind(line);
    lemma_markers();
    if is_blank(line) {
        lemma_blank_lines_are_blank(line);
    }
    if "#EXT-X-KEY"@.is_prefix_of(line) {
        assert(line.subrange(0, 10) == "#EXT-X-KEY"@);
        assert(line[0] == "#EXT-X-KEY"@[0]);
    }
}

/// The local playlist is saved under a name that players take for a playlist.
pub proof fn law_local_playlist_has_its_name()
    ensures
        M3U8_FILENAME@ == seq!['i', 'n', 'd', 'e', 'x', '.', 'm', '3', 'u', '8'],
{
    reveal_strlit("index.m3u8");
    assert("index.m3u8"@ == seq!['i', 'n', 'd', 'e', 'x', '.', 'm', '3', 'u', '8']);
}

/// A file whose name is a part of a path has no slash, question mark or number
/// sign in it.
pub proof fn law_names_hold_no_delimiters(files: Seq<WaitDownloadFileView>, i: int, k: int)
    requires
        names_are_path_parts(files),
        0 <= i < files.len(),
        0 <= k < files[i].slice_name.len(),
    ensures
        files[i].slice_name[k] != '/',
        files[i].slice_name[k] != '?',
        files[i].slice_name[k] != '#',
{
    law_path_parts_hold_no_delimiters(files[i].slice_name);
}

} // verus!
