//! Where a video is saved: a directory of the work directory, named after the
//! video.

use vstd::prelude::*;
use vstd::utf8::{encode_scalar, encode_utf8};

use crate::text::{chars_of, string_of};

verus! {

/// The characters that no file name may hold, as a regular expression.
pub const ILLEGAL_CHARS: &'static str = "[<>:\"/\\\\|?*]";

/// What stands in the place of a character that no file name may hold.
pub const SUBSTITUTE: &'static str = "_";

/// The greatest length of a directory name, in bytes: fifty characters of three
/// bytes each.
pub const MAX_NAME_BYTES: usize = 150;

// ---------------------------------------------------------------------------
// Models
// ---------------------------------------------------------------------------
/// Model of a text that may be missing.
pub open spec fn optional_text(o: Option<String>) -> Option<Seq<char>> {
    match o {
        Some(s) => Some(s@),
        None => None,
    }
}

/// The characters that no file name may hold.
pub open spec fn is_illegal(c: char) -> bool {
    ||| c == '<'
    ||| c == '>'
    ||| c == ':'
    ||| c == '"'
    ||| c == '/'
    ||| c == '\\'
    ||| c == '|'
    ||| c == '?'
    ||| c == '*'
}

/// The text with an underscore in the place of each illegal character.
pub open spec fn legalized(s: Seq<char>) -> Seq<char> {
    s.map_values(
        |c: char|
            if is_illegal(c) {
                '_'
            } else {
                c
            },
    )
}

/// How many bytes a character takes in UTF-8.
pub open spec fn utf8_width(c: char) -> nat {
    if c as u32 <= 0x7f {
        1
    } else if c as u32 <= 0x7ff {
        2
    } else if c as u32 <= 0xffff {
        3
    } else {
        4
    }
}

/// How many bytes a text takes in UTF-8.
pub open spec fn byte_len(s: Seq<char>) -> nat
    decreases s.len(),
{
    if s.len() == 0 {
        0
    } else {
        byte_len(s.drop_last()) + utf8_width(s.last())
    }
}

/// The first `k` characters of the text take `n` bytes.
pub open spec fn is_cut(s: Seq<char>, k: int, n: nat) -> bool {
    0 <= k <= s.len() && byte_len(s.subrange(0, k)) == n
}

/// The text, cut to `n` bytes where it is longer. There is none where the cut
/// would split a character.
pub open spec fn limited(s: Seq<char>, n: nat) -> Option<Seq<char>> {
    if byte_len(s) <= n {
        Some(s)
    } else if exists|k: int| is_cut(s, k, n) {
        Some(s.subrange(0, choose|k: int| is_cut(s, k, n)))
    } else {
        None
    }
}

/// The text, with underscores in the place of its dots where it would stand for a
/// directory itself or for its parent.
pub open spec fn undotted(s: Seq<char>) -> Seq<char> {
    if s == "."@ {
        "_"@
    } else if s == ".."@ {
        "__"@
    } else {
        s
    }
}

/// The directory name for a video, given the last component of its name taken
/// as a path: that component, or the whole name where there is none, without
/// illegal characters, never `.` or `..`, and cut to the greatest length.
pub open spec fn clean_name_model(component: Option<Seq<char>>, video_name: Seq<char>) -> Option<
    Seq<char>,
> {
    let name = match component {
        Some(c) => c,
        None => video_name,
    };
    limited(undotted(legalized(name)), MAX_NAME_BYTES as nat)
}

/// A text that is one component of a path, unless it starts with a drive.
pub open spec fn is_file_name(s: Seq<char>) -> bool {
    &&& s.len() > 0
    &&& !s.contains('/')
    &&& !s.contains('\\')
    &&& s != "."@
    &&& s != ".."@
}

/// A text that is a file name, and no path, on every platform.
pub open spec fn is_plain_name(s: Seq<char>) -> bool {
    is_file_name(s) && !s.contains(':')
}

/// What separates the components of a path.
pub enum Separators {
    /// A slash, as on most platforms.
    Slash,
    /// A slash or a backslash, as on Windows.
    Both,
    /// A backslash, as on Windows in a path that is taken literally.
    Backslash,
}

/// Whether a character separates components.
pub open spec fn is_separator(c: char, separators: Separators) -> bool {
    match separators {
        Separators::Slash => c == '/',
        Separators::Both => c == '/' || c == '\\',
        Separators::Backslash => c == '\\',
    }
}

/// The path without what is no component at its end: separators, and a `.` after
/// one.
pub open spec fn stripped(path: Seq<char>, separators: Separators) -> Seq<char>
    decreases path.len(),
{
    if path.len() > 0 && is_separator(path.last(), separators) {
        stripped(path.drop_last(), separators)
    } else if path.len() >= 2 && path.last() == '.' && is_separator(
        path[path.len() - 2],
        separators,
    ) {
        stripped(path.drop_last(), separators)
    } else {
        path
    }
}

/// What follows the last separator; the whole where there is none.
pub open spec fn last_piece(path: Seq<char>, separators: Separators) -> Seq<char>
    decreases path.len(),
{
    if path.len() == 0 || is_separator(path.last(), separators) {
        Seq::empty()
    } else {
        last_piece(path.drop_last(), separators).push(path.last())
    }
}

/// The last component of a path, where it is a normal one: not `.` or `..`.
pub open spec fn component_of(path: Seq<char>, separators: Separators) -> Option<Seq<char>> {
    let piece = last_piece(stripped(path, separators), separators);
    if piece.len() == 0 || piece == "."@ || piece == ".."@ {
        None
    } else {
        Some(piece)
    }
}

/// The path starts with a drive, as Windows takes it: a letter and a colon.
pub open spec fn has_drive(path: Seq<char>) -> bool {
    path.len() >= 2 && ('a' <= path[0] <= 'z' || 'A' <= path[0] <= 'Z') && path[1] == ':'
}

/// The path without the drive that it starts with, if it does.
pub open spec fn without_drive(path: Seq<char>) -> Seq<char> {
    if has_drive(path) {
        path.subrange(2, path.len() as int)
    } else {
        path
    }
}

/// The path opens with two separators: Windows may take what follows for a
/// server, a device, or a path that is to be taken literally.
pub open spec fn opens_with_two(path: Seq<char>) -> bool {
    path.len() >= 2 && (path[0] == '/' || path[0] == '\\') && (path[1] == '/' || path[1] == '\\')
}

/// The path without its last piece, as Windows takes it.
pub open spec fn without_last_piece(path: Seq<char>) -> Seq<char> {
    let end = stripped(path, Separators::Both);
    end.subrange(0, end.len() - last_piece(end, Separators::Both).len())
}

/// Windows takes no more than two pieces out of the path: a server and a share of
/// it, or a device.
pub open spec fn has_two_pieces_at_most(path: Seq<char>) -> bool {
    stripped(without_last_piece(without_last_piece(path)), Separators::Both).len() == 0
}

/// The last component of a path, as some platform takes it. On most of them only
/// a slash separates components. On Windows a backslash does too, and a drive is
/// not part of the component. A path that opens with two separators may there be
/// no more than the name of a server's share or of a device, which has no
/// component, or it may be one that is taken literally.
pub open spec fn is_last_component(path: Seq<char>, component: Option<Seq<char>>) -> bool {
    if opens_with_two(path) {
        ||| component == component_of(path, Separators::Slash)
        ||| component == component_of(path, Separators::Both)
        ||| has_two_pieces_at_most(path) && component is None
        ||| is_verbatim(path) && (component is None || component == component_of(
            path,
            Separators::Backslash,
        ))
    } else {
        ||| component == component_of(path, Separators::Slash)
        ||| component == component_of(without_drive(path), Separators::Both)
    }
}

/// A path that Windows takes literally.
pub open spec fn is_verbatim(path: Seq<char>) -> bool {
    "\\\\?\\"@.is_prefix_of(path)
}

/// The path ends with the name, after a separator.
pub open spec fn ends_in_entry(name: Seq<char>, path: Seq<char>) -> bool {
    &&& name.len() < path.len()
    &&& name.is_suffix_of(path)
    &&& path[path.len() - name.len() - 1] == '/' || path[path.len() - name.len() - 1] == '\\'
}

/// The path of the entry `name` of the directory `dir`: the two texts, with a
/// separator between them unless `dir` is empty or ends with one, or is the name
/// of a drive. A directory that Windows takes literally may be written otherwise
/// in the path; that still ends with the name, after a separator.
pub open spec fn is_entry_path(dir: Seq<char>, name: Seq<char>, path: Seq<char>) -> bool {
    if is_verbatim(dir) {
        ends_in_entry(name, path)
    } else if dir.len() == 0 {
        path == name
    } else if dir.last() == '/' {
        path == dir + name
    } else {
        ||| path == dir + "/"@ + name
        ||| path == dir + "\\"@ + name
        ||| (dir.last() == '\\' || dir.last() == ':') && path == dir + name
    }
}

// ---------------------------------------------------------------------------
// The `regex` crate and std's paths
// ---------------------------------------------------------------------------
/// Calls `regex::Regex::replace_all`, which replaces every match of the pattern
/// by the replacement. The pattern is the class of the characters that no file
/// name may hold, so a match is one such character; the replacement is an
/// underscore, in which there is nothing to expand.
#[verifier::external_body]
fn replace_all(pattern: &str, text: &str, replacement: &str) -> (res: String)
    requires
        pattern@ == ILLEGAL_CHARS@,
        replacement@ == SUBSTITUTE@,
    ensures
        res@ == legalized(text@),
{
    regex::Regex::new(pattern).unwrap().replace_all(text, replacement).into_owned()
}

/// Calls `std::path::Path::file_name`, which gives the last component of a path
/// where that is a normal one. What separates components depends on the platform,
/// and so does whether a path can start with a drive, a server or a device: it is
/// the last component as one of the platforms takes it. Separators at the end do
/// not count, nor does a `.` after one.
#[verifier::external_body]
fn file_name(path: &str) -> (res: Option<String>)
    ensures
        is_last_component(path@, optional_text(res)),
{
    std::path::Path::new(path).file_name().and_then(|n| n.to_str()).map(|n| n.to_string())
}

/// Calls `std::path::Path::join`, which adjoins a path to another. What is
/// adjoined may be a path that replaces the other, so that this is said of plain
/// names only: they are appended, after a separator, which depends on the
/// platform. None is added to a directory that is empty or ends with a slash, nor
/// need one be on Windows to a directory that ends with a backslash or names a
/// drive. A directory that Windows takes literally is normalized first, and of
/// the path only its end is stated: a separator and the name.
#[verifier::external_body]
pub(crate) fn join_path(dir: &str, name: &str) -> (res: String)
    ensures
        is_plain_name(name@) ==> is_entry_path(dir@, name@, res@),
{
    std::path::Path::new(dir).join(name).to_string_lossy().into_owned()
}

// ---------------------------------------------------------------------------
// Facts about the models
// ---------------------------------------------------------------------------
proof fn lemma_byte_len_concat(a: Seq<char>, b: Seq<char>)
    ensures
        byte_len(a + b) == byte_len(a) + byte_len(b),
    decreases b.len(),
{
    if b.len() == 0 {
        assert(a + b == a);
    } else {
        assert((a + b).drop_last() == a + b.drop_last());
        lemma_byte_len_concat(a, b.drop_last());
    }
}

/// `byte_len` is the length of the UTF-8 encoding.
pub proof fn lemma_byte_len_is_utf8(s: Seq<char>)
    ensures
        byte_len(s) == encode_utf8(s).len(),
    decreases s.len(),
{
    if s.len() > 0 {
        let first = seq![s[0]];
        let rest = s.drop_first();
        assert(first + rest == s);
        lemma_byte_len_concat(first, rest);
        assert(first.drop_last() == Seq::<char>::empty());
        reveal_with_fuel(byte_len, 2);
        assert(first.last() == s[0]);
        assert(byte_len(first) == utf8_width(s[0]));
        lemma_byte_len_is_utf8(rest);
        vstd::utf8::char_is_scalar(s[0]);
        assert(encode_scalar(s[0] as u32).len() == utf8_width(s[0]));
    }
}

proof fn lemma_byte_len_grows(s: Seq<char>, i: int, j: int)
    requires
        0 <= i <= j <= s.len(),
    ensures
        byte_len(s.subrange(0, i)) + (j - i) <= byte_len(s.subrange(0, j)),
    decreases j - i,
{
    if i < j {
        assert(s.subrange(0, j).drop_last() == s.subrange(0, j - 1));
        lemma_byte_len_grows(s, i, j - 1);
    }
}

/// Where a text is cut is settled by the number of bytes.
pub proof fn lemma_cut_is_unique(s: Seq<char>, i: int, j: int, n: nat)
    requires
        is_cut(s, i, n),
        is_cut(s, j, n),
    ensures
        i == j,
{
    if i < j {
        lemma_byte_len_grows(s, i, j);
    } else if j < i {
        lemma_byte_len_grows(s, j, i);
    }
}

proof fn lemma_last_piece(path: Seq<char>, separators: Separators, i: int)
    requires
        -1 <= i < path.len(),
        i == -1 || is_separator(path[i], separators),
        forall|k: int| i < k < path.len() ==> !is_separator(#[trigger] path[k], separators),
    ensures
        last_piece(path, separators) == path.subrange(i + 1, path.len() as int),
    decreases path.len(),
{
    if i == path.len() - 1 {
        assert(path.subrange(i + 1, path.len() as int) == Seq::<char>::empty());
    } else {
        let shorter = path.drop_last();
        assert(path.last() == path[path.len() - 1]);
        assert forall|k: int| i < k < shorter.len() implies !is_separator(
            #[trigger] shorter[k],
            separators,
        ) by {
            assert(shorter[k] == path[k]);
        }
        lemma_last_piece(shorter, separators, i);
        assert(shorter.subrange(i + 1, shorter.len() as int).push(path.last()) == path.subrange(
            i + 1,
            path.len() as int,
        ));
    }
}

proof fn lemma_component_of(path: Seq<char>, separators: Separators, i: int)
    requires
        -1 <= i < path.len(),
        i == -1 || is_separator(path[i], separators),
        is_file_name(path.subrange(i + 1, path.len() as int)),
    ensures
        component_of(path, separators) == Some(path.subrange(i + 1, path.len() as int)),
{
    let name = path.subrange(i + 1, path.len() as int);
    assert forall|k: int| i < k < path.len() implies !is_separator(
        #[trigger] path[k],
        separators,
    ) by {
        assert(name[k - i - 1] == path[k]);
        assert(name.contains(path[k]));
    }
    reveal_strlit(".");
    assert(path.last() == '.' && i == path.len() - 2 ==> name == "."@);
    assert(stripped(path, separators) == path);
    lemma_last_piece(path, separators, i);
}

/// A file name is the last component of a path where it stands after a slash, or
/// alone and without a drive.
proof fn lemma_file_name_is_component(path: Seq<char>, component: Option<Seq<char>>, i: int)
    requires
        is_last_component(path, component),
        !opens_with_two(path),
        -1 <= i < path.len(),
        if i == -1 {
            !has_drive(path)
        } else {
            path[i] == '/'
        },
        is_file_name(path.subrange(i + 1, path.len() as int)),
    ensures
        component == Some(path.subrange(i + 1, path.len() as int)),
{
    lemma_component_of(path, Separators::Slash, i);
    if has_drive(path) {
        let rest = without_drive(path);
        assert(rest.subrange(i - 1, rest.len() as int) == path.subrange(
            i + 1,
            path.len() as int,
        ));
        lemma_component_of(rest, Separators::Both, i - 2);
    } else {
        lemma_component_of(path, Separators::Both, i);
    }
}

proof fn lemma_undotted(s: Seq<char>)
    ensures
        undotted(s).len() == s.len(),
        forall|i: int|
            0 <= i < s.len() ==> #[trigger] undotted(s)[i] == s[i] || undotted(s)[i] == '_',
        undotted(s) != "."@,
        undotted(s) != ".."@,
{
    reveal_strlit(".");
    reveal_strlit("..");
    reveal_strlit("_");
    reveal_strlit("__");
    assert("."@[0] == '.' && ".."@[0] == '.');
}

proof fn lemma_dots_are_short()
    ensures
        byte_len("."@) == 1,
        byte_len(".."@) == 2,
{
    reveal_strlit(".");
    reveal_strlit("..");
    reveal_with_fuel(byte_len, 3);
    assert("."@.len() == 1 && "."@.last() == '.');
    assert(".."@.len() == 2 && ".."@.last() == '.' && ".."@.drop_last() == "."@);
}

proof fn lemma_limited_is_undotted(component: Option<Seq<char>>, video_name: Seq<char>)
    requires
        clean_name_model(component, video_name) is Some,
    ensures
        clean_name_model(component, video_name)->0 != "."@,
        clean_name_model(component, video_name)->0 != ".."@,
{
    let from = match component {
        Some(c) => c,
        None => video_name,
    };
    lemma_undotted(legalized(from));
    lemma_dots_are_short();
}

// ---------------------------------------------------------------------------
// Executable functions
// ---------------------------------------------------------------------------
/// How many bytes a character takes in UTF-8.
fn width(c: char) -> (res: usize)
    ensures
        res == utf8_width(c),
        1 <= res <= 4,
{
    if c as u32 <= 0x7f {
        1
    } else if c as u32 <= 0x7ff {
        2
    } else if c as u32 <= 0xffff {
        3
    } else {
        4
    }
}

/// The text, cut to `n` bytes where it is longer; none where the cut would split
/// a character.
pub fn limit_bytes(s: &str, n: usize) -> (res: Option<String>)
    ensures
        optional_text(res) == limited(s@, n as nat),
{
    let total: usize = s.as_bytes().len();
    proof {
        lemma_byte_len_is_utf8(s@);
    }
    if total <= n {
        return Some(s.to_owned());
    }
    let chars = chars_of(s);
    let len: usize = chars.len();
    let mut k: usize = 0;
    let mut used: usize = 0;
    assert(s@.subrange(0, 0) == Seq::<char>::empty());
    while k < len && used < n
        invariant
            chars@ == s@,
            len == chars@.len(),
            k <= len,
            used == byte_len(s@.subrange(0, k as int)),
            byte_len(s@) == total,
            forall|j: int| 0 <= j < k ==> !is_cut(s@, j, n as nat),
        decreases len - k,
    {
        assert(s@.subrange(0, k + 1).drop_last() == s@.subrange(0, k as int));
        assert(s@.subrange(0, len as int) == s@);
        proof {
            lemma_byte_len_grows(s@, k + 1, len as int);
        }
        used = used + width(chars[k]);
        k += 1;
    }
    assert(s@.subrange(0, len as int) == s@);
    if used == n {
        assert(is_cut(s@, k as int, n as nat));
        proof {
            let other = choose|j: int| is_cut(s@, j, n as nat);
            lemma_cut_is_unique(s@, k as int, other, n as nat);
        }
        let cut = vstd::slice::slice_subrange(chars.as_slice(), 0, k);
        Some(string_of(cut))
    } else {
        proof {
            assert forall|j: int| !is_cut(s@, j, n as nat) by {
                if k <= j <= s@.len() {
                    lemma_byte_len_grows(s@, k as int, j);
                }
            }
        }
        None
    }
}

/// Why there is no directory for a video.
#[derive(Debug, PartialEq, Eq, Structural, Clone, Copy)]
pub enum SavePathError {
    /// The video has no name.
    EmptyName,
    /// Cutting the name to the greatest length would split a character.
    SplitCharacter,
}

/// The name, with underscores in the place of its dots where it would stand for a
/// directory itself or for its parent.
fn undot(name: String) -> (res: String)
    ensures
        res@ == undotted(name@),
{
    if name == ".".to_owned() {
        "_".to_owned()
    } else if name == "..".to_owned() {
        "__".to_owned()
    } else {
        name
    }
}

/// The directory name for a video, given the last component of its name taken
/// as a path.
pub fn clean_name(component: Option<String>, video_name: &str) -> (res: Option<String>)
    ensures
        optional_text(res) == clean_name_model(optional_text(component), video_name@),
{
    let name = match component {
        Some(c) => c,
        None => video_name.to_owned(),
    };
    let legal = replace_all(ILLEGAL_CHARS, name.as_str(), SUBSTITUTE);
    let plain = undot(legal);
    limit_bytes(plain.as_str(), MAX_NAME_BYTES)
}

/// What comes of the directory name for a video: an entry of the work directory,
/// or an error where there is no such name.
pub open spec fn is_save_path(
    work_dir: Seq<char>,
    name: Option<Seq<char>>,
    res: Result<String, SavePathError>,
) -> bool {
    match name {
        None => res == Err::<String, SavePathError>(SavePathError::SplitCharacter),
        Some(n) => res is Ok && is_plain_name(n) && is_entry_path(work_dir, n, res->Ok_0@),
    }
}

/// The directory in which a video is saved, for a work directory and the name of
/// the video: always an entry of the work directory itself. A video without a
/// name has none; nor has one whose name cannot be cut to the greatest length
/// between two characters.
pub fn create_safe_save_path(work_dir: &str, video_name: &str) -> (res: Result<
    String,
    SavePathError,
>)
    ensures
        res == Err::<String, SavePathError>(SavePathError::EmptyName) <==> video_name@.len() == 0,
        video_name@.len() > 0 ==> exists|component: Option<Seq<char>>|
            #![trigger clean_name_model(component, video_name@)]
            is_last_component(video_name@, component) && is_save_path(
                work_dir@,
                clean_name_model(component, video_name@),
                res,
            ),
        is_file_name(video_name@) && !has_drive(video_name@) ==> is_save_path(
            work_dir@,
            clean_name_model(Some(video_name@), video_name@),
            res,
        ),
        forall|i: int|
            0 <= i < video_name@.len() && #[trigger] video_name@[i] == '/' && !opens_with_two(
                video_name@,
            ) && is_file_name(video_name@.subrange(i + 1, video_name@.len() as int))
                ==> is_save_path(
                work_dir@,
                clean_name_model(
                    Some(video_name@.subrange(i + 1, video_name@.len() as int)),
                    video_name@,
                ),
                res,
            ),
        res matches Ok(path) ==> exists|name: Seq<char>|
            is_plain_name(name) && #[trigger] is_entry_path(work_dir@, name, path@),
{
    if video_name.is_empty() {
        return Err(SavePathError::EmptyName);
    }
    let component = file_name(video_name);
    let ghost model = optional_text(component);
    proof {
        let whole = video_name@.subrange(0, video_name@.len() as int);
        assert(whole == video_name@);
        if is_file_name(whole) && !has_drive(whole) {
            assert(whole[0] != '/' && whole[0] != '\\') by {
                assert(whole.contains(whole[0]));
            }
            lemma_file_name_is_component(video_name@, model, -1);
        }
        assert forall|i: int|
            0 <= i < video_name@.len() && #[trigger] video_name@[i] == '/' && !opens_with_two(
                video_name@,
            ) && is_file_name(
                video_name@.subrange(i + 1, video_name@.len() as int),
            ) implies model == Some(video_name@.subrange(i + 1, video_name@.len() as int)) by {
            lemma_file_name_is_component(video_name@, model, i);
        }
    }
    match clean_name(component, video_name) {
        Some(name) => {
            proof {
                law_clean_name_is_plain(model, video_name@);
            }
            let path = join_path(work_dir, name.as_str());
            let res = Ok::<String, SavePathError>(path);
            assert(is_save_path(work_dir@, clean_name_model(model, video_name@), res));
            res
        },
        None => {
            let res = Err::<String, SavePathError>(SavePathError::SplitCharacter);
            assert(is_save_path(work_dir@, clean_name_model(model, video_name@), res));
            res
        },
    }
}

// ---------------------------------------------------------------------------
// Laws
// ---------------------------------------------------------------------------
/// A directory name is safe: it holds no illegal character, it is no longer than
/// the greatest length, and it is empty only where the name of the video was.
pub proof fn law_clean_name_is_safe(component: Option<Seq<char>>, video_name: Seq<char>)
    requires
        clean_name_model(component, video_name) is Some,
    ensures
        ({
            let name = clean_name_model(component, video_name)->0;
            &&& forall|i: int| 0 <= i < name.len() ==> !is_illegal(#[trigger] name[i])
            &&& byte_len(name) <= MAX_NAME_BYTES
            &&& name.len() == 0 <==> (match component {
                Some(c) => c,
                None => video_name,
            }).len() == 0
        }),
{
    let from = match component {
        Some(c) => c,
        None => video_name,
    };
    let legal = legalized(from);
    let plain = undotted(legal);
    let name = clean_name_model(component, video_name)->0;
    lemma_undotted(legal);
    assert forall|i: int| 0 <= i < name.len() implies !is_illegal(#[trigger] name[i]) by {
        assert(name[i] == plain[i]);
        assert(plain[i] == legal[i] || plain[i] == '_');
    }
}

/// Cleaning a clean name again changes nothing.
pub proof fn law_clean_name_is_stable(component: Option<Seq<char>>, video_name: Seq<char>)
    requires
        clean_name_model(component, video_name) is Some,
    ensures
        ({
            let name = clean_name_model(component, video_name)->0;
            clean_name_model(Some(name), name) == Some(name)
        }),
{
    let name = clean_name_model(component, video_name)->0;
    law_clean_name_is_safe(component, video_name);
    lemma_limited_is_undotted(component, video_name);
    assert(legalized(name) == name);
}

/// A directory name names an entry of the work directory itself: it is no path,
/// on any platform, nor is it `.` or `..`.
pub proof fn law_clean_name_is_plain(component: Option<Seq<char>>, video_name: Seq<char>)
    requires
        clean_name_model(component, video_name) is Some,
        (match component {
            Some(c) => c,
            None => video_name,
        }).len() > 0,
    ensures
        is_plain_name(clean_name_model(component, video_name)->0),
{
    law_clean_name_is_safe(component, video_name);
    lemma_limited_is_undotted(component, video_name);
}

/// The illegal characters are nine: the angle brackets, colon, double quote, slash,
/// backslash, bar, question mark and asterisk. Each gives way to an underscore;
/// the others stay, and all of them keep their places.
pub proof fn law_illegal_characters_give_way(s: Seq<char>, i: int)
    ensures
        legalized(s).len() == s.len(),
        0 <= i < s.len() ==> legalized(s)[i] == if seq![
            '<', '>', ':', '"', '/', '\\', '|', '?', '*',
        ].contains(s[i]) {
            '_'
        } else {
            s[i]
        },
        ILLEGAL_CHARS@ == "[<>:\"/\\\\|?*]"@,
        SUBSTITUTE@ == seq!['_'],
{
    reveal_strlit("_");
    assert("_"@ == seq!['_']);
    let nine = seq!['<', '>', ':', '"', '/', '\\', '|', '?', '*'];
    if 0 <= i < s.len() {
        let c = s[i];
        assert(nine[0] == '<' && nine[1] == '>' && nine[2] == ':' && nine[3] == '"' && nine[4]
            == '/' && nine[5] == '\\' && nine[6] == '|' && nine[7] == '?' && nine[8] == '*');
        if is_illegal(c) {
            assert(nine.contains(c));
        }
    }
}

/// A text is cut to a number of bytes only where it takes more, and then to exactly
/// that number; what is left is its beginning. There is no cut only where it would
/// have to fall within a character.
pub proof fn law_cuts_fill_the_limit(s: Seq<char>, n: nat)
    ensures
        encode_utf8(s).len() <= n ==> limited(s, n) == Some(s),
        encode_utf8(s).len() > n ==> match limited(s, n) {
            Some(cut) => cut.len() < s.len() && cut == s.subrange(0, cut.len() as int)
                && encode_utf8(cut).len() == n,
            None => forall|k: int|
                0 <= k <= s.len() ==> encode_utf8(#[trigger] s.subrange(0, k)).len() != n,
        },
{
    lemma_byte_len_is_utf8(s);
    if byte_len(s) > n {
        match limited(s, n) {
            Some(cut) => {
                let k = choose|k: int| is_cut(s, k, n);
                assert(is_cut(s, k, n));
                assert(cut == s.subrange(0, k));
                lemma_byte_len_is_utf8(cut);
                if k == s.len() {
                    assert(s.subrange(0, k) == s);
                }
            },
            None => {
                assert forall|k: int| 0 <= k <= s.len() implies encode_utf8(
                    #[trigger] s.subrange(0, k),
                ).len() != n by {
                    lemma_byte_len_is_utf8(s.subrange(0, k));
                    assert(!is_cut(s, k, n));
                }
            },
        }
    }
}

/// A name of one dot or of two has underscores in their place. Every other name
/// stays as it is.
pub proof fn law_dots_alone_give_way(s: Seq<char>)
    ensures
        undotted(seq!['.']) == seq!['_'],
        undotted(seq!['.', '.']) == seq!['_', '_'],
        s != seq!['.'] && s != seq!['.', '.'] ==> undotted(s) == s,
{
    reveal_strlit(".");
    reveal_strlit("..");
    reveal_strlit("_");
    reveal_strlit("__");
    assert("."@ == seq!['.']);
    assert(".."@ == seq!['.', '.']);
    assert("_"@ == seq!['_']);
    assert("__"@ == seq!['_', '_']);
}

/// The directory of a video is named after the last component of its name, or after
/// the whole name where there is none. The name stays as it is but for illegal
/// characters, and but for what is beyond 150 bytes.
pub proof fn law_directory_is_named_after_the_video(
    component: Seq<char>,
    video_name: Seq<char>,
    other: Seq<char>,
)
    ensures
        clean_name_model(Some(component), video_name) == clean_name_model(Some(component), other),
        clean_name_model(None, video_name) == clean_name_model(Some(video_name), other),
        legalized(component) != seq!['.'] && legalized(component) != seq!['.', '.']
            ==> clean_name_model(Some(component), video_name) == limited(legalized(component), 150),
        clean_name_model(Some(seq!['.']), video_name) == Some(seq!['_']),
        clean_name_model(Some(seq!['.', '.']), video_name) == Some(seq!['_', '_']),
{
    law_dots_alone_give_way(legalized(component));
    assert(legalized(seq!['.']) == seq!['.']);
    assert(legalized(seq!['.', '.']) == seq!['.', '.']);
    reveal_with_fuel(byte_len, 3);
    assert(seq!['_'].drop_last() == Seq::<char>::empty());
    assert(seq!['_', '_'].drop_last() == seq!['_']);
    assert(byte_len(seq!['_']) == 1);
    assert(byte_len(seq!['_', '_']) == 2);
}

/// Videos whose names differ only in illegal characters share a directory name, and
/// no others whose names are short and no dots alone.
pub proof fn law_short_names_stay_apart(a: Seq<char>, b: Seq<char>, video_name: Seq<char>)
    requires
        encode_utf8(legalized(a)).len() <= 150,
        encode_utf8(legalized(b)).len() <= 150,
        a != seq!['.'] && a != seq!['.', '.'],
        b != seq!['.'] && b != seq!['.', '.'],
    ensures
        clean_name_model(Some(a), video_name) == clean_name_model(Some(b), video_name)
            <==> legalized(a) == legalized(b),
{
    lemma_dots_are_legal(a);
    lemma_dots_are_legal(b);
    law_directory_is_named_after_the_video(a, video_name, video_name);
    law_directory_is_named_after_the_video(b, video_name, video_name);
    law_cuts_fill_the_limit(legalized(a), 150);
    law_cuts_fill_the_limit(legalized(b), 150);
}

proof fn lemma_dots_are_legal(s: Seq<char>)
    ensures
        legalized(s) == seq!['.'] ==> s == seq!['.'],
        legalized(s) == seq!['.', '.'] ==> s == seq!['.', '.'],
{
    law_illegal_characters_give_way(s, 0);
    law_illegal_characters_give_way(s, 1);
    if legalized(s) == seq!['.'] {
        assert(seq!['.'][0] == '.');
        assert(s.len() == 1 && s[0] == '.');
        assert(s =~= seq!['.']);
    }
    if legalized(s) == seq!['.', '.'] {
        assert(seq!['.', '.'][0] == '.' && seq!['.', '.'][1] == '.');
        assert(s.len() == 2 && s[0] == '.' && s[1] == '.');
        assert(s =~= seq!['.', '.']);
    }
}

/// A file name is not empty, holds no separator, and is neither `.` nor `..`; a
/// plain one holds no colon either. No more is asked of it.
pub proof fn law_file_names_hold_no_separators(s: Seq<char>)
    ensures
        is_file_name(s) <==> {
            &&& s.len() > 0
            &&& forall|i: int| 0 <= i < s.len() ==> #[trigger] s[i] != '/' && s[i] != '\\'
            &&& s != seq!['.'] && s != seq!['.', '.']
        },
        is_plain_name(s) <==> is_file_name(s) && forall|i: int|
            0 <= i < s.len() ==> #[trigger] s[i] != ':',
{
    reveal_strlit(".");
    reveal_strlit("..");
    assert("."@ == seq!['.']);
    assert(".."@ == seq!['.', '.']);
    assert forall|i: int| 0 <= i < s.len() implies s.contains(#[trigger] s[i]) by {}
}

/// What separates components is a slash, on Windows a slash or a backslash, and
/// there a backslash alone in a path that is taken literally.
pub proof fn law_separators_depend_on_the_platform(c: char)
    ensures
        is_separator(c, Separators::Slash) <==> c == '/',
        is_separator(c, Separators::Both) <==> c == '/' || c == '\\',
        is_separator(c, Separators::Backslash) <==> c == '\\',
{
}

proof fn lemma_stripped_push(path: Seq<char>, separators: Separators, sep: char)
    requires
        is_separator(sep, separators),
    ensures
        stripped(path.push(sep), separators) == stripped(path, separators),
        stripped(path.push(sep).push('.'), separators) == stripped(path, separators),
{
    assert(path.push(sep).drop_last() == path);
    assert(path.push(sep).push('.').drop_last() == path.push(sep));
    assert(path.push(sep).push('.')[path.len() as int] == sep);
    reveal_with_fuel(stripped, 3);
}

proof fn lemma_ends_with_piece(
    path: Seq<char>,
    separators: Separators,
    sep: char,
    name: Seq<char>,
)
    requires
        is_separator(sep, separators),
        name.len() > 0,
        forall|i: int| 0 <= i < name.len() ==> !is_separator(#[trigger] name[i], separators),
        name != seq!['.'],
    ensures
        stripped(path.push(sep) + name, separators) == path.push(sep) + name,
        last_piece(path.push(sep) + name, separators) == name,
{
    let all = path.push(sep) + name;
    assert(all[path.len() as int] == sep);
    assert forall|k: int| path.len() < k < all.len() implies !is_separator(
        #[trigger] all[k],
        separators,
    ) by {
        assert(all[k] == name[k - path.len() - 1]);
    }
    assert(all.last() == name[name.len() - 1]);
    assert(stripped(all, separators) == all) by {
        if all.last() == '.' && is_separator(all[all.len() - 2], separators) {
            assert(name.len() == 1) by {
                if name.len() > 1 {
                    assert(all[all.len() - 2] == name[name.len() - 2]);
                }
            }
            assert(name == seq!['.']);
        }
    }
    lemma_last_piece(all, separators, path.len() as int);
    assert(all.subrange(path.len() as int + 1, all.len() as int) == name);
}

/// A path in which three names follow one another has more than two pieces.
pub proof fn law_three_names_are_more_than_two_pieces(
    path: Seq<char>,
    a: Seq<char>,
    b: Seq<char>,
    c: Seq<char>,
)
    requires
        is_file_name(a),
        is_file_name(b),
        is_file_name(c),
    ensures
        !has_two_pieces_at_most(path.push('/') + a + seq!['/'] + b + seq!['/'] + c),
{
    law_file_names_hold_no_separators(a);
    law_file_names_hold_no_separators(b);
    law_file_names_hold_no_separators(c);
    let one = path.push('/') + a;
    let two = one.push('/') + b;
    let three = two.push('/') + c;
    assert(three == path.push('/') + a + seq!['/'] + b + seq!['/'] + c);
    lemma_ends_with_piece(path, Separators::Both, '/', a);
    lemma_ends_with_piece(one, Separators::Both, '/', b);
    lemma_ends_with_piece(two, Separators::Both, '/', c);
    assert(without_last_piece(three) == two.push('/'));
    lemma_stripped_push(two, Separators::Both, '/');
    assert(without_last_piece(two.push('/')) == one.push('/'));
    lemma_stripped_push(one, Separators::Both, '/');
}

/// The last component of a path is what follows its last separator. Separators at
/// the end do not count, nor does a `.` after one. There is none in an empty path,
/// in `.`, or after a final `..`.
pub proof fn law_last_component_follows_the_last_separator(
    path: Seq<char>,
    separators: Separators,
    sep: char,
    name: Seq<char>,
)
    requires
        is_separator(sep, separators),
        name.len() > 0,
        forall|i: int| 0 <= i < name.len() ==> !is_separator(#[trigger] name[i], separators),
        name != seq!['.'],
    ensures
        name != seq!['.', '.'] ==> component_of(path.push(sep) + name, separators) == Some(name)
            && component_of(name, separators) == Some(name),
        name == seq!['.', '.'] ==> component_of(path.push(sep) + name, separators) is None
            && component_of(name, separators) is None,
        component_of(path.push(sep), separators) == component_of(path, separators),
        component_of(path.push(sep).push('.'), separators) == component_of(path, separators),
        component_of(Seq::empty(), separators) is None,
        component_of(seq!['.'], separators) is None,
{
    reveal_strlit(".");
    reveal_strlit("..");
    assert("."@ == seq!['.']);
    assert(".."@ == seq!['.', '.']);
    lemma_stripped_push(path, separators, sep);
    lemma_ends_with_piece(path, separators, sep, name);
    assert(name.last() == name[name.len() - 1]);
    assert(stripped(name, separators) == name) by {
        if name.len() >= 2 {
            assert(!is_separator(name[name.len() - 2], separators));
        }
    }
    lemma_last_piece(name, separators, -1);
    assert(name.subrange(0, name.len() as int) == name);
    let dot = seq!['.'];
    assert(!is_separator('.', separators));
    assert(dot.last() == '.' && dot.drop_last() == Seq::<char>::empty());
    reveal_with_fuel(last_piece, 2);
    assert(last_piece(dot, separators) == dot);
}

/// A drive is an ASCII letter and a colon at the start. Without one a path is as it
/// was; with one, it is what follows the two characters.
pub proof fn law_drives_are_a_letter_and_a_colon(path: Seq<char>)
    ensures
        has_drive(path) <==> path.len() >= 2 && path[1] == ':' && ('A' <= path[0] <= 'Z' || 'a'
            <= path[0] <= 'z'),
        !has_drive(path) ==> without_drive(path) == path,
        has_drive(path) ==> without_drive(path) == path.skip(2),
        opens_with_two(path) <==> path.len() >= 2 && is_separator(path[0], Separators::Both)
            && is_separator(path[1], Separators::Both),
{
    if has_drive(path) {
        assert(path.skip(2) == path.subrange(2, path.len() as int));
    }
}

/// The last component of a path is the one that some platform takes for it: it is
/// told by slashes alone, or by slashes and backslashes behind a drive. Only a path
/// that opens with two separators may have none all the same, where it has two
/// pieces at most; and only one that Windows takes literally may have one that is
/// told by backslashes alone.
pub proof fn law_last_component_is_that_of_a_platform(
    path: Seq<char>,
    component: Option<Seq<char>>,
)
    requires
        is_last_component(path, component),
    ensures
        component == component_of(path, Separators::Slash) || component == component_of(
            without_drive(path),
            Separators::Both,
        ) || (opens_with_two(path) && has_two_pieces_at_most(path) && component is None) || (
        opens_with_two(path) && is_verbatim(path) && (component is None || component
            == component_of(path, Separators::Backslash))),
{
    if opens_with_two(path) {
        assert(!has_drive(path));
    }
}

/// A file name is the last component where it stands after a slash, on every
/// platform, unless the path opens with two separators; and so is a file name that
/// stands alone, unless it starts with a drive.
pub proof fn law_file_name_is_the_last_component(
    path: Seq<char>,
    name: Seq<char>,
    component: Option<Seq<char>>,
)
    requires
        is_file_name(name),
    ensures
        is_last_component(path.push('/') + name, component) && !opens_with_two(
            path.push('/') + name,
        ) ==> component == Some(name),
        is_last_component(name, component) && !has_drive(name) ==> component == Some(name),
{
    let all = path.push('/') + name;
    if is_last_component(all, component) && !opens_with_two(all) {
        assert(all.subrange(path.len() as int + 1, all.len() as int) == name);
        assert(all[path.len() as int] == '/');
        lemma_file_name_is_component(all, component, path.len() as int);
    }
    if is_last_component(name, component) && !has_drive(name) {
        assert(name.subrange(0, name.len() as int) == name);
        assert(!opens_with_two(name)) by {
            assert(name.contains(name[0]));
        }
        lemma_file_name_is_component(name, component, -1);
    }
}

/// The path of an entry is that of its directory followed by its name. One
/// separator stands between them, unless the directory is empty or ends with a
/// slash; it may be left out after a backslash or a colon. Of a directory that
/// Windows takes literally, the path ends with a separator and the name.
pub proof fn law_entries_stand_in_their_directory(
    dir: Seq<char>,
    name: Seq<char>,
    path: Seq<char>,
)
    requires
        is_entry_path(dir, name, path),
    ensures
        is_verbatim(dir) <==> dir.len() >= 4 && dir.subrange(0, 4) == seq!['\\', '\\', '?', '\\'],
        name.len() <= path.len() && path.subrange(path.len() - name.len(), path.len() as int)
            == name,
        !is_verbatim(dir) ==> path == dir + name || path == dir.push('/') + name || path
            == dir.push('\\') + name,
        !is_verbatim(dir) && (dir.len() == 0 || dir[dir.len() - 1] == '/') ==> path == dir + name,
        dir.len() > 0 && dir[dir.len() - 1] != '/' && dir[dir.len() - 1] != '\\' && dir[dir.len()
            - 1] != ':' ==> is_separator(path[path.len() - name.len() - 1], Separators::Both),
        is_verbatim(dir) ==> path.len() > name.len() && is_separator(
            path[path.len() - name.len() - 1],
            Separators::Both,
        ),
{
    reveal_strlit("\\\\?\\");
    reveal_strlit("/");
    reveal_strlit("\\");
    assert("\\\\?\\"@ == seq!['\\', '\\', '?', '\\']);
    assert("/"@ == seq!['/']);
    assert("\\"@ == seq!['\\']);
    assert(dir + "/"@ == dir.push('/'));
    assert(dir + "\\"@ == dir.push('\\'));
    assert(is_verbatim(dir) <==> dir.len() >= 4 && dir.subrange(0, 4) == seq![
        '\\', '\\', '?', '\\',
    ]);
    assert((dir + name).subrange((dir + name).len() - name.len(), (dir + name).len() as int)
        == name);
    let slash = dir.push('/') + name;
    let back = dir.push('\\') + name;
    assert(slash.subrange(slash.len() - name.len(), slash.len() as int) == name);
    assert(back.subrange(back.len() - name.len(), back.len() as int) == name);
    assert(slash[dir.len() as int] == '/' && back[dir.len() as int] == '\\');
    if is_verbatim(dir) {
        assert(path.subrange(path.len() - name.len(), path.len() as int) == name);
    }
}

/// A directory name gives an entry of the work directory, and only the want of one
/// is an error.
pub proof fn law_directory_names_give_entries(
    work_dir: Seq<char>,
    name: Seq<char>,
    res: Result<String, SavePathError>,
)
    ensures
        is_save_path(work_dir, Some(name), res) ==> is_plain_name(name) && (res matches Ok(path)
            && is_entry_path(work_dir, name, path@)),
        is_save_path(work_dir, None, res) ==> res == Err::<String, SavePathError>(
            SavePathError::SplitCharacter,
        ),
        MAX_NAME_BYTES == 150,
{
}

/// A text that may be missing is the text that is there, or missing.
pub proof fn law_missing_texts_are_missing(s: String)
    ensures
        optional_text(Some(s)) == Some(s@),
        optional_text(None) is None,
{
}

} // verus!
