//! What the window shows, and how it changes.

use vstd::prelude::*;

verus! {

/// The size of the window that is centred on the screen, in pixels. The height
/// is more than the window's, which puts it above the middle.
pub const WINDOW_WIDTH: i32 = 370;

pub const WINDOW_HEIGHT: i32 = 600;

/// A change of the window. What is `None` stays as it is.
#[derive(Debug)]
pub struct WindowUpdate {
    /// The message, and whether it tells of an error.
    pub message: Option<(String, bool)>,
    /// Whether the button that starts a download can be pressed.
    pub enable_start_btn: Option<bool>,
    /// Whether the button that pauses the download can be pressed.
    pub enable_pause_btn: Option<bool>,
    /// Whether the button that cancels the download can be pressed.
    pub enable_cancel_btn: Option<bool>,
    /// Whether a download is under way.
    pub is_downloading: Option<bool>,
    /// Whether the download is paused.
    pub is_pause: Option<bool>,
    /// Whether there is a file of failed links to open.
    pub has_failed_file: Option<bool>,
    /// How many files the download has.
    pub total_nums: Option<i32>,
    /// How many files have been downloaded.
    pub downloaded_nums: Option<i32>,
    /// How much has been downloaded.
    pub content_length: Option<String>,
}

/// Model of a [`WindowUpdate`].
pub struct WindowUpdateView {
    pub message: Option<(Seq<char>, bool)>,
    pub enable_start_btn: Option<bool>,
    pub enable_pause_btn: Option<bool>,
    pub enable_cancel_btn: Option<bool>,
    pub is_downloading: Option<bool>,
    pub is_pause: Option<bool>,
    pub has_failed_file: Option<bool>,
    pub total_nums: Option<i32>,
    pub downloaded_nums: Option<i32>,
    pub content_length: Option<Seq<char>>,
}

impl View for WindowUpdate {
    type V = WindowUpdateView;

    open spec fn view(&self) -> WindowUpdateView {
        WindowUpdateView {
            message: match self.message {
                Some((text, is_error)) => Some((text@, is_error)),
                None => None,
            },
            enable_start_btn: self.enable_start_btn,
            enable_pause_btn: self.enable_pause_btn,
            enable_cancel_btn: self.enable_cancel_btn,
            is_downloading: self.is_downloading,
            is_pause: self.is_pause,
            has_failed_file: self.has_failed_file,
            total_nums: self.total_nums,
            downloaded_nums: self.downloaded_nums,
            content_length: match self.content_length {
                Some(text) => Some(text@),
                None => None,
            },
        }
    }
}

impl WindowUpdateView {
    /// Nothing changes.
    pub open spec fn none() -> Self {
        WindowUpdateView {
            message: None,
            enable_start_btn: None,
            enable_pause_btn: None,
            enable_cancel_btn: None,
            is_downloading: None,
            is_pause: None,
            has_failed_file: None,
            total_nums: None,
            downloaded_nums: None,
            content_length: None,
        }
    }

    /// Nothing changes but the message.
    pub open spec fn message(text: Seq<char>, is_error: bool) -> Self {
        WindowUpdateView { message: Some((text, is_error)), ..Self::none() }
    }

    /// A download is asked for.
    pub open spec fn start_pressed() -> Self {
        WindowUpdateView {
            enable_start_btn: Some(false),
            is_downloading: Some(true),
            has_failed_file: Some(false),
            ..Self::message("Parsing..."@, false)
        }
    }

    /// A pause is asked for.
    pub open spec fn pause_pressed() -> Self {
        WindowUpdateView {
            enable_pause_btn: Some(false),
            ..Self::message("Pausing..."@, false)
        }
    }

    /// The end of the download is asked for.
    pub open spec fn cancel_pressed() -> Self {
        WindowUpdateView {
            enable_cancel_btn: Some(false),
            enable_pause_btn: Some(false),
            ..Self::message("Canceling..."@, false)
        }
    }

    /// The playlist cannot be resolved.
    pub open spec fn parse_failed(text: Seq<char>) -> Self {
        WindowUpdateView {
            is_downloading: Some(false),
            enable_start_btn: Some(true),
            ..Self::message(text, true)
        }
    }

    /// The playlist is resolved, and `total` files are downloaded.
    pub open spec fn slicing(total: i32) -> Self {
        WindowUpdateView {
            total_nums: Some(total),
            enable_pause_btn: Some(true),
            enable_cancel_btn: Some(true),
            is_pause: Some(false),
            ..Self::message("Downloading..."@, false)
        }
    }

    /// A file has been downloaded.
    pub open spec fn progress(downloaded: i32, size: Seq<char>) -> Self {
        WindowUpdateView {
            downloaded_nums: Some(downloaded),
            content_length: Some(size),
            ..Self::none()
        }
    }

    /// The download is paused.
    pub open spec fn paused() -> Self {
        WindowUpdateView {
            is_pause: Some(true),
            enable_start_btn: Some(true),
            ..Self::message("Paused."@, false)
        }
    }

    /// The download is over, with or without failed files, or canceled.
    pub open spec fn over(text: Seq<char>, has_failed: bool, is_cancel: bool) -> Self {
        WindowUpdateView {
            enable_start_btn: Some(true),
            enable_pause_btn: Some(false),
            enable_cancel_btn: Some(false),
            is_downloading: Some(false),
            is_pause: Some(false),
            has_failed_file: Some(has_failed),
            total_nums: if is_cancel {
                Some(0i32)
            } else {
                None
            },
            downloaded_nums: if is_cancel {
                Some(0i32)
            } else {
                None
            },
            ..Self::message(text, has_failed)
        }
    }
}

impl WindowUpdate {
    /// Nothing changes.
    pub fn none() -> (res: Self)
        ensures
            res@ == WindowUpdateView::none(),
    {
        WindowUpdate {
            message: None,
            enable_start_btn: None,
            enable_pause_btn: None,
            enable_cancel_btn: None,
            is_downloading: None,
            is_pause: None,
            has_failed_file: None,
            total_nums: None,
            downloaded_nums: None,
            content_length: None,
        }
    }

    /// Nothing changes but the message.
    pub fn message(text: String, is_error: bool) -> (res: Self)
        ensures
            res@ == WindowUpdateView::message(text@, is_error),
    {
        let mut res = Self::none();
        res.message = Some((text, is_error));
        res
    }

    /// The start button was pressed.
    pub fn start_pressed() -> (res: Self)
        ensures
            res@ == WindowUpdateView::start_pressed(),
    {
        let mut res = Self::message("Parsing...".to_owned(), false);
        res.enable_start_btn = Some(false);
        res.is_downloading = Some(true);
        res.has_failed_file = Some(false);
        res
    }

    /// The pause button was pressed.
    pub fn pause_pressed() -> (res: Self)
        ensures
            res@ == WindowUpdateView::pause_pressed(),
    {
        let mut res = Self::message("Pausing...".to_owned(), false);
        res.enable_pause_btn = Some(false);
        res
    }

    /// The cancel button was pressed.
    pub fn cancel_pressed() -> (res: Self)
        ensures
            res@ == WindowUpdateView::cancel_pressed(),
    {
        let mut res = Self::message("Canceling...".to_owned(), false);
        res.enable_cancel_btn = Some(false);
        res.enable_pause_btn = Some(false);
        res
    }

    /// The playlist cannot be resolved.
    pub fn parse_failed(text: String) -> (res: Self)
        ensures
            res@ == WindowUpdateView::parse_failed(text@),
    {
        let mut res = Self::message(text, true);
        res.is_downloading = Some(false);
        res.enable_start_btn = Some(true);
        res
    }

    /// The playlist is resolved, and `total` files are downloaded.
    pub fn slicing(total: i32) -> (res: Self)
        ensures
            res@ == WindowUpdateView::slicing(total),
    {
        let mut res = Self::message("Downloading...".to_owned(), false);
        res.total_nums = Some(total);
        res.enable_pause_btn = Some(true);
        res.enable_cancel_btn = Some(true);
        res.is_pause = Some(false);
        res
    }

    /// A file has been downloaded.
    pub fn progress(downloaded: i32, size: String) -> (res: Self)
        ensures
            res@ == WindowUpdateView::progress(downloaded, size@),
    {
        let mut res = Self::none();
        res.downloaded_nums = Some(downloaded);
        res.content_length = Some(size);
        res
    }

    /// The download is paused.
    pub fn paused() -> (res: Self)
        ensures
            res@ == WindowUpdateView::paused(),
    {
        let mut res = Self::message("Paused.".to_owned(), false);
        res.is_pause = Some(true);
        res.enable_start_btn = Some(true);
        res
    }

    /// The download is over, with or without failed files, or canceled.
    pub fn over(text: String, has_failed: bool, is_cancel: bool) -> (res: Self)
        ensures
            res@ == WindowUpdateView::over(text@, has_failed, is_cancel),
    {
        let mut res = Self::message(text, has_failed);
        res.enable_start_btn = Some(true);
        res.enable_pause_btn = Some(false);
        res.enable_cancel_btn = Some(false);
        res.is_downloading = Some(false);
        res.is_pause = Some(false);
        res.has_failed_file = Some(has_failed);
        if is_cancel {
            res.total_nums = Some(0);
            res.downloaded_nums = Some(0);
        }
        res
    }
}

/// Half of a length, rounded towards zero.
pub open spec fn half(n: int) -> int {
    if n >= 0 {
        n / 2
    } else {
        -((-n) / 2)
    }
}

/// Where the window is placed on a screen of the given size: its left and top
/// edge.
pub fn window_position(screen_width: i32, screen_height: i32) -> (res: (i32, i32))
    requires
        screen_width >= i32::MIN + WINDOW_WIDTH,
        screen_height >= i32::MIN + WINDOW_HEIGHT,
    ensures
        res.0 == half(screen_width - WINDOW_WIDTH),
        res.1 == half(screen_height - WINDOW_HEIGHT),
        screen_width >= 370 ==> 0 <= screen_width - 370 - 2 * res.0 <= 1,
        screen_height >= 600 ==> 0 <= screen_height - 600 - 2 * res.1 <= 1,
{
    ((screen_width - WINDOW_WIDTH) / 2, (screen_height - WINDOW_HEIGHT) / 2)
}

// ---------------------------------------------------------------------------
// Laws
// ---------------------------------------------------------------------------
/// What the window shows.
pub struct Window {
    pub message: (Seq<char>, bool),
    pub enable_start_btn: bool,
    pub enable_pause_btn: bool,
    pub enable_cancel_btn: bool,
    pub is_downloading: bool,
    pub is_pause: bool,
    pub has_failed_file: bool,
    pub total_nums: i32,
    pub downloaded_nums: i32,
    pub content_length: Seq<char>,
}

impl Window {
    /// The window after a change.
    pub open spec fn updated(self, u: WindowUpdateView) -> Self {
        Window {
            message: u.message.unwrap_or(self.message),
            enable_start_btn: u.enable_start_btn.unwrap_or(self.enable_start_btn),
            enable_pause_btn: u.enable_pause_btn.unwrap_or(self.enable_pause_btn),
            enable_cancel_btn: u.enable_cancel_btn.unwrap_or(self.enable_cancel_btn),
            is_downloading: u.is_downloading.unwrap_or(self.is_downloading),
            is_pause: u.is_pause.unwrap_or(self.is_pause),
            has_failed_file: u.has_failed_file.unwrap_or(self.has_failed_file),
            total_nums: u.total_nums.unwrap_or(self.total_nums),
            downloaded_nums: u.downloaded_nums.unwrap_or(self.downloaded_nums),
            content_length: u.content_length.unwrap_or(self.content_length),
        }
    }

    /// Only a new download can be started.
    pub open spec fn is_idle(self) -> bool {
        &&& self.enable_start_btn
        &&& !self.enable_pause_btn
        &&& !self.enable_cancel_btn
        &&& !self.is_downloading
        &&& !self.is_pause
    }
}

/// Whatever the window showed, once a download is over it is ready for a new
/// one; a canceled download leaves no counts behind and no failed files.
pub proof fn law_window_is_idle_once_over(
    window: Window,
    text: Seq<char>,
    has_failed: bool,
    is_cancel: bool,
)
    ensures
        ({
            let after = window.updated(WindowUpdateView::over(text, has_failed, is_cancel));
            &&& after.is_idle()
            &&& after.message == (text, has_failed)
            &&& after.has_failed_file == has_failed
            &&& is_cancel ==> after.total_nums == 0 && after.downloaded_nums == 0
            &&& !is_cancel ==> after.total_nums == window.total_nums && after.downloaded_nums
                == window.downloaded_nums
        }),
{
}

/// A download that does not get past its playlist leaves an idle window idle:
/// neither pausing nor canceling becomes possible.
pub proof fn law_failed_parse_leaves_window_idle(window: Window, text: Seq<char>)
    requires
        window.is_idle(),
    ensures
        window.updated(WindowUpdateView::start_pressed()).updated(
            WindowUpdateView::parse_failed(text),
        ).is_idle(),
{
}

/// From the moment it is asked for until it is paused or over, a download cannot
/// be started a second time.
pub proof fn law_running_download_cannot_be_started(
    window: Window,
    total: i32,
    downloaded: i32,
    size: Seq<char>,
)
    ensures
        ({
            let started = window.updated(WindowUpdateView::start_pressed());
            let slicing = started.updated(WindowUpdateView::slicing(total));
            let progress = slicing.updated(WindowUpdateView::progress(downloaded, size));
            let pausing = progress.updated(WindowUpdateView::pause_pressed());
            let canceling = progress.updated(WindowUpdateView::cancel_pressed());
            &&& !started.enable_start_btn
            &&& !slicing.enable_start_btn && slicing.enable_pause_btn && slicing.enable_cancel_btn
            &&& !progress.enable_start_btn
            &&& !pausing.enable_start_btn && !pausing.enable_pause_btn
            &&& !canceling.enable_start_btn && !canceling.enable_pause_btn
                && !canceling.enable_cancel_btn
        }),
{
}

/// A message alone leaves everything else in the window as it is, and no change
/// leaves everything.
pub proof fn law_message_changes_nothing_else(text: Seq<char>, is_error: bool)
    ensures
        WindowUpdateView::message(text, is_error) == (WindowUpdateView {
            message: Some((text, is_error)),
            enable_start_btn: None,
            enable_pause_btn: None,
            enable_cancel_btn: None,
            is_downloading: None,
            is_pause: None,
            has_failed_file: None,
            total_nums: None,
            downloaded_nums: None,
            content_length: None,
        }),
        WindowUpdateView::none() == (WindowUpdateView {
            message: None,
            ..WindowUpdateView::message(text, is_error)
        }),
{
}

/// Asking for a download disables the start button, and shows that a download is
/// under way and that no file has failed yet; the counts stay.
pub proof fn law_start_is_shown()
    ensures
        WindowUpdateView::start_pressed() == (WindowUpdateView {
            message: Some(("Parsing..."@, false)),
            enable_start_btn: Some(false),
            enable_pause_btn: None,
            enable_cancel_btn: None,
            is_downloading: Some(true),
            is_pause: None,
            has_failed_file: Some(false),
            total_nums: None,
            downloaded_nums: None,
            content_length: None,
        }),
{
}

/// Asking for a pause disables the pause button alone.
pub proof fn law_pausing_is_shown()
    ensures
        WindowUpdateView::pause_pressed() == (WindowUpdateView {
            message: Some(("Pausing..."@, false)),
            enable_start_btn: None,
            enable_pause_btn: Some(false),
            enable_cancel_btn: None,
            is_downloading: None,
            is_pause: None,
            has_failed_file: None,
            total_nums: None,
            downloaded_nums: None,
            content_length: None,
        }),
{
}

/// Asking for the end disables the pause and the cancel button.
pub proof fn law_canceling_is_shown()
    ensures
        WindowUpdateView::cancel_pressed() == (WindowUpdateView {
            message: Some(("Canceling..."@, false)),
            enable_start_btn: None,
            enable_pause_btn: Some(false),
            enable_cancel_btn: Some(false),
            is_downloading: None,
            is_pause: None,
            has_failed_file: None,
            total_nums: None,
            downloaded_nums: None,
            content_length: None,
        }),
{
}

/// A playlist that cannot be resolved is told of as an error, and a download can be
/// started again.
pub proof fn law_failed_parse_is_shown(text: Seq<char>)
    ensures
        WindowUpdateView::parse_failed(text) == (WindowUpdateView {
            message: Some((text, true)),
            enable_start_btn: Some(true),
            enable_pause_btn: None,
            enable_cancel_btn: None,
            is_downloading: Some(false),
            is_pause: None,
            has_failed_file: None,
            total_nums: None,
            downloaded_nums: None,
            content_length: None,
        }),
{
}

/// Once the playlist is resolved, the number of files is shown, and the download can
/// be paused and canceled.
pub proof fn law_resolved_playlist_is_shown(total: i32)
    ensures
        WindowUpdateView::slicing(total) == (WindowUpdateView {
            message: Some(("Downloading..."@, false)),
            enable_start_btn: None,
            enable_pause_btn: Some(true),
            enable_cancel_btn: Some(true),
            is_downloading: None,
            is_pause: Some(false),
            has_failed_file: None,
            total_nums: Some(total),
            downloaded_nums: None,
            content_length: None,
        }),
{
}

/// A downloaded file changes the two counts, and nothing else.
pub proof fn law_progress_is_shown(downloaded: i32, size: Seq<char>)
    ensures
        WindowUpdateView::progress(downloaded, size) == (WindowUpdateView {
            message: None,
            enable_start_btn: None,
            enable_pause_btn: None,
            enable_cancel_btn: None,
            is_downloading: None,
            is_pause: None,
            has_failed_file: None,
            total_nums: None,
            downloaded_nums: Some(downloaded),
            content_length: Some(size),
        }),
{
}

/// A paused download can be started again, and keeps its counts.
pub proof fn law_pause_is_shown()
    ensures
        WindowUpdateView::paused() == (WindowUpdateView {
            message: Some(("Paused."@, false)),
            enable_start_btn: Some(true),
            enable_pause_btn: None,
            enable_cancel_btn: None,
            is_downloading: None,
            is_pause: Some(true),
            has_failed_file: None,
            total_nums: None,
            downloaded_nums: None,
            content_length: None,
        }),
{
}

/// A download that is over leaves the start button alone enabled. What is told is an
/// error exactly where files have failed, and the counts go only with a canceled one.
pub proof fn law_end_is_shown(text: Seq<char>, has_failed: bool, is_cancel: bool)
    ensures
        WindowUpdateView::over(text, has_failed, is_cancel) == (WindowUpdateView {
            message: Some((text, has_failed)),
            enable_start_btn: Some(true),
            enable_pause_btn: Some(false),
            enable_cancel_btn: Some(false),
            is_downloading: Some(false),
            is_pause: Some(false),
            has_failed_file: Some(has_failed),
            total_nums: if is_cancel {
                Some(0i32)
            } else {
                None
            },
            downloaded_nums: if is_cancel {
                Some(0i32)
            } else {
                None
            },
            content_length: None,
        }),
{
}

/// A change and its model say the same of everything in the window.
pub proof fn law_updates_keep_what_they_hold(u: WindowUpdate)
    ensures
        match u.message {
            Some((text, is_error)) => u@.message == Some((text@, is_error)),
            None => u@.message is None,
        },
        match u.content_length {
            Some(text) => u@.content_length == Some(text@),
            None => u@.content_length is None,
        },
        u@.enable_start_btn == u.enable_start_btn,
        u@.enable_pause_btn == u.enable_pause_btn,
        u@.enable_cancel_btn == u.enable_cancel_btn,
        u@.is_downloading == u.is_downloading,
        u@.is_pause == u.is_pause,
        u@.has_failed_file == u.has_failed_file,
        u@.total_nums == u.total_nums,
        u@.downloaded_nums == u.downloaded_nums,
{
}

/// Half of a length is half of it, towards zero by less than one where the length
/// is odd; opposite lengths have opposite halves.
pub proof fn law_half_is_towards_zero(n: int)
    ensures
        n >= 0 ==> 2 * half(n) <= n <= 2 * half(n) + 1,
        half(-n) == -half(n),
{
}

/// The window stands in the middle of the screen: a window of 370 by 600 pixels
/// leaves as much room before it as behind it, or one pixel less.
pub proof fn law_window_is_in_the_middle(screen_width: int, screen_height: int)
    requires
        screen_width >= 370,
        screen_height >= 600,
    ensures
        ({
            let left = half(screen_width - WINDOW_WIDTH);
            let right = screen_width - 370 - left;
            let top = half(screen_height - WINDOW_HEIGHT);
            let bottom = screen_height - 600 - top;
            &&& left >= 0 && left <= right <= left + 1
            &&& top >= 0 && top <= bottom <= top + 1
        }),
{
}

/// A change sets what it names, and leaves the rest of the window as it was.
pub proof fn law_window_changes_as_told(window: Window, u: WindowUpdateView)
    ensures
        ({
            let after = window.updated(u);
            &&& u.message matches Some(message) ==> after.message == message
            &&& u.message is None ==> after.message == window.message
            &&& u.enable_start_btn matches Some(b) ==> after.enable_start_btn == b
            &&& u.enable_start_btn is None ==> after.enable_start_btn == window.enable_start_btn
            &&& u.enable_pause_btn matches Some(b) ==> after.enable_pause_btn == b
            &&& u.enable_pause_btn is None ==> after.enable_pause_btn == window.enable_pause_btn
            &&& u.enable_cancel_btn matches Some(b) ==> after.enable_cancel_btn == b
            &&& u.enable_cancel_btn is None ==> after.enable_cancel_btn == window.enable_cancel_btn
            &&& u.is_downloading matches Some(b) ==> after.is_downloading == b
            &&& u.is_downloading is None ==> after.is_downloading == window.is_downloading
            &&& u.is_pause matches Some(b) ==> after.is_pause == b
            &&& u.is_pause is None ==> after.is_pause == window.is_pause
            &&& u.has_failed_file matches Some(b) ==> after.has_failed_file == b
            &&& u.has_failed_file is None ==> after.has_failed_file == window.has_failed_file
            &&& u.total_nums matches Some(n) ==> after.total_nums == n
            &&& u.total_nums is None ==> after.total_nums == window.total_nums
            &&& u.downloaded_nums matches Some(n) ==> after.downloaded_nums == n
            &&& u.downloaded_nums is None ==> after.downloaded_nums == window.downloaded_nums
            &&& u.content_length matches Some(size) ==> after.content_length == size
            &&& u.content_length is None ==> after.content_length == window.content_length
        }),
{
}

} // verus!
