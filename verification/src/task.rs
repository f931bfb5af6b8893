//! The download under way: what has been asked of it, and how far it is.

use vstd::prelude::*;
use vstd::string::*;

use crate::location::texts;
use crate::playlist::{files_view, WaitDownloadFile, WaitDownloadFileView};
use crate::save_path::byte_len;
use crate::size::{decimal, decimal_chars};
use crate::text::{find, lemma_find_from, lines_of, occurs_at, push_chars};
use crate::window::{WindowUpdate, WindowUpdateView};

verus! {

/// The name of the file that lists the links of what could not be downloaded.
pub const FAILED_FILENAME: &'static str = "failed_link.txt";

/// The download under way.
#[derive(Debug)]
pub struct DownloadTask {
    /// Whether the next start begins a new download; otherwise it goes on with
    /// the paused one.
    pub is_new_task: bool,
    /// Whether a pause has been asked for.
    pub is_pause: bool,
    /// Whether the end of the download has been asked for.
    pub is_cancel: bool,
    /// Whether the playlist could not be resolved.
    pub is_parse_fail: bool,
    /// How many files the download has.
    pub file_total_nums: usize,
    /// The names of the files that have been downloaded.
    pub downloaded_files: Vec<String>,
    /// The links of the files that could not be downloaded.
    pub failed_files: Vec<String>,
}

/// Model of a [`DownloadTask`].
pub struct DownloadTaskView {
    pub is_new_task: bool,
    pub is_pause: bool,
    pub is_cancel: bool,
    pub is_parse_fail: bool,
    pub file_total_nums: nat,
    pub downloaded_files: Seq<Seq<char>>,
    pub failed_files: Seq<Seq<char>>,
}

impl View for DownloadTask {
    type V = DownloadTaskView;

    open spec fn view(&self) -> DownloadTaskView {
        DownloadTaskView {
            is_new_task: self.is_new_task,
            is_pause: self.is_pause,
            is_cancel: self.is_cancel,
            is_parse_fail: self.is_parse_fail,
            file_total_nums: self.file_total_nums as nat,
            downloaded_files: texts(self.downloaded_files@),
            failed_files: texts(self.failed_files@),
        }
    }
}

/// The files that have not been downloaded yet, in order.
pub open spec fn remaining_files(
    files: Seq<WaitDownloadFileView>,
    downloaded: Seq<Seq<char>>,
) -> Seq<WaitDownloadFileView> {
    files.filter(|f: WaitDownloadFileView| !downloaded.contains(f.slice_name))
}

/// What tells of files that could not be downloaded.
pub open spec fn failure_message(failed: nat) -> Seq<char> {
    decimal(failed) + " file"@ + (if failed > 1 {
        "s"@
    } else {
        ""@
    }) + " cannot be downloaded"@
}

impl DownloadTaskView {
    /// Before the first download.
    pub open spec fn initial() -> Self {
        DownloadTaskView {
            is_new_task: true,
            is_pause: false,
            is_cancel: false,
            is_parse_fail: false,
            file_total_nums: 0,
            downloaded_files: Seq::empty(),
            failed_files: Seq::empty(),
        }
    }

    /// A download begins or goes on.
    pub open spec fn started(self) -> Self {
        DownloadTaskView {
            is_pause: false,
            is_cancel: false,
            is_parse_fail: false,
            failed_files: Seq::empty(),
            ..self
        }
    }

    /// The playlist cannot be resolved.
    pub open spec fn parse_failed(self) -> Self {
        DownloadTaskView { is_parse_fail: true, ..self }
    }

    /// The playlist names `total` files. They are counted when a download
    /// begins, not when it goes on.
    pub open spec fn resolved(self, total: nat) -> Self {
        if self.is_new_task {
            DownloadTaskView { file_total_nums: total, ..self }
        } else {
            self
        }
    }

    /// Which of the files in the playlist are to be downloaded: all of them when
    /// a download begins, those that are missing when it goes on.
    pub open spec fn selected(self, files: Seq<WaitDownloadFileView>) -> Seq<
        WaitDownloadFileView,
    > {
        if self.is_new_task {
            files
        } else {
            remaining_files(files, self.downloaded_files)
        }
    }

    /// A file has been downloaded.
    pub open spec fn completed(self, slice_name: Seq<char>) -> Self {
        DownloadTaskView { downloaded_files: self.downloaded_files.push(slice_name), ..self }
    }

    /// A file could not be downloaded.
    pub open spec fn failed(self, download_url: Seq<char>) -> Self {
        DownloadTaskView { failed_files: self.failed_files.push(download_url), ..self }
    }

    /// A pause is asked for.
    pub open spec fn paused(self) -> Self {
        DownloadTaskView { is_pause: true, is_new_task: false, ..self }
    }

    /// The end of the download is asked for. A paused download ends at once, one
    /// that runs when its thread notices.
    pub open spec fn canceled(self) -> Self {
        let asked = DownloadTaskView { is_cancel: true, ..self };
        if self.is_pause {
            asked.reset()
        } else {
            asked
        }
    }

    /// The download is over: the next one begins anew.
    pub open spec fn reset(self) -> Self {
        DownloadTaskView {
            is_new_task: true,
            file_total_nums: 0,
            downloaded_files: Seq::empty(),
            ..self
        }
    }

    /// Whether a job that has not started is to be left alone.
    pub open spec fn is_stopping(self) -> bool {
        self.is_pause || self.is_cancel
    }

    /// Whether every file has been downloaded.
    pub open spec fn is_complete(self) -> bool {
        self.file_total_nums == self.downloaded_files.len()
    }

    /// What the window shows once the download is over. Files that could not be
    /// downloaded outweigh the message, unless the download was canceled.
    pub open spec fn over_update(self, message: Seq<char>, is_cancel: bool) -> WindowUpdateView {
        let failed: nat = if is_cancel {
            0
        } else {
            self.failed_files.len()
        };
        WindowUpdateView::over(
            if failed > 0 {
                failure_message(failed)
            } else {
                message
            },
            failed > 0,
            is_cancel,
        )
    }
}

/// What happens once the files of a download have been seen to.
#[derive(Debug)]
pub enum AfterDownload {
    /// Nothing more: the playlist could not be resolved.
    Nothing,
    /// The window shows this.
    Show(WindowUpdate),
    /// The window shows this, and the downloaded files that are named are
    /// converted.
    Convert(WindowUpdate, Vec<String>),
}

/// Model of an [`AfterDownload`].
pub enum AfterDownloadView {
    Nothing,
    Show(WindowUpdateView),
    Convert(WindowUpdateView, Seq<Seq<char>>),
}

impl View for AfterDownload {
    type V = AfterDownloadView;

    open spec fn view(&self) -> AfterDownloadView {
        match self {
            AfterDownload::Nothing => AfterDownloadView::Nothing,
            AfterDownload::Show(update) => AfterDownloadView::Show(update@),
            AfterDownload::Convert(update, files) => AfterDownloadView::Convert(
                update@,
                texts(files@),
            ),
        }
    }
}

impl DownloadTaskView {
    /// What happens once the files of a download have been seen to, and what the
    /// download then is. `converts` says whether the files are converted once
    /// they are all there.
    pub open spec fn after_download(self, converts: bool) -> (Self, AfterDownloadView) {
        if self.is_parse_fail {
            (self, AfterDownloadView::Nothing)
        } else if self.is_pause {
            (self, AfterDownloadView::Show(WindowUpdateView::paused()))
        } else if self.is_cancel {
            (self.reset(), AfterDownloadView::Show(self.over_update("Canceled."@, true)))
        } else if !self.is_complete() {
            (self.reset(), AfterDownloadView::Show(self.over_update(""@, false)))
        } else if converts {
            (
                self,
                AfterDownloadView::Convert(
                    WindowUpdateView::message("Converting to MP4 now..."@, false),
                    self.downloaded_files,
                ),
            )
        } else {
            (
                self.reset(),
                AfterDownloadView::Show(
                    self.over_update("All segments have been downloaded!"@, false),
                ),
            )
        }
    }
}

/// What is appended to the list of failed links, which is `len` bytes long: the
/// link, on a line of its own.
pub open spec fn failed_entry(len: nat, download_url: Seq<char>) -> Seq<char> {
    if len > 0 {
        seq!['\n'] + download_url
    } else {
        download_url
    }
}

// ---------------------------------------------------------------------------
// Executable functions
// ---------------------------------------------------------------------------
/// What is appended to the list of failed links, which is `list_len` bytes long,
/// for a file that could not be downloaded.
pub fn failed_link_entry(list_len: u64, download_url: &str) -> (res: String)
    ensures
        res@ == failed_entry(list_len as nat, download_url@),
        list_len == 0 ==> res@ == download_url@,
        list_len > 0 ==> res@ == seq!['\n'] + download_url@,
{
    let mut entry = String::new();
    if list_len > 0 {
        entry.push('\n');
    }
    entry.append(download_url);
    entry
}

/// Whether a name is among the given ones.
fn contains_name(names: &Vec<String>, name: &String) -> (res: bool)
    ensures
        res == texts(names@).contains(name@),
{
    let n: usize = names.len();
    let mut i: usize = 0;
    while i < n
        invariant
            n == names@.len(),
            i <= n,
            forall|j: int| 0 <= j < i ==> #[trigger] texts(names@)[j] != name@,
        decreases n - i,
    {
        if names[i] == *name {
            assert(texts(names@)[i as int] == name@);
            return true;
        }
        i += 1;
    }
    false
}

/// Copies of the given names.
fn copy_names(names: &Vec<String>) -> (res: Vec<String>)
    ensures
        texts(res@) == texts(names@),
{
    let n: usize = names.len();
    let mut res: Vec<String> = Vec::new();
    let mut i: usize = 0;
    while i < n
        invariant
            n == names@.len(),
            i <= n,
            res@.len() == i,
            forall|j: int| 0 <= j < i ==> (#[trigger] res@[j])@ == names@[j]@,
        decreases n - i,
    {
        res.push(names[i].clone());
        i += 1;
    }
    assert(texts(res@) =~= texts(names@));
    res
}

/// What tells of files that could not be downloaded.
fn failure_text(failed: usize) -> (res: String)
    ensures
        res@ == failure_message(failed as nat),
{
    let mut out = String::new();
    push_chars(&mut out, decimal_chars(failed as u64).as_slice());
    out.append(" file");
    out.append(
        if failed > 1 {
            "s"
        } else {
            ""
        },
    );
    out.append(" cannot be downloaded");
    out
}

impl DownloadTask {
    /// Before the first download.
    pub fn new() -> (res: Self)
        ensures
            res@ == DownloadTaskView::initial(),
    {
        let res = DownloadTask {
            is_new_task: true,
            is_pause: false,
            is_cancel: false,
            is_parse_fail: false,
            file_total_nums: 0,
            downloaded_files: Vec::new(),
            failed_files: Vec::new(),
        };
        assert(texts(res.downloaded_files@) == Seq::<Seq<char>>::empty());
        res
    }

    /// A download begins or goes on.
    pub fn start(&mut self)
        ensures
            final(self)@ == old(self)@.started(),
            !final(self).is_pause && !final(self).is_cancel && !final(self).is_parse_fail,
            final(self).failed_files@.len() == 0,
            final(self).is_new_task == old(self).is_new_task,
            final(self).file_total_nums == old(self).file_total_nums,
            final(self).downloaded_files == old(self).downloaded_files,
    {
        self.is_pause = false;
        self.is_cancel = false;
        self.is_parse_fail = false;
        self.failed_files.clear();
        assert(texts(self.failed_files@) == Seq::<Seq<char>>::empty());
    }

    /// The playlist cannot be resolved. The window shows why.
    pub fn fail_parse(&mut self, message: String) -> (res: WindowUpdate)
        ensures
            final(self)@ == old(self)@.parse_failed(),
            res@ == WindowUpdateView::parse_failed(message@),
            final(self).is_parse_fail,
            res@.message == Some((message@, true)),
    {
        self.is_parse_fail = true;
        WindowUpdate::parse_failed(message)
    }

    /// Takes in the files that a playlist names, and gives those of them that
    /// are to be downloaded.
    pub fn select_files(&mut self, all_files: Vec<WaitDownloadFile>) -> (res: Vec<
        WaitDownloadFile,
    >)
        ensures
            final(self)@ == old(self)@.resolved(all_files@.len()),
            files_view(res@) == old(self)@.selected(files_view(all_files@)),
            old(self).is_new_task ==> files_view(res@) == files_view(all_files@)
                && final(self).file_total_nums == all_files@.len(),
            !old(self).is_new_task ==> final(self)@ == old(self)@,
            final(self).downloaded_files == old(self).downloaded_files,
            final(self).is_new_task == old(self).is_new_task,
    {
        if self.is_new_task {
            self.file_total_nums = all_files.len();
            return all_files;
        }
        let ghost downloaded = self@.downloaded_files;
        let ghost missing = |f: WaitDownloadFileView| !downloaded.contains(f.slice_name);
        let ghost all = files_view(all_files@);
        let mut res: Vec<WaitDownloadFile> = Vec::new();
        assert(all.take(0).filter(missing) == Seq::<WaitDownloadFileView>::empty()) by {
            reveal(Seq::filter);
        }
        for file in it: all_files
            invariant
                downloaded == texts(self.downloaded_files@),
                missing == (|f: WaitDownloadFileView| !downloaded.contains(f.slice_name)),
                all == files_view(it.seq()),
                files_view(res@) == all.take(it.index() as int).filter(missing),
        {
            let ghost i = it.index() as int;
            let ghost start = files_view(res@);
            assert(all[i] == file@);
            assert(all.take(i + 1).drop_last() == all.take(i));
            assert(all.take(i + 1).filter(missing) == if missing(file@) {
                start.push(file@)
            } else {
                start
            }) by {
                reveal(Seq::filter);
            }
            if !contains_name(&self.downloaded_files, &file.slice_name) {
                res.push(file);
                assert(files_view(res@) == start.push(file@));
            }
        }
        assert(all.take(all.len() as int) == all);
        res
    }

    /// Whether a job that has not started is to be left alone.
    pub fn should_skip(&self) -> (res: bool)
        ensures
            res == self@.is_stopping(),
            res <==> self.is_pause || self.is_cancel,
    {
        self.is_pause || self.is_cancel
    }

    /// A file has been downloaded. Gives how many there are now.
    pub fn complete_slice(&mut self, slice_name: String) -> (res: usize)
        ensures
            final(self)@ == old(self)@.completed(slice_name@),
            res == final(self)@.downloaded_files.len(),
            final(self).downloaded_files@ == old(self).downloaded_files@.push(slice_name),
    {
        self.downloaded_files.push(slice_name);
        assert(texts(self.downloaded_files@) == texts(old(self).downloaded_files@).push(
            slice_name@,
        ));
        self.downloaded_files.len()
    }

    /// A file could not be downloaded.
    pub fn record_failed_file(&mut self, download_url: &str)
        ensures
            final(self)@ == old(self)@.failed(download_url@),
            final(self)@.failed_files == old(self)@.failed_files.push(download_url@),
            final(self).downloaded_files == old(self).downloaded_files,
    {
        let url = download_url.to_owned();
        self.failed_files.push(url);
        assert(texts(self.failed_files@) == texts(old(self).failed_files@).push(download_url@));
    }

    /// A pause is asked for.
    pub fn pause(&mut self)
        ensures
            final(self)@ == old(self)@.paused(),
            final(self).is_pause && !final(self).is_new_task,
            final(self).is_cancel == old(self).is_cancel,
            final(self).file_total_nums == old(self).file_total_nums,
            final(self).downloaded_files == old(self).downloaded_files,
            final(self).failed_files == old(self).failed_files,
    {
        self.is_pause = true;
        self.is_new_task = false;
    }

    /// The end of the download is asked for. A paused download ends at once, and
    /// the window shows that.
    pub fn cancel(&mut self) -> (res: Option<WindowUpdate>)
        ensures
            final(self)@ == old(self)@.canceled(),
            match res {
                Some(update) => old(self)@.is_pause && update@ == old(self)@.over_update(
                    "Canceled."@,
                    true,
                ),
                None => !old(self)@.is_pause,
            },
            final(self).is_cancel,
            res is Some <==> old(self).is_pause,
            old(self).is_pause ==> final(self).is_new_task && final(self).downloaded_files@.len()
                == 0 && final(self).file_total_nums == 0,
            !old(self).is_pause ==> final(self).is_new_task == old(self).is_new_task && final(self).downloaded_files == old(self).downloaded_files && final(self).file_total_nums == old(self).file_total_nums,
    {
        self.is_cancel = true;
        if self.is_pause {
            Some(self.reset_download_status("Canceled.".to_owned(), true))
        } else {
            None
        }
    }

    /// The download is over: the next one begins anew. Gives what the window
    /// shows.
    pub fn reset_download_status(&mut self, message: String, is_cancel_reset: bool) -> (res:
        WindowUpdate)
        ensures
            final(self)@ == old(self)@.reset(),
            res@ == old(self)@.over_update(message@, is_cancel_reset),
            final(self).is_new_task,
            final(self).file_total_nums == 0,
            final(self).downloaded_files@.len() == 0,
            res.has_failed_file == Some(!is_cancel_reset && old(self).failed_files@.len() > 0),
            is_cancel_reset || old(self).failed_files@.len() == 0 ==> res@.message == Some(
                (message@, false),
            ),
    {
        let failed_file_nums: usize = if is_cancel_reset {
            0
        } else {
            self.failed_files.len()
        };
        let final_message = if failed_file_nums > 0 {
            failure_text(failed_file_nums)
        } else {
            message
        };
        self.downloaded_files.clear();
        assert(texts(self.downloaded_files@) == Seq::<Seq<char>>::empty());
        self.is_new_task = true;
        self.file_total_nums = 0;
        WindowUpdate::over(final_message, failed_file_nums > 0, is_cancel_reset)
    }

    /// The files of a download have been seen to: what happens next. `converts`
    /// says whether the files are converted once they are all there.
    pub fn finish(&mut self, converts: bool) -> (res: AfterDownload)
        ensures
            (final(self)@, res@) == old(self)@.after_download(converts),
            old(self).is_parse_fail ==> res is Nothing && final(self)@ == old(self)@,
            !old(self).is_parse_fail && old(self).is_pause ==> final(self)@ == old(self)@ && (
            res matches AfterDownload::Show(update) && update@.message == Some(("Paused."@, false))
                && update.is_pause == Some(true) && update.enable_start_btn == Some(true)),
            res is Convert <==> !old(self).is_parse_fail && !old(self).is_pause && !old(self).is_cancel && converts && old(self).file_total_nums == old(self).downloaded_files@.len(),
            res matches AfterDownload::Convert(_, files) ==> texts(files@) == texts(
                old(self).downloaded_files@,
            ) && final(self)@ == old(self)@,
            final(self)@ != old(self)@ ==> !old(self).is_parse_fail && !old(self).is_pause
                && final(self).is_new_task && final(self).downloaded_files@.len() == 0,
    {
        if self.is_parse_fail {
            return AfterDownload::Nothing;
        }
        if self.is_pause {
            return AfterDownload::Show(WindowUpdate::paused());
        }
        if self.is_cancel {
            return AfterDownload::Show(
                self.reset_download_status("Canceled.".to_owned(), true),
            );
        }
        if self.file_total_nums != self.downloaded_files.len() {
            return AfterDownload::Show(self.reset_download_status("".to_owned(), false));
        }
        if converts {
            let files = copy_names(&self.downloaded_files);
            return AfterDownload::Convert(
                WindowUpdate::message("Converting to MP4 now...".to_owned(), false),
                files,
            );
        }
        AfterDownload::Show(
            self.reset_download_status("All segments have been downloaded!".to_owned(), false),
        )
    }
}

// ---------------------------------------------------------------------------
// Laws
// ---------------------------------------------------------------------------
/// Once a download is over, the next one begins anew: whatever it is made of, all
/// of its files are downloaded and counted.
pub proof fn law_next_download_begins_anew(
    task: DownloadTaskView,
    files: Seq<WaitDownloadFileView>,
)
    ensures
        ({
            let next = task.reset().started();
            &&& next == DownloadTaskView::initial()
            &&& next.selected(files) == files
            &&& next.resolved(files.len()).file_total_nums == files.len()
        }),
{
}

/// A download that was paused goes on where it was: it still counts the files it
/// had, downloads none a second time, and leaves out none that is missing.
pub proof fn law_paused_download_goes_on(task: DownloadTaskView, files: Seq<WaitDownloadFileView>)
    ensures
        ({
            let next = task.paused().started().resolved(files.len());
            let selected = task.paused().started().selected(files);
            &&& next.file_total_nums == task.file_total_nums
            &&& next.downloaded_files == task.downloaded_files
            &&& !next.is_stopping()
            &&& forall|i: int|
                0 <= i < selected.len() ==> files.contains(#[trigger] selected[i])
                    && !task.downloaded_files.contains(selected[i].slice_name)
            &&& forall|i: int|
                0 <= i < files.len() ==> selected.contains(#[trigger] files[i])
                    || task.downloaded_files.contains(files[i].slice_name)
        }),
{
    let missing = |f: WaitDownloadFileView| !task.downloaded_files.contains(f.slice_name);
    broadcast use vstd::seq_lib::group_filter_ensures;

    let selected = task.paused().started().selected(files);
    assert(selected == files.filter(missing));
    assert forall|i: int| 0 <= i < selected.len() implies files.contains(#[trigger] selected[i])
        && !task.downloaded_files.contains(selected[i].slice_name) by {
        assert(missing(selected[i]));
        files.lemma_filter_contains_rev(missing, selected[i]);
    }
    assert forall|i: int| 0 <= i < files.len() implies selected.contains(#[trigger] files[i])
        || task.downloaded_files.contains(files[i].slice_name) by {
        if missing(files[i]) {
            assert(selected.contains(files[i]));
        }
    }
}

/// A paused download that is canceled is over at once; nothing of it is left for
/// the next one.
pub proof fn law_paused_download_is_canceled_at_once(task: DownloadTaskView)
    ensures
        task.paused().canceled().started() == DownloadTaskView::initial(),
{
}

/// The names of the given files.
pub open spec fn slice_names(files: Seq<WaitDownloadFileView>) -> Seq<Seq<char>> {
    files.map_values(|f: WaitDownloadFileView| f.slice_name)
}

/// The download after the named files have been downloaded, one after the other.
pub open spec fn completed_all(task: DownloadTaskView, names: Seq<Seq<char>>) -> DownloadTaskView
    decreases names.len(),
{
    if names.len() == 0 {
        task
    } else {
        completed_all(task, names.drop_last()).completed(names.last())
    }
}

proof fn lemma_completed_all(task: DownloadTaskView, names: Seq<Seq<char>>)
    ensures
        completed_all(task, names) == (DownloadTaskView {
            downloaded_files: task.downloaded_files + names,
            ..task
        }),
    decreases names.len(),
{
    if names.len() == 0 {
        assert(task.downloaded_files + names == task.downloaded_files);
    } else {
        lemma_completed_all(task, names.drop_last());
        assert((task.downloaded_files + names.drop_last()).push(names.last())
            == task.downloaded_files + names);
    }
}

proof fn lemma_remaining_names(files: Seq<WaitDownloadFileView>, downloaded: Seq<Seq<char>>)
    requires
        slice_names(files).no_duplicates(),
    ensures
        ({
            let left = slice_names(remaining_files(files, downloaded));
            &&& left.no_duplicates()
            &&& forall|name: Seq<char>| #[trigger]
                left.contains(name) <==> slice_names(files).contains(name)
                    && !downloaded.contains(name)
        }),
    decreases files.len(),
{
    let missing = |f: WaitDownloadFileView| !downloaded.contains(f.slice_name);
    reveal(Seq::filter);
    let names = slice_names(files);
    let left = slice_names(remaining_files(files, downloaded));
    if files.len() == 0 {
        assert(left.len() == 0);
        assert(names.len() == 0);
    } else {
        let first = files.drop_last();
        let last = files.last();
        let first_left = slice_names(remaining_files(first, downloaded));
        assert(slice_names(first) == names.drop_last());
        lemma_remaining_names(first, downloaded);
        assert(names == slice_names(first).push(last.slice_name));
        assert(!slice_names(first).contains(last.slice_name)) by {
            if slice_names(first).contains(last.slice_name) {
                let i = choose|i: int|
                    0 <= i < first.len() && slice_names(first)[i] == last.slice_name;
                assert(names[i] == names[files.len() - 1]);
            }
        }
        if missing(last) {
            assert(remaining_files(files, downloaded) == remaining_files(first, downloaded).push(
                last,
            ));
            assert(left == first_left.push(last.slice_name));
            assert(!first_left.contains(last.slice_name));
            assert(left.no_duplicates()) by {
                assert forall|i: int, j: int|
                    0 <= i < left.len() && 0 <= j < left.len() && i != j implies left[i]
                    != left[j] by {
                    if i < first_left.len() && j < first_left.len() {
                        assert(first_left[i] != first_left[j]);
                    } else if i < first_left.len() {
                        assert(first_left.contains(first_left[i]));
                    } else {
                        assert(first_left.contains(first_left[j]));
                    }
                }
            }
        } else {
            assert(remaining_files(files, downloaded) == remaining_files(first, downloaded));
        }
        assert forall|name: Seq<char>| #[trigger]
            left.contains(name) <==> names.contains(name) && !downloaded.contains(name) by {
            assert(names.contains(name) <==> slice_names(first).contains(name) || name
                == last.slice_name) by {
                if slice_names(first).contains(name) {
                    let i = slice_names(first).index_of(name);
                    assert(names[i] == name);
                }
                if name == last.slice_name {
                    assert(names[files.len() - 1] == name);
                }
            }
            if missing(last) {
                assert(left.contains(name) <==> first_left.contains(name) || name
                    == last.slice_name) by {
                    if first_left.contains(name) {
                        let i = first_left.index_of(name);
                        assert(left[i] == name);
                    }
                    if name == last.slice_name {
                        assert(left[first_left.len() as int] == name);
                    }
                }
            }
        }
    }
}

proof fn lemma_remaining_count(files: Seq<WaitDownloadFileView>, downloaded: Seq<Seq<char>>)
    requires
        slice_names(files).no_duplicates(),
        downloaded.no_duplicates(),
        forall|i: int|
            0 <= i < downloaded.len() ==> slice_names(files).contains(#[trigger] downloaded[i]),
    ensures
        downloaded.len() + remaining_files(files, downloaded).len() == files.len(),
{
    let names = slice_names(files);
    let left = slice_names(remaining_files(files, downloaded));
    lemma_remaining_names(files, downloaded);
    names.unique_seq_to_set();
    downloaded.unique_seq_to_set();
    left.unique_seq_to_set();
    assert(names.to_set() =~= downloaded.to_set() + left.to_set()) by {
        assert forall|name: Seq<char>| names.to_set().contains(name) <==> (downloaded.to_set()
            + left.to_set()).contains(name) by {
            assert(left.contains(name) <==> names.contains(name) && !downloaded.contains(name));
            if downloaded.contains(name) {
                let i = downloaded.index_of(name);
                assert(names.contains(downloaded[i]));
            }
        }
    }
    assert(downloaded.to_set().disjoint(left.to_set())) by {
        assert forall|name: Seq<char>| downloaded.to_set().contains(name) implies !(
        #[trigger] left.to_set().contains(name)) by {
            assert(left.contains(name) ==> !downloaded.contains(name));
        }
    }
    vstd::set_lib::lemma_set_disjoint_lens(downloaded.to_set(), left.to_set());
}

/// A download is complete once each of the files that it set out to download has
/// been downloaded, and not before.
pub proof fn law_new_download_completes(
    task: DownloadTaskView,
    files: Seq<WaitDownloadFileView>,
    count: int,
)
    requires
        task.is_new_task,
        task.downloaded_files.len() == 0,
        0 <= count <= task.started().selected(files).len(),
    ensures
        ({
            let begun = task.started();
            let names = slice_names(begun.selected(files));
            completed_all(begun.resolved(files.len()), names.take(count)).is_complete() <==> count
                == names.len()
        }),
{
    let begun = task.started();
    let names = slice_names(begun.selected(files));
    lemma_completed_all(begun.resolved(files.len()), names.take(count));
}

/// A download that was paused is complete once each of the files that were
/// missing has been downloaded, too, and not before, provided that no two files
/// share a name and that what had been downloaded are files of it, each once.
pub proof fn law_resumed_download_completes(
    task: DownloadTaskView,
    files: Seq<WaitDownloadFileView>,
    count: int,
)
    requires
        task.file_total_nums == files.len(),
        slice_names(files).no_duplicates(),
        task.downloaded_files.no_duplicates(),
        forall|i: int|
            0 <= i < task.downloaded_files.len() ==> slice_names(files).contains(
                #[trigger] task.downloaded_files[i],
            ),
        0 <= count <= task.paused().started().selected(files).len(),
    ensures
        ({
            let resumed = task.paused().started();
            let names = slice_names(resumed.selected(files));
            completed_all(resumed.resolved(files.len()), names.take(count)).is_complete() <==> count
                == names.len()
        }),
{
    let resumed = task.paused().started();
    let names = slice_names(resumed.selected(files));
    lemma_completed_all(resumed.resolved(files.len()), names.take(count));
    lemma_remaining_count(files, task.downloaded_files);
}

/// Files that could not be downloaded are told of, whatever else there is to tell,
/// unless the download is canceled.
pub proof fn law_failed_files_are_told_of(task: DownloadTaskView, message: Seq<char>)
    ensures
        task.over_update(message, false) == if task.failed_files.len() > 0 {
            WindowUpdateView::over(failure_message(task.failed_files.len()), true, false)
        } else {
            WindowUpdateView::over(message, false, false)
        },
        task.over_update(message, true) == WindowUpdateView::over(message, false, true),
{
}

/// The list of failed links, after each of the given links has been appended to
/// an empty one.
pub open spec fn failed_list(urls: Seq<Seq<char>>) -> Seq<char>
    decreases urls.len(),
{
    if urls.len() == 0 {
        Seq::empty()
    } else {
        let list = failed_list(urls.drop_last());
        list + failed_entry(byte_len(list), urls.last())
    }
}

/// Texts with a newline between them.
pub open spec fn newline_joined(urls: Seq<Seq<char>>) -> Seq<char>
    decreases urls.len(),
{
    if urls.len() == 0 {
        Seq::empty()
    } else if urls.len() == 1 {
        urls[0]
    } else {
        urls[0] + seq!['\n'] + newline_joined(urls.drop_first())
    }
}

proof fn lemma_newline_joined_push(urls: Seq<Seq<char>>, url: Seq<char>)
    requires
        urls.len() > 0,
    ensures
        newline_joined(urls.push(url)) == newline_joined(urls) + seq!['\n'] + url,
    decreases urls.len(),
{
    let all = urls.push(url);
    assert(all.drop_first() == urls.drop_first().push(url));
    if urls.len() == 1 {
        assert(all.drop_first() == seq![url]);
        assert(newline_joined(seq![url]) == url);
    } else {
        lemma_newline_joined_push(urls.drop_first(), url);
        assert(newline_joined(all) == newline_joined(urls) + seq!['\n'] + url);
    }
}

/// The list of failed links is the links with a newline between them, provided
/// that none of them is empty.
pub proof fn law_failed_list_is_links_joined(urls: Seq<Seq<char>>)
    requires
        forall|i: int| 0 <= i < urls.len() ==> (#[trigger] urls[i]).len() > 0,
    ensures
        failed_list(urls) == newline_joined(urls),
        urls.len() > 0 ==> failed_list(urls).len() > 0,
    decreases urls.len(),
{
    if urls.len() > 0 {
        let first = urls.drop_last();
        let list = failed_list(first);
        assert(urls == first.push(urls.last()));
        assert forall|i: int| 0 <= i < first.len() implies (#[trigger] first[i]).len() > 0 by {
            assert(first[i] == urls[i]);
        }
        law_failed_list_is_links_joined(first);
        if first.len() > 0 {
            lemma_newline_joined_push(first, urls.last());
            assert(list + (seq!['\n'] + urls.last()) == list + seq!['\n'] + urls.last());
        } else {
            assert(list + urls.last() == urls.last());
        }
    }
}

/// A link that stays on the line it is written on.
pub open spec fn is_one_line(url: Seq<char>) -> bool {
    url.len() > 0 && !url.contains('\n') && url.last() != '\r'
}

proof fn lemma_first_line(line: Seq<char>, rest: Seq<char>)
    requires
        is_one_line(line),
    ensures
        lines_of(line + seq!['\n'] + rest) == seq![line] + lines_of(rest),
        lines_of(line) == seq![line],
{
    let newline = seq!['\n'];
    let all = line + newline + rest;
    lemma_find_from(all, newline, 0);
    lemma_find_from(line, newline, 0);
    assert(occurs_at(all, newline, line.len() as int)) by {
        assert(all.subrange(line.len() as int, (line.len() + 1) as int) == newline);
    }
    assert forall|i: int| 0 <= i < line.len() implies !occurs_at(all, newline, i) && !occurs_at(
        line,
        newline,
        i,
    ) by {
        assert(line[i] != '\n');
        assert(all.subrange(i, i + 1)[0] == line[i]);
        assert(line.subrange(i, i + 1)[0] == line[i]);
    }
    assert(find(all, newline) == Some(line.len() as int));
    assert(find(line, newline) is None);
    assert(all.subrange(0, line.len() as int) == line);
    assert(all.subrange((line.len() + 1) as int, all.len() as int) == rest);
}

proof fn lemma_joined_lines(urls: Seq<Seq<char>>)
    requires
        forall|i: int| 0 <= i < urls.len() ==> is_one_line(#[trigger] urls[i]),
    ensures
        lines_of(newline_joined(urls)) == urls,
    decreases urls.len(),
{
    if urls.len() == 1 {
        assert(is_one_line(urls[0]));
        lemma_first_line(urls[0], Seq::empty());
        assert(urls == seq![urls[0]]);
    } else if urls.len() > 1 {
        let rest = urls.drop_first();
        assert(is_one_line(urls[0]));
        assert forall|i: int| 0 <= i < rest.len() implies is_one_line(#[trigger] rest[i]) by {
            assert(rest[i] == urls[i + 1]);
        }
        lemma_joined_lines(rest);
        lemma_first_line(urls[0], newline_joined(rest));
        assert(seq![urls[0]] + rest == urls);
    }
}

/// The list of failed links holds each link on a line of its own, in the order in
/// which they failed: reading its lines gives the links back, provided that each
/// of them is a line.
pub proof fn law_failed_list_gives_links_back(urls: Seq<Seq<char>>)
    requires
        forall|i: int| 0 <= i < urls.len() ==> is_one_line(#[trigger] urls[i]),
    ensures
        lines_of(failed_list(urls)) == urls,
{
    assert forall|i: int| 0 <= i < urls.len() implies (#[trigger] urls[i]).len() > 0 by {
        assert(is_one_line(urls[i]));
    }
    law_failed_list_is_links_joined(urls);
    lemma_joined_lines(urls);
}

/// Before the first download nothing is there and nothing has been asked for.
pub proof fn law_nothing_is_there_at_first()
    ensures
        DownloadTaskView::initial() == (DownloadTaskView {
            is_new_task: true,
            is_pause: false,
            is_cancel: false,
            is_parse_fail: false,
            file_total_nums: 0,
            downloaded_files: Seq::empty(),
            failed_files: Seq::empty(),
        }),
{
}

/// Starting takes back what had been asked for and forgets failures. What has been
/// downloaded, and whether the download is a new one, stay.
pub proof fn law_start_keeps_what_is_there(task: DownloadTaskView)
    ensures
        task.started() == (DownloadTaskView {
            is_new_task: task.is_new_task,
            is_pause: false,
            is_cancel: false,
            is_parse_fail: false,
            file_total_nums: task.file_total_nums,
            downloaded_files: task.downloaded_files,
            failed_files: Seq::empty(),
        }),
{
}

/// A playlist that cannot be resolved leaves the download as it is, but for the
/// mark.
pub proof fn law_failed_parse_keeps_what_is_there(task: DownloadTaskView)
    ensures
        task.parse_failed() == (DownloadTaskView {
            is_new_task: task.is_new_task,
            is_pause: task.is_pause,
            is_cancel: task.is_cancel,
            is_parse_fail: true,
            file_total_nums: task.file_total_nums,
            downloaded_files: task.downloaded_files,
            failed_files: task.failed_files,
        }),
{
}

/// A pause keeps all that is there; the next start goes on with it.
pub proof fn law_pause_keeps_what_is_there(task: DownloadTaskView)
    ensures
        task.paused() == (DownloadTaskView {
            is_new_task: false,
            is_pause: true,
            is_cancel: task.is_cancel,
            is_parse_fail: task.is_parse_fail,
            file_total_nums: task.file_total_nums,
            downloaded_files: task.downloaded_files,
            failed_files: task.failed_files,
        }),
{
}

/// Files are counted when a download begins. One that goes on keeps its count.
pub proof fn law_files_are_counted_at_the_beginning(task: DownloadTaskView, total: nat)
    ensures
        task.resolved(total) == (DownloadTaskView {
            is_new_task: task.is_new_task,
            is_pause: task.is_pause,
            is_cancel: task.is_cancel,
            is_parse_fail: task.is_parse_fail,
            file_total_nums: if task.is_new_task {
                total
            } else {
                task.file_total_nums
            },
            downloaded_files: task.downloaded_files,
            failed_files: task.failed_files,
        }),
{
}

/// A downloaded file is noted after the others, and nothing else changes.
pub proof fn law_downloaded_file_is_noted(task: DownloadTaskView, name: Seq<char>)
    ensures
        task.completed(name) == (DownloadTaskView {
            is_new_task: task.is_new_task,
            is_pause: task.is_pause,
            is_cancel: task.is_cancel,
            is_parse_fail: task.is_parse_fail,
            file_total_nums: task.file_total_nums,
            downloaded_files: task.downloaded_files.push(name),
            failed_files: task.failed_files,
        }),
{
}

/// A failed file is noted after the others, and nothing else changes.
pub proof fn law_failed_file_is_noted(task: DownloadTaskView, url: Seq<char>)
    ensures
        task.failed(url) == (DownloadTaskView {
            is_new_task: task.is_new_task,
            is_pause: task.is_pause,
            is_cancel: task.is_cancel,
            is_parse_fail: task.is_parse_fail,
            file_total_nums: task.file_total_nums,
            downloaded_files: task.downloaded_files,
            failed_files: task.failed_files.push(url),
        }),
{
}

/// A download that is over leaves no files and no count to the next, which is a new
/// one. Failures are kept until then.
pub proof fn law_end_forgets_what_is_there(task: DownloadTaskView)
    ensures
        task.reset() == (DownloadTaskView {
            is_new_task: true,
            is_pause: task.is_pause,
            is_cancel: task.is_cancel,
            is_parse_fail: task.is_parse_fail,
            file_total_nums: 0,
            downloaded_files: Seq::empty(),
            failed_files: task.failed_files,
        }),
{
}

/// Canceling ends a paused download at once, as its thread has ended; of one that
/// runs it only notes that the end was asked for.
pub proof fn law_cancel_ends_paused_downloads(task: DownloadTaskView)
    ensures
        task.canceled() == (DownloadTaskView {
            is_new_task: task.is_new_task || task.is_pause,
            is_pause: task.is_pause,
            is_cancel: true,
            is_parse_fail: task.is_parse_fail,
            file_total_nums: if task.is_pause {
                0
            } else {
                task.file_total_nums
            },
            downloaded_files: if task.is_pause {
                Seq::empty()
            } else {
                task.downloaded_files
            },
            failed_files: task.failed_files,
        }),
{
}

/// A download is being stopped from the moment a pause or its end is asked for
/// until it is started again, and is complete when as many files have been
/// downloaded as it has.
pub proof fn law_stopping_and_completion(task: DownloadTaskView)
    ensures
        task.is_stopping() <==> task.is_pause || task.is_cancel,
        task.paused().is_stopping(),
        task.canceled().is_stopping(),
        !task.started().is_stopping(),
        task.is_complete() <==> task.downloaded_files.len() == task.file_total_nums,
{
}

/// A file is left out of a resumed download exactly where its name is among those
/// downloaded; the others keep their order.
pub proof fn law_missing_files_are_those_not_downloaded(
    files: Seq<WaitDownloadFileView>,
    file: WaitDownloadFileView,
    downloaded: Seq<Seq<char>>,
)
    ensures
        remaining_files(Seq::empty(), downloaded) == Seq::<WaitDownloadFileView>::empty(),
        (exists|i: int| 0 <= i < downloaded.len() && #[trigger] downloaded[i] == file.slice_name)
            ==> remaining_files(files.push(file), downloaded) == remaining_files(files, downloaded),
        (forall|i: int| 0 <= i < downloaded.len() ==> #[trigger] downloaded[i] != file.slice_name)
            ==> remaining_files(files.push(file), downloaded) == remaining_files(
            files,
            downloaded,
        ).push(file),
{
    reveal(Seq::filter);
    let all = files.push(file);
    assert(all.drop_last() == files && all.last() == file);
    if forall|i: int| 0 <= i < downloaded.len() ==> #[trigger] downloaded[i] != file.slice_name {
        assert(!downloaded.contains(file.slice_name));
    } else {
        assert(downloaded.contains(file.slice_name));
    }
}

/// A new download takes all the files of its playlist, a resumed one those that
/// are missing.
pub proof fn law_resumed_download_takes_missing_files(
    task: DownloadTaskView,
    files: Seq<WaitDownloadFileView>,
)
    ensures
        task.is_new_task ==> task.selected(files) == files,
        !task.is_new_task ==> task.selected(files) == remaining_files(files, task.downloaded_files),
{
}

/// What is told of failed files says how many they are, with a plural for more
/// than one.
pub proof fn law_failed_files_are_numbered(failed: nat)
    ensures
        failed == 1 ==> failure_message(failed) == decimal(1) + " file cannot be downloaded"@,
        failed != 1 && failed > 0 ==> failure_message(failed) == decimal(failed)
            + " files cannot be downloaded"@,
{
    reveal_strlit(" file");
    reveal_strlit("s");
    reveal_strlit("");
    reveal_strlit(" cannot be downloaded");
    reveal_strlit(" file cannot be downloaded");
    reveal_strlit(" files cannot be downloaded");
    assert(" file"@ + ""@ + " cannot be downloaded"@ == " file cannot be downloaded"@);
    assert(" file"@ + "s"@ + " cannot be downloaded"@ == " files cannot be downloaded"@);
    assert(decimal(failed) + " file"@ + ""@ + " cannot be downloaded"@ == decimal(failed) + (
    " file"@ + ""@ + " cannot be downloaded"@));
    assert(decimal(failed) + " file"@ + "s"@ + " cannot be downloaded"@ == decimal(failed) + (
    " file"@ + "s"@ + " cannot be downloaded"@));
}

/// A download whose playlist could not be resolved is left as it is, and nothing
/// more is shown of it, whatever else was asked for.
pub proof fn law_unresolved_download_shows_nothing_more(task: DownloadTaskView, converts: bool)
    requires
        task.is_parse_fail,
    ensures
        task.after_download(converts) == (task, AfterDownloadView::Nothing),
{
}

/// A paused download stays paused, whether or not it is to be converted: it keeps
/// all that is there, and the window shows that it can be started again.
pub proof fn law_paused_download_stays_paused(task: DownloadTaskView, converts: bool)
    requires
        task.is_pause,
        !task.is_parse_fail,
    ensures
        task.after_download(converts).0 == task,
        task.after_download(converts).1 == AfterDownloadView::Show(
            WindowUpdateView {
                message: Some(("Paused."@, false)),
                enable_start_btn: Some(true),
                enable_pause_btn: None,
                enable_cancel_btn: None,
                is_downloading: None,
                is_pause: Some(true),
                has_failed_file: None,
                total_nums: None,
                downloaded_nums: None,
                content_length: None,
            },
        ),
{
}

/// What had been downloaded before a pause is not downloaded again after it, and
/// what had not been is, whether or not the download is to be converted.
pub proof fn law_pausing_saves_what_was_downloaded(
    task: DownloadTaskView,
    converts: bool,
    files: Seq<WaitDownloadFileView>,
)
    requires
        !task.is_parse_fail,
    ensures
        ({
            let resumed = task.paused().after_download(converts).0.started();
            let selected = resumed.selected(files);
            &&& resumed.downloaded_files == task.downloaded_files
            &&& resumed.file_total_nums == task.file_total_nums
            &&& forall|i: int|
                0 <= i < selected.len() ==> !task.downloaded_files.contains(
                    (#[trigger] selected[i]).slice_name,
                )
            &&& forall|i: int|
                0 <= i < files.len() && !task.downloaded_files.contains(
                    (#[trigger] files[i]).slice_name,
                ) ==> selected.contains(files[i])
        }),
{
    law_paused_download_goes_on(task, files);
    let selected = task.paused().started().selected(files);
    assert forall|i: int| 0 <= i < selected.len() implies !task.downloaded_files.contains(
        (#[trigger] selected[i]).slice_name,
    ) by {
        assert(files.contains(selected[i]));
    }
}

/// A canceled download is over, and the next one begins anew; no failure is told
/// of and no count is left.
pub proof fn law_canceled_download_is_over(task: DownloadTaskView, converts: bool)
    requires
        task.is_cancel,
        !task.is_pause,
        !task.is_parse_fail,
    ensures
        task.after_download(converts).0.is_new_task,
        task.after_download(converts).0.file_total_nums == 0,
        task.after_download(converts).0.downloaded_files.len() == 0,
        task.after_download(converts).0 == task.reset(),
        task.after_download(converts).1 matches AfterDownloadView::Show(update) && {
            &&& update == WindowUpdateView::over("Canceled."@, false, true)
            &&& update.message == Some(("Canceled."@, false))
            &&& update.enable_start_btn == Some(true)
            &&& update.is_downloading == Some(false)
            &&& update.has_failed_file == Some(false)
            &&& update.total_nums == Some(0i32)
            &&& update.downloaded_nums == Some(0i32)
        },
{
}

/// A download that lacks a file when its files have been seen to is over, and is
/// not converted. The files that failed are told of; without any, nothing is.
pub proof fn law_incomplete_download_is_not_converted(task: DownloadTaskView, converts: bool)
    requires
        !task.is_cancel,
        !task.is_pause,
        !task.is_parse_fail,
        task.file_total_nums != task.downloaded_files.len(),
    ensures
        task.after_download(converts).0.is_new_task,
        task.after_download(converts).0.downloaded_files.len() == 0,
        task.after_download(converts).0 == task.reset(),
        task.after_download(converts).1 matches AfterDownloadView::Show(update) && {
            &&& update == task.over_update(Seq::empty(), false)
            &&& update.enable_start_btn == Some(true)
            &&& update.is_downloading == Some(false)
            &&& update.has_failed_file == Some(task.failed_files.len() > 0)
            &&& update.total_nums is None && update.downloaded_nums is None
            &&& if task.failed_files.len() > 0 {
                update.message == Some((failure_message(task.failed_files.len()), true))
            } else {
                update.message == Some((Seq::<char>::empty(), false))
            }
        },
{
    reveal_strlit("");
    assert(""@ == Seq::<char>::empty());
}

/// A download that has every file is converted where that is asked for: all that
/// was downloaded is, in order, and it is kept until then. Where it is not, the
/// download is over.
pub proof fn law_complete_download_is_converted_if_asked(task: DownloadTaskView)
    requires
        !task.is_cancel,
        !task.is_pause,
        !task.is_parse_fail,
        task.file_total_nums == task.downloaded_files.len(),
    ensures
        task.after_download(true).0 == task,
        task.after_download(true).1 matches AfterDownloadView::Convert(update, files) && files
            == task.downloaded_files && update.message == Some(
            ("Converting to MP4 now..."@, false),
        ) && update == WindowUpdateView::message("Converting to MP4 now..."@, false),
        task.after_download(false).0.is_new_task,
        task.after_download(false).0.file_total_nums == 0,
        task.after_download(false).0.downloaded_files.len() == 0,
        task.after_download(false).0 == task.reset(),
        task.after_download(false).1 == AfterDownloadView::Show(
            task.over_update("All segments have been downloaded!"@, false),
        ),
        task.after_download(false).1 matches AfterDownloadView::Show(update)
            && update.is_downloading == Some(false) && update.enable_start_btn == Some(true) && (
        task.failed_files.len() == 0 ==> update.message == Some(
            ("All segments have been downloaded!"@, false),
        )),
{
}

/// Once a download is over, the start button alone is enabled. What is told is the
/// given message, unless files have failed and the download was not canceled; then
/// it is how many have.
pub proof fn law_end_tells_of_failures_first(
    task: DownloadTaskView,
    message: Seq<char>,
    is_cancel: bool,
)
    ensures
        ({
            let update = task.over_update(message, is_cancel);
            let tells_of_failures = !is_cancel && task.failed_files.len() > 0;
            &&& update.enable_start_btn == Some(true)
            &&& update.enable_pause_btn == Some(false)
            &&& update.enable_cancel_btn == Some(false)
            &&& update.is_downloading == Some(false)
            &&& update.is_pause == Some(false)
            &&& update.has_failed_file == Some(tells_of_failures)
            &&& tells_of_failures ==> update.message == Some(
                (failure_message(task.failed_files.len()), true),
            )
            &&& !tells_of_failures ==> update.message == Some((message, false))
            &&& is_cancel ==> update.total_nums == Some(0i32) && update.downloaded_nums == Some(
                0i32,
            )
            &&& !is_cancel ==> update.total_nums is None && update.downloaded_nums is None
            &&& update.content_length is None
        }),
{
}

/// A link is put on a line of its own: after a line feed, unless the list is empty.
pub proof fn law_links_get_a_line_each(len: nat, url: Seq<char>)
    ensures
        failed_entry(0, url) == url,
        len > 0 ==> failed_entry(len, url).len() == url.len() + 1 && failed_entry(len, url)[0]
            == '\n' && failed_entry(len, url).subrange(1, 1 + url.len() as int) == url,
{
    if len > 0 {
        assert(failed_entry(len, url).subrange(1, 1 + url.len() as int) == url);
    }
}

/// A download and its model say the same.
pub proof fn law_tasks_keep_what_they_hold(task: DownloadTask)
    ensures
        task@.is_new_task == task.is_new_task,
        task@.is_pause == task.is_pause,
        task@.is_cancel == task.is_cancel,
        task@.is_parse_fail == task.is_parse_fail,
        task@.file_total_nums == task.file_total_nums,
        task@.downloaded_files == texts(task.downloaded_files@),
        task@.failed_files == texts(task.failed_files@),
{
}

/// What happens after a download and its model say the same.
pub proof fn law_outcomes_keep_what_they_hold(update: WindowUpdate, files: Vec<String>)
    ensures
        AfterDownload::Nothing@ == AfterDownloadView::Nothing,
        AfterDownload::Show(update)@ == AfterDownloadView::Show(update@),
        AfterDownload::Convert(update, files)@ == AfterDownloadView::Convert(
            update@,
            texts(files@),
        ),
{
}

/// The links of what could not be downloaded are listed in a text file.
pub proof fn law_failed_links_have_their_file()
    ensures
        FAILED_FILENAME@ == "failed_link"@ + ".txt"@,
{
    reveal_strlit("failed_link.txt");
    reveal_strlit("failed_link");
    reveal_strlit(".txt");
    assert("failed_link.txt"@ == "failed_link"@ + ".txt"@);
}

} // verus!
