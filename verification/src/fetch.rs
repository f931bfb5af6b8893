//! Fetching: the attempts at a playlist, and at each of its files.
//!
//! Each fetch is a machine that is told what an attempt came to and says what to
//! do next.

use vstd::prelude::*;

use crate::monitor::ChannelMessage;
use crate::playlist::{files_view, Fetched, WaitDownloadFile};
use crate::retry::{attempt_left, Retry};
use crate::task::DownloadTask;

verus! {

/// What an attempt at a playlist came to.
#[derive(Debug)]
pub enum Reply {
    /// No answer, or one that does not tell of success.
    Unusable,
    /// An answer that breaks off; holds what is wrong.
    Broken(String),
    /// The text of the playlist.
    Text(String),
}

/// What to do next about a playlist.
#[derive(Debug)]
pub enum FetchStep {
    /// Make an attempt.
    Try,
    /// Wait, then make an attempt.
    WaitAndTry,
    /// Nothing more: this is what the attempts came to.
    Done(Fetched),
}

/// What to do next about a playlist when, after `failed` attempts that failed out
/// of `limit`, the next one has come to `reply`. An answer settles the matter,
/// even one that breaks off.
pub open spec fn step_after(failed: nat, limit: nat, reply: Reply) -> FetchStep {
    match reply {
        Reply::Text(text) => FetchStep::Done(Fetched::Text(text)),
        Reply::Broken(e) => FetchStep::Done(Fetched::Broken(e)),
        Reply::Unusable => if attempt_left(failed + 1, limit) {
            FetchStep::WaitAndTry
        } else {
            FetchStep::Done(Fetched::Nothing)
        },
    }
}

/// The attempts at a playlist.
#[derive(Debug)]
pub struct PlaylistFetch {
    pub retry: Retry,
}

impl PlaylistFetch {
    /// At most `limit` attempts at a playlist; gives what to do first.
    pub fn new(limit: u32) -> (res: (Self, FetchStep))
        ensures
            res.0.retry.failed() == 0,
            res.0.retry.limit() == limit,
            res.1 == if limit > 0 {
                FetchStep::Try
            } else {
                FetchStep::Done(Fetched::Nothing)
            },
    {
        let retry = Retry::new(limit);
        let step = if retry.can_try() {
            FetchStep::Try
        } else {
            FetchStep::Done(Fetched::Nothing)
        };
        (PlaylistFetch { retry }, step)
    }

    /// What to do now that an attempt has come to `reply`.
    pub fn reply(&mut self, reply: Reply) -> (res: FetchStep)
        requires
            old(self).retry.may_try(),
        ensures
            res == step_after(old(self).retry.failed(), old(self).retry.limit(), reply),
            final(self).retry.limit() == old(self).retry.limit(),
            final(self).retry.failed() == old(self).retry.failed() + (if reply is Unusable {
                1int
            } else {
                0
            }),
            res is WaitAndTry ==> final(self).retry.may_try(),
            match reply {
                Reply::Text(text) => res == FetchStep::Done(Fetched::Text(text)),
                Reply::Broken(why) => res == FetchStep::Done(Fetched::Broken(why)),
                Reply::Unusable => if old(self).retry.failed() + 1 < old(self).retry.limit() {
                    res is WaitAndTry
                } else {
                    res == FetchStep::Done(Fetched::Nothing)
                },
            },
    {
        match reply {
            Reply::Text(text) => FetchStep::Done(Fetched::Text(text)),
            Reply::Broken(e) => FetchStep::Done(Fetched::Broken(e)),
            Reply::Unusable => if self.retry.fail() {
                FetchStep::WaitAndTry
            } else {
                FetchStep::Done(Fetched::Nothing)
            },
        }
    }
}

/// Takes in the files that a playlist names. Gives the message that tells how
/// many they are, and those of them that are to be downloaded.
pub fn parse_download(task: &mut DownloadTask, all_files: Vec<WaitDownloadFile>) -> (res: (
    ChannelMessage,
    Vec<WaitDownloadFile>,
))
    ensures
        final(task)@ == old(task)@.resolved(all_files@.len()),
        res.0 == ChannelMessage::DownloadSlicing(all_files@.len() as usize),
        files_view(res.1@) == old(task)@.selected(files_view(all_files@)),
        old(task).is_new_task ==> files_view(res.1@) == files_view(all_files@)
            && final(task).file_total_nums == all_files@.len(),
        !old(task).is_new_task ==> final(task).file_total_nums == old(task).file_total_nums,
{
    let file_total_nums: usize = all_files.len();
    (ChannelMessage::DownloadSlicing(file_total_nums), task.select_files(all_files))
}

/// What to do next about a file.
#[derive(Debug)]
pub enum SliceStep {
    /// Nothing: the download is being paused or canceled.
    Skip,
    /// Make an attempt.
    Try,
    /// Wait, then make an attempt.
    WaitAndTry,
    /// The file is there: send this message.
    Report(ChannelMessage),
    /// The file cannot be had: record that it failed.
    Fail,
}

/// What to do first about a file, at which `limit` attempts may be made.
pub open spec fn first_slice_step(is_stopping: bool, limit: nat) -> SliceStep {
    if is_stopping {
        SliceStep::Skip
    } else if attempt_left(0, limit) {
        SliceStep::Try
    } else {
        SliceStep::Fail
    }
}

/// What to do next about a file when, after `failed` attempts that failed out of
/// `limit`, the next one has failed too.
pub open spec fn slice_step_after(failed: nat, limit: nat) -> SliceStep {
    if attempt_left(failed + 1, limit) {
        SliceStep::WaitAndTry
    } else {
        SliceStep::Fail
    }
}

/// The size that is reported of a file, given the one that the server announced,
/// if it did.
pub open spec fn reported_length(content_length: Option<u64>) -> u64 {
    match content_length {
        Some(n) => n,
        None => 0,
    }
}

/// The attempts at a file.
#[derive(Debug)]
pub struct SliceFetch {
    pub file: WaitDownloadFile,
    pub retry: Retry,
}

impl SliceFetch {
    /// At most `limit` attempts at a file of the download `task`; gives what to
    /// do first.
    pub fn new(task: &DownloadTask, file: WaitDownloadFile, limit: u32) -> (res: (
        Self,
        SliceStep,
    ))
        ensures
            res.0.file == file,
            res.0.retry.failed() == 0,
            res.0.retry.limit() == limit,
            res.1 == first_slice_step(task@.is_stopping(), limit as nat),
            res.1 is Try ==> res.0.retry.may_try(),
            res.1 is Skip <==> task.is_pause || task.is_cancel,
            res.1 is Try <==> !task.is_pause && !task.is_cancel && limit > 0,
            res.1 is Fail <==> !task.is_pause && !task.is_cancel && limit == 0,
    {
        let retry = Retry::new(limit);
        let step = if task.should_skip() {
            SliceStep::Skip
        } else if retry.can_try() {
            SliceStep::Try
        } else {
            SliceStep::Fail
        };
        (SliceFetch { file, retry }, step)
    }

    /// What to do now that an attempt has failed.
    pub fn failed(&mut self) -> (res: SliceStep)
        requires
            old(self).retry.may_try(),
        ensures
            final(self).file == old(self).file,
            final(self).retry.limit() == old(self).retry.limit(),
            final(self).retry.failed() == old(self).retry.failed() + 1,
            res == slice_step_after(old(self).retry.failed(), old(self).retry.limit()),
            res is WaitAndTry ==> final(self).retry.may_try(),
            res is WaitAndTry <==> old(self).retry.failed() + 1 < old(self).retry.limit(),
            res is Fail <==> old(self).retry.failed() + 1 >= old(self).retry.limit(),
    {
        if self.retry.fail() {
            SliceStep::WaitAndTry
        } else {
            SliceStep::Fail
        }
    }

    /// What to do now that the file is there. `content_length` is the size that
    /// the server announced, if it did.
    pub fn saved(&self, content_length: Option<u64>) -> (res: SliceStep)
        ensures
            res matches SliceStep::Report(ChannelMessage::SliceCompleted {
                slice_name,
                content_length: reported,
            }) && slice_name@ == self.file.slice_name@ && reported == reported_length(content_length)
                && (content_length matches Some(n) ==> reported == n) && (content_length is None
                ==> reported == 0),
    {
        SliceStep::Report(
            ChannelMessage::SliceCompleted {
                slice_name: self.file.slice_name.clone(),
                content_length: match content_length {
                    Some(n) => n,
                    None => 0,
                },
            },
        )
    }
}

// ---------------------------------------------------------------------------
// Laws
// ---------------------------------------------------------------------------
/// What the attempts at a playlist come to when, after `failed` of them have
/// failed, the next ones come to the given replies, in order.
pub open spec fn fetch_result(failed: nat, limit: nat, replies: Seq<Reply>) -> Fetched
    decreases replies.len(),
{
    if !attempt_left(failed, limit) || replies.len() == 0 {
        Fetched::Nothing
    } else {
        match step_after(failed, limit, replies[0]) {
            FetchStep::Done(fetched) => fetched,
            _ => fetch_result(failed + 1, limit, replies.subrange(1, replies.len() as int)),
        }
    }
}

/// What a reply that settles the matter holds.
pub open spec fn answer(reply: Reply) -> Fetched {
    match reply {
        Reply::Text(text) => Fetched::Text(text),
        Reply::Broken(e) => Fetched::Broken(e),
        Reply::Unusable => Fetched::Nothing,
    }
}

proof fn lemma_fetch_result(failed: nat, limit: nat, replies: Seq<Reply>, k: int)
    requires
        0 <= k < replies.len(),
        failed + k < limit,
        forall|i: int| 0 <= i < k ==> #[trigger] replies[i] is Unusable,
        !(replies[k] is Unusable),
    ensures
        fetch_result(failed, limit, replies) == answer(replies[k]),
    decreases replies.len(),
{
    if k > 0 {
        let rest = replies.subrange(1, replies.len() as int);
        assert(replies[0] is Unusable);
        assert forall|i: int| 0 <= i < k - 1 implies #[trigger] rest[i] is Unusable by {
            assert(rest[i] == replies[i + 1]);
        }
        lemma_fetch_result(failed + 1, limit, rest, k - 1);
    }
}

/// A playlist is what the first answer says, if it comes within `limit` attempts.
pub proof fn law_first_answer_is_taken(limit: nat, replies: Seq<Reply>, k: int)
    requires
        0 <= k < replies.len(),
        k < limit,
        forall|i: int| 0 <= i < k ==> #[trigger] replies[i] is Unusable,
        !(replies[k] is Unusable),
    ensures
        fetch_result(0, limit, replies) == answer(replies[k]),
{
    lemma_fetch_result(0, limit, replies, k);
}

proof fn lemma_no_answer(failed: nat, limit: nat, replies: Seq<Reply>)
    requires
        forall|i: int|
            0 <= i < replies.len() && failed + i < limit ==> #[trigger] replies[i] is Unusable,
    ensures
        fetch_result(failed, limit, replies) is Nothing,
    decreases replies.len(),
{
    if attempt_left(failed, limit) && replies.len() > 0 {
        let rest = replies.subrange(1, replies.len() as int);
        assert(replies[0] is Unusable);
        assert forall|i: int|
            0 <= i < rest.len() && failed + 1 + i < limit implies #[trigger] rest[i] is Unusable by {
            assert(rest[i] == replies[i + 1]);
        }
        lemma_no_answer(failed + 1, limit, rest);
    }
}

/// Where none of the first `limit` attempts brings an answer, nothing is fetched:
/// later answers are not waited for.
pub proof fn law_late_answers_do_not_count(limit: nat, replies: Seq<Reply>)
    requires
        forall|i: int| 0 <= i < replies.len() && i < limit ==> #[trigger] replies[i] is Unusable,
    ensures
        fetch_result(0, limit, replies) is Nothing,
{
    lemma_no_answer(0, limit, replies);
}

/// What an attempt at a file came to.
pub enum SliceAttempt {
    /// It failed.
    Failed,
    /// The file is there; holds the size that the server announced, if it did.
    Saved(Option<u64>),
}

/// How the attempts at a file end.
pub enum SliceEnd {
    /// None is made.
    Skipped,
    /// The file is reported, with this size.
    Reported(u64),
    /// The file is recorded as failed.
    Failed,
}

/// The attempts at a file: how many are made, and how they end. They have no end
/// where one more is owed than is told of.
pub struct SliceRun {
    pub attempts: nat,
    pub end: Option<SliceEnd>,
}

/// The attempts at a file when, after `failed` of them have failed, one more is
/// made, and they come to the given ones, in order.
pub open spec fn slice_run_from(failed: nat, limit: nat, made: Seq<SliceAttempt>) -> SliceRun
    decreases made.len(),
{
    if made.len() == 0 {
        SliceRun { attempts: 0, end: None }
    } else {
        match made[0] {
            SliceAttempt::Saved(content_length) => SliceRun {
                attempts: 1,
                end: Some(SliceEnd::Reported(reported_length(content_length))),
            },
            SliceAttempt::Failed => match slice_step_after(failed, limit) {
                SliceStep::WaitAndTry => {
                    let rest = slice_run_from(
                        failed + 1,
                        limit,
                        made.subrange(1, made.len() as int),
                    );
                    SliceRun { attempts: rest.attempts + 1, end: rest.end }
                },
                _ => SliceRun { attempts: 1, end: Some(SliceEnd::Failed) },
            },
        }
    }
}

/// The attempts at a file, from the first on.
pub open spec fn slice_run(is_stopping: bool, limit: nat, made: Seq<SliceAttempt>) -> SliceRun {
    match first_slice_step(is_stopping, limit) {
        SliceStep::Try => slice_run_from(0, limit, made),
        SliceStep::Skip => SliceRun { attempts: 0, end: Some(SliceEnd::Skipped) },
        _ => SliceRun { attempts: 0, end: Some(SliceEnd::Failed) },
    }
}

proof fn lemma_slice_run_saved(failed: nat, limit: nat, made: Seq<SliceAttempt>, k: int)
    requires
        0 <= k < made.len(),
        failed + k < limit,
        forall|i: int| 0 <= i < k ==> #[trigger] made[i] is Failed,
        made[k] is Saved,
    ensures
        slice_run_from(failed, limit, made) == (SliceRun {
            attempts: (k + 1) as nat,
            end: Some(SliceEnd::Reported(reported_length(made[k]->0))),
        }),
    decreases made.len(),
{
    if k > 0 {
        let rest = made.subrange(1, made.len() as int);
        assert(made[0] is Failed);
        assert forall|i: int| 0 <= i < k - 1 implies #[trigger] rest[i] is Failed by {
            assert(rest[i] == made[i + 1]);
        }
        lemma_slice_run_saved(failed + 1, limit, rest, k - 1);
    }
}

/// A file is reported once, with the size that came with the first attempt to
/// bring it, if that is one of the first `limit`; no attempt is made after it.
pub proof fn law_first_saved_attempt_is_reported(limit: nat, made: Seq<SliceAttempt>, k: int)
    requires
        0 <= k < made.len(),
        k < limit,
        forall|i: int| 0 <= i < k ==> #[trigger] made[i] is Failed,
        made[k] is Saved,
    ensures
        slice_run(false, limit, made) == (SliceRun {
            attempts: (k + 1) as nat,
            end: Some(SliceEnd::Reported(reported_length(made[k]->0))),
        }),
{
    lemma_slice_run_saved(0, limit, made, k);
}

proof fn lemma_slice_run_failed(failed: nat, limit: nat, made: Seq<SliceAttempt>)
    requires
        failed < limit,
        limit - failed <= made.len(),
        forall|i: int| 0 <= i < limit - failed ==> #[trigger] made[i] is Failed,
    ensures
        slice_run_from(failed, limit, made) == (SliceRun {
            attempts: (limit - failed) as nat,
            end: Some(SliceEnd::Failed),
        }),
    decreases made.len(),
{
    assert(made[0] is Failed);
    if failed + 1 < limit {
        let rest = made.subrange(1, made.len() as int);
        assert forall|i: int| 0 <= i < limit - (failed + 1) implies #[trigger] rest[i] is Failed by {
            assert(rest[i] == made[i + 1]);
        }
        lemma_slice_run_failed(failed + 1, limit, rest);
    }
}

/// A file is recorded as failed once, after exactly `limit` attempts, where none
/// of these brings it.
pub proof fn law_file_fails_at_the_limit(limit: nat, made: Seq<SliceAttempt>)
    requires
        limit <= made.len(),
        forall|i: int| 0 <= i < limit ==> #[trigger] made[i] is Failed,
    ensures
        slice_run(false, limit, made) == (SliceRun {
            attempts: limit,
            end: Some(SliceEnd::Failed),
        }),
{
    if limit > 0 {
        lemma_slice_run_failed(0, limit, made);
    }
}

proof fn lemma_slice_run_ends(failed: nat, limit: nat, made: Seq<SliceAttempt>)
    requires
        failed < limit,
        limit - failed <= made.len(),
    ensures
        ({
            let run = slice_run_from(failed, limit, made);
            &&& run.attempts + failed <= limit
            &&& run.end matches Some(end) && !(end is Skipped)
        }),
    decreases made.len(),
{
    if made[0] is Failed && failed + 1 < limit {
        lemma_slice_run_ends(failed + 1, limit, made.subrange(1, made.len() as int));
    }
}

/// Whatever the attempts at a file come to, they end within the limit: in a report
/// or in a failure, or, where the download is being paused or canceled, before
/// the first of them.
pub proof fn law_attempts_at_a_file_end(
    is_stopping: bool,
    limit: nat,
    made: Seq<SliceAttempt>,
)
    requires
        limit <= made.len(),
    ensures
        ({
            let run = slice_run(is_stopping, limit, made);
            &&& run.attempts <= limit
            &&& run.end matches Some(end) && (end is Skipped <==> is_stopping)
            &&& is_stopping ==> run.attempts == 0
        }),
{
    if !is_stopping && limit > 0 {
        lemma_slice_run_ends(0, limit, made);
    }
}

/// The size that is reported of a file is the one that the server announced,
/// whatever it is, and zero only where it announced none or zero.
pub proof fn law_reported_size_is_the_announced_one(n: u64, content_length: Option<u64>)
    ensures
        reported_length(Some(n)) == n,
        reported_length(None) == 0,
        reported_length(content_length) == 0 <==> content_length is None || content_length == Some(
            0u64,
        ),
{
}

/// The sizes that two files are reported with differ wherever the announced ones
/// do.
pub proof fn law_different_sizes_are_reported_differently(a: u64, b: u64)
    requires
        a != b,
    ensures
        reported_length(Some(a)) != reported_length(Some(b)),
{
}

/// An answer ends the attempts at a playlist at once, with what it holds. Without
/// an answer, another attempt is made exactly as long as fewer than `limit` have
/// failed.
pub proof fn law_each_attempt_at_a_playlist_counts(
    failed: nat,
    limit: nat,
    text: String,
    why: String,
)
    ensures
        step_after(failed, limit, Reply::Text(text)) == FetchStep::Done(Fetched::Text(text)),
        step_after(failed, limit, Reply::Broken(why)) == FetchStep::Done(Fetched::Broken(why)),
        step_after(failed, limit, Reply::Unusable) is WaitAndTry <==> failed + 1 < limit,
        failed + 1 >= limit ==> step_after(failed, limit, Reply::Unusable) == FetchStep::Done(
            Fetched::Nothing,
        ),
        answer(Reply::Text(text)) == Fetched::Text(text),
        answer(Reply::Broken(why)) == Fetched::Broken(why),
        answer(Reply::Unusable) is Nothing,
{
}

/// A file is left alone while the download is being paused or canceled, is tried
/// otherwise, and cannot be had where no attempt may be made. After a failure
/// another attempt is made exactly as long as fewer than `limit` have failed.
pub proof fn law_each_attempt_at_a_file_counts(is_stopping: bool, failed: nat, limit: nat)
    ensures
        first_slice_step(is_stopping, limit) is Skip <==> is_stopping,
        first_slice_step(is_stopping, limit) is Try <==> !is_stopping && limit >= 1,
        first_slice_step(is_stopping, limit) is Fail <==> !is_stopping && limit == 0,
        slice_step_after(failed, limit) is WaitAndTry <==> failed + 1 < limit,
        slice_step_after(failed, limit) is Fail <==> failed + 1 >= limit,
{
}

} // verus!
