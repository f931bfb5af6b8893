//! The messages that the parts of the downloader send each other, and what each
//! of them brings about.

use vstd::prelude::*;

use crate::convert::{
    are_convert_args, law_conversion_stays_in_its_directory, request_convert_args,
};
use crate::location::texts;
use crate::request::RequestData;
use crate::save_path::is_entry_path;
use crate::size::{byte_convert, byte_text};
use crate::task::{DownloadTask, DownloadTaskView};
use crate::window::{WindowUpdate, WindowUpdateView};

verus! {

/// A message.
#[derive(Debug)]
pub enum ChannelMessage {
    /// The user asks for a download.
    StartDownload(RequestData),
    /// The playlist is resolved; holds how many files it names.
    DownloadSlicing(usize),
    /// The user asks for a pause.
    Pause,
    /// The user asks for the end of the download.
    Cancel,
    /// The thread of the download is about to end.
    RecycleTaskThead,
    /// A file has been downloaded.
    SliceCompleted {
        /// The name of the file.
        slice_name: String,
        /// The size of the file in bytes.
        content_length: u64,
    },
}

/// A download to carry out.
#[derive(Debug)]
pub struct TaskPlan {
    /// What the user asks for.
    pub request: RequestData,
    /// The arguments with which the segments are converted; none where they are
    /// not.
    pub convert_args: Vec<String>,
    /// Whether the segments are deleted once they are converted.
    pub is_delete_segment: bool,
    /// The directory that they are deleted from.
    pub save_path: String,
}

/// What a message brings about.
#[derive(Debug)]
pub enum MonitorAction {
    /// Nothing.
    Nothing,
    /// A download is carried out.
    StartTask(TaskPlan),
    /// The window changes.
    Update(WindowUpdate),
    /// The thread of the download is waited for.
    JoinTask,
}

/// What the given download takes.
pub open spec fn is_plan_for(plan: TaskPlan, request: RequestData) -> bool {
    &&& plan.request == request
    &&& if request.is_convert {
        are_convert_args(request.save_path@, texts(plan.convert_args@))
    } else {
        plan.convert_args@.len() == 0
    }
    &&& plan.is_delete_segment == (request.is_convert && request.is_delete_segment)
    &&& plan.save_path@ == if request.is_convert {
        request.save_path@
    } else {
        ""@
    }
}

/// The download after a message.
pub open spec fn task_after(task: DownloadTaskView, message: ChannelMessage) -> DownloadTaskView {
    match message {
        ChannelMessage::StartDownload(_) => task.started(),
        ChannelMessage::SliceCompleted { slice_name, .. } => task.completed(slice_name@),
        ChannelMessage::Pause => task.paused(),
        ChannelMessage::Cancel => task.canceled(),
        ChannelMessage::DownloadSlicing(_) | ChannelMessage::RecycleTaskThead => task,
    }
}

/// How many bytes have been downloaded after a message, `length` being how many
/// had been before. A download that begins starts at zero.
pub open spec fn length_after(
    task: DownloadTaskView,
    length: nat,
    message: ChannelMessage,
) -> nat {
    match message {
        ChannelMessage::StartDownload(_) => if task.is_new_task {
            0
        } else {
            length
        },
        ChannelMessage::SliceCompleted { content_length, .. } => length + content_length as nat,
        _ => length,
    }
}

/// Receives the messages.
#[derive(Debug)]
pub struct Monitor {
    /// How many bytes have been downloaded.
    pub current_content_length: u64,
}

impl Monitor {
    /// Before the first message.
    pub fn new() -> (res: Self)
        ensures
            res.current_content_length == 0,
    {
        Monitor { current_content_length: 0 }
    }

    /// Receives a message: changes the download as the message says, and gives
    /// what is to be done.
    pub fn receive_message(&mut self, task: &mut DownloadTask, message: ChannelMessage) -> (res:
        MonitorAction)
        requires
            length_after(
                old(task)@,
                old(self).current_content_length as nat,
                message,
            ) <= u64::MAX,
        ensures
            final(task)@ == task_after(old(task)@, message),
            final(self).current_content_length == length_after(
                old(task)@,
                old(self).current_content_length as nat,
                message,
            ),
            match message {
                ChannelMessage::StartDownload(request) => res matches MonitorAction::StartTask(plan)
                    && is_plan_for(plan, request),
                ChannelMessage::DownloadSlicing(total) => res matches MonitorAction::Update(update)
                    && update@ == WindowUpdateView::slicing(total as i32),
                ChannelMessage::SliceCompleted {
                    ..
                } => res matches MonitorAction::Update(update) && update@
                    == WindowUpdateView::progress(
                    final(task)@.downloaded_files.len() as i32,
                    byte_text(final(self).current_content_length as nat),
                ),
                ChannelMessage::Pause => res is Nothing,
                ChannelMessage::Cancel => if old(task)@.is_pause {
                    res matches MonitorAction::Update(update) && update@
                        == old(task)@.over_update("Canceled."@, true)
                } else {
                    res is Nothing
                },
                ChannelMessage::RecycleTaskThead => res is JoinTask,
            },
            match message {
                ChannelMessage::StartDownload(request) => {
                    &&& !final(task).is_pause && !final(task).is_cancel
                    &&& final(task)@.downloaded_files == old(task)@.downloaded_files
                    &&& final(self).current_content_length == if old(task).is_new_task {
                        0
                    } else {
                        old(self).current_content_length
                    }
                    &&& res matches MonitorAction::StartTask(plan) && plan.request == request
                        && plan.is_delete_segment == (request.is_convert
                        && request.is_delete_segment) && (plan.convert_args@.len() > 0
                        <==> request.is_convert)
                },
                ChannelMessage::SliceCompleted { slice_name, content_length } => {
                    &&& final(task)@.downloaded_files == old(task)@.downloaded_files.push(
                        slice_name@,
                    )
                    &&& final(self).current_content_length == old(self).current_content_length
                        + content_length
                    &&& res matches MonitorAction::Update(update) && update.downloaded_nums == Some(
                        (old(task)@.downloaded_files.len() + 1) as i32,
                    ) && update@.content_length == Some(
                        byte_text((old(self).current_content_length + content_length) as nat),
                    )
                },
                ChannelMessage::Pause => final(task).is_pause && !final(task).is_new_task && final(
                    task)@.downloaded_files == old(task)@.downloaded_files
                    && final(self).current_content_length == old(self).current_content_length,
                ChannelMessage::Cancel => final(task).is_cancel && (res is Update
                    <==> old(task).is_pause) && final(self).current_content_length == old(
                    self).current_content_length,
                ChannelMessage::DownloadSlicing(total) => final(task)@ == old(task)@ && (
                res matches MonitorAction::Update(update) && update.total_nums == Some(
                    total as i32,
                )),
                ChannelMessage::RecycleTaskThead => final(task)@ == old(task)@,
            },
    {
        match message {
            ChannelMessage::StartDownload(request) => {
                if task.is_new_task {
                    self.current_content_length = 0;
                }
                task.start();
                let convert_args = request_convert_args(&request);
                let is_delete_segment = request.is_convert && request.is_delete_segment;
                let save_path = if request.is_convert {
                    request.save_path.clone()
                } else {
                    "".to_owned()
                };
                MonitorAction::StartTask(
                    TaskPlan { request, convert_args, is_delete_segment, save_path },
                )
            },
            ChannelMessage::DownloadSlicing(total) => {
                MonitorAction::Update(WindowUpdate::slicing(total as i32))
            },
            ChannelMessage::SliceCompleted { slice_name, content_length } => {
                let n: usize = task.complete_slice(slice_name);
                self.current_content_length = self.current_content_length + content_length;
                MonitorAction::Update(
                    WindowUpdate::progress(n as i32, byte_convert(self.current_content_length)),
                )
            },
            ChannelMessage::Pause => {
                task.pause();
                MonitorAction::Nothing
            },
            ChannelMessage::Cancel => {
                match task.cancel() {
                    Some(update) => MonitorAction::Update(update),
                    None => MonitorAction::Nothing,
                }
            },
            ChannelMessage::RecycleTaskThead => MonitorAction::JoinTask,
        }
    }
}

// ---------------------------------------------------------------------------
// Laws
// ---------------------------------------------------------------------------
/// The download, and how many bytes have been downloaded, after the messages.
pub open spec fn after_messages(
    task: DownloadTaskView,
    length: nat,
    messages: Seq<ChannelMessage>,
) -> (DownloadTaskView, nat)
    decreases messages.len(),
{
    if messages.len() == 0 {
        (task, length)
    } else {
        let (before, so_far) = after_messages(task, length, messages.drop_last());
        (task_after(before, messages.last()), length_after(before, so_far, messages.last()))
    }
}

/// How many bytes the messages report as downloaded.
pub open spec fn reported_length(messages: Seq<ChannelMessage>) -> nat
    decreases messages.len(),
{
    if messages.len() == 0 {
        0
    } else {
        reported_length(messages.drop_last()) + (match messages.last() {
            ChannelMessage::SliceCompleted { content_length, .. } => content_length as nat,
            _ => 0,
        })
    }
}

/// The names that the messages report as downloaded, in order.
pub open spec fn reported_names(messages: Seq<ChannelMessage>) -> Seq<Seq<char>>
    decreases messages.len(),
{
    if messages.len() == 0 {
        Seq::empty()
    } else {
        match messages.last() {
            ChannelMessage::SliceCompleted { slice_name, .. } => reported_names(
                messages.drop_last(),
            ).push(slice_name@),
            _ => reported_names(messages.drop_last()),
        }
    }
}

/// Whether a message ends what has been counted: a new download begins, or a
/// paused one is canceled.
pub open spec fn ends_counting(task: DownloadTaskView, message: ChannelMessage) -> bool {
    ||| message is StartDownload && task.is_new_task
    ||| message is Cancel && task.is_pause
}

/// Until a new download begins or a paused one is canceled, the monitor's counts
/// are exact: the bytes and the names are those that the messages reported, added
/// to what there was. Neither a pause nor going on after it changes that.
pub proof fn law_progress_is_what_was_reported(
    task: DownloadTaskView,
    length: nat,
    messages: Seq<ChannelMessage>,
)
    requires
        forall|i: int|
            0 <= i < messages.len() ==> !ends_counting(
                after_messages(task, length, messages.take(i)).0,
                #[trigger] messages[i],
            ),
    ensures
        ({
            let (after, total) = after_messages(task, length, messages);
            &&& total == length + reported_length(messages)
            &&& after.downloaded_files == task.downloaded_files + reported_names(messages)
            &&& after.file_total_nums == task.file_total_nums
        }),
    decreases messages.len(),
{
    if messages.len() == 0 {
        assert(task.downloaded_files + Seq::<Seq<char>>::empty() == task.downloaded_files);
    } else {
        let first = messages.drop_last();
        let last = messages.last();
        assert forall|i: int| 0 <= i < first.len() implies !ends_counting(
            after_messages(task, length, first.take(i)).0,
            #[trigger] first[i],
        ) by {
            assert(first[i] == messages[i]);
            assert(first.take(i) == messages.take(i));
        }
        law_progress_is_what_was_reported(task, length, first);
        assert(messages.take(messages.len() - 1) == first);
        assert(!ends_counting(after_messages(task, length, first).0, last)) by {
            assert(last == messages[messages.len() - 1]);
        }
        if let ChannelMessage::SliceCompleted { slice_name, .. } = last {
            assert(task.downloaded_files + reported_names(first).push(slice_name@) == (
            task.downloaded_files + reported_names(first)).push(slice_name@));
        }
    }
}

/// A download that begins counts from zero; one that goes on counts on.
pub proof fn law_new_download_counts_from_zero(
    task: DownloadTaskView,
    length: nat,
    request: RequestData,
)
    ensures
        length_after(task, length, ChannelMessage::StartDownload(request)) == if task.is_new_task {
            0
        } else {
            length
        },
{
}

/// Each message changes the download as its name says, and no other way: a start
/// starts it, a file is noted, a pause pauses it, a cancel cancels it, and the
/// other messages leave it as it is.
pub proof fn law_messages_change_the_download(
    task: DownloadTaskView,
    request: RequestData,
    slice_name: String,
    content_length: u64,
    total: usize,
)
    ensures
        ({
            let started = task_after(task, ChannelMessage::StartDownload(request));
            let completed = task_after(
                task,
                ChannelMessage::SliceCompleted { slice_name, content_length },
            );
            let paused = task_after(task, ChannelMessage::Pause);
            let canceled = task_after(task, ChannelMessage::Cancel);
            &&& !started.is_pause && !started.is_cancel && !started.is_parse_fail
            &&& started.failed_files.len() == 0
            &&& started.is_new_task == task.is_new_task
            &&& started.downloaded_files == task.downloaded_files
            &&& started.file_total_nums == task.file_total_nums
            &&& completed == (DownloadTaskView {
                downloaded_files: task.downloaded_files.push(slice_name@),
                ..task
            })
            &&& paused == (DownloadTaskView { is_pause: true, is_new_task: false, ..task })
            &&& !task.is_pause ==> canceled == (DownloadTaskView { is_cancel: true, ..task })
            &&& task.is_pause ==> canceled == (DownloadTaskView {
                is_cancel: true,
                is_new_task: true,
                file_total_nums: 0,
                downloaded_files: Seq::empty(),
                ..task
            })
            &&& task_after(task, ChannelMessage::DownloadSlicing(total)) == task
            &&& task_after(task, ChannelMessage::RecycleTaskThead) == task
        }),
{
}

/// The bytes that a file reports are added to those there were, whatever the
/// download is at; no other message changes them, but for the start of a new
/// download.
pub proof fn law_reported_bytes_are_added(
    task: DownloadTaskView,
    length: nat,
    slice_name: String,
    content_length: u64,
    message: ChannelMessage,
)
    ensures
        length_after(task, length, ChannelMessage::SliceCompleted { slice_name, content_length })
            == length + content_length,
        !(message is SliceCompleted) && !(message is StartDownload) ==> length_after(
            task,
            length,
            message,
        ) == length,
        message is StartDownload && !task.is_new_task ==> length_after(task, length, message)
            == length,
        message is StartDownload && task.is_new_task ==> length_after(task, length, message) == 0,
{
}

/// A plan is made for the request it holds. Segments are converted, in the
/// directory of the request, exactly where that is asked for; they are deleted
/// only where both are, and only from there.
pub proof fn law_plans_do_what_is_asked_for(plan: TaskPlan, request: RequestData)
    requires
        is_plan_for(plan, request),
    ensures
        plan.request == request,
        plan.convert_args@.len() > 0 <==> request.is_convert,
        request.is_convert ==> plan.save_path@ == request.save_path@ && plan.convert_args@.len()
            == 7 && is_entry_path(
            request.save_path@,
            "index.m3u8"@,
            plan.convert_args@[3]@,
        ) && is_entry_path(request.save_path@, "output.mp4"@, plan.convert_args@[6]@),
        request.is_convert ==> plan.convert_args@[0]@ == "-allowed_extensions"@
            && plan.convert_args@[1]@ == "ALL"@ && plan.convert_args@[2]@ == "-i"@
            && plan.convert_args@[4]@ == "-c"@ && plan.convert_args@[5]@ == "copy"@,
        !request.is_convert ==> plan.save_path@.len() == 0,
        plan.is_delete_segment <==> request.is_convert && request.is_delete_segment,
{
    reveal_strlit("");
    let args = texts(plan.convert_args@);
    if request.is_convert {
        law_conversion_stays_in_its_directory(request.save_path@, args);
        assert(forall|i: int| 0 <= i < args.len() ==> args[i] == #[trigger] plan.convert_args@[i]@);
    }
}

/// Messages are taken one after the other, and the reports add up: one more report
/// adds its bytes and its name.
pub proof fn law_reports_add_up(
    task: DownloadTaskView,
    length: nat,
    messages: Seq<ChannelMessage>,
    slice_name: String,
    content_length: u64,
)
    ensures
        ({
            let more = messages.push(
                ChannelMessage::SliceCompleted { slice_name, content_length },
            );
            let (before, so_far) = after_messages(task, length, messages);
            let (after, total) = after_messages(task, length, more);
            &&& total == so_far + content_length
            &&& after.downloaded_files == before.downloaded_files.push(slice_name@)
            &&& reported_length(more) == reported_length(messages) + content_length
            &&& reported_names(more) == reported_names(messages).push(slice_name@)
        }),
{
    let more = messages.push(ChannelMessage::SliceCompleted { slice_name, content_length });
    assert(more.drop_last() == messages);
}

} // verus!
