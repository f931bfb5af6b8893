use m3u8downloader::monitor::{ChannelMessage, Monitor, MonitorAction};
use m3u8downloader::request::RequestData;
use m3u8downloader::task::DownloadTask;
use m3u8downloader::window::WindowUpdate;

fn request(is_convert: bool, is_delete_segment: bool) -> RequestData {
    RequestData::new("dir".to_string(), "u".to_string(), "2", "3", is_convert, is_delete_segment)
}

fn completed(name: &str, content_length: u64) -> ChannelMessage {
    ChannelMessage::SliceCompleted { slice_name: name.to_string(), content_length }
}

fn update(action: MonitorAction) -> WindowUpdate {
    match action {
        MonitorAction::Update(update) => update,
        other => panic!("{other:?}"),
    }
}

#[test]
fn a_start_makes_a_plan() {
    let mut task = DownloadTask::new();
    task.is_cancel = true;
    let mut monitor = Monitor::new();
    let start = ChannelMessage::StartDownload(request(true, true));
    match monitor.receive_message(&mut task, start) {
        MonitorAction::StartTask(plan) => {
            assert_eq!(plan.request.m3u8_url, "u");
            assert!(plan.is_delete_segment);
            assert_eq!(plan.save_path, "dir");
            assert_eq!(plan.convert_args.len(), 7);
            assert_eq!(plan.convert_args[0], "-allowed_extensions");
            assert_eq!(plan.convert_args[1], "ALL");
            assert_eq!(plan.convert_args[2], "-i");
            let m3u8 = plan.convert_args[3].as_str();
            assert!(m3u8 == "dir/index.m3u8" || m3u8 == "dir\\index.m3u8");
            assert_eq!(plan.convert_args[4], "-c");
            assert_eq!(plan.convert_args[5], "copy");
            let mp4 = plan.convert_args[6].as_str();
            assert!(mp4 == "dir/output.mp4" || mp4 == "dir\\output.mp4");
        }
        other => panic!("{other:?}"),
    }
    assert!(!task.is_cancel);
}

#[test]
fn without_conversion_nothing_is_deleted() {
    let mut task = DownloadTask::new();
    let start = ChannelMessage::StartDownload(request(false, true));
    match Monitor::new().receive_message(&mut task, start) {
        MonitorAction::StartTask(plan) => {
            assert!(plan.convert_args.is_empty());
            assert!(!plan.is_delete_segment);
            assert_eq!(plan.save_path, "");
        }
        other => panic!("{other:?}"),
    }
}

#[test]
fn the_number_of_files_is_shown() {
    let mut task = DownloadTask::new();
    let slicing = ChannelMessage::DownloadSlicing(12);
    let update = update(Monitor::new().receive_message(&mut task, slicing));
    assert_eq!(update.message, Some(("Downloading...".to_string(), false)));
    assert_eq!(update.total_nums, Some(12));
    assert_eq!((update.enable_pause_btn, update.enable_cancel_btn), (Some(true), Some(true)));
    assert_eq!((update.is_pause, update.enable_start_btn), (Some(false), None));
}

#[test]
fn progress_adds_up() {
    let mut task = DownloadTask::new();
    let mut monitor = Monitor::new();
    monitor.receive_message(&mut task, ChannelMessage::StartDownload(request(false, false)));
    let first = update(monitor.receive_message(&mut task, completed("a", 1000)));
    assert_eq!(first.downloaded_nums, Some(1));
    assert_eq!(first.content_length.as_deref(), Some("1000 B"));
    assert_eq!(first.message, None);
    let second = update(monitor.receive_message(&mut task, completed("b", 536)));
    assert_eq!(second.downloaded_nums, Some(2));
    assert_eq!(second.content_length.as_deref(), Some("1.50 KB"));
    assert_eq!(task.downloaded_files, ["a", "b"]);
}

#[test]
fn a_pause_keeps_the_count_and_a_new_download_drops_it() {
    let mut task = DownloadTask::new();
    let mut monitor = Monitor::new();
    monitor.receive_message(&mut task, ChannelMessage::StartDownload(request(false, false)));
    monitor.receive_message(&mut task, completed("a", 10));
    assert!(matches!(
        monitor.receive_message(&mut task, ChannelMessage::Pause),
        MonitorAction::Nothing
    ));
    assert!(task.is_pause && !task.is_new_task);
    monitor.receive_message(&mut task, ChannelMessage::StartDownload(request(false, false)));
    monitor.receive_message(&mut task, completed("b", 5));
    assert_eq!(monitor.current_content_length, 15);
    assert_eq!(task.downloaded_files, ["a", "b"]);

    task.reset_download_status(String::new(), false);
    monitor.receive_message(&mut task, ChannelMessage::StartDownload(request(false, false)));
    assert_eq!(monitor.current_content_length, 0);
}

#[test]
fn canceling() {
    let mut task = DownloadTask::new();
    let mut monitor = Monitor::new();
    assert!(matches!(
        monitor.receive_message(&mut task, ChannelMessage::Cancel),
        MonitorAction::Nothing
    ));
    assert!(task.is_cancel);
    task.is_pause = true;
    let update = update(monitor.receive_message(&mut task, ChannelMessage::Cancel));
    assert_eq!(update.message, Some(("Canceled.".to_string(), false)));
}

#[test]
fn the_thread_of_the_download_is_waited_for() {
    let mut task = DownloadTask::new();
    assert!(matches!(
        Monitor::new().receive_message(&mut task, ChannelMessage::RecycleTaskThead),
        MonitorAction::JoinTask
    ));
}
