use m3u8downloader::playlist::WaitDownloadFile;
use m3u8downloader::task::{failed_link_entry, AfterDownload, DownloadTask};
use m3u8downloader::window::WindowUpdate;

fn file(name: &str) -> WaitDownloadFile {
    WaitDownloadFile {
        slice_name: name.to_string(),
        save_path: "/s".to_string(),
        download_url: format!("http://x/{name}"),
    }
}

fn files(names: &[&str]) -> Vec<WaitDownloadFile> {
    names.iter().map(|name| file(name)).collect()
}

fn names(files: &[WaitDownloadFile]) -> Vec<&str> {
    files.iter().map(|f| f.slice_name.as_str()).collect()
}

fn shown(after: AfterDownload) -> WindowUpdate {
    match after {
        AfterDownload::Show(update) => update,
        other => panic!("{other:?}"),
    }
}

fn message(update: &WindowUpdate) -> (&str, bool) {
    let (text, is_error) = update.message.as_ref().unwrap();
    (text.as_str(), *is_error)
}

#[test]
fn before_the_first_download() {
    let task = DownloadTask::new();
    assert!(task.is_new_task);
    assert!(!task.is_pause && !task.is_cancel && !task.is_parse_fail);
    assert_eq!(task.file_total_nums, 0);
    assert!(task.downloaded_files.is_empty() && task.failed_files.is_empty());
}

#[test]
fn a_new_download_takes_every_file() {
    let mut task = DownloadTask::new();
    task.start();
    let selected = task.select_files(files(&["a", "b", "c"]));
    assert_eq!(names(&selected), ["a", "b", "c"]);
    assert_eq!(task.file_total_nums, 3);
    for (i, f) in selected.into_iter().enumerate() {
        assert_ne!(task.file_total_nums, task.downloaded_files.len());
        assert_eq!(task.complete_slice(f.slice_name), i + 1);
    }
    let update = shown(task.finish(false));
    assert_eq!(message(&update), ("All segments have been downloaded!", false));
    assert_eq!(update.has_failed_file, Some(false));
    assert!(task.is_new_task);
    assert_eq!(task.file_total_nums, 0);
    assert!(task.downloaded_files.is_empty());
}

#[test]
fn a_paused_download_goes_on_with_what_is_missing() {
    let mut task = DownloadTask::new();
    task.start();
    task.select_files(files(&["a", "b", "c"]));
    task.complete_slice("b".to_string());
    assert!(!task.should_skip());
    task.pause();
    assert!(task.should_skip());
    let update = shown(task.finish(true));
    assert_eq!(message(&update), ("Paused.", false));
    assert_eq!((update.is_pause, update.enable_start_btn), (Some(true), Some(true)));

    task.start();
    assert!(!task.should_skip());
    let selected = task.select_files(files(&["a", "b", "c"]));
    assert_eq!(names(&selected), ["a", "c"]);
    assert_eq!(task.file_total_nums, 3);
    task.complete_slice("a".to_string());
    task.complete_slice("c".to_string());
    assert_eq!(
        message(&shown(task.finish(false))),
        ("All segments have been downloaded!", false)
    );
}

#[test]
fn a_paused_download_is_canceled_at_once() {
    let mut task = DownloadTask::new();
    task.start();
    task.select_files(files(&["a", "b"]));
    task.complete_slice("a".to_string());
    task.record_failed_file("http://x/b");
    task.pause();
    let update = task.cancel().unwrap();
    assert_eq!(message(&update), ("Canceled.", false));
    assert_eq!((update.total_nums, update.downloaded_nums), (Some(0), Some(0)));
    assert_eq!(update.has_failed_file, Some(false));
    task.start();
    assert_eq!(names(&task.select_files(files(&["a", "b"]))), ["a", "b"]);
}

#[test]
fn a_running_download_is_canceled_when_it_notices() {
    let mut task = DownloadTask::new();
    task.start();
    task.select_files(files(&["a"]));
    assert!(task.cancel().is_none());
    assert!(task.should_skip());
    assert!(!task.is_new_task || task.file_total_nums == 1);
    let update = shown(task.finish(true));
    assert_eq!(message(&update), ("Canceled.", false));
    assert_eq!((update.total_nums, update.downloaded_nums), (Some(0), Some(0)));
    assert!(task.is_new_task);
}

#[test]
fn a_failed_parse_says_why() {
    let mut task = DownloadTask::new();
    task.start();
    let update = task.fail_parse("No downloadable".to_string());
    assert_eq!(message(&update), ("No downloadable", true));
    assert_eq!((update.is_downloading, update.enable_start_btn), (Some(false), Some(true)));
    assert!(task.is_parse_fail);
    assert!(matches!(task.finish(true), AfterDownload::Nothing));
    task.start();
    assert!(!task.is_parse_fail);
}

#[test]
fn failed_files_are_told_of() {
    let mut task = DownloadTask::new();
    task.start();
    task.select_files(files(&["a", "b"]));
    task.record_failed_file("http://x/a");
    let update = shown(task.finish(false));
    assert_eq!(message(&update), ("1 file cannot be downloaded", true));
    assert_eq!(update.has_failed_file, Some(true));
    assert_eq!(update.total_nums, None);

    task.record_failed_file("http://x/b");
    let update = task.reset_download_status("done".to_string(), false);
    assert_eq!(message(&update), ("2 files cannot be downloaded", true));
    let update = task.reset_download_status("done".to_string(), true);
    assert_eq!(message(&update), ("done", false));
    task.start();
    assert!(task.failed_files.is_empty());
    let update = task.reset_download_status("done".to_string(), false);
    assert_eq!(message(&update), ("done", false));
}

#[test]
fn an_incomplete_download_without_failures_says_nothing() {
    let mut task = DownloadTask::new();
    task.start();
    task.select_files(files(&["a", "b"]));
    task.complete_slice("a".to_string());
    assert_eq!(message(&shown(task.finish(true))), ("", false));
}

#[test]
fn a_complete_download_is_converted() {
    let mut task = DownloadTask::new();
    task.start();
    task.select_files(files(&["a", "b"]));
    task.complete_slice("b".to_string());
    task.complete_slice("a".to_string());
    match task.finish(true) {
        AfterDownload::Convert(update, downloaded) => {
            assert_eq!(message(&update), ("Converting to MP4 now...", false));
            assert_eq!(downloaded, ["b", "a"]);
        }
        other => panic!("{other:?}"),
    }
    assert_eq!(task.file_total_nums, 2);
}

#[test]
fn the_list_of_failed_links_has_a_line_for_each() {
    let mut task = DownloadTask::new();
    let links = ["http://x/a", "http://x/b", "http://x/ü"];
    let mut list = String::new();
    for link in links {
        task.record_failed_file(link);
        let entry = failed_link_entry(list.len() as u64, link);
        list.push_str(&entry);
    }
    assert_eq!(list, "http://x/a\nhttp://x/b\nhttp://x/ü");
    assert_eq!(list, links.join("\n"));
    assert_eq!(list.lines().collect::<Vec<&str>>(), links);
    assert_eq!(task.failed_files, links);
}
