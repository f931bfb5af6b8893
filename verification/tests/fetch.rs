use m3u8downloader::fetch::{
    parse_download, FetchStep, PlaylistFetch, Reply, SliceFetch, SliceStep,
};
use m3u8downloader::monitor::ChannelMessage;
use m3u8downloader::playlist::{Fetched, WaitDownloadFile};
use m3u8downloader::retry::Retry;
use m3u8downloader::task::DownloadTask;

fn file(name: &str) -> WaitDownloadFile {
    WaitDownloadFile {
        slice_name: name.to_string(),
        save_path: "/s".to_string(),
        download_url: format!("http://x/{name}"),
    }
}

#[test]
fn attempts_are_counted() {
    let mut retry = Retry::new(2);
    assert!(retry.can_try());
    assert!(retry.fail());
    assert!(retry.can_try());
    assert!(!retry.fail());
    assert!(!retry.can_try());
    assert!(!Retry::new(0).can_try());
}

#[test]
fn a_playlist_is_tried_until_the_limit() {
    let (mut fetch, first) = PlaylistFetch::new(3);
    assert!(matches!(first, FetchStep::Try));
    assert!(matches!(fetch.reply(Reply::Unusable), FetchStep::WaitAndTry));
    assert!(matches!(fetch.reply(Reply::Unusable), FetchStep::WaitAndTry));
    assert!(matches!(fetch.reply(Reply::Unusable), FetchStep::Done(Fetched::Nothing)));
}

#[test]
fn an_answer_settles_the_matter() {
    let (mut fetch, _) = PlaylistFetch::new(3);
    assert!(matches!(fetch.reply(Reply::Unusable), FetchStep::WaitAndTry));
    assert!(matches!(
        fetch.reply(Reply::Text("t".to_string())),
        FetchStep::Done(Fetched::Text(t)) if t == "t"
    ));
    let (mut fetch, _) = PlaylistFetch::new(3);
    assert!(matches!(
        fetch.reply(Reply::Broken("e".to_string())),
        FetchStep::Done(Fetched::Broken(e)) if e == "e"
    ));
}

#[test]
fn without_attempts_nothing_is_fetched() {
    let (_, first) = PlaylistFetch::new(0);
    assert!(matches!(first, FetchStep::Done(Fetched::Nothing)));
    let (_, first) = SliceFetch::new(&DownloadTask::new(), file("a"), 0);
    assert!(matches!(first, SliceStep::Fail));
}

#[test]
fn files_are_announced_and_selected() {
    let mut task = DownloadTask::new();
    let (message, files) = parse_download(&mut task, vec![file("a"), file("b")]);
    assert!(matches!(message, ChannelMessage::DownloadSlicing(2)));
    assert_eq!(files.len(), 2);
    task.complete_slice("a".to_string());
    task.pause();
    let (message, files) = parse_download(&mut task, vec![file("a"), file("b")]);
    assert!(matches!(message, ChannelMessage::DownloadSlicing(2)));
    assert_eq!(files.len(), 1);
    assert_eq!(files[0].slice_name, "b");
}

#[test]
fn a_file_is_reported_or_fails() {
    let (mut fetch, first) = SliceFetch::new(&DownloadTask::new(), file("a"), 2);
    assert!(matches!(first, SliceStep::Try));
    assert!(matches!(fetch.failed(), SliceStep::WaitAndTry));
    match fetch.saved(Some(7)) {
        SliceStep::Report(ChannelMessage::SliceCompleted { slice_name, content_length }) => {
            assert_eq!((slice_name.as_str(), content_length), ("a", 7));
        }
        other => panic!("{other:?}"),
    }
    match fetch.saved(None) {
        SliceStep::Report(ChannelMessage::SliceCompleted { content_length, .. }) => {
            assert_eq!(content_length, 0);
        }
        other => panic!("{other:?}"),
    }
    assert!(matches!(fetch.failed(), SliceStep::Fail));
}

#[test]
fn attempts_at_a_file_end_within_the_limit() {
    for limit in 0..5u32 {
        for saved_at in 0..6u32 {
            let (mut fetch, mut step) = SliceFetch::new(&DownloadTask::new(), file("a"), limit);
            let mut attempts = 0;
            while matches!(step, SliceStep::Try | SliceStep::WaitAndTry) {
                step = if attempts == saved_at { fetch.saved(Some(9)) } else { fetch.failed() };
                attempts += 1;
            }
            if saved_at < limit {
                assert!(matches!(
                    step,
                    SliceStep::Report(ChannelMessage::SliceCompleted { content_length: 9, .. })
                ));
                assert_eq!(attempts, saved_at + 1);
            } else {
                assert!(matches!(step, SliceStep::Fail));
                assert_eq!(attempts, limit);
            }
        }
    }
}

#[test]
fn files_are_skipped_while_stopping() {
    let mut task = DownloadTask::new();
    task.pause();
    assert!(matches!(SliceFetch::new(&task, file("a"), 2).1, SliceStep::Skip));
    task.start();
    assert!(matches!(SliceFetch::new(&task, file("a"), 2).1, SliceStep::Try));
    task.cancel();
    assert!(matches!(SliceFetch::new(&task, file("a"), 2).1, SliceStep::Skip));
}
