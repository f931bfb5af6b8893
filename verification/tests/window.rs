use m3u8downloader::window::{window_position, WindowUpdate};

#[test]
fn the_window_is_centred() {
    assert_eq!(window_position(1920, 1080), (775, 240));
    assert_eq!(window_position(370, 600), (0, 0));
    assert_eq!(window_position(0, 0), (-185, -300));
    assert_eq!(window_position(369, 599), (0, 0));
    assert_eq!(window_position(367, 597), (-1, -1));
}

#[test]
fn pressing_start() {
    let u = WindowUpdate::start_pressed();
    assert_eq!(u.message, Some(("Parsing...".to_string(), false)));
    assert_eq!((u.enable_start_btn, u.is_downloading), (Some(false), Some(true)));
    assert_eq!((u.has_failed_file, u.enable_pause_btn), (Some(false), None));
}

#[test]
fn pressing_pause_and_cancel() {
    let u = WindowUpdate::pause_pressed();
    assert_eq!(u.message, Some(("Pausing...".to_string(), false)));
    assert_eq!((u.enable_pause_btn, u.enable_cancel_btn), (Some(false), None));
    let u = WindowUpdate::cancel_pressed();
    assert_eq!(u.message, Some(("Canceling...".to_string(), false)));
    assert_eq!((u.enable_pause_btn, u.enable_cancel_btn), (Some(false), Some(false)));
}

#[test]
fn once_over_the_window_is_idle() {
    let u = WindowUpdate::over("bye".to_string(), false, true);
    assert_eq!(u.message, Some(("bye".to_string(), false)));
    assert_eq!((u.enable_start_btn, u.enable_pause_btn), (Some(true), Some(false)));
    assert_eq!((u.enable_cancel_btn, u.is_downloading), (Some(false), Some(false)));
    assert_eq!((u.is_pause, u.has_failed_file), (Some(false), Some(false)));
    assert_eq!((u.total_nums, u.downloaded_nums), (Some(0), Some(0)));
    let u = WindowUpdate::over("bad".to_string(), true, false);
    assert_eq!(u.message, Some(("bad".to_string(), true)));
    assert_eq!((u.total_nums, u.downloaded_nums), (None, None));
}
