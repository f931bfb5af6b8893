use m3u8downloader::convert::{convert_and_delete, convert_args, FfmpegRun};

fn downloaded() -> Vec<String> {
    vec!["a.ts".to_string(), "b.ts".to_string()]
}

#[test]
fn the_arguments_of_ffmpeg() {
    assert_eq!(
        convert_args("in".to_string(), "out".to_string()),
        ["-allowed_extensions", "ALL", "-i", "in", "-c", "copy", "out"]
    );
}

#[test]
fn a_conversion_that_succeeds() {
    let done = convert_and_delete(FfmpegRun::Exited(true), false, downloaded());
    assert_eq!(done.message, "Successfully converted to MP4!");
    assert!(!done.delete_playlist && done.delete_segments.is_empty());

    let done = convert_and_delete(FfmpegRun::Exited(true), true, downloaded());
    assert_eq!(done.message, "Successfully converted to MP4! And deleted the segments!");
    assert!(done.delete_playlist);
    assert_eq!(done.delete_segments, ["a.ts", "b.ts"]);
}

#[test]
fn a_conversion_that_fails_deletes_nothing() {
    for (run, message) in [
        (FfmpegRun::NotFound, "An error occurred: Cannot find the ffmpeg command"),
        (FfmpegRun::Failed("denied".to_string()), "denied"),
        (FfmpegRun::Exited(false), "Failed to convert MP4"),
    ] {
        let done = convert_and_delete(run, true, downloaded());
        assert_eq!(done.message, message);
        assert!(!done.delete_playlist && done.delete_segments.is_empty());
    }
}
