use m3u8downloader::error::DownloadError;
use m3u8downloader::location::{absolute, parse_m3u8_key_segment, resolve_base, slice_of};
use m3u8downloader::playlist::{
    classify, key_reference, playlist_text, resolve_m3u8, Fetched, LineKind, Resolution,
};
use m3u8downloader::text::chars_of;

const BASE: &str = "https://example.com/videos/one/";

fn names(text: &str) -> Vec<String> {
    let resolved = resolve_m3u8(BASE, text, "/save");
    resolved.files.unwrap().into_iter().map(|f| f.slice_name).collect()
}

#[test]
fn base_is_the_directory_of_the_playlist() {
    assert_eq!(
        resolve_base("https://example.com/videos/one/index.m3u8?token=1").unwrap(),
        "https://example.com/videos/one/"
    );
    assert_eq!(resolve_base("http://example.com").unwrap(), "http://example.com/");
}

#[test]
fn base_needs_an_absolute_url() {
    let e = resolve_base("videos/index.m3u8").unwrap_err();
    assert!(matches!(e, DownloadError::Url(_)));
    assert_eq!(e.message(), "relative URL without a base");
    assert!(matches!(resolve_base("mailto:someone@example.com"), Err(DownloadError::Url(_))));
}

#[test]
fn absolute_addresses() {
    assert!(absolute("http://a"));
    assert!(absolute("https://a"));
    assert!(!absolute("HTTP://a"));
    assert!(!absolute("ftp://a"));
    assert!(!absolute("/http://a"));
    assert!(!absolute(""));
}

#[test]
fn relative_references_are_joined() {
    let (name, url) = parse_m3u8_key_segment(BASE, "seg 1.ts?x=1").unwrap();
    assert_eq!(name, "seg%201.ts");
    assert_eq!(url, "https://example.com/videos/one/seg%201.ts?x=1");

    let (name, url) = parse_m3u8_key_segment(BASE, "../two/a.ts").unwrap();
    assert_eq!((name.as_str(), url.as_str()), ("a.ts", "https://example.com/videos/two/a.ts"));

    let (name, url) = parse_m3u8_key_segment(BASE, "/root.ts").unwrap();
    assert_eq!((name.as_str(), url.as_str()), ("root.ts", "https://example.com/root.ts"));
}

#[test]
fn absolute_references_ignore_the_base() {
    for base in [BASE, "http://other.example/"] {
        let (name, url) = parse_m3u8_key_segment(base, "https://cdn.example/x/y.ts").unwrap();
        assert_eq!((name.as_str(), url.as_str()), ("y.ts", "https://cdn.example/x/y.ts"));
    }
}

#[test]
fn names_hold_no_query_and_no_fragment() {
    for reference in ["https://cdn.example/x/y.ts?a=1/2#b/c", "y.ts?a#b", "y.ts#b?a", "x/y.ts#/"] {
        let (name, _) = parse_m3u8_key_segment(BASE, reference).unwrap();
        assert_eq!(name, "y.ts", "{reference}");
    }
    let (_, url) = parse_m3u8_key_segment(BASE, "https://CDN.example/x/../y.ts?a#b").unwrap();
    assert_eq!(url, "https://cdn.example/y.ts?a#b");
}

#[test]
fn the_local_playlist_keeps_the_order_of_the_lines() {
    let text = "#EXTM3U\n\n#EXT-X-KEY:METHOD=AES-128,URI=\"k/one.key\"\n#EXTINF:1,\n\
        s/b.ts?x\n#EXT-X-KEY:METHOD=AES-128,URI=\"two.key\"\n#EXTINF:1,\na.ts\ns/\n#EXT-X-ENDLIST\n";
    let resolved = resolve_m3u8(BASE, text, "/save");
    assert_eq!(
        resolved.playlist,
        "#EXTM3U\n#EXT-X-KEY:METHOD=AES-128,URI=\"one.key\"\n#EXTINF:1,\nb.ts\n\
        #EXT-X-KEY:METHOD=AES-128,URI=\"two.key\"\n#EXTINF:1,\na.ts\n#EXT-X-ENDLIST\n"
    );
    let names: Vec<String> = resolved.files.unwrap().into_iter().map(|f| f.slice_name).collect();
    assert_eq!(names, ["one.key", "b.ts", "two.key", "a.ts"]);
}

#[test]
fn references_that_fail() {
    assert!(matches!(parse_m3u8_key_segment(BASE, "http://"), Err(DownloadError::Url(_))));
    let e = parse_m3u8_key_segment(BASE, "mailto:x").unwrap_err();
    assert!(matches!(&e, DownloadError::NoSlice(u) if u == "mailto:x"));
    assert_eq!(e.message(), "no slice:mailto:x");
}

#[test]
fn the_last_segment_is_the_name() {
    let segments = vec!["a".to_string(), "b".to_string()];
    let (name, url) = slice_of("u".to_string(), Some(segments)).unwrap();
    assert_eq!((name.as_str(), url.as_str()), ("b", "u"));
    assert!(matches!(slice_of("u".to_string(), Some(vec![])), Err(DownloadError::NoSlice(_))));
    assert!(matches!(slice_of("u".to_string(), None), Err(DownloadError::NoSlice(_))));
}

#[test]
fn messages_of_errors() {
    assert_eq!(DownloadError::Url("bad".to_string()).message(), "bad");
    assert_eq!(DownloadError::Body("cut".to_string()).message(), "cut");
    assert_eq!(DownloadError::ConnectionTimeout.message(), "Connection timeout");
    assert_eq!(DownloadError::EmptyContent.message(), "Content is empty");
    assert_eq!(DownloadError::NoDownloadable.message(), "No downloadable");
}

#[test]
fn key_references() {
    let uri = |line: &str| key_reference(&chars_of(line));
    assert_eq!(uri("#EXT-X-KEY:METHOD=AES-128,URI=\"k.key\",IV=0x1"), "k.key");
    assert_eq!(uri("#EXT-X-KEY:METHOD=NONE"), "");
    assert_eq!(uri("#EXT-X-KEY:URI=\"open"), "open");
    assert_eq!(uri("#EXT-X-KEY:URI=\"aURI=\"b\""), "a");
    assert_eq!(uri("#EXT-X-KEY:URI=\"\""), "");
}

#[test]
fn kinds_of_lines() {
    let kind = |line: &str| classify(&chars_of(line));
    assert!(matches!(kind("sub/high.m3u8"), LineKind::Nested));
    assert!(matches!(kind("#EXT-X-KEY:URI=\"x.m3u8"), LineKind::Nested));
    assert!(matches!(kind("#EXT-X-KEY:URI=\"k\""), LineKind::Key(u) if u == "k"));
    assert!(matches!(kind("seg.ts"), LineKind::Segment));
    assert!(matches!(kind("high.m3u8?x"), LineKind::Segment));
    assert!(matches!(kind(" #x"), LineKind::Segment));
    assert!(matches!(kind("#EXTM3U"), LineKind::Comment));
    assert!(matches!(kind("  "), LineKind::Blank));
    assert!(matches!(kind(""), LineKind::Blank));
}

#[test]
fn slices_are_taken_in() {
    let mut done = Resolution::new();
    let key = LineKind::Key("k.key".to_string());
    let line = chars_of("#EXT-X-KEY:URI=\"k.key\",X=k.key");
    done.add_slice(&line, &key, "/s", "local".to_string(), "u1".to_string());
    done.add_slice(&chars_of("a?b"), &LineKind::Segment, "/s", "a".to_string(), "u2".to_string());
    done.add_slice(&chars_of("c"), &LineKind::Segment, "/s", " ".to_string(), "u3".to_string());
    done.add_slice(&line, &LineKind::Key("k.key".to_string()), "/s", "".to_string(), "u4".to_string());
    done.add_line(&chars_of("#EXT-X-ENDLIST"));
    assert_eq!(
        done.playlist,
        "#EXT-X-KEY:URI=\"local\",X=local\na\n#EXT-X-KEY:URI=\"\",X=\n#EXT-X-ENDLIST\n"
    );
    let urls: Vec<&str> = done.files.iter().map(|f| f.download_url.as_str()).collect();
    assert_eq!(urls, ["u1", "u2", "u4"]);
}

#[test]
fn lines_are_taken_in_one_by_one() {
    let mut done = Resolution::new();
    let mut take = |text: &str, located| {
        let line = chars_of(text);
        let kind = classify(&line);
        done.take_line(&line, &kind, "/s", located)
    };
    let slice = |name: &str| Some(Ok((name.to_string(), format!("http://x/{name}"))));
    assert!(take("#EXTM3U", None).is_none());
    assert!(take("", None).is_none());
    assert!(take("a.ts", slice("a.ts")).is_none());
    assert!(matches!(
        take("b.ts", Some(Err(DownloadError::NoSlice("b".to_string())))),
        Some(DownloadError::NoSlice(u)) if u == "b"
    ));
    assert_eq!(done.playlist, "#EXTM3U\na.ts\n");
    assert_eq!(done.files.len(), 1);
    let resolved = done.finish(Some(DownloadError::ConnectionTimeout));
    assert_eq!(resolved.playlist, "#EXTM3U\na.ts\n");
    assert!(matches!(resolved.files, Err(DownloadError::ConnectionTimeout)));
    assert!(matches!(Resolution::new().finish(None).files, Err(DownloadError::NoDownloadable)));
}

#[test]
fn a_playlist_is_made_local() {
    let text = "#EXTM3U\r\n#EXT-X-KEY:METHOD=AES-128,URI=\"keys/k.key?v=2\"\r\n\r\n#EXTINF:4,\r\n\
                a/seg0.ts?t=1\r\n#EXTINF:4,\r\nhttps://cdn.example/seg1.ts\r\n#EXT-X-ENDLIST";
    let resolved = resolve_m3u8(BASE, text, "/save");
    assert_eq!(
        resolved.playlist,
        "#EXTM3U\n#EXT-X-KEY:METHOD=AES-128,URI=\"k.key\"\n#EXTINF:4,\nseg0.ts\n#EXTINF:4,\nseg1.ts\n\
         #EXT-X-ENDLIST\n"
    );
    let files = resolved.files.unwrap();
    let got: Vec<(&str, &str, &str)> = files
        .iter()
        .map(|f| (f.slice_name.as_str(), f.save_path.as_str(), f.download_url.as_str()))
        .collect();
    assert_eq!(
        got,
        [
            ("k.key", "/save", "https://example.com/videos/one/keys/k.key?v=2"),
            ("seg0.ts", "/save", "https://example.com/videos/one/a/seg0.ts?t=1"),
            ("seg1.ts", "/save", "https://cdn.example/seg1.ts"),
        ]
    );
}

#[test]
fn every_file_is_named_by_the_local_playlist() {
    let text = "#EXT-X-KEY:URI=\"k\"\na.ts\n#c\nd/b.ts\n";
    let resolved = resolve_m3u8(BASE, text, "/save");
    let written: Vec<&str> = resolved.playlist.lines().collect();
    assert_eq!(written, ["#EXT-X-KEY:URI=\"k\"", "a.ts", "#c", "b.ts"]);
    for file in resolved.files.unwrap() {
        assert!(written.iter().any(|line| line.contains(&file.slice_name)));
        assert!(!file.slice_name.contains('/'));
    }
}

#[test]
fn a_nested_playlist_ends_the_reading() {
    assert_eq!(names("a.ts\nhigh.m3u8\nb.ts\n"), ["a.ts"]);
    assert_eq!(names("a.ts\nhigh.m3u8\nhttp://\n"), names("a.ts\n"));
}

#[test]
fn a_playlist_is_resolved_piece_by_piece() {
    let mut both = names("#x\na.ts\n");
    both.extend(names("b.ts\n\nc.ts"));
    assert_eq!(names("#x\na.ts\nb.ts\n\nc.ts"), both);
}

#[test]
fn the_first_bad_reference_decides() {
    let resolved = resolve_m3u8(BASE, "#EXTM3U\na.ts\nhttp://\nmailto:x\n", "/save");
    assert!(matches!(resolved.files, Err(DownloadError::Url(_))));
    assert_eq!(resolved.playlist, "#EXTM3U\na.ts\n");
    let resolved = resolve_m3u8(BASE, "mailto:x\nhttp://\n", "/save");
    assert!(matches!(resolved.files, Err(DownloadError::NoSlice(_))));
}

#[test]
fn a_playlist_without_files() {
    let resolved = resolve_m3u8(BASE, "#EXTM3U\n\n#EXT-X-ENDLIST\n", "/save");
    assert!(matches!(resolved.files, Err(DownloadError::NoDownloadable)));
    assert_eq!(resolved.playlist, "#EXTM3U\n#EXT-X-ENDLIST\n");
}

#[test]
fn a_segment_without_a_name_is_left_out_but_a_key_is_not() {
    let resolved = resolve_m3u8(BASE, "dir/\na.ts\n", "/save");
    assert_eq!(resolved.playlist, "a.ts\n");
    assert_eq!(resolved.files.unwrap().len(), 1);

    let resolved = resolve_m3u8(BASE, "#EXT-X-KEY:METHOD=NONE\n", "/save");
    assert_eq!(resolved.playlist, "#EXT-X-KEY:METHOD=NONE\n");
    let files = resolved.files.unwrap();
    assert_eq!(files.len(), 1);
    assert_eq!(files[0].slice_name, "");
    assert_eq!(files[0].download_url, BASE);
}

#[test]
fn what_was_fetched() {
    assert!(matches!(playlist_text(Fetched::Nothing), Err(DownloadError::ConnectionTimeout)));
    assert!(matches!(
        playlist_text(Fetched::Text(" \r\n\t".to_string())),
        Err(DownloadError::EmptyContent)
    ));
    assert!(matches!(
        playlist_text(Fetched::Broken("cut".to_string())),
        Err(DownloadError::Body(e)) if e == "cut"
    ));
    assert_eq!(playlist_text(Fetched::Text("#EXTM3U".to_string())).unwrap(), "#EXTM3U");
}
