use m3u8downloader::request::{parse_number, RequestData};

fn request(threads: &str, retry: &str) -> RequestData {
    RequestData::new("/s".to_string(), "u".to_string(), threads, retry, true, false)
}

#[test]
fn entries_are_taken_over() {
    let r = request("8", "5");
    assert_eq!((r.save_path.as_str(), r.m3u8_url.as_str()), ("/s", "u"));
    assert_eq!((r.threads, r.retry, r.timeout), (8, 5, 5));
    assert_eq!((r.is_convert, r.is_delete_segment), (true, false));
}

#[test]
fn defaults_stand_in_for_what_is_no_number() {
    let r = request("", "x");
    assert_eq!((r.threads, r.retry, r.timeout), (4, 3, 3));
    let r = request("-1", "4294967296");
    assert_eq!((r.threads, r.retry, r.timeout), (4, 3, 4294967296));
}

#[test]
fn numbers_are_those_of_std() {
    for s in [
        "", "+", "-", "0", "+0", "-0", "007", "12", "+12", "++1", " 1", "1 ", "1_000", "0x10",
        "18446744073709551615", "18446744073709551616", "99999999999999999999999", "4294967295",
        "4294967296", "٣", "1+", "000000000000000000000000000001",
    ] {
        assert_eq!(parse_number(s, u64::MAX), s.parse::<u64>().ok(), "{s:?}");
        assert_eq!(parse_number(s, u32::MAX as u64), s.parse::<u32>().ok().map(u64::from), "{s:?}");
    }
    assert_eq!(parse_number("9", 8), None);
    assert_eq!(parse_number("8", 8), Some(8));
    assert_eq!(parse_number("0", 0), Some(0));
}
