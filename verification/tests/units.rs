use bilidown::fetch::{classify_status, request_headers, FetchError};
use bilidown::mux::{interpret_mux_outcome, mux_args};
use bilidown::naming::{decimal_string, generate_unique_filename, join_path};
use bilidown::progress::DownloadProgress;
use bilidown::text::trim_str;
use bilidown::url::complete_url;

#[test]
fn bare_identifier_is_prefixed() {
    assert_eq!(
        complete_url("BV1xx411c7mD".to_string()),
        "https://www.bilibili.com/video/BV1xx411c7mD"
    );
}

#[test]
fn complete_url_is_identity_on_full_urls() {
    let full = "https://www.bilibili.com/video/BV1xx411c7mD?p=2".to_string();
    assert_eq!(complete_url(full.clone()), full);
}

#[test]
fn decimal_rendering_is_exact() {
    assert_eq!(decimal_string(0), "0");
    assert_eq!(decimal_string(7), "7");
    assert_eq!(decimal_string(10), "10");
    assert_eq!(decimal_string(12345), "12345");
    assert_eq!(decimal_string(u64::MAX), "18446744073709551615");
}

#[test]
fn unique_filename_with_no_existing_files() {
    let existing: Vec<String> = vec![];
    assert_eq!(generate_unique_filename(&existing, "title"), "title.mp4");
}

#[test]
fn unique_filename_counts_past_taken_names() {
    let existing = vec!["title.mp4".to_string()];
    assert_eq!(generate_unique_filename(&existing, "title"), "title-1.mp4");
    let existing = vec![
        "title.mp4".to_string(),
        "title-1.mp4".to_string(),
        "unrelated.mp4".to_string(),
    ];
    assert_eq!(generate_unique_filename(&existing, "title"), "title-2.mp4");
}

#[test]
fn unique_filename_never_collides() {
    let mut existing = vec!["t.mp4".to_string()];
    for i in 1..=11u64 {
        existing.push(format!("t-{i}.mp4"));
    }
    let chosen = generate_unique_filename(&existing, "t");
    assert_eq!(chosen, "t-12.mp4");
    assert!(!existing.contains(&chosen));
}

#[test]
fn unique_filename_handles_a_dashed_title() {
    let existing = vec!["a-1.mp4".to_string()];
    assert_eq!(generate_unique_filename(&existing, "a-1"), "a-1-1.mp4");
    assert_eq!(generate_unique_filename(&existing, "a"), "a.mp4");
}

#[test]
fn join_path_inserts_one_separator() {
    assert_eq!(join_path("/tmp/out", "a.mp4"), "/tmp/out/a.mp4");
    assert_eq!(join_path("/tmp/out/", "a.mp4"), "/tmp/out/a.mp4");
    assert_eq!(join_path("", "a.mp4"), "a.mp4");
}

#[test]
fn status_classification() {
    assert!(classify_status(200).is_ok());
    assert!(classify_status(299).is_ok());
    assert_eq!(classify_status(300), Err(FetchError::Status(300)));
    assert_eq!(classify_status(404), Err(FetchError::Status(404)));
    assert_eq!(classify_status(500), Err(FetchError::Status(500)));
}

#[test]
fn request_headers_are_fixed_and_carry_the_cookie() {
    let h = request_headers("k=v".to_string());
    assert_eq!(h.len(), 4);
    assert_eq!(h[0].0, "User-Agent");
    assert_eq!(
        h[0].1,
        "Mozilla/5.0 (Windows NT 10.0; Win64; x64) AppleWebKit/537.36"
    );
    assert_eq!(h[1], ("Accept-Encoding".to_string(), "gzip".to_string()));
    assert_eq!(h[2], ("Cookie".to_string(), "k=v".to_string()));
    assert_eq!(
        h[3],
        ("Referer".to_string(), "https://www.bilibili.com/".to_string())
    );
}

#[test]
fn mux_args_copy_both_codecs() {
    let args = mux_args("/tmp/v.m4s", "/tmp/a.m4s", "/out/f.mp4");
    let want = vec![
        "-i", "/tmp/v.m4s", "-i", "/tmp/a.m4s", "-c:v", "copy", "-c:a", "copy", "/out/f.mp4",
    ];
    assert_eq!(args, want);
}

#[test]
fn failing_mux_surfaces_diagnostic_verbatim() {
    let r = interpret_mux_outcome(false, "ffmpeg: no such file\n".to_string());
    match r {
        Err(e) => assert_eq!(e.detail, "ffmpeg: no such file\n"),
        Ok(()) => panic!("a failing invocation must not succeed"),
    }
    assert!(interpret_mux_outcome(true, String::new()).is_ok());
}

#[test]
fn progress_counts_every_chunk_and_never_decreases() {
    let mut d = DownloadProgress::begin(10);
    assert_eq!(d.received, 0);
    assert_eq!(d.total, 10);
    let mut last = 0;
    for chunk in [vec![1u8, 2, 3], vec![4, 5, 6, 7], vec![8, 9, 10]] {
        d.push_chunk(chunk);
        assert!(d.received >= last);
        last = d.received;
    }
    assert_eq!(d.received, 10);
    assert_eq!(d.received, d.total);
    assert_eq!(d.bytes, vec![1u8, 2, 3, 4, 5, 6, 7, 8, 9, 10]);
}

#[test]
fn progress_with_unknown_total_still_counts() {
    let mut d = DownloadProgress::begin(0);
    d.push_chunk(vec![0u8; 5]);
    d.push_chunk(vec![0u8; 2]);
    assert_eq!(d.received, 7);
    assert_eq!(d.total, 0);
}

#[test]
fn trimming_strips_unicode_whitespace() {
    assert_eq!(trim_str("  a b  "), "a b");
    assert_eq!(trim_str("\u{3000}cookie=1\r\n"), "cookie=1");
    assert_eq!(trim_str("   "), "");
    assert_eq!(trim_str(""), "");
}
