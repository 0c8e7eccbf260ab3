use bilidown::extract::ExtractError;
use bilidown::mux::mux_args;
use bilidown::pipeline::{check_path, PathError, Pipeline, Step};

fn fixture_page() -> String {
    let mut s = String::new();
    s.push_str("<html><head><title>示例视频_哔哩哔哩_bilibili</title></head><script>");
    s.push_str("{\"video\": [{\"baseUrl\":\"https://example.com/v.m4s\"}],");
    s.push_str("\"audio\": [{\"baseUrl\":\"https://example.com/a.m4s\"}]}");
    s.push_str("</script></html>");
    s
}

#[test]
fn check_path_tells_the_failures_apart() {
    assert!(check_path(true, true).is_ok());
    assert_eq!(check_path(false, false), Err(PathError::NotFound));
    assert_eq!(check_path(true, false), Err(PathError::NotADirectory));
}

#[test]
fn start_rejects_a_bad_directory_before_any_network_step() {
    assert!(matches!(
        Pipeline::start("x".to_string(), "/nope".to_string(), false, false),
        Err(PathError::NotFound)
    ));
    assert!(matches!(
        Pipeline::start("x".to_string(), "/a/file".to_string(), true, false),
        Err(PathError::NotADirectory)
    ));
}

#[test]
fn end_to_end_run_over_a_mock_page() {
    let mut p = Pipeline::start(
        "BV1xx411c7mD".to_string(),
        "/tmp/out".to_string(),
        true,
        true,
    )
    .unwrap();
    assert_eq!(p.step, Step::PageRequested);
    assert_eq!(p.url, "https://www.bilibili.com/video/BV1xx411c7mD");

    let existing: Vec<String> = vec![];
    p.on_page(&fixture_page(), &existing).unwrap();
    assert_eq!(p.step, Step::VideoRequested);
    assert_eq!(p.title, "示例视频");
    assert_eq!(p.video_url, "https://example.com/v.m4s");
    assert_eq!(p.audio_url, "https://example.com/a.m4s");
    assert_eq!(p.output_path, "/tmp/out/示例视频.mp4");

    p.on_video_downloaded("/tmp/video-temp.m4s".to_string());
    assert_eq!(p.step, Step::AudioRequested);
    p.on_audio_downloaded("/tmp/audio-temp.m4s".to_string());
    assert_eq!(p.step, Step::MuxRequested);

    // the one muxing invocation takes the two downloaded temp files
    let args = mux_args(&p.video_temp, &p.audio_temp, &p.output_path);
    assert_eq!(args[1], "/tmp/video-temp.m4s");
    assert_eq!(args[3], "/tmp/audio-temp.m4s");
    assert_eq!(args[8], "/tmp/out/示例视频.mp4");

    let out = p.on_mux_result(true, String::new()).unwrap();
    assert_eq!(out, "/tmp/out/示例视频.mp4");
    assert_eq!(p.step, Step::Done);
}

#[test]
fn extraction_failure_fails_the_run() {
    let mut p = Pipeline::start("BV1".to_string(), ".".to_string(), true, true).unwrap();
    let existing: Vec<String> = vec![];
    let r = p.on_page("<html>login wall</html>", &existing);
    assert_eq!(r, Err(ExtractError::Title));
    assert_eq!(p.step, Step::Failed);
}

#[test]
fn failing_mux_fails_the_run_with_the_diagnostic() {
    let mut p = Pipeline::start("BV1".to_string(), ".".to_string(), true, true).unwrap();
    let existing: Vec<String> = vec![];
    p.on_page(&fixture_page(), &existing).unwrap();
    p.on_video_downloaded("v".to_string());
    p.on_audio_downloaded("a".to_string());
    let r = p.on_mux_result(false, "muxer exploded".to_string());
    match r {
        Err(e) => assert_eq!(e.detail, "muxer exploded"),
        Ok(_) => panic!("a failing merge must not report success"),
    }
    assert_eq!(p.step, Step::Failed);
}

#[test]
fn output_path_avoids_existing_names() {
    let mut p = Pipeline::start("BV1".to_string(), "/d".to_string(), true, true).unwrap();
    let existing = vec!["示例视频.mp4".to_string(), "示例视频-1.mp4".to_string()];
    p.on_page(&fixture_page(), &existing).unwrap();
    assert_eq!(p.output_path, "/d/示例视频-2.mp4");
}

#[test]
fn transport_failure_moves_to_failed() {
    let mut p = Pipeline::start("BV1".to_string(), ".".to_string(), true, true).unwrap();
    p.fail();
    assert_eq!(p.step, Step::Failed);
}
