use bilidown::extract::{
    get_audio_baseurl, get_video_baseurl, get_video_name, locate_media, ExtractError,
};

fn fixture_page() -> String {
    let mut s = String::new();
    s.push_str("<!DOCTYPE html><html><head>");
    s.push_str("<title data-vue-meta=\"true\">示例视频_哔哩哔哩_bilibili</title>");
    s.push_str("</head><body><script>window.__playinfo__={\"data\":{\"dash\":{");
    s.push_str("\"video\": [ {\"id\":80,\"baseUrl\":\"https://example.com/v.m4s\",\"bw\":1},");
    s.push_str("{\"id\":64,\"baseUrl\":\"https://example.com/v2.m4s\"}],");
    s.push_str("\"audio\": [{\"id\":30280,\"baseUrl\":\"https://example.com/a.m4s\"}]");
    s.push_str("}}}</script></body></html>");
    s
}

#[test]
fn title_extracted_from_fixture() {
    assert_eq!(get_video_name(&fixture_page()), Ok("示例视频".to_string()));
}

#[test]
fn video_url_extracted_from_fixture() {
    assert_eq!(
        get_video_baseurl(&fixture_page()),
        Ok("https://example.com/v.m4s".to_string())
    );
}

#[test]
fn audio_url_extracted_from_fixture() {
    assert_eq!(
        get_audio_baseurl(&fixture_page()),
        Ok("https://example.com/a.m4s".to_string())
    );
}

#[test]
fn title_is_trimmed() {
    let page = "<title>  Spaced Name \u{3000}_哔哩哔哩_bilibili</title>";
    assert_eq!(get_video_name(page), Ok("Spaced Name".to_string()));
}

#[test]
fn urls_survive_surrounding_whitespace_in_payload() {
    let page = "junk \"video\":\n  [\n   {\"baseUrl\":\" https://v \"}] junk";
    assert_eq!(get_video_baseurl(page), Ok("https://v".to_string()));
}

#[test]
fn crlf_between_key_and_array_is_accepted() {
    let page = "\"audio\":\r\n\t[ {\"baseUrl\":\"https://a\"}]";
    assert_eq!(get_audio_baseurl(page), Ok("https://a".to_string()));
}

#[test]
fn first_video_array_wins() {
    let page = "\"video\": [{\"baseUrl\":\"first\"}] and \"video\": [{\"baseUrl\":\"second\"}]";
    assert_eq!(get_video_baseurl(page), Ok("first".to_string()));
}

#[test]
fn missing_title_fails() {
    let page = "<title>no suffix here</title> \"video\": [{\"baseUrl\":\"v\"}]";
    assert_eq!(get_video_name(page), Err(ExtractError::Title));
}

#[test]
fn empty_title_group_fails() {
    let page = "<title>_哔哩哔哩_bilibili</title>";
    assert_eq!(get_video_name(page), Err(ExtractError::Title));
}

#[test]
fn blank_title_group_fails() {
    let page = "<title>   _哔哩哔哩_bilibili</title>";
    assert_eq!(get_video_name(page), Err(ExtractError::Title));
}

#[test]
fn base_url_outside_first_object_fails() {
    let page = "\"video\": [{\"id\":1},{\"baseUrl\":\"v\"}]";
    assert_eq!(get_video_baseurl(page), Err(ExtractError::VideoUrl));
}

#[test]
fn missing_audio_fails() {
    let page = "<title>t_哔哩哔哩_bilibili</title> \"video\": [{\"baseUrl\":\"v\"}]";
    assert_eq!(get_audio_baseurl(page), Err(ExtractError::AudioUrl));
}

#[test]
fn locate_media_returns_all_three() {
    let m = locate_media(&fixture_page()).unwrap();
    assert_eq!(m.title, "示例视频");
    assert_eq!(m.video_url, "https://example.com/v.m4s");
    assert_eq!(m.audio_url, "https://example.com/a.m4s");
}

#[test]
fn locate_media_is_all_or_nothing() {
    // each pattern missing in turn fails the whole locate operation
    let no_title = "\"video\": [{\"baseUrl\":\"v\"}] \"audio\": [{\"baseUrl\":\"a\"}]";
    assert!(matches!(locate_media(no_title), Err(ExtractError::Title)));
    let no_video = "<title>t_哔哩哔哩_bilibili</title> \"audio\": [{\"baseUrl\":\"a\"}]";
    assert!(matches!(locate_media(no_video), Err(ExtractError::VideoUrl)));
    let no_audio = "<title>t_哔哩哔哩_bilibili</title> \"video\": [{\"baseUrl\":\"v\"}]";
    assert!(matches!(locate_media(no_audio), Err(ExtractError::AudioUrl)));
    assert!(matches!(locate_media(""), Err(ExtractError::Title)));
}

#[test]
fn overlapping_openers_still_extract() {
    // an incomplete opener just before a real one does not hide it
    let page = "<title<title>Real_哔哩哔哩_bilibili</title>";
    assert_eq!(get_video_name(page), Ok("Real".to_string()));
}
