use workshop_uploader::item::AppConfig;
use workshop_uploader::item::AppId;
use workshop_uploader::item::PublishedFileVisibility;
use workshop_uploader::item::WorkshopItemConfig;
use workshop_uploader::rules::metadata_filename_str;
use workshop_uploader::text::decode_lines;
use workshop_uploader::text::join_range;
use workshop_uploader::text::split_lines;

#[test]
fn lines_split_at_newlines_and_drop_carriage_returns() {
    let data = b"first\r\nsecond\nthird".to_vec();
    let lines = split_lines(&data);
    assert_eq!(lines, vec![b"first".to_vec(), b"second".to_vec(), b"third".to_vec()]);
}

#[test]
fn trailing_newline_adds_no_empty_line() {
    let data = b"only\n".to_vec();
    assert_eq!(split_lines(&data), vec![b"only".to_vec()]);
    let empty: Vec<u8> = Vec::new();
    assert!(split_lines(&empty).is_empty());
}

#[test]
fn blank_lines_are_kept() {
    let data = b"a\n\nb".to_vec();
    let lines = decode_lines(&data);
    assert_eq!(lines, vec!["a".to_string(), "".to_string(), "b".to_string()]);
}

#[test]
fn segments_join_with_slashes() {
    let segs = vec!["sub".to_string(), "dir".to_string(), "c.txt".to_string()];
    assert_eq!(join_range(&segs, 0, 3), "sub/dir/c.txt");
    assert_eq!(join_range(&segs, 1, 3), "dir/c.txt");
    assert_eq!(join_range(&segs, 0, 1), "sub");
    assert_eq!(join_range(&segs, 1, 1), "");
}

#[test]
fn metadata_filename_is_fixed() {
    assert_eq!(metadata_filename_str(), "workshop.toml");
}

#[test]
fn app_config_default_opens_item_page() {
    let c = AppConfig::default();
    assert!(c.open_item_page_on_complete);
}

#[test]
fn item_config_default_is_empty() {
    let c = WorkshopItemConfig::default();
    assert_eq!(c.app_id, 0);
    assert_eq!(c.item_id, 0);
    assert!(c.tags.is_empty());
}

#[test]
fn default_visibility_is_private() {
    assert!(matches!(PublishedFileVisibility::default(), PublishedFileVisibility::Private));
}

#[test]
fn app_id_wraps_its_number() {
    let id = AppId(4000);
    assert_eq!(id.0, 4000);
}
