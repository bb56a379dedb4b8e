use std::io::Cursor;
use stellaclaw::cache::{
    blend, encode_preview, hex16, make_preview, source_too_large, thumbnail_cache_key,
    CacheManager, ScaledImage, StoredPreview, ThumbnailMetadata,
};
use stellaclaw::clock::{
    message_time_or_now, normalized_client_message_time, now_rfc3339, render_message_time,
    system_time_rfc3339,
};
use stellaclaw::json::{Json, JsonNumber};
use stellaclaw::number::{decimal_text, parse_decimal, signed_text};
use stellaclaw::pair_map::PairMap;
use stellaclaw::paths::{lies_below, path_file_name, path_relative_to};
use stellaclaw::progress::{format_duration, progress_message_key};
use stellaclaw::text::{ends_with, is_blank, split_once, strip_prefix, trim};
use stellaclaw::text_map::TextMap;
use stellaclaw::utf16::utf16_len;
use stellaclaw::words::{contains, join, replace_char, split_char, split_words, to_lower};

#[test]
fn image_thumbnail_uses_conversation_cache() {
    let image = image::RgbImage::from_pixel(800, 600, image::Rgb([80, 120, 200]));
    let mut file = Cursor::new(Vec::new());
    image
        .write_to(&mut file, image::ImageFormat::Png)
        .expect("test image should be written");
    let bytes = file.into_inner();

    let manager = CacheManager::new("/root");
    let made = manager.image_thumbnail("/root/source.png", None, Some(&bytes));
    let first = made.preview.expect("thumbnail should be generated");
    let stored = made.store.expect("thumbnail should be stored");
    let copy = StoredPreview {
        metadata: ThumbnailMetadata {
            media_type: stored.metadata.media_type.clone(),
            width: stored.metadata.width,
            height: stored.metadata.height,
            original_width: stored.metadata.original_width,
            original_height: stored.metadata.original_height,
        },
        bytes: stored.bytes.clone(),
    };
    let again = manager.image_thumbnail("/root/source.png", Some(copy), Some(&bytes));
    assert!(again.store.is_none());
    let second = again
        .preview
        .expect("thumbnail should be loaded from cache");
    let cached_without_source = manager
        .image_thumbnail("/root/source.png", Some(stored), None)
        .preview
        .expect("cache hit should not require source image");

    assert_eq!(first.original_width, 800);
    assert_eq!(first.original_height, 600);
    assert_eq!(first.thumbnail.width, 360);
    assert_eq!(first.thumbnail.height, 270);
    assert_eq!(first.thumbnail.data_base64, second.thumbnail.data_base64);
    assert_eq!(
        first.thumbnail.data_base64,
        cached_without_source.thumbnail.data_base64
    );
    assert!(first
        .thumbnail
        .data_url
        .starts_with("data:image/jpeg;base64,/9j/"));
    assert_eq!(
        manager.thumbnail_dir("web-main-000001"),
        "/root/rundir/cache/conversations/web-main-000001/thumbnails"
    );
    assert_eq!(
        thumbnail_cache_key("/root/source.png"),
        thumbnail_cache_key("/root/source.png")
    );
    assert_eq!(thumbnail_cache_key("/root/source.png").len(), 16);
    assert_ne!(
        thumbnail_cache_key("/root/source.png"),
        thumbnail_cache_key("/root/other.png")
    );
    let (image_file, metadata_file) = manager.thumbnail_files("web-main-000001", "/root/source.png");
    let key = thumbnail_cache_key("/root/source.png");
    let dir = manager.thumbnail_dir("web-main-000001");
    assert_eq!(image_file, format!("{dir}/{key}.jpg"));
    assert_eq!(metadata_file, format!("{dir}/{key}.json"));
    let large = vec![0u8; 16 * 1024 * 1024 + 1];
    assert!(manager.image_thumbnail("a.png", None, Some(&large)).preview.is_none());
    assert!(manager.image_thumbnail("a.png", None, None).preview.is_none());
}

#[test]
fn previews_need_an_image_of_a_fitting_size() {
    assert!(make_preview(b"no image", "a.png").is_none());
    assert!(source_too_large(16 * 1024 * 1024 + 1));
    assert!(!source_too_large(16 * 1024 * 1024));
    assert_eq!(blend(10, 255), 10);
    assert_eq!(blend(10, 0), 255);
    assert_eq!(blend(0, 128), 127);
    assert_eq!(hex16(0xab), "00000000000000ab");
    let (metadata, jpeg) = encode_preview(ScaledImage {
        original_width: 9,
        original_height: 7,
        width: 1,
        height: 1,
        rgba: vec![0, 0, 0, 0],
    })
    .unwrap();
    assert_eq!(metadata.original_width, 9);
    let pixel = image::load_from_memory(&jpeg).unwrap().to_rgb8();
    assert_eq!(pixel.get_pixel(0, 0).0, [255, 255, 255]);
}

#[test]
fn numbers_are_written_and_read_back() {
    for n in [0u64, 7, 10, 18446744073709551615] {
        assert_eq!(decimal_text(n), n.to_string());
        assert_eq!(parse_decimal(&decimal_text(n), u64::MAX), Some(n));
    }
    assert_eq!(signed_text(i64::MIN), i64::MIN.to_string());
    assert_eq!(parse_decimal("256", 255), None);
    assert_eq!(parse_decimal("+5", 255), Some(5));
    assert_eq!(parse_decimal("", 255), None);
    assert_eq!(parse_decimal("1x", 255), None);
}

#[test]
fn texts_are_cut_and_put_together() {
    assert_eq!(trim("\u{3000} a b \n"), "a b");
    assert!(is_blank(" \t\u{a0}"));
    assert_eq!(split_char("a,,b", ','), vec!["a", "", "b"]);
    let parts = split_char("a,,b", ',');
    assert_eq!(join(&parts, ","), "a,,b");
    assert_eq!(split_words("  a \n b "), vec!["a", "b"]);
    assert_eq!(to_lower("ÄB"), "Äb");
    assert_eq!(replace_char("a'b", '\'', "\"\""), "a\"\"b");
    assert!(contains("hello", "ell") && !contains("hello", "elo"));
    assert_eq!(split_once("k=v=w", '='), Some(("k", "v=w")));
    assert_eq!(strip_prefix("Bearer x", "Bearer "), Some("x"));
    assert!(ends_with("abc", "bc") && !ends_with("abc", "ab"));
    assert_eq!(utf16_len("a😀é"), 4);
}

#[test]
fn maps_hold_what_was_put_in() {
    let mut m: TextMap<u32> = TextMap::new();
    m.insert("b", 1);
    m.insert("a", 2);
    m.insert("b", 3);
    assert_eq!(m.len(), 2);
    assert_eq!(m.get("b"), Some(&3));
    assert_eq!(m.entries[0].0, "a");
    m.remove("a");
    assert!(!m.contains_key("a"));
    let mut p: PairMap<u32> = PairMap::new();
    p.insert("a", "b", 1);
    *p.slot("a", "c", 0) += 5;
    *p.slot("a", "b", 0) += 5;
    assert_eq!(p.get("a", "b"), Some(&6));
    assert_eq!(p.get("a", "c"), Some(&5));
    p.remove("a", "b");
    assert_eq!(p.get("a", "b"), None);
}

#[test]
fn values_are_compared_by_what_they_hold() {
    let a = Json::Object(vec![
        ("x".to_string(), Json::number(1)),
        ("y".to_string(), Json::Array(vec![Json::Null, Json::Bool(true)])),
        ("x".to_string(), Json::number(2)),
    ]);
    let mut b = Json::object();
    b.put("y", Json::Array(vec![Json::Null, Json::Bool(true)]));
    b.put("x", Json::number(2));
    assert!(a.same(&b));
    assert!(a.copy().same(&a));
    b.put("x", Json::signed(-2));
    assert!(!a.same(&b));
    assert_eq!(b.signed_field("x"), Some(-2));
    assert_eq!(b.unsigned_field("x"), None);
    assert!(matches!(
        Json::signed(3),
        Json::Number(JsonNumber::Unsigned(3))
    ));
}

#[test]
fn paths_stay_below_their_roots() {
    assert_eq!(
        path_relative_to("/a/b/./c/../d", "/a//b").as_deref(),
        Some("c/d")
    );
    assert!(path_relative_to("/a/bc", "/a/b").is_none());
    assert!(lies_below("/a/b", "/a/b/"));
    assert!(!lies_below("./a/b", "a"));
    assert_eq!(path_file_name("/a/b/").as_deref(), Some("b"));
    assert_eq!(path_file_name("/a/.."), None);
}

#[test]
fn times_are_read_and_written() {
    assert_eq!(render_message_time(0).as_deref(), Some("1970-01-01T00:00:00Z"));
    assert_eq!(
        system_time_rfc3339(1_500_000_000).as_deref(),
        Some("1970-01-01T00:00:01.5Z")
    );
    assert_eq!(
        system_time_rfc3339(-1_000_000_000).as_deref(),
        Some("1969-12-31T23:59:59Z")
    );
    assert!(system_time_rfc3339(i128::MAX).is_none());
    assert_eq!(now_rfc3339(1_000_000_000), "1970-01-01T00:00:01Z");
    assert_eq!(now_rfc3339(i128::MAX), "1970-01-01T00:00:00Z");
    assert_eq!(
        normalized_client_message_time(&Some("2024-01-02T03:04:05Z".to_string())).as_deref(),
        Some("2024-01-02T03:04:05+00:00")
    );
    assert!(normalized_client_message_time(&Some("  ".to_string())).is_none());
    assert_eq!(message_time_or_now(&None, "now".to_string()), "now");
    assert_eq!(progress_message_key("1", "t"), "1:t");
    assert!(format_duration(61).contains('1'));
}
