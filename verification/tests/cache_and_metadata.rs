use vixenlens::cache::{
    batch_skip_decision, is_unchanged, is_unchanged_strict, select_files_to_index, strict_skip_decision,
    CacheIndex, CachedImage, FileStat, ModifiedTime,
};
use vixenlens::config::{default_config, index_db_file_name};
use vixenlens::folders::plan_folder_insert;
use vixenlens::metadata::{
    extract_metadata, file_time_text, gallery_entry, image_details, image_record, image_row,
    metadata_from_chunks, missing_file_message, missing_metadata_message, read_failure_message,
    read_image_content, FileTime, ImageContent, TextChunk, INDEX_DB_NAME, THUMBNAIL_EDGE,
};

fn row(size: i32, thumb: i32, at: &str) -> CachedImage {
    CachedImage { file_size: size, thumbnail_len: thumb, updated_at: at.to_string() }
}

// 2024-01-01T00:00:00Z
const T2024: u64 = 1_704_067_200;

#[test]
fn default_config_is_japanese_without_startup_scan() {
    let c = default_config();
    assert!(!c.feature_flags.update_db_when_startup);
    assert_eq!(c.feature_flags.language, "ja");
}

#[test]
fn index_db_names() {
    assert_eq!(index_db_file_name(INDEX_DB_NAME), "imageCache.db");
}

#[test]
fn cache_index_reads_back_the_last_write() {
    let mut idx = CacheIndex::new();
    assert!(idx.get("/a.png").is_none());
    idx.insert("/a.png".to_string(), row(10, 5, "x"));
    idx.insert("/b.png".to_string(), row(20, 5, "y"));
    idx.insert("/a.png".to_string(), row(30, 5, "z"));
    assert_eq!(idx.get("/a.png").unwrap().file_size, 30);
    assert_eq!(idx.get("/b.png").unwrap().updated_at, "y");
    assert!(idx.get("/c.png").is_none());
}

fn since(secs: u64, nanos: u32) -> ModifiedTime {
    ModifiedTime::Since { secs, nanos }
}

#[test]
fn unmodified_files_are_skipped() {
    let r = row(100, 8, "2024-01-01T00:00:00+00:00");
    assert!(is_unchanged(100, Some(&r), &since(T2024 - 60, 500)));
    assert!(is_unchanged(100, Some(&r), &since(T2024, 0)));
    assert!(is_unchanged(100, Some(&r), &ModifiedTime::BeforeEpoch));
    assert_eq!(is_unchanged_strict(100, Some(&r), &since(T2024 - 60, 0)), Some(true));
    assert_eq!(is_unchanged_strict(100, Some(&r), &since(T2024, 0)), Some(true));
    assert_eq!(is_unchanged_strict(100, Some(&r), &ModifiedTime::BeforeEpoch), Some(true));
}

#[test]
fn files_modified_after_indexing_are_reindexed() {
    let r = row(100, 8, "2024-01-01T00:00:00Z");
    assert!(!is_unchanged(100, Some(&r), &since(T2024 + 1, 0)));
    assert!(!is_unchanged(100, Some(&r), &since(T2024, 1)));
    assert_eq!(is_unchanged_strict(100, Some(&r), &since(T2024 + 3600, 0)), Some(false));
    assert_eq!(is_unchanged_strict(100, Some(&r), &since(T2024, 1)), Some(false));
}

#[test]
fn changed_or_missing_rows_are_reindexed() {
    let r = row(100, 8, "2024-01-01T00:00:00Z");
    assert!(!is_unchanged(101, Some(&r), &since(T2024 - 60, 0)));
    assert!(!is_unchanged(100, Some(&row(100, 0, "2024-01-01T00:00:00Z")), &since(T2024 - 60, 0)));
    assert!(!is_unchanged(100, None, &since(T2024 - 60, 0)));
    assert!(!is_unchanged(100, Some(&r), &ModifiedTime::Unavailable));
    assert_eq!(is_unchanged_strict(101, Some(&r), &ModifiedTime::Unavailable), Some(false));
    assert_eq!(is_unchanged_strict(100, None, &ModifiedTime::Unavailable), Some(false));
}

#[test]
fn file_sizes_compare_as_32_bit_numbers() {
    let r = row(5, 8, "2024-01-01T00:00:00Z");
    assert!(is_unchanged((1u64 << 32) + 5, Some(&r), &since(T2024 - 1, 0)));
}

#[test]
fn unreadable_stamps_differ_between_the_indexers() {
    let r = row(100, 8, "yesterday");
    assert!(!is_unchanged(100, Some(&r), &since(T2024, 0)));
    assert_eq!(is_unchanged_strict(100, Some(&r), &since(T2024, 0)), None);
    let r = row(100, 8, "2024-01-01T00:00:00Z");
    assert_eq!(is_unchanged_strict(100, Some(&r), &ModifiedTime::Unavailable), None);
}

#[test]
fn decisions_with_unrepresentable_stamps() {
    let r = row(100, 8, "ignored");
    assert!(batch_skip_decision(100, Some(&r), Some(9_000_000_000_000), false, &since(0, 0)));
    assert!(!batch_skip_decision(100, Some(&r), Some(9_000_000_000_000), false, &since(1, 0)));
    assert!(batch_skip_decision(100, Some(&r), Some(9_000_000_000_000), true, &since(1, 0)));
    assert!(batch_skip_decision(100, Some(&r), Some(5), false, &ModifiedTime::BeforeEpoch));
    assert_eq!(strict_skip_decision(100, Some(&r), Some(5), false, &since(1, 0)), None);
    assert_eq!(strict_skip_decision(100, Some(&r), Some(5), true, &since(5, 0)), Some(true));
    assert_eq!(strict_skip_decision(100, Some(&r), Some(5), true, &since(6, 0)), Some(false));
    assert_eq!(strict_skip_decision(100, Some(&r), None, true, &since(5, 0)), None);
}

#[test]
fn selection_keeps_files_that_need_indexing_in_order() {
    let mut idx = CacheIndex::new();
    idx.insert("/a.png".to_string(), row(10, 4, "2024-01-01T00:00:00Z"));
    idx.insert("/b.png".to_string(), row(20, 4, "2024-01-01T00:00:00Z"));
    let files = vec![
        FileStat { path: "/a.png".to_string(), size: Some(10), modified: since(T2024 - 1, 0) },
        FileStat { path: "/b.png".to_string(), size: Some(20), modified: since(T2024 + 1, 0) },
        FileStat { path: "/c.png".to_string(), size: Some(1), modified: since(T2024, 0) },
        FileStat { path: "/d.png".to_string(), size: None, modified: ModifiedTime::Unavailable },
    ];
    assert_eq!(select_files_to_index(&files, &idx), vec!["/b.png".to_string(), "/c.png".to_string()]);
}

fn chunk(keyword: &str, text: Option<&str>) -> TextChunk {
    TextChunk { keyword: keyword.to_string(), text: text.map(|t| t.to_string()) }
}

#[test]
fn metadata_is_the_first_description_in_compact_json() {
    let chunks = vec![
        chunk("Author", Some("{\"x\": 1}")),
        chunk("Description", Some("{ \"application\": \"VRCX\",  \"players\": [ ] }")),
        chunk("Description", Some("second")),
    ];
    assert_eq!(metadata_from_chunks(&chunks), Some("{\"application\":\"VRCX\",\"players\":[]}".to_string()));
}

#[test]
fn metadata_that_is_not_json_is_kept_as_it_is() {
    assert_eq!(metadata_from_chunks(&vec![chunk("Description", Some("hello world"))]), Some("hello world".to_string()));
    assert_eq!(metadata_from_chunks(&vec![chunk("Description", None)]), Some("".to_string()));
    assert_eq!(metadata_from_chunks(&vec![chunk("Comment", Some("{}"))]), None);
    assert_eq!(metadata_from_chunks(&Vec::new()), None);
}

fn content(thumb: Vec<u8>, w: u32, h: u32, meta: Option<&str>) -> ImageContent {
    ImageContent { width: w, height: h, thumbnail_png: thumb, metadata_json: meta.map(|m| m.to_string()) }
}

#[test]
fn batch_rows_store_the_thumbnail_in_base64() {
    let r = image_row("/a.png".to_string(), content(vec![1, 2, 3], 1920, 3_000_000_000, None), (1u64 << 32) + 7, Some("c".to_string()), "now");
    assert_eq!(r.file_path, "/a.png");
    assert_eq!(r.thumbnail, "AQID");
    assert_eq!(r.width, 1920);
    assert_eq!(r.height, 3_000_000_000u32 as i32);
    assert_eq!(r.file_size, 7);
    assert_eq!(r.metadata_json, "");
    assert_eq!(r.file_created_at, "c");
    assert_eq!(r.created_at, "now");
    assert_eq!(r.updated_at, "now");
    let r = image_row("/a.png".to_string(), content(vec![], 1, 1, Some("{}")), 1, None, "t");
    assert_eq!(r.file_created_at, "");
    assert_eq!(r.metadata_json, "{}");
}

#[test]
fn single_rows_store_the_thumbnail_bytes() {
    let r = image_record("/a.png".to_string(), content(vec![9, 8], 2, 3, Some("{}")), 4, "c".to_string(), "t");
    assert_eq!(r.thumbnail, vec![9, 8]);
    assert_eq!((r.width, r.height, r.file_size), (2, 3, 4));
    assert_eq!(r.metadata_json, "{}");
    assert_eq!(r.file_created_at, "c");
    assert_eq!(r.created_at, r.updated_at);
}

fn png_bytes(w: u32, h: u32, texts: &[(&str, &str)]) -> Vec<u8> {
    let mut buf = Vec::new();
    {
        let mut enc = png::Encoder::new(&mut buf, w, h);
        enc.set_color(png::ColorType::Rgba);
        enc.set_depth(png::BitDepth::Eight);
        for (k, t) in texts {
            enc.add_itxt_chunk(k.to_string(), t.to_string()).unwrap();
        }
        let mut writer = enc.write_header().unwrap();
        writer.write_image_data(&vec![200u8; (w * h * 4) as usize]).unwrap();
    }
    buf
}

#[test]
fn metadata_is_read_from_png_bytes() {
    let bytes = png_bytes(2, 2, &[("Author", "x"), ("Description", "{ \"world\" : { \"name\": \"Home\" } }")]);
    assert_eq!(extract_metadata(&bytes), Ok(Some("{\"world\":{\"name\":\"Home\"}}".to_string())));
    assert_eq!(extract_metadata(&png_bytes(1, 1, &[])), Ok(None));
}

#[test]
fn unreadable_png_gives_a_decoding_error() {
    let e = extract_metadata(b"not a png").unwrap_err();
    assert!(e.starts_with("PNG解析エラー: "));
    assert!(e.len() > "PNG解析エラー: ".len());
    let e = extract_metadata(&[]).unwrap_err();
    assert!(e.starts_with("PNG解析エラー: "));
}

#[test]
fn image_content_has_dimensions_thumbnail_and_metadata() {
    let bytes = png_bytes(600, 300, &[("Description", "plain text")]);
    let c = read_image_content("/shots/VRChat.png", &bytes).unwrap();
    assert_eq!((c.width, c.height), (600, 300));
    assert_eq!(c.metadata_json, Some("plain text".to_string()));
    let thumb = image::load_from_memory(&c.thumbnail_png).unwrap();
    assert_eq!((thumb.width(), thumb.height()), (256, 128));
    assert_eq!(THUMBNAIL_EDGE, 256);
    let tall = read_image_content("/shots/tall.png", &png_bytes(100, 1000, &[])).unwrap();
    let thumb = image::load_from_memory(&tall.thumbnail_png).unwrap();
    assert_eq!((thumb.width(), thumb.height()), (26, 256));
    assert!(c.thumbnail_png.starts_with(&[0x89, b'P', b'N', b'G']));
}

#[test]
fn image_content_follows_the_extension_and_decodability() {
    let bytes = png_bytes(4, 4, &[]);
    assert!(read_image_content("/shots/a.PNG", &bytes).is_some());
    assert!(read_image_content("/shots/a.jpg", &bytes).is_none());
    assert!(read_image_content("/shots/noext", &bytes).is_none());
    assert!(read_image_content("/shots/a.png", b"garbage").is_none());
    assert_eq!(read_image_content("/shots/a.png", &bytes).unwrap().metadata_json, None);
}

#[test]
fn file_times_are_written_in_rfc3339() {
    assert_eq!(file_time_text(&FileTime::AfterEpoch { secs: 1_704_067_200, nanos: 0 }), Some("2024-01-01T00:00:00+00:00".to_string()));
    assert_eq!(file_time_text(&FileTime::AfterEpoch { secs: 0, nanos: 500_000_000 }), Some("1970-01-01T00:00:00.500+00:00".to_string()));
    assert_eq!(file_time_text(&FileTime::BeforeEpoch { secs: 1, nanos: 0 }), Some("1969-12-31T23:59:59+00:00".to_string()));
    assert_eq!(file_time_text(&FileTime::BeforeEpoch { secs: 0, nanos: 250_000_000 }), Some("1969-12-31T23:59:59.750+00:00".to_string()));
    assert_eq!(file_time_text(&FileTime::AfterEpoch { secs: u64::MAX / 2, nanos: 0 }), None);
}

#[test]
fn gallery_entries_carry_a_png_data_url() {
    let (p, url, db) = gallery_entry("/a.png".to_string(), "QUJD");
    assert_eq!(p, "/a.png");
    assert_eq!(url, "data:image/png;base64,QUJD");
    assert_eq!(db, "imageCache");
}

#[test]
fn image_details_embed_the_file_typed_by_extension() {
    let d = image_details("/shots/a.png", "{}".to_string(), None, b"ABC");
    assert_eq!(d.data_url, "data:image/png;base64,QUJD");
    assert_eq!(d.metadata_json, "{}");
    assert_eq!(d.file_created_at, "");
    let d = image_details("/shots/a.JPG", "m".to_string(), Some("t".to_string()), &[]);
    assert_eq!(d.data_url, "data:image/jpeg;base64,");
    assert_eq!(d.file_created_at, "t");
    let d = image_details("/shots/a.unknownext", "m".to_string(), None, &[0]);
    assert_eq!(d.data_url, "data:application/octet-stream;base64,AA==");
}

#[test]
fn error_messages() {
    assert_eq!(missing_file_message(), "指定されたファイルが存在しません。");
    assert_eq!(missing_metadata_message(), "指定されたファイルのメタデータが見つかりません。");
    assert_eq!(read_failure_message("denied"), "ファイル読み取りエラー: denied");
}

#[test]
fn registering_a_known_folder_inserts_nothing() {
    assert_eq!(plan_folder_insert(Some("existing".to_string())), None);
}

#[test]
fn a_new_folder_gets_a_random_v4_uuid() {
    let u = plan_folder_insert(None).unwrap();
    assert_eq!(u.len(), 36);
    let chars: Vec<char> = u.chars().collect();
    for (i, c) in chars.iter().enumerate() {
        if [8, 13, 18, 23].contains(&i) {
            assert_eq!(*c, '-');
        } else {
            assert!(c.is_ascii_hexdigit() && !c.is_ascii_uppercase());
        }
    }
    assert_eq!(chars[14], '4');
    assert!(['8', '9', 'a', 'b'].contains(&chars[19]));
    assert_ne!(plan_folder_insert(None).unwrap(), u);
}
