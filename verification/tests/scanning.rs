use vixenlens::scan::{
    add_to_total, check_folder_list, distinct_folders, scan_finished, scan_started, FileCollector,
    MAX_LISTED_FILES,
};

#[test]
fn collector_keeps_only_indexable_files_in_order() {
    let mut c = FileCollector::new(vec!["/pics/skip".to_string()]);
    assert!(!c.is_full());
    assert!(!c.offer("/pics/a.png", "u1"));
    assert!(!c.offer("/pics/skip/b.png", "u1"));
    assert!(!c.offer("/pics/notes.txt", "u1"));
    assert!(!c.offer("/other/c.JPG", "u2"));
    assert_eq!(
        c.into_files(),
        vec![
            ("/pics/a.png".to_string(), "u1".to_string()),
            ("/other/c.JPG".to_string(), "u2".to_string())
        ]
    );
}

#[test]
fn collector_stops_at_the_listing_limit() {
    let mut c = FileCollector::new(Vec::new());
    let mut offered = 0;
    loop {
        let full = c.offer(&format!("/p/{}.png", offered), "u");
        offered += 1;
        if full {
            break;
        }
    }
    assert_eq!(offered, MAX_LISTED_FILES);
    assert!(c.is_full());
    assert_eq!(c.into_files().len(), 10000);
}

#[test]
fn distinct_folders_keeps_the_first_row_of_each_path() {
    let rows = vec![
        ("/a".to_string(), "1".to_string()),
        ("/b".to_string(), "2".to_string()),
        ("/a".to_string(), "3".to_string()),
        ("/c".to_string(), "4".to_string()),
        ("/b".to_string(), "5".to_string()),
    ];
    assert_eq!(
        distinct_folders(&rows),
        vec![
            ("/a".to_string(), "1".to_string()),
            ("/b".to_string(), "2".to_string()),
            ("/c".to_string(), "4".to_string())
        ]
    );
    assert!(distinct_folders(&Vec::new()).is_empty());
}

#[test]
fn totals_saturate_at_u32_max() {
    assert_eq!(add_to_total(0, 7), 7);
    assert_eq!(add_to_total(10, 5), 15);
    assert_eq!(add_to_total(u32::MAX - 1, 5), u32::MAX);
    assert_eq!(add_to_total(u32::MAX, 0), u32::MAX);
}

#[test]
fn totals_count_files_as_32_bit_numbers() {
    if let Some(found) = (u32::MAX as usize).checked_add(6) {
        assert_eq!(add_to_total(1, found), 6);
    }
}

#[test]
fn a_scan_needs_folders() {
    assert_eq!(check_folder_list(&Vec::new()), Err("フォルダがありません。".to_string()));
    assert_eq!(check_folder_list(&vec!["/pics".to_string()]), Ok(()));
}

#[test]
fn scan_start_event_reports_the_total() {
    let e = scan_started("ev-1", 42);
    assert_eq!(e.event_id, "ev-1");
    assert_eq!((e.processed, e.total, e.progress), (0, 42, 0));
    assert_eq!(e.message, "スキャン開始...");
}

#[test]
fn scan_end_event_reports_success() {
    let (e, r) = scan_finished("ev-2", 10, Ok(7));
    assert_eq!(e.event_id, "ev-2");
    assert_eq!((e.processed, e.total, e.progress), (7, 10, 7));
    assert_eq!(e.message, "スキャン完了");
    assert_eq!(r, Ok(()));
}

#[test]
fn scan_end_event_passes_the_error_through() {
    let (e, r) = scan_finished("ev-3", 10, Err("disk gone".to_string()));
    assert_eq!((e.processed, e.total, e.progress), (0, 10, 0));
    assert_eq!(e.message, "スキャン失敗: disk gone");
    assert_eq!(r, Err("disk gone".to_string()));
}
