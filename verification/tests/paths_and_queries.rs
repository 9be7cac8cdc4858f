use vixenlens::paths::{file_extension, is_ignored, is_image_file, is_indexable, normalize_path};
use vixenlens::search::{build_search_query, SearchCondition};
use vixenlens::sql::{placeholders, prune_statement};

fn cond(logic: Option<&str>, operator: Option<&str>, field: Option<&str>, value: Option<&str>) -> SearchCondition {
    SearchCondition {
        logic: logic.map(|s| s.to_string()),
        operator: operator.map(|s| s.to_string()),
        field: field.map(|s| s.to_string()),
        value: value.map(|s| s.to_string()),
    }
}

const BASE: &str = "SELECT DISTINCT file_path, thumbnail\n         FROM images\n         WHERE json_valid(metadata_json) = 1";

#[test]
fn normalize_path_turns_slashes_and_adds_trailing_separator() {
    assert_eq!(normalize_path("C:/Users/vix/Pictures/VRChat"), "C:\\Users\\vix\\Pictures\\VRChat\\");
    assert_eq!(normalize_path("C:\\Pictures\\"), "C:\\Pictures\\");
    assert_eq!(normalize_path("/home/vix/"), "\\home\\vix\\");
    assert_eq!(normalize_path(""), "\\");
}

#[test]
fn normalize_path_is_idempotent() {
    for p in ["C:/a/b", "x", "/", "a\\b/c/", ""] {
        let once = normalize_path(p);
        assert_eq!(normalize_path(&once), once);
        assert!(once.ends_with('\\'));
        assert!(!once.contains('/'));
    }
}

#[test]
fn file_extension_follows_the_path_rules() {
    assert_eq!(file_extension("photo.png"), Some("png".to_string()));
    assert_eq!(file_extension("a.b.JPG"), Some("JPG".to_string()));
    assert_eq!(file_extension(".bashrc"), None);
    assert_eq!(file_extension("..png"), Some("png".to_string()));
    assert_eq!(file_extension("README"), None);
    assert_eq!(file_extension("trailing."), Some("".to_string()));
    assert_eq!(file_extension(".."), None);
    assert_eq!(file_extension(""), None);
}

#[test]
fn image_files_are_recognised_by_extension() {
    assert!(is_image_file("/pics/VRChat_2024-01-01.png"));
    assert!(is_image_file("/pics/shot.JPEG"));
    assert!(is_image_file("/pics/shot.Jpg"));
    assert!(!is_image_file("/pics/shot.gif"));
    assert!(!is_image_file("/pics/.png"));
    assert!(!is_image_file("/pics/folder.png/.."));
    assert!(!is_image_file("/pics/notes"));
}

#[test]
fn ignore_folders_match_whole_components() {
    let ignore = vec!["/pics/private".to_string()];
    assert!(is_ignored("/pics/private/a.png", &ignore));
    assert!(is_ignored("/pics/private", &ignore));
    assert!(!is_ignored("/pics/privateer/a.png", &ignore));
    assert!(!is_ignored("/pics/a.png", &Vec::new()));
}

#[test]
fn ignoring_more_folders_hides_more_files() {
    let one = vec!["/pics/a".to_string()];
    let two = vec!["/pics/a".to_string(), "/pics/b".to_string()];
    for p in ["/pics/a/1.png", "/pics/b/2.png", "/pics/c/3.png"] {
        if is_ignored(p, &one) {
            assert!(is_ignored(p, &two));
        }
    }
    assert!(!is_ignored("/pics/b/2.png", &one));
    assert!(is_ignored("/pics/b/2.png", &two));
}

#[test]
fn indexable_means_image_outside_ignore_folders() {
    let ignore = vec!["/pics/skip".to_string()];
    assert!(is_indexable("/pics/keep/a.png", &ignore));
    assert!(!is_indexable("/pics/skip/a.png", &ignore));
    assert!(!is_indexable("/pics/keep/a.txt", &ignore));
}

#[test]
fn placeholders_are_comma_separated() {
    assert_eq!(placeholders(0), "");
    assert_eq!(placeholders(1), "?");
    assert_eq!(placeholders(3), "?, ?, ?");
    assert_eq!(placeholders(250).matches('?').count(), 250);
}

#[test]
fn prune_statement_needs_a_folder() {
    assert!(prune_statement(&Vec::new()).is_none());
}

#[test]
fn prune_statement_numbers_each_folder_pattern() {
    let st = prune_statement(&vec!["C:/VRChat".to_string(), "D:\\Shots\\".to_string()]).unwrap();
    assert_eq!(st.sql, "DELETE FROM images WHERE NOT (file_path LIKE ?1 OR file_path LIKE ?2)");
    assert_eq!(st.params, vec!["C:\\VRChat\\%".to_string(), "D:\\Shots\\%".to_string()]);
    let many: Vec<String> = (0..12).map(|i| format!("/f{}", i)).collect();
    let st = prune_statement(&many).unwrap();
    assert!(st.sql.ends_with("file_path LIKE ?11 OR file_path LIKE ?12)"));
    assert_eq!(st.sql.matches('?').count(), st.params.len());
}

#[test]
fn search_without_filters_is_the_base_query() {
    let q = build_search_query(&Vec::new());
    assert_eq!(q.sql, BASE);
    assert!(q.params.is_empty());
    let q = build_search_query(&vec![cond(None, None, Some("world"), Some("")), cond(None, None, Some("world"), None)]);
    assert_eq!(q.sql, BASE);
    assert!(q.params.is_empty());
}

#[test]
fn search_on_world_with_like_wraps_the_value() {
    let q = build_search_query(&vec![cond(None, Some("like"), Some("world_name"), Some("Home"))]);
    assert_eq!(q.sql, format!("{} AND (json_extract(metadata_json, '$.world.name') LIKE ?)", BASE));
    assert_eq!(q.params, vec!["%Home%".to_string()]);
}

#[test]
fn search_joins_filters_with_their_logic() {
    let q = build_search_query(&vec![
        cond(None, Some("ge"), Some("created_at"), Some("2024-01-01")),
        cond(Some("or"), Some("NE"), Some("author_name"), Some("vix")),
        cond(Some("xor"), None, Some("unknown"), Some("abc")),
    ]);
    assert_eq!(
        q.sql,
        format!(
            "{} AND (file_created_at >= ? OR json_extract(metadata_json, '$.author.displayName') != ? AND file_path LIKE ?)",
            BASE
        )
    );
    assert_eq!(q.params, vec!["2024-01-01".to_string(), "vix".to_string(), "abc".to_string()]);
}

#[test]
fn search_gives_each_player_filter_its_own_alias() {
    let q = build_search_query(&vec![
        cond(None, None, Some("player"), Some("Alice")),
        cond(None, Some("LT"), Some("world_id"), Some("")),
        cond(Some("AND"), Some("le"), Some("player_id"), Some("usr_1")),
    ]);
    let p1 = "EXISTS (\n                        SELECT 1 FROM json_each(metadata_json, '$.players') AS p1\n                        WHERE json_extract(p1.value, '$.displayName') = ?\n                    )";
    let p2 = "EXISTS (\n                        SELECT 1 FROM json_each(metadata_json, '$.players') AS p2\n                        WHERE json_extract(p2.value, '$.id') <= ?\n                    )";
    assert_eq!(q.sql, format!("{} AND ({} AND {})", BASE, p1, p2));
    assert_eq!(q.params, vec!["Alice".to_string(), "usr_1".to_string()]);
}

#[test]
fn search_operators_and_fields_cover_every_case() {
    let fields = [
        ("world_id", "$.world.id"),
        ("instance_id", "$.world.instanceId"),
        ("author_id", "$.author.id"),
        ("application", "$.application"),
        ("version", "$.version"),
        ("timestamp", "$.timestamp"),
        ("world", "$.world.name"),
    ];
    for (f, path) in fields {
        let q = build_search_query(&vec![cond(None, Some("gt"), Some(f), Some("1"))]);
        assert_eq!(q.sql, format!("{} AND (json_extract(metadata_json, '{}') > ?)", BASE, path));
    }
    for (op, sym) in [("NE", "!="), ("gt", ">"), ("Ge", ">="), ("lt", "<"), ("LE", "<="), ("eq", "="), ("", "=")] {
        let q = build_search_query(&vec![cond(None, Some(op), Some("version"), Some("2"))]);
        assert_eq!(q.sql, format!("{} AND (json_extract(metadata_json, '$.version') {} ?)", BASE, sym));
        assert_eq!(q.params, vec!["2".to_string()]);
    }
    let q = build_search_query(&vec![cond(None, Some("LIKE"), None, Some("x"))]);
    assert_eq!(q.sql, format!("{} AND (file_path LIKE ?)", BASE));
    assert_eq!(q.params, vec!["%x%".to_string()]);
}

#[test]
fn search_binds_one_value_per_placeholder() {
    let conds = vec![
        cond(None, Some("like"), Some("player_name"), Some("Bob")),
        cond(Some("or"), None, Some("world"), Some("Lobby")),
        cond(None, None, Some("missing"), Some("")),
        cond(None, Some("like"), Some("player"), Some("Eve")),
        cond(Some("OR"), Some("gt"), Some("timestamp"), Some("5")),
    ];
    let q = build_search_query(&conds);
    assert_eq!(q.sql.matches('?').count(), q.params.len());
    assert_eq!(q.params.len(), 4);
    assert!(q.sql.contains("AS p2"));
}

#[test]
fn search_text_does_not_depend_on_values() {
    let a = build_search_query(&vec![
        cond(None, Some("like"), Some("world"), Some("Home")),
        cond(Some("or"), None, Some("player"), Some("Alice")),
    ]);
    let b = build_search_query(&vec![
        cond(Some("or"), Some("LIKE"), Some("world"), Some("x') OR 1=1 --")),
        cond(Some("OR"), None, Some("player"), Some("?")),
    ]);
    assert_eq!(a.sql, b.sql);
    assert_eq!(b.params, vec!["%x') OR 1=1 --%".to_string(), "?".to_string()]);
}

#[test]
fn two_filters_are_joined_by_the_second_connective() {
    let or = build_search_query(&vec![
        cond(Some("or"), None, Some("world_id"), Some("w")),
        cond(Some("Or"), None, Some("author_id"), Some("a")),
    ]);
    assert!(or.sql.ends_with(
        " AND (json_extract(metadata_json, '$.world.id') = ? OR json_extract(metadata_json, '$.author.id') = ?)"
    ));
    let and = build_search_query(&vec![
        cond(Some("or"), None, Some("world_id"), Some("w")),
        cond(None, None, Some("author_id"), Some("a")),
    ]);
    assert!(and.sql.ends_with(
        " AND (json_extract(metadata_json, '$.world.id') = ? AND json_extract(metadata_json, '$.author.id') = ?)"
    ));
}
