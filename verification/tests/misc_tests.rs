use rusqlite::Connection;
use sea_lantern::fs_rules::encode_base64;
use sea_lantern::log_pipeline::{append_log, read_logs, LogSource};
use sea_lantern::log_rules::{log_allowed, LogLevel};
use sea_lantern::models::{get_all_permission_meta, get_permission_danger_level,
    PermissionDangerLevel};
use sea_lantern::permissions::PermissionSet;
use sea_lantern::update_helpers::{escape_powershell_single_quoted, file_name_from_url,
    find_suitable_asset, get_pending_update_file, ReleaseAsset};

#[test]
fn download_urls_yield_their_file_name() {
    assert_eq!(file_name_from_url("https://host/a/b/pkg.zip"), String::from("pkg.zip"));
    assert_eq!(file_name_from_url("https://host/a/pkg.zip?tok=1#frag"), String::from("pkg.zip"));
    assert_eq!(file_name_from_url("https://host/dir/"), String::from("update"));
    assert_eq!(file_name_from_url(""), String::from("update"));
    assert_eq!(file_name_from_url("plain"), String::from("plain"));
}

#[test]
fn single_quotes_are_doubled() {
    assert_eq!(escape_powershell_single_quoted("it's"), String::from("it''s"));
    assert_eq!(escape_powershell_single_quoted("''"), String::from("''''"));
    assert_eq!(escape_powershell_single_quoted("plain"), String::from("plain"));
}

#[test]
fn the_first_workable_suffix_picks_the_asset() {
    let assets = vec![
        ReleaseAsset {
            name: String::from("App-1.0.tar.gz"),
            browser_download_url: String::from("u1"),
        },
        ReleaseAsset {
            name: String::from("App-1.0.AppImage"),
            browser_download_url: String::from("u2"),
        },
    ];
    let suffixes = vec![
        String::from(".appimage"),
        String::from(".deb"),
        String::from(".tar.gz"),
    ];
    let picked = find_suitable_asset(&assets, &suffixes).unwrap();
    assert_eq!(picked.browser_download_url, "u2");

    let none: Vec<String> = vec![String::from(".msi")];
    assert!(find_suitable_asset(&assets, &none).is_none());
}

#[test]
fn the_pending_update_marker_sits_under_the_cache() {
    assert_eq!(
        get_pending_update_file("/home/u/.cache"),
        String::from("/home/u/.cache/com.fpsz.sea-lantern/updates/pending_update.json")
    );
}

#[test]
fn base64_matches_the_known_form() {
    assert_eq!(encode_base64(&b"Binary Data".to_vec()), String::from("QmluYXJ5IERhdGE="));
    assert_eq!(encode_base64(&vec![]), String::new());
    assert_eq!(encode_base64(&b"a".to_vec()), String::from("YQ=="));
    assert_eq!(encode_base64(&b"ab".to_vec()), String::from("YWI="));
    assert_eq!(encode_base64(&b"abc".to_vec()), String::from("YWJj"));
}

#[test]
fn debug_logging_is_a_privilege() {
    let none = PermissionSet::new(vec![]);
    let logp = PermissionSet::new(vec![String::from("log")]);
    assert!(!log_allowed(&none, LogLevel::Debug));
    assert!(log_allowed(&logp, LogLevel::Debug));
    assert!(log_allowed(&none, LogLevel::Info));
    assert!(log_allowed(&none, LogLevel::Warn));
    assert!(log_allowed(&none, LogLevel::Error));
}

#[test]
fn permission_metadata_agrees_with_the_level_rule() {
    let metas = get_all_permission_meta();
    assert_eq!(metas.len(), 16);
    for m in &metas {
        assert_eq!(m.danger_level, get_permission_danger_level(m.id), "{}", m.id);
    }
    assert_eq!(
        get_permission_danger_level("execute_program"),
        PermissionDangerLevel::Critical
    );
    assert_eq!(get_permission_danger_level("network"), PermissionDangerLevel::Dangerous);
    assert_eq!(get_permission_danger_level("log"), PermissionDangerLevel::Normal);
}

fn log_conn() -> Connection {
    let conn = Connection::open_in_memory().unwrap();
    conn.execute_batch(
        "CREATE TABLE log_lines (\
             id INTEGER PRIMARY KEY AUTOINCREMENT,\
             timestamp INTEGER NOT NULL,\
             source TEXT NOT NULL CHECK(source IN ('sealantern','server')),\
             line TEXT NOT NULL\
         );",
    )
    .unwrap();
    conn
}

#[test]
fn log_lines_append_in_order_and_trim_to_the_cap() {
    let mut conn = log_conn();
    assert!(append_log(&mut conn, 1, "one", LogSource::Server, 2));
    assert!(append_log(&mut conn, 2, "two", LogSource::SeaLantern, 2));
    assert!(append_log(&mut conn, 3, "three", LogSource::Server, 2));
    assert_eq!(
        read_logs(&conn, 0),
        Some(vec![String::from("two"), String::from("three")])
    );
    assert_eq!(read_logs(&conn, 1), Some(vec![String::from("three")]));
    assert_eq!(read_logs(&conn, 9), Some(vec![]));
}

#[test]
fn a_cap_below_one_keeps_one_line() {
    let mut conn = log_conn();
    assert!(append_log(&mut conn, 1, "one", LogSource::Server, 0));
    assert!(append_log(&mut conn, 2, "two", LogSource::Server, 0));
    assert_eq!(read_logs(&conn, 0), Some(vec![String::from("two")]));
}

#[test]
fn log_sources_carry_their_tags() {
    assert_eq!(LogSource::SeaLantern.as_str(), "sealantern");
    assert_eq!(LogSource::Server.as_str(), "server");
}
