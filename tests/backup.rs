use crataegus::backup::{check_backup_target, vacuum_into, BackupPathError, PathState};
use crataegus::db::Config;

const DB: &str = "/tmp/.tmpAbC123";

fn config(backups: usize) -> Config {
    Config { path: DB.to_string(), backups }
}

#[test]
fn test_is_backup() {
    let db = config(3);
    let cases = vec![
        (format!("{}.123456789.bak", DB), true),
        (format!("{}.123456789", DB), false),
        (format!("{}.123456789.bak2", DB), false),
        (format!("{}.123456789.bak.", DB), false),
        (format!("{}.1.bak", DB), true),
        ("/tmp/123456789.bak".to_string(), false),
        ("/tmp/db.sqlite.123456789.bak".to_string(), false),
    ];
    for (path, expected) in cases {
        assert_eq!(db.is_backup(&path), expected, "{}", path);
    }
}

#[test]
fn backup_stamps_are_digits_only() {
    let db = config(3);
    assert_eq!(db.backup_stamp(&format!("{}.1737000000.bak", DB)), Some(1737000000));
    assert_eq!(db.backup_stamp(&format!("{}.0.bak", DB)), Some(0));
    assert_eq!(db.backup_stamp(&format!("{}..bak", DB)), None);
    assert_eq!(db.backup_stamp(&format!("{}.-5.bak", DB)), None);
    assert_eq!(db.backup_stamp(&format!("{}.+5.bak", DB)), None);
    assert_eq!(db.backup_stamp(&format!("{}.12a.bak", DB)), None);
    assert_eq!(db.backup_stamp(&format!("{}.9223372036854775807.bak", DB)), Some(9223372036854775807));
    assert_eq!(db.backup_stamp(&format!("{}.9223372036854775808.bak", DB)), None);
    assert!(db.is_backup(&format!("{}.9223372036854775808.bak", DB)));
    assert!(db.is_backup(&format!("{}.99999999999999999999.bak", DB)));
    assert_eq!(db.backup_stamp(&format!("{}x.5.bak", DB)), None);
}

#[test]
fn backup_path_carries_the_time() {
    let db = config(3);
    assert_eq!(db.backup_path_at(1737000000), format!("{}.1737000000.bak", DB));
    assert_eq!(db.backup_path_at(0), format!("{}.0.bak", DB));
    assert_eq!(db.backup_stamp(&db.backup_path_at(42)), Some(42));
    assert_eq!(db.backup_path_for(1737000000), Some(format!("{}.1737000000.bak", DB)));
    assert_eq!(db.backup_path_for(0), Some(format!("{}.0.bak", DB)));
    assert_eq!(db.backup_path_for(-1), None);
}

#[test]
fn retention_drops_the_oldest_backup() {
    // three backups with a limit of two: the oldest goes, even where its
    // name sorts after the others as text
    let db = config(2);
    let entries = vec![
        format!("{}.10.bak", DB),
        DB.to_string(),
        format!("{}.9.bak", DB),
        "/tmp/other.txt".to_string(),
        format!("{}.100.bak", DB),
    ];
    assert_eq!(db.backups_to_delete(&entries), vec![format!("{}.9.bak", DB)]);
}

#[test]
fn retention_orders_long_stamps_by_value() {
    let db = config(2);
    let entries = vec![
        format!("{}.99999999999999999999.bak", DB),
        format!("{}.0000000000000000000000005.bak", DB),
        format!("{}.100000000000000000000.bak", DB),
        format!("{}.7.bak", DB),
    ];
    assert_eq!(
        db.backups_to_delete(&entries),
        vec![format!("{}.0000000000000000000000005.bak", DB), format!("{}.7.bak", DB)]
    );
}

#[test]
fn retention_deletes_oldest_first() {
    let entries = vec![
        format!("{}.30.bak", DB),
        format!("{}.10.bak", DB),
        format!("{}.20.bak", DB),
        format!("{}.40.bak", DB),
    ];
    assert_eq!(
        config(1).backups_to_delete(&entries),
        vec![format!("{}.10.bak", DB), format!("{}.20.bak", DB), format!("{}.30.bak", DB)]
    );
    assert_eq!(config(0).backups_to_delete(&entries).len(), 4);
    assert!(config(4).backups_to_delete(&entries).is_empty());
    assert!(config(9).backups_to_delete(&entries).is_empty());
    assert!(config(0).backups_to_delete(&vec![]).is_empty());
}

#[test]
fn backup_target_rules() {
    let p = "/tmp/db.sqlite.5.bak";
    assert!(check_backup_target(p, PathState::Absent, Some(PathState::Present)).is_ok());
    assert!(matches!(
        check_backup_target("db.sqlite.5.bak", PathState::Absent, Some(PathState::Present)),
        Err(BackupPathError::NotAbsolute)
    ));
    assert!(matches!(
        check_backup_target(p, PathState::Present, Some(PathState::Present)),
        Err(BackupPathError::AlreadyExists)
    ));
    assert!(matches!(
        check_backup_target(p, PathState::Absent, Some(PathState::Absent)),
        Err(BackupPathError::ParentMissing)
    ));
    assert!(matches!(check_backup_target("/", PathState::Absent, None), Err(BackupPathError::NoParent)));
    match check_backup_target(p, PathState::Unknown("denied".to_string()), None) {
        Err(BackupPathError::Inaccessible(e)) => assert_eq!(e, "denied"),
        other => panic!("unexpected result {:?}", other),
    }
}

#[test]
fn vacuum_statement_names_the_target() {
    assert_eq!(vacuum_into("/tmp/db.sqlite.5.bak"), "VACUUM INTO '/tmp/db.sqlite.5.bak'");
}
