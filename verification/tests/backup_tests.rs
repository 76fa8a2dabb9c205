use std::io::Read;

use auroradb::backup::manager::{
    archive_file_name, calculate_checksum, checksum_from_hash, create_full_backup, create_full_backup_at, create_incremental_backup,
    create_incremental_backup_at, full_backup_stream, plan_cleanup_at,
    generate_backup_id, get_database_tables, get_table_data, metadata_file_name, select_expired_backups,
    sort_newest_first, BackupConfig, BackupMetadata, BackupType,
};
use auroradb::backup::recovery::{
    list_recovery_points, parse_backup_tables, recover_to_point, recover_to_point_against, restore_base_backup,
    restore_full_backup, validate_backup, validate_backup_against, RecoveryError, RecoveryPointType, RecoveryTarget,
};

fn config() -> BackupConfig {
    BackupConfig {
        backup_directory: "backups".to_string(),
        compression_level: 6,
        max_backup_age_days: 0,
        max_backup_count: 1,
        include_wal: true,
        verify_after_backup: false,
    }
}

fn meta(id: &str, created_at: u64, kind: BackupType) -> BackupMetadata {
    BackupMetadata {
        backup_id: id.to_string(),
        backup_type: kind,
        created_at,
        database_version: "1.0.0".to_string(),
        data_size_bytes: 0,
        compressed_size_bytes: 0,
        tables: vec![],
        wal_position: None,
        checksum: String::new(),
    }
}

fn gunzip(data: &[u8]) -> String {
    let mut d = flate2::read::GzDecoder::new(data);
    let mut s = String::new();
    d.read_to_string(&mut s).unwrap();
    s
}

#[test]
fn backup_names_and_files() {
    assert_eq!(generate_backup_id(42), "backup_42");
    assert_eq!(archive_file_name("backup_42", BackupType::Full), "backup_42.backup.gz");
    assert_eq!(archive_file_name("backup_42", BackupType::Incremental), "backup_42.incremental.gz");
    assert_eq!(metadata_file_name("backup_42"), "backup_42.json");
    assert_eq!(get_database_tables(), vec!["users".to_string(), "orders".to_string(), "products".to_string()]);
    assert_eq!(get_table_data("users"), b"Mock data for table: users\nRow 1: ...\nRow 2: ...\n".to_vec());
}

#[test]
fn full_backup_archive_layout() {
    let tables = vec!["users".to_string()];
    let (stream, total) = full_backup_stream("backup_7", 7, &tables, true);
    let data = "Mock data for table: users\nRow 1: ...\nRow 2: ...\n";
    let expected = format!(
        "AuroraDB Backup v1.0\nBackupID: backup_7\nTimestamp: 7\nType: Full\nTable: users\nSize: {}\n{}\n---END TABLE---\nWAL Data: [mock WAL entries]\n",
        data.len(),
        data
    );
    assert_eq!(String::from_utf8(stream).unwrap(), expected);
    assert_eq!(total, data.len() as u64);
    let (without_wal, _) = full_backup_stream("backup_7", 7, &tables, false);
    assert!(!String::from_utf8(without_wal).unwrap().contains("WAL Data"));
}

#[test]
fn full_backup_compresses_and_restores_its_tables() {
    let archive = create_full_backup(&config()).unwrap();
    let m = &archive.metadata;
    assert_eq!(m.backup_type, BackupType::Full);
    assert_eq!(m.backup_id, generate_backup_id(m.created_at));
    assert_eq!(m.tables.len(), 3);
    assert_eq!(m.wal_position, Some(12345));
    assert_eq!(m.compressed_size_bytes, archive.compressed.len() as u64);
    assert_eq!(m.checksum, calculate_checksum(&archive.compressed));
    assert_eq!(archive.file_name, format!("{}.backup.gz", m.backup_id));
    let text = gunzip(&archive.compressed);
    assert!(text.starts_with("AuroraDB Backup v1.0\nBackupID: "));
    let tables = restore_base_backup(&archive.compressed).unwrap();
    let names: Vec<&str> = tables.iter().map(|t| t.name.as_str()).collect();
    assert_eq!(names, vec!["users", "orders", "products"]);
    assert_eq!(tables[0].lines, vec!["Mock data for table: users", "Row 1: ...", "Row 2: ...", ""]);
    assert!(validate_backup(m, Some(&archive.compressed)).is_ok());
    let (result, restored) = recover_to_point(m, Some(&archive.compressed), RecoveryTarget::Lsn(9)).unwrap();
    assert_eq!(result.recovered_tables, 3);
    assert_eq!(result.recovered_to_timestamp, m.created_at);
    assert_eq!(result.applied_incremental_backups, 0);
    assert_eq!(result.recovery_target, RecoveryTarget::Lsn(9));
    assert_eq!(restored.len(), 3);
    let (full, _) = restore_full_backup(m, Some(&archive.compressed)).unwrap();
    assert_eq!(full.recovery_target, RecoveryTarget::Latest);
}

#[test]
fn incremental_backup_stores_wal_changes() {
    let mut base = meta("backup_1", 1, BackupType::Full);
    base.wal_position = Some(5);
    let archive = create_incremental_backup(&config(), &base).unwrap();
    let m = &archive.metadata;
    assert_eq!(m.backup_type, BackupType::Incremental);
    assert!(m.tables.is_empty());
    assert_eq!(m.wal_position, Some(12345));
    let changes = "WAL changes since position 5: [mock entries]\n";
    assert_eq!(m.data_size_bytes, changes.len() as u64);
    let text = gunzip(&archive.compressed);
    assert!(text.contains("\nBaseBackup: backup_1\n"));
    assert!(text.ends_with(&format!("WAL Changes:\n{}", changes)));
    assert!(matches!(
        restore_full_backup(m, Some(&archive.compressed)),
        Err(RecoveryError::NotFullBackup(id)) if id == m.backup_id
    ));
}

#[test]
fn validation_refuses_missing_or_altered_archives() {
    let mut m = meta("backup_3", 3, BackupType::Full);
    assert!(matches!(validate_backup(&m, None), Err(RecoveryError::BackupNotFound(id)) if id == "backup_3"));
    let data = vec![1u8, 2, 3];
    m.checksum = "not-a-checksum".to_string();
    assert!(matches!(validate_backup(&m, Some(&data)), Err(RecoveryError::ChecksumMismatch(_))));
    m.checksum = calculate_checksum(&data);
    assert!(validate_backup(&m, Some(&data)).is_ok());
    assert!(matches!(restore_base_backup(&data), Err(RecoveryError::InvalidArchive)));
    assert!(matches!(recover_to_point(&m, Some(&data), RecoveryTarget::Latest), Err(RecoveryError::InvalidArchive)));
}

#[test]
fn archive_parsing_reads_tables_and_sizes() {
    let text = "junk\nTable: a\nSize: 3\nx\ny\n---END TABLE---\nTable: b\nz\r\n---END TABLE---\n";
    let tables = parse_backup_tables(text).unwrap();
    assert_eq!(tables.len(), 2);
    assert_eq!(tables[0].name, "a");
    assert_eq!(tables[0].lines, vec!["x", "y"]);
    assert_eq!(tables[1].lines, vec!["z"]);
    assert!(matches!(parse_backup_tables("Table: a\nSize: many\n"), Err(RecoveryError::InvalidSize)));
    let open_ended = parse_backup_tables("Table: c\nw").unwrap();
    assert_eq!(open_ended[0].lines, vec!["w"]);
}

#[test]
fn cleanup_and_listing_order() {
    let backups = vec![
        meta("b100", 100, BackupType::Full),
        meta("b50", 50, BackupType::Incremental),
        meta("b10", 10, BackupType::Full),
    ];
    let expired = select_expired_backups(&config(), &backups, 100);
    assert_eq!(expired, vec!["b50".to_string()]);
    let mut keep_all = config();
    keep_all.max_backup_count = 5;
    assert!(select_expired_backups(&keep_all, &backups, 100).is_empty());
    let shuffled = vec![meta("x", 10, BackupType::Full), meta("y", 30, BackupType::Full), meta("z", 10, BackupType::Full)];
    let sorted = sort_newest_first(shuffled);
    let ids: Vec<&str> = sorted.iter().map(|m| m.backup_id.as_str()).collect();
    assert_eq!(ids, vec!["y", "x", "z"]);
    let points = list_recovery_points(backups);
    assert_eq!(points[0].timestamp, 100);
    assert_eq!(points[1].description, "Incremental backup");
    assert_eq!(points[1].point_type, RecoveryPointType::Backup(BackupType::Incremental));
    assert_eq!(points[2].backup_id, Some("b10".to_string()));
}

#[test]
fn test_backups_at_a_clock_reading() {
    assert!(create_full_backup_at(&config(), -1).is_err());
    let full = create_full_backup_at(&config(), 1_700_000_000).unwrap();
    assert_eq!(full.metadata.created_at, 1_700_000_000);
    assert_eq!(full.metadata.backup_id, generate_backup_id(1_700_000_000));
    assert!(create_incremental_backup_at(&config(), &full.metadata, -5).is_err());
    let inc = create_incremental_backup_at(&config(), &full.metadata, 1_700_000_100).unwrap();
    assert_eq!(inc.metadata.created_at, 1_700_000_100);
    assert_eq!(inc.metadata.backup_type, BackupType::Incremental);
}

#[test]
fn test_cleanup_plan_at_a_clock_reading() {
    let backups = vec![meta("b100", 100, BackupType::Full), meta("b50", 50, BackupType::Full)];
    assert_eq!(plan_cleanup_at(&config(), &backups, 100), Some(vec![]));
    assert_eq!(plan_cleanup_at(&config(), &backups, 150), Some(vec!["b100".to_string()]));
    assert_eq!(plan_cleanup_at(&config(), &backups, -1), None);
    assert_eq!(plan_cleanup_at(&config(), &backups, 40), None);
    let mut keep_all = config();
    keep_all.max_backup_count = 5;
    assert_eq!(plan_cleanup_at(&keep_all, &backups, 40), Some(vec![]));
}

#[test]
fn checks_against_a_given_checksum() {
    assert_eq!(checksum_from_hash(0xbeef), "beef");
    assert_eq!(checksum_from_hash(0), "0");
    let mut m = meta("backup_4", 4, BackupType::Full);
    m.checksum = "abc".to_string();
    let data = vec![9u8];
    assert!(validate_backup_against(&m, Some(&data), "abc").is_ok());
    assert!(matches!(validate_backup_against(&m, Some(&data), "abd"), Err(RecoveryError::ChecksumMismatch(id)) if id == "backup_4"));
    assert!(matches!(validate_backup_against(&m, None, "abc"), Err(RecoveryError::BackupNotFound(_))));
    assert!(matches!(
        recover_to_point_against(&m, Some(&data), RecoveryTarget::Latest, "zzz"),
        Err(RecoveryError::ChecksumMismatch(_))
    ));
    assert!(matches!(
        recover_to_point_against(&m, Some(&data), RecoveryTarget::Latest, "abc"),
        Err(RecoveryError::InvalidArchive)
    ));
}
