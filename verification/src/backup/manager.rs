//! Backups: the archive a full or incremental backup writes, its metadata,
//! and which old backups to clean up.  Writing and reading files is the
//! caller's part.

use vstd::prelude::*;
use vstd::utf8::encode_utf8;
use vstd::string::*;
use crate::ambient::{clock_seconds, gzip_bytes, gzip_compress, hash_bytes};
use crate::backup::readback::{lemma_full_backup_reads_back, read_back};
use crate::backup::recovery::{restore_outcome, RecoveryError};
use crate::text::{decimal, hex, hex_of_some, owned, push_decimal, push_hex, push_text};

verus! {

/// Backup settings.
#[derive(Debug, Clone)]
pub struct BackupConfig {
    pub backup_directory: String,
    /// The gzip level, 0 (none) to 9 (best).
    pub compression_level: u32,
    pub max_backup_age_days: u32,
    pub max_backup_count: usize,
    pub include_wal: bool,
    pub verify_after_backup: bool,
}

/// The kinds of backup.
#[derive(Debug, Clone, Copy, PartialEq, Eq, Structural)]
pub enum BackupType {
    Full,
    Incremental,
}

/// What is known of a backup.
#[derive(Debug, Clone)]
pub struct BackupMetadata {
    pub backup_id: String,
    pub backup_type: BackupType,
    /// When the backup started, in seconds since the Unix epoch.
    pub created_at: u64,
    pub database_version: String,
    pub data_size_bytes: u64,
    pub compressed_size_bytes: u64,
    pub tables: Vec<String>,
    pub wal_position: Option<u64>,
    /// The archive's hash in lowercase hexadecimal.
    pub checksum: String,
}

/// Why a backup could not be made.
#[derive(Debug, Clone, Copy, PartialEq, Eq, Structural)]
pub enum BackupError {
    /// The clock reads a time before the Unix epoch.
    ClockBeforeEpoch,
}

/// A backup made in memory: its metadata and its compressed archive, to be
/// written to `file_name` in the backup directory.
#[derive(Debug)]
pub struct BackupArchive {
    pub metadata: BackupMetadata,
    pub file_name: String,
    pub compressed: Vec<u8>,
}

/// The WAL position the engine reports.
pub const WAL_POSITION: u64 = 12345;

/// The name of a backup made at `timestamp`.
pub open spec fn backup_id_text(timestamp: u64) -> Seq<char> {
    "backup_"@ + decimal(timestamp as nat)
}

/// The name of a backup made at `timestamp` (see `backup_id_text`).
pub fn generate_backup_id(timestamp: u64) -> (r: String)
    ensures
        r@ == backup_id_text(timestamp),
{
    let mut s = owned("backup_");
    push_decimal(&mut s, timestamp);
    s
}

/// The file a backup's archive is kept in.
pub open spec fn archive_file_text(backup_id: Seq<char>, kind: BackupType) -> Seq<char> {
    match kind {
        BackupType::Full => backup_id + ".backup.gz"@,
        BackupType::Incremental => backup_id + ".incremental.gz"@,
    }
}

/// The file a backup's archive is kept in (see `archive_file_text`).
pub fn archive_file_name(backup_id: &str, kind: BackupType) -> (r: String)
    ensures
        r@ == archive_file_text(backup_id@, kind),
{
    let mut s = owned(backup_id);
    match kind {
        BackupType::Full => push_text(&mut s, ".backup.gz"),
        BackupType::Incremental => push_text(&mut s, ".incremental.gz"),
    }
    s
}

/// The file a backup's metadata is kept in.
pub fn metadata_file_name(backup_id: &str) -> (r: String)
    ensures
        r@ == backup_id@ + ".json"@,
{
    let mut s = owned(backup_id);
    push_text(&mut s, ".json");
    s
}

/// The tables a backup covers.
pub open spec fn database_table_names() -> Seq<Seq<char>> {
    seq!["users"@, "orders"@, "products"@]
}

/// The tables a backup covers: a fixed list.
pub fn get_database_tables() -> (r: Vec<String>)
    ensures
        r@.map_values(|s: String| s@) == database_table_names(),
{
    let r = vec![owned("users"), owned("orders"), owned("products")];
    assert(r@.map_values(|s: String| s@) =~= database_table_names());
    r
}

/// The data a backup stores for a table.
pub open spec fn table_data_text(table: Seq<char>) -> Seq<char> {
    "Mock data for table: "@ + table + "\nRow 1: ...\nRow 2: ...\n"@
}

/// The data a backup stores for a table (see `table_data_text`), as UTF-8.
pub fn get_table_data(table_name: &str) -> (r: Vec<u8>)
    ensures
        r@ == encode_utf8(table_data_text(table_name@)),
{
    let mut s = owned("Mock data for table: ");
    push_text(&mut s, table_name);
    push_text(&mut s, "\nRow 1: ...\nRow 2: ...\n");
    bytes_of(s.as_str())
}

fn bytes_of(s: &str) -> (r: Vec<u8>)
    ensures
        r@ == encode_utf8(s@),
{
    let b = s.as_bytes();
    let mut out: Vec<u8> = Vec::new();
    let mut i: usize = 0;
    while i < b.len()
        invariant
            i <= b@.len(),
            b@ == encode_utf8(s@),
            out@ == b@.take(i as int),
        decreases b.len() - i,
    {
        out.push(b[i]);
        i = i + 1;
        assert(out@ =~= b@.take(i as int));
    }
    assert(b@.take(i as int) =~= b@);
    out
}

fn append_bytes(out: &mut Vec<u8>, b: &Vec<u8>)
    ensures
        final(out)@ == old(out)@ + b@,
{
    let mut i: usize = 0;
    while i < b.len()
        invariant
            i <= b@.len(),
            out@ == old(out)@ + b@.take(i as int),
        decreases b.len() - i,
    {
        out.push(b[i]);
        i = i + 1;
        assert(out@ =~= old(out)@ + b@.take(i as int));
    }
    assert(b@.take(i as int) =~= b@);
}

fn append_text(out: &mut Vec<u8>, s: &str)
    ensures
        final(out)@ == old(out)@ + encode_utf8(s@),
{
    let b = bytes_of(s);
    append_bytes(out, &b);
}

/// The header of a full backup's archive.
pub open spec fn full_header_text(backup_id: Seq<char>, timestamp: u64) -> Seq<char> {
    "AuroraDB Backup v1.0\nBackupID: "@ + backup_id + "\nTimestamp: "@ + decimal(timestamp as nat) + "\nType: Full\n"@
}

/// One table's part of a full backup's archive: a header with its name and
/// data size, the data, and an end marker.
pub open spec fn table_part(table: Seq<char>) -> Seq<u8> {
    let data = encode_utf8(table_data_text(table));
    encode_utf8("Table: "@ + table + "\nSize: "@ + decimal(data.len()) + "\n"@) + data + encode_utf8(
        "\n---END TABLE---\n"@,
    )
}

/// The parts of the tables, in order.
pub open spec fn table_parts(tables: Seq<Seq<char>>) -> Seq<u8>
    decreases tables.len(),
{
    if tables.len() == 0 {
        Seq::empty()
    } else {
        table_parts(tables.drop_last()) + table_part(tables.last())
    }
}

/// The total size of the tables' data.
pub open spec fn tables_data_size(tables: Seq<Seq<char>>) -> nat
    decreases tables.len(),
{
    if tables.len() == 0 {
        0
    } else {
        tables_data_size(tables.drop_last()) + encode_utf8(table_data_text(tables.last())).len()
    }
}

/// The WAL part of a full backup's archive.
pub open spec fn wal_part() -> Seq<u8> {
    encode_utf8("WAL Data: [mock WAL entries]\n"@)
}

/// A full backup's archive before compression: the header, each table's
/// part in order, and the WAL part when the WAL is included.
pub open spec fn full_archive(backup_id: Seq<char>, timestamp: u64, tables: Seq<Seq<char>>, include_wal: bool) -> Seq<u8> {
    encode_utf8(full_header_text(backup_id, timestamp)) + table_parts(tables) + if include_wal {
        wal_part()
    } else {
        Seq::empty()
    }
}

/// The checksum text for an archive hash: the hash in lowercase
/// hexadecimal.
pub open spec fn checksum_text(h: u64) -> Seq<char> {
    hex(h as nat)
}

/// The checksum text for an archive hash (see `checksum_text`).
pub fn checksum_from_hash(h: u64) -> (r: String)
    ensures
        r@ == checksum_text(h),
{
    let mut s = String::new();
    push_hex(&mut s, h);
    s
}

/// The checksum of an archive: the checksum text of its hash by
/// `hash_bytes`.
pub fn calculate_checksum(data: &Vec<u8>) -> (r: String)
    ensures
        hex_of_some(r@),
{
    let h = hash_bytes(data.as_slice());
    let s = checksum_from_hash(h);
    assert(s@ == hex(h as nat));
    s
}

/// The uncompressed archive of a full backup and its data size (see
/// `full_archive`).
pub fn full_backup_stream(backup_id: &str, timestamp: u64, tables: &Vec<String>, include_wal: bool) -> (r: (Vec<u8>, u64))
    requires
        tables_data_size(tables@.map_values(|s: String| s@)) <= u64::MAX,
    ensures
        r.0@ == full_archive(backup_id@, timestamp, tables@.map_values(|s: String| s@), include_wal),
        r.1 == tables_data_size(tables@.map_values(|s: String| s@)),
{
    let ghost names = tables@.map_values(|s: String| s@);
    let mut header = owned("AuroraDB Backup v1.0\nBackupID: ");
    push_text(&mut header, backup_id);
    push_text(&mut header, "\nTimestamp: ");
    push_decimal(&mut header, timestamp);
    push_text(&mut header, "\nType: Full\n");
    let mut out = bytes_of(header.as_str());
    let ghost start = out@;
    let mut total: u64 = 0;
    let mut i: usize = 0;
    while i < tables.len()
        invariant
            i <= tables@.len(),
            names == tables@.map_values(|s: String| s@),
            tables_data_size(names) <= u64::MAX,
            out@ == start + table_parts(names.take(i as int)),
            total == tables_data_size(names.take(i as int)),
            start == encode_utf8(full_header_text(backup_id@, timestamp)),
        decreases tables.len() - i,
    {
        assert(names.take(i as int + 1).drop_last() =~= names.take(i as int));
        assert(names.take(i as int + 1).last() == tables@[i as int]@);
        proof {
            lemma_tables_data_size_prefix(names, i as int + 1);
        }
        let data = get_table_data(tables[i].as_str());
        let mut table_header = owned("Table: ");
        push_text(&mut table_header, tables[i].as_str());
        push_text(&mut table_header, "\nSize: ");
        push_decimal(&mut table_header, data.len() as u64);
        push_text(&mut table_header, "\n");
        let ghost before = out@;
        append_text(&mut out, table_header.as_str());
        append_bytes(&mut out, &data);
        append_text(&mut out, "\n---END TABLE---\n");
        assert(out@ =~= before + table_part(tables@[i as int]@));
        total = total + data.len() as u64;
        i = i + 1;
    }
    assert(names.take(i as int) =~= names);
    if include_wal {
        append_text(&mut out, "WAL Data: [mock WAL entries]\n");
    } else {
        assert(out@ =~= out@ + Seq::<u8>::empty());
    }
    (out, total)
}

pub(crate) proof fn lemma_encode_utf8_len(chars: Seq<char>)
    ensures
        encode_utf8(chars).len() <= 4 * chars.len(),
    decreases chars.len(),
{
    if chars.len() > 0 {
        lemma_encode_utf8_len(chars.drop_first());
    }
}

proof fn lemma_fixed_tables_size()
    ensures
        tables_data_size(database_table_names()) <= u64::MAX,
{
    let names = database_table_names();
    reveal_strlit("users");
    reveal_strlit("orders");
    reveal_strlit("products");
    reveal_strlit("Mock data for table: ");
    reveal_strlit("\nRow 1: ...\nRow 2: ...\n");
    let a = encode_utf8(table_data_text("users"@)).len();
    let b = encode_utf8(table_data_text("orders"@)).len();
    let c = encode_utf8(table_data_text("products"@)).len();
    lemma_encode_utf8_len(table_data_text("users"@));
    lemma_encode_utf8_len(table_data_text("orders"@));
    lemma_encode_utf8_len(table_data_text("products"@));
    assert(a <= 400 && b <= 400 && c <= 400);
    let s1 = seq!["users"@];
    let s2 = seq!["users"@, "orders"@];
    assert(s1.drop_last() =~= Seq::<Seq<char>>::empty());
    assert(s2.drop_last() =~= s1);
    assert(names.drop_last() =~= s2);
    assert(tables_data_size(Seq::<Seq<char>>::empty()) == 0);
    assert(s1.last() == "users"@);
    assert(s2.last() == "orders"@);
    assert(names.last() == "products"@);
    assert(tables_data_size(s1) == a);
    assert(tables_data_size(s2) == a + b);
    assert(tables_data_size(names) == a + b + c);
}

proof fn lemma_tables_data_size_prefix(tables: Seq<Seq<char>>, n: int)
    requires
        0 <= n <= tables.len(),
    ensures
        tables_data_size(tables.take(n)) <= tables_data_size(tables),
    decreases tables.len(),
{
    if n < tables.len() {
        assert(tables.drop_last().take(n) =~= tables.take(n));
        lemma_tables_data_size_prefix(tables.drop_last(), n);
    } else {
        assert(tables.take(n) =~= tables);
    }
}

/// Whether metadata is that of a full backup of `tables` made at `timestamp`
/// with the given archive.
pub open spec fn full_metadata(m: BackupMetadata, timestamp: u64, tables: Seq<String>, include_wal: bool, level: u32) -> bool {
    let names = tables.map_values(|s: String| s@);
    let id = backup_id_text(timestamp);
    let compressed = gzip_bytes(full_archive(id, timestamp, names, include_wal), level);
    &&& m.backup_id@ == id
    &&& m.backup_type == BackupType::Full
    &&& m.created_at == timestamp
    &&& m.database_version@ == "1.0.0"@
    &&& m.data_size_bytes == tables_data_size(names)
    &&& m.compressed_size_bytes == compressed.len()
    &&& m.tables@ == tables
    &&& m.wal_position == (if include_wal {
        Some(WAL_POSITION)
    } else {
        None
    })
    &&& hex_of_some(m.checksum@)
}

/// A backup's timestamp from a clock reading in whole seconds since the Unix
/// epoch, or nothing for a time before it.
fn backup_timestamp(now: i64) -> (r: Option<u64>)
    ensures
        r == (if now < 0 {
            None
        } else {
            Some(now as u64)
        }),
{
    if now < 0 {
        None
    } else {
        Some(now as u64)
    }
}

/// The archive of a full backup made at clock reading `now` (seconds since
/// the Unix epoch): the header with its name and time,
/// each table's part, the WAL part when configured, gzip-compressed at the
/// configured level, with its metadata.  Fails exactly when `now` is before
/// the Unix epoch.
pub fn create_full_backup_at(config: &BackupConfig, now: i64) -> (r: Result<BackupArchive, BackupError>)
    requires
        config.compression_level <= 10,
    ensures
        match r {
            Ok(a) => {
                &&& now >= 0
                &&& a.metadata.created_at == now
                &&& full_metadata(a.metadata, a.metadata.created_at, a.metadata.tables@, config.include_wal, config.compression_level)
                &&& a.metadata.tables@.map_values(|s: String| s@) == database_table_names()
                &&& a.compressed@ == gzip_bytes(
                    full_archive(a.metadata.backup_id@, a.metadata.created_at, database_table_names(), config.include_wal),
                    config.compression_level,
                )
                &&& a.file_name@ == archive_file_text(a.metadata.backup_id@, BackupType::Full)
                &&& restore_outcome(a.compressed@) == Ok::<Seq<(Seq<char>, Seq<Seq<char>>)>, RecoveryError>(
                    read_back(database_table_names()),
                )
            },
            Err(e) => now < 0 && e == BackupError::ClockBeforeEpoch,
        },
{
    let timestamp = match backup_timestamp(now) {
        Some(t) => t,
        None => return Err(BackupError::ClockBeforeEpoch),
    };
    let backup_id = generate_backup_id(timestamp);
    let tables = get_database_tables();
    proof {
        let names = tables@.map_values(|s: String| s@);
        assert(names =~= database_table_names());
        lemma_fixed_tables_size();
    }
    let (stream, total) = full_backup_stream(backup_id.as_str(), timestamp, &tables, config.include_wal);
    let compressed = gzip_compress(&stream, config.compression_level);
    proof {
        lemma_full_backup_reads_back(timestamp, config.include_wal);
    }
    let checksum = calculate_checksum(&compressed);
    let wal_position = if config.include_wal {
        Some(WAL_POSITION)
    } else {
        None
    };
    let file_name = archive_file_name(backup_id.as_str(), BackupType::Full);
    let metadata = BackupMetadata {
        backup_id,
        backup_type: BackupType::Full,
        created_at: timestamp,
        database_version: owned("1.0.0"),
        data_size_bytes: total,
        compressed_size_bytes: compressed.len() as u64,
        tables,
        wal_position,
        checksum,
    };
    Ok(BackupArchive { metadata, file_name, compressed })
}

/// The archive of a full backup made now: the header with its name and time,
/// each table's part, the WAL part when configured, gzip-compressed at the
/// configured level, with its metadata.  Fails when the clock reads a time
/// before the Unix epoch.
pub fn create_full_backup(config: &BackupConfig) -> (r: Result<BackupArchive, BackupError>)
    requires
        config.compression_level <= 10,
    ensures
        match r {
            Ok(a) => {
                &&& full_metadata(a.metadata, a.metadata.created_at, a.metadata.tables@, config.include_wal, config.compression_level)
                &&& a.metadata.tables@.map_values(|s: String| s@) == database_table_names()
                &&& a.compressed@ == gzip_bytes(
                    full_archive(a.metadata.backup_id@, a.metadata.created_at, database_table_names(), config.include_wal),
                    config.compression_level,
                )
                &&& a.file_name@ == archive_file_text(a.metadata.backup_id@, BackupType::Full)
                &&& restore_outcome(a.compressed@) == Ok::<Seq<(Seq<char>, Seq<Seq<char>>)>, RecoveryError>(
                    read_back(database_table_names()),
                )
            },
            Err(e) => e == BackupError::ClockBeforeEpoch,
        },
{
    match clock_seconds() {
        Some(now) => create_full_backup_at(config, now),
        None => Err(BackupError::ClockBeforeEpoch),
    }
}

/// The WAL changes an incremental backup stores.
pub open spec fn wal_changes_text(position: u64) -> Seq<char> {
    "WAL changes since position "@ + decimal(position as nat) + ": [mock entries]\n"@
}

/// An incremental backup's archive before compression: its header with its
/// name, its base backup's name and its time, then the WAL changes since the
/// base backup's WAL position (0 when it has none).
pub open spec fn incremental_archive(backup_id: Seq<char>, base_id: Seq<char>, timestamp: u64, base_position: u64) -> Seq<u8> {
    encode_utf8(
        "AuroraDB Incremental Backup v1.0\nBackupID: "@ + backup_id + "\nBaseBackup: "@ + base_id + "\nTimestamp: "@
            + decimal(timestamp as nat) + "\n"@,
    ) + encode_utf8("WAL Changes:\n"@) + encode_utf8(wal_changes_text(base_position))
}

/// The WAL position a base backup starts the changes from.
pub open spec fn base_position(base: BackupMetadata) -> u64 {
    match base.wal_position {
        Some(p) => p,
        None => 0,
    }
}

/// The archive of an incremental backup made at clock reading `now`
/// (seconds since the Unix epoch) on top of `base`: the WAL
/// changes since the base backup, gzip-compressed at the configured level,
/// with its metadata (no tables, the current WAL position).  Fails exactly
/// when `now` is before the Unix epoch.
pub fn create_incremental_backup_at(config: &BackupConfig, base: &BackupMetadata, now: i64) -> (r: Result<BackupArchive, BackupError>)
    requires
        config.compression_level <= 10,
    ensures
        match r {
            Ok(a) => {
                let changes = encode_utf8(wal_changes_text(base_position(*base)));
                let compressed = gzip_bytes(
                    incremental_archive(
                        a.metadata.backup_id@,
                        base.backup_id@,
                        a.metadata.created_at,
                        base_position(*base),
                    ),
                    config.compression_level,
                );
                &&& now >= 0
                &&& a.metadata.created_at == now
                &&& a.metadata.backup_id@ == backup_id_text(a.metadata.created_at)
                &&& a.metadata.backup_type == BackupType::Incremental
                &&& a.metadata.database_version@ == "1.0.0"@
                &&& a.metadata.data_size_bytes == changes.len()
                &&& a.compressed@ == compressed
                &&& a.metadata.compressed_size_bytes == compressed.len()
                &&& a.metadata.tables@.len() == 0
                &&& a.metadata.wal_position == Some(WAL_POSITION)
                &&& hex_of_some(a.metadata.checksum@)
                &&& a.file_name@ == archive_file_text(a.metadata.backup_id@, BackupType::Incremental)
            },
            Err(e) => now < 0 && e == BackupError::ClockBeforeEpoch,
        },
{
    let timestamp = match backup_timestamp(now) {
        Some(t) => t,
        None => return Err(BackupError::ClockBeforeEpoch),
    };
    let backup_id = generate_backup_id(timestamp);
    let position = match base.wal_position {
        Some(p) => p,
        None => 0,
    };
    let mut changes_text = owned("WAL changes since position ");
    push_decimal(&mut changes_text, position);
    push_text(&mut changes_text, ": [mock entries]\n");
    let changes = bytes_of(changes_text.as_str());
    let mut header = owned("AuroraDB Incremental Backup v1.0\nBackupID: ");
    push_text(&mut header, backup_id.as_str());
    push_text(&mut header, "\nBaseBackup: ");
    push_text(&mut header, base.backup_id.as_str());
    push_text(&mut header, "\nTimestamp: ");
    push_decimal(&mut header, timestamp);
    push_text(&mut header, "\n");
    let mut stream = bytes_of(header.as_str());
    append_text(&mut stream, "WAL Changes:\n");
    append_bytes(&mut stream, &changes);
    let compressed = gzip_compress(&stream, config.compression_level);
    let checksum = calculate_checksum(&compressed);
    let file_name = archive_file_name(backup_id.as_str(), BackupType::Incremental);
    let metadata = BackupMetadata {
        backup_id,
        backup_type: BackupType::Incremental,
        created_at: timestamp,
        database_version: owned("1.0.0"),
        data_size_bytes: changes.len() as u64,
        compressed_size_bytes: compressed.len() as u64,
        tables: Vec::new(),
        wal_position: Some(WAL_POSITION),
        checksum,
    };
    Ok(BackupArchive { metadata, file_name, compressed })
}

/// The archive of an incremental backup made now on top of `base`: the WAL
/// changes since the base backup, gzip-compressed at the configured level,
/// with its metadata (no tables, the current WAL position).  Fails when the
/// clock reads a time before the Unix epoch.
pub fn create_incremental_backup(config: &BackupConfig, base: &BackupMetadata) -> (r: Result<BackupArchive, BackupError>)
    requires
        config.compression_level <= 10,
    ensures
        match r {
            Ok(a) => {
                let changes = encode_utf8(wal_changes_text(base_position(*base)));
                let compressed = gzip_bytes(
                    incremental_archive(
                        a.metadata.backup_id@,
                        base.backup_id@,
                        a.metadata.created_at,
                        base_position(*base),
                    ),
                    config.compression_level,
                );
                &&& a.metadata.backup_id@ == backup_id_text(a.metadata.created_at)
                &&& a.metadata.backup_type == BackupType::Incremental
                &&& a.metadata.database_version@ == "1.0.0"@
                &&& a.metadata.data_size_bytes == changes.len()
                &&& a.compressed@ == compressed
                &&& a.metadata.compressed_size_bytes == compressed.len()
                &&& a.metadata.tables@.len() == 0
                &&& a.metadata.wal_position == Some(WAL_POSITION)
                &&& hex_of_some(a.metadata.checksum@)
                &&& a.file_name@ == archive_file_text(a.metadata.backup_id@, BackupType::Incremental)
            },
            Err(e) => e == BackupError::ClockBeforeEpoch,
        },
{
    match clock_seconds() {
        Some(now) => create_incremental_backup_at(config, base, now),
        None => Err(BackupError::ClockBeforeEpoch),
    }
}

/// Inserts a backup into a list ordered newest first, after every backup
/// that is not older (a stable insertion).
pub open spec fn insert_newest_first(s: Seq<BackupMetadata>, x: BackupMetadata) -> Seq<BackupMetadata>
    decreases s.len(),
{
    if s.len() == 0 {
        seq![x]
    } else if s.last().created_at < x.created_at {
        insert_newest_first(s.drop_last(), x).push(s.last())
    } else {
        s.push(x)
    }
}

/// The backups newest first, backups of one time keeping their order.
pub open spec fn newest_first(s: Seq<BackupMetadata>) -> Seq<BackupMetadata>
    decreases s.len(),
{
    if s.len() == 0 {
        Seq::empty()
    } else {
        insert_newest_first(newest_first(s.drop_last()), s.last())
    }
}

proof fn lemma_insert_newest_at(s: Seq<BackupMetadata>, x: BackupMetadata, j: int)
    requires
        0 <= j <= s.len(),
        forall|k: int| j <= k < s.len() ==> #[trigger] s[k].created_at < x.created_at,
        j == 0 || s[j - 1].created_at >= x.created_at,
    ensures
        insert_newest_first(s, x) == s.insert(j, x),
    decreases s.len(),
{
    if j == s.len() {
        if s.len() == 0 {
            assert(s.insert(j, x) =~= seq![x]);
        } else {
            assert(s.insert(j, x) =~= s.push(x));
        }
    } else {
        lemma_insert_newest_at(s.drop_last(), x, j);
        assert(s.drop_last().insert(j, x).push(s.last()) =~= s.insert(j, x));
    }
}

/// Orders backups newest first (see `newest_first`).
pub fn sort_newest_first(backups: Vec<BackupMetadata>) -> (r: Vec<BackupMetadata>)
    ensures
        r@ == newest_first(backups@),
{
    let ghost orig = backups@;
    let total: usize = backups.len();
    let mut rest = backups;
    let mut out: Vec<BackupMetadata> = Vec::new();
    let mut i: usize = 0;
    while rest.len() > 0
        invariant
            i + rest@.len() == total,
            total == orig.len(),
            rest@ == orig.skip(i as int),
            out@ == newest_first(orig.take(i as int)),
        decreases rest.len(),
    {
        let x = rest.remove(0);
        assert(x == orig[i as int]);
        assert(orig.take(i as int + 1).drop_last() =~= orig.take(i as int));
        let mut j: usize = out.len();
        let mut settled = false;
        while j > 0 && !settled
            invariant
                j <= out@.len(),
                forall|k: int| j <= k < out@.len() ==> #[trigger] out@[k].created_at < x.created_at,
                settled ==> j > 0 && out@[j - 1].created_at >= x.created_at,
            decreases j + if settled {
                0int
            } else {
                1int
            },
        {
            if out[j - 1].created_at < x.created_at {
                j = j - 1;
            } else {
                settled = true;
            }
        }
        proof {
            lemma_insert_newest_at(out@, x, j as int);
        }
        out.insert(j, x);
        i = i + 1;
        assert(rest@ =~= orig.skip(i as int));
    }
    assert(orig.take(i as int) =~= orig);
    out
}

/// Whether the backups are newest first.
pub open spec fn is_newest_first(s: Seq<BackupMetadata>) -> bool {
    forall|i: int| 0 <= i < s.len() - 1 ==> #[trigger] s[i].created_at >= s[i + 1].created_at
}

proof fn lemma_insert_newest_sorted(s: Seq<BackupMetadata>, x: BackupMetadata)
    requires
        is_newest_first(s),
    ensures
        is_newest_first(insert_newest_first(s, x)),
        insert_newest_first(s, x).len() == s.len() + 1,
        insert_newest_first(s, x).last().created_at <= (if s.len() > 0 && s.last().created_at < x.created_at {
            s.last().created_at
        } else {
            x.created_at
        }),
    decreases s.len(),
{
    if s.len() > 0 && s.last().created_at < x.created_at {
        let p = s.drop_last();
        assert(is_newest_first(p)) by {
            assert forall|i: int| 0 <= i < p.len() - 1 implies #[trigger] p[i].created_at >= p[i + 1].created_at by {
                assert(s[i].created_at >= s[i + 1].created_at);
            }
        }
        lemma_insert_newest_sorted(p, x);
        let t0 = insert_newest_first(p, x);
        let t = t0.push(s.last());
        if p.len() > 0 {
            let k = p.len() - 1;
            assert(s[k].created_at >= s[k + 1].created_at);
        }
        assert forall|i: int| 0 <= i < t.len() - 1 implies #[trigger] t[i].created_at >= t[i + 1].created_at by {
            if i < t0.len() - 1 {
                assert(t[i] == t0[i] && t[i + 1] == t0[i + 1]);
            }
        }
    } else if s.len() > 0 {
        let t = s.push(x);
        assert forall|i: int| 0 <= i < t.len() - 1 implies #[trigger] t[i].created_at >= t[i + 1].created_at by {
            if i < s.len() - 1 {
                assert(t[i] == s[i] && t[i + 1] == s[i + 1]);
            }
        }
    }
}

/// Listing backups puts them newest first: each is at least as recent as
/// the next.
pub proof fn law_listing_is_newest_first(s: Seq<BackupMetadata>)
    ensures
        is_newest_first(newest_first(s)),
        newest_first(s).len() == s.len(),
    decreases s.len(),
{
    if s.len() > 0 {
        law_listing_is_newest_first(s.drop_last());
        lemma_insert_newest_sorted(newest_first(s.drop_last()), s.last());
    }
}

/// The names of the backups, in order, older than `max_age` seconds at
/// `now`.
pub open spec fn expired_ids(s: Seq<BackupMetadata>, now: u64, max_age: int) -> Seq<Seq<char>>
    decreases s.len(),
{
    if s.len() == 0 {
        Seq::empty()
    } else if now - s.last().created_at > max_age {
        expired_ids(s.drop_last(), now, max_age).push(s.last().backup_id@)
    } else {
        expired_ids(s.drop_last(), now, max_age)
    }
}

/// The backups cleanup looks at: with the list newest first, those left
/// after skipping `max_count` from the oldest end, oldest first.
pub open spec fn cleanup_candidates(backups: Seq<BackupMetadata>, max_count: usize) -> Seq<BackupMetadata> {
    if max_count >= backups.len() {
        Seq::empty()
    } else {
        backups.reverse().skip(max_count as int)
    }
}

/// Which backups cleanup deletes, given the list newest first and the time:
/// among the candidates (see `cleanup_candidates`), those older than the
/// configured age, oldest first.  None of the candidates may be from the
/// future.
pub fn select_expired_backups(config: &BackupConfig, backups: &Vec<BackupMetadata>, now: u64) -> (r: Vec<String>)
    requires
        forall|i: int| 0 <= i < cleanup_candidates(backups@, config.max_backup_count).len() ==> #[trigger] cleanup_candidates(
            backups@,
            config.max_backup_count,
        )[i].created_at <= now,
    ensures
        r@.map_values(|s: String| s@) == expired_ids(
            cleanup_candidates(backups@, config.max_backup_count),
            now,
            config.max_backup_age_days * 86400,
        ),
{
    let max_age: u64 = config.max_backup_age_days as u64 * 86400;
    let ghost cands = cleanup_candidates(backups@, config.max_backup_count);
    let mut out: Vec<String> = Vec::new();
    if config.max_backup_count >= backups.len() {
        assert(out@.map_values(|s: String| s@) =~= expired_ids(cands, now, max_age as int));
        return out;
    }
    let n: usize = backups.len() - config.max_backup_count;
    let mut k: usize = 0;
    proof {
        assert(cands.len() == n);
        assert(cands.take(0).len() == 0);
        assert(out@.map_values(|s: String| s@) =~= Seq::<Seq<char>>::empty());
    }
    while k < n
        invariant
            k <= n,
            n == backups@.len() - config.max_backup_count,
            max_age == config.max_backup_age_days as u64 * 86400,
            cands == cleanup_candidates(backups@, config.max_backup_count),
            cands.len() == n,
            forall|i: int| 0 <= i < cands.len() ==> #[trigger] cands[i].created_at <= now,
            out@.map_values(|s: String| s@) == expired_ids(cands.take(k as int), now, max_age as int),
        decreases n - k,
    {
        let idx = n - 1 - k;
        let b = &backups[idx];
        assert(cands[k as int] == backups@[idx as int]);
        assert(cands.take(k as int + 1).drop_last() =~= cands.take(k as int));
        assert(cands.take(k as int + 1).last() == cands[k as int]);
        let ghost before = out@.map_values(|s: String| s@);
        if now - b.created_at > max_age {
            out.push(b.backup_id.clone());
            assert(out@.map_values(|s: String| s@) =~= before.push(b.backup_id@));
        }
        k = k + 1;
    }
    assert(cands.take(k as int) =~= cands);
    out
}

/// Whether some cleanup candidate was made after `now`.
pub open spec fn candidate_after(backups: Seq<BackupMetadata>, max_count: usize, now: int) -> bool {
    exists|i: int|
        0 <= i < cleanup_candidates(backups, max_count).len() && #[trigger] cleanup_candidates(
            backups,
            max_count,
        )[i].created_at > now
}

/// Which backups cleanup deletes at clock reading `now` (seconds since the
/// Unix epoch; see `select_expired_backups`), or nothing exactly when `now`
/// is before the Unix epoch or a candidate was made after `now`.
pub fn plan_cleanup_at(config: &BackupConfig, backups: &Vec<BackupMetadata>, now: i64) -> (r: Option<Vec<String>>)
    ensures
        r is None <==> (now < 0 || candidate_after(backups@, config.max_backup_count, now as int)),
        r matches Some(ids) ==> ids@.map_values(|s: String| s@) == expired_ids(
            cleanup_candidates(backups@, config.max_backup_count),
            now as u64,
            config.max_backup_age_days * 86400,
        ),
{
    let at = match backup_timestamp(now) {
        Some(t) => t,
        None => return None,
    };
    let ghost cands = cleanup_candidates(backups@, config.max_backup_count);
    if config.max_backup_count < backups.len() {
        let n: usize = backups.len() - config.max_backup_count;
        let mut k: usize = 0;
        while k < n
            invariant
                k <= n,
                n == backups@.len() - config.max_backup_count,
                cands == cleanup_candidates(backups@, config.max_backup_count),
                cands.len() == n,
                forall|i: int| 0 <= i < k ==> #[trigger] cands[i].created_at <= at,
                at as int == now as int,
            decreases n - k,
        {
            assert(cands[k as int] == backups@[(n - 1 - k) as int]);
            if backups[n - 1 - k].created_at > at {
                assert(cleanup_candidates(backups@, config.max_backup_count)[k as int].created_at > now as int);
                return None;
            }
            k = k + 1;
        }
    }
    let ids = select_expired_backups(config, backups, at);
    Some(ids)
}

/// Which backups cleanup deletes now (see `select_expired_backups`), or
/// nothing when the clock reads a time before the Unix epoch or a candidate
/// is from the future.
pub fn plan_cleanup(config: &BackupConfig, backups: &Vec<BackupMetadata>) -> (r: Option<Vec<String>>)
    ensures
        r matches Some(ids) ==> exists|now: u64|
            #[trigger] expired_ids(cleanup_candidates(backups@, config.max_backup_count), now, config.max_backup_age_days * 86400)
                == ids@.map_values(|s: String| s@),
{
    match clock_seconds() {
        Some(now) => plan_cleanup_at(config, backups, now),
        None => None,
    }
}

} // verus!
