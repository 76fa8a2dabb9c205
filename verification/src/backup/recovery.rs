//! Recovery: checking a backup against its metadata, reading the tables
//! back out of a full backup's archive, and what a recovery reports.

use vstd::prelude::*;
use crate::ambient::{gunzip_string, gunzip_text, utc_now_seconds};
use crate::backup::manager::{BackupMetadata, BackupType, calculate_checksum, newest_first, sort_newest_first};
use crate::config::{parse_usize, usize_parse};
use crate::text::{chars_of, owned, push_text, str_equal, string_of_chars, sub_chars};

verus! {

/// Recovery settings.
#[derive(Debug, Clone)]
pub struct RecoveryConfig {
    pub recovery_directory: String,
    pub wal_directory: String,
    pub max_parallel_workers: usize,
    pub verify_after_recovery: bool,
}

/// How far to recover.
#[derive(Debug, Clone, Copy, PartialEq, Eq, Structural)]
pub enum RecoveryTarget {
    /// The latest point available.
    Latest,
    /// A time, in seconds since the Unix epoch.
    Timestamp(u64),
    /// A WAL position.
    Lsn(u64),
}

/// What a recovery did.
#[derive(Debug, Clone)]
pub struct RecoveryResult {
    pub backup_id: String,
    pub recovery_target: RecoveryTarget,
    pub recovered_to_timestamp: u64,
    pub applied_incremental_backups: usize,
    pub recovered_tables: usize,
    pub recovered_data_size: u64,
    pub duration_seconds: u64,
}

/// The kinds of recovery point.
#[derive(Debug, Clone, Copy, PartialEq, Eq, Structural)]
pub enum RecoveryPointType {
    Backup(BackupType),
    Checkpoint,
    TransactionCommit,
}

/// A point the database can be recovered to.
#[derive(Debug, Clone)]
pub struct RecoveryPoint {
    pub point_type: RecoveryPointType,
    pub timestamp: u64,
    pub backup_id: Option<String>,
    pub description: String,
}

/// Why a recovery failed.
#[derive(Debug, Clone, PartialEq, Eq)]
pub enum RecoveryError {
    /// The backup's archive is not there.
    BackupNotFound(String),
    /// The archive's checksum is not the one its metadata records.
    ChecksumMismatch(String),
    /// A full restore of a backup that is not full.
    NotFullBackup(String),
    /// The archive is not gzip data holding UTF-8 text.
    InvalidArchive,
    /// A table's size line does not hold a number.
    InvalidSize,
    /// The clock read an earlier time at the end than at the start.
    ClockWentBack,
}

/// Checks a backup against the checksum computed for its archive: the
/// archive must be there and `archive_checksum` must be the checksum its
/// metadata records.
pub fn validate_backup_against(
    metadata: &BackupMetadata,
    archive: Option<&Vec<u8>>,
    archive_checksum: &str,
) -> (r: Result<(), RecoveryError>)
    ensures
        match archive {
            None => r == Err::<(), RecoveryError>(RecoveryError::BackupNotFound(metadata.backup_id)),
            Some(_) => if archive_checksum@ == metadata.checksum@ {
                r is Ok
            } else {
                r == Err::<(), RecoveryError>(RecoveryError::ChecksumMismatch(metadata.backup_id))
            },
        },
{
    match archive {
        None => Err(RecoveryError::BackupNotFound(metadata.backup_id.clone())),
        Some(_) => {
            if str_equal(archive_checksum, metadata.checksum.as_str()) {
                Ok(())
            } else {
                Err(RecoveryError::ChecksumMismatch(metadata.backup_id.clone()))
            }
        },
    }
}

/// Checks a backup: its archive must be there and have the checksum its
/// metadata records (computed by `calculate_checksum`; see
/// `validate_backup_against`).
pub fn validate_backup(metadata: &BackupMetadata, archive: Option<&Vec<u8>>) -> (r: Result<(), RecoveryError>)
    ensures
        match archive {
            None => r == Err::<(), RecoveryError>(RecoveryError::BackupNotFound(metadata.backup_id)),
            Some(_) => r is Ok || r == Err::<(), RecoveryError>(RecoveryError::ChecksumMismatch(metadata.backup_id)),
        },
{
    match archive {
        None => Err(RecoveryError::BackupNotFound(metadata.backup_id.clone())),
        Some(data) => {
            let sum = calculate_checksum(data);
            validate_backup_against(metadata, archive, sum.as_str())
        },
    }
}

/// A line with a final carriage return removed.
pub open spec fn strip_cr(line: Seq<char>) -> Seq<char> {
    if line.len() > 0 && line.last() == '\r' {
        line.drop_last()
    } else {
        line
    }
}

/// Reading a text character by character: the lines ended so far (each
/// without its `\n`, and without a `\r` before it) and the line being read.
pub open spec fn scan_lines(s: Seq<char>) -> (Seq<Seq<char>>, Seq<char>)
    decreases s.len(),
{
    if s.len() == 0 {
        (Seq::empty(), Seq::empty())
    } else {
        let (done, cur) = scan_lines(s.drop_last());
        if s.last() == '\n' {
            (done.push(strip_cr(cur)), Seq::empty())
        } else {
            (done, cur.push(s.last()))
        }
    }
}

/// The lines of a text as `str::lines` gives them: split at each `\n`, a
/// `\r` before a `\n` dropped, and no empty last line after a final `\n`.
pub open spec fn text_lines(s: Seq<char>) -> Seq<Seq<char>> {
    let (done, cur) = scan_lines(s);
    if cur.len() > 0 {
        done.push(cur)
    } else {
        done
    }
}

fn lines_of(s: &str) -> (r: Vec<Vec<char>>)
    ensures
        r@.map_values(|l: Vec<char>| l@) == text_lines(s@),
{
    let cs = chars_of(s);
    let mut done: Vec<Vec<char>> = Vec::new();
    let mut cur: Vec<char> = Vec::new();
    let mut i: usize = 0;
    proof {
        assert(cs@.take(0).len() == 0);
        assert(done@.map_values(|l: Vec<char>| l@) =~= Seq::<Seq<char>>::empty());
    }
    while i < cs.len()
        invariant
            i <= cs@.len(),
            cs@ == s@,
            scan_lines(cs@.take(i as int)) == (done@.map_values(|l: Vec<char>| l@), cur@),
        decreases cs.len() - i,
    {
        assert(cs@.take(i as int + 1).drop_last() =~= cs@.take(i as int));
        let ghost before = done@.map_values(|l: Vec<char>| l@);
        if cs[i] == '\n' {
            let mut line = cur;
            if line.len() > 0 && line[line.len() - 1] == '\r' {
                line.pop();
            }
            assert(line@ == strip_cr(cur@));
            done.push(line);
            assert(done@.map_values(|l: Vec<char>| l@) =~= before.push(strip_cr(cur@)));
            cur = Vec::new();
            assert(cur@ =~= Seq::<char>::empty());
        } else {
            cur.push(cs[i]);
        }
        i = i + 1;
    }
    assert(cs@.take(i as int) =~= cs@);
    if cur.len() > 0 {
        let ghost before = done@.map_values(|l: Vec<char>| l@);
        done.push(cur);
        assert(done@.map_values(|l: Vec<char>| l@) =~= before.push(cur@));
    }
    done
}

/// Whether a line starts with a prefix.
pub open spec fn has_prefix(line: Seq<char>, prefix: Seq<char>) -> bool {
    prefix.len() <= line.len() && line.take(prefix.len() as int) == prefix
}

fn starts_with_chars(line: &Vec<char>, prefix: &str) -> (r: bool)
    ensures
        r == has_prefix(line@, prefix@),
{
    let p = chars_of(prefix);
    if p.len() > line.len() {
        return false;
    }
    let mut i: usize = 0;
    while i < p.len()
        invariant
            i <= p@.len(),
            p@.len() <= line@.len(),
            p@ == prefix@,
            line@.take(i as int) == p@.take(i as int),
        decreases p.len() - i,
    {
        if line[i] != p[i] {
            assert(line@.take(p@.len() as int)[i as int] != p@[i as int]);
            return false;
        }
        assert(line@.take(i as int + 1) =~= line@.take(i as int).push(line@[i as int]));
        assert(p@.take(i as int + 1) =~= p@.take(i as int).push(p@[i as int]));
        i = i + 1;
    }
    assert(p@.take(i as int) =~= p@);
    true
}

/// The index of the first line from `i` on that starts with the end marker,
/// or the number of lines when none does.
pub open spec fn end_marker_from(lines: Seq<Seq<char>>, i: int) -> int
    decreases lines.len() - i,
{
    if i >= lines.len() {
        lines.len() as int
    } else if has_prefix(lines[i], "---END TABLE---"@) {
        i
    } else {
        end_marker_from(lines, i + 1)
    }
}

/// A table read back from an archive: its name and its data lines.
#[derive(Debug, Clone)]
pub struct RestoredTable {
    pub name: String,
    pub lines: Vec<String>,
}

/// What a restored table stands for.
pub open spec fn restored_view(t: RestoredTable) -> (Seq<char>, Seq<Seq<char>>) {
    (t.name@, t.lines@.map_values(|l: String| l@))
}

/// The tables of an archive's lines from line `i` on: a line `Table: name`
/// starts a table; an optional next line `Size: n` must hold a number; the
/// table's data are the lines up to one starting with the end marker, which
/// is skipped; other lines are skipped.
pub open spec fn tables_from(lines: Seq<Seq<char>>, i: int) -> Result<Seq<(Seq<char>, Seq<Seq<char>>)>, RecoveryError>
    decreases lines.len() - i,
{
    if i >= lines.len() {
        Ok(Seq::empty())
    } else if has_prefix(lines[i], "Table: "@) {
        let name = lines[i].skip(7);
        let j = i + 1;
        let sized = j < lines.len() && has_prefix(lines[j], "Size: "@);
        if sized && usize_parse(lines[j].skip(6)) is None {
            Err(RecoveryError::InvalidSize)
        } else {
            let start = if sized {
                j + 1
            } else {
                j
            };
            let end = end_marker_from(lines, start);
            let data = lines.subrange(start, end);
            proof {
                lemma_end_marker_bounds(lines, start);
                assert(start <= lines.len());
            }
            if end >= lines.len() {
                Ok(seq![(name, data)])
            } else {
                match tables_from(lines, end + 1) {
                    Err(e) => Err(e),
                    Ok(rest) => Ok(seq![(name, data)] + rest),
                }
            }
        }
    } else {
        tables_from(lines, i + 1)
    }
}

/// The end marker search ends between its start and the last line.
pub proof fn lemma_end_marker_bounds(lines: Seq<Seq<char>>, i: int)
    ensures
        i <= end_marker_from(lines, i) || i > lines.len(),
        end_marker_from(lines, i) <= lines.len(),
    decreases lines.len() - i,
{
    if i < lines.len() && !has_prefix(lines[i], "---END TABLE---"@) {
        lemma_end_marker_bounds(lines, i + 1);
    }
}

/// Prepends tables to a result.
pub open spec fn after(done: Seq<(Seq<char>, Seq<Seq<char>>)>, rest: Result<Seq<(Seq<char>, Seq<Seq<char>>)>, RecoveryError>) -> Result<
    Seq<(Seq<char>, Seq<Seq<char>>)>,
    RecoveryError,
> {
    match rest {
        Err(e) => Err(e),
        Ok(r) => Ok(done + r),
    }
}

/// Reads the tables out of a full backup's archive text (see
/// `tables_from`).
pub fn parse_backup_tables(content: &str) -> (r: Result<Vec<RestoredTable>, RecoveryError>)
    ensures
        match tables_from(text_lines(content@), 0) {
            Ok(ts) => r is Ok && r->Ok_0@.map_values(|t: RestoredTable| restored_view(t)) == ts,
            Err(e) => r == Err::<Vec<RestoredTable>, RecoveryError>(e),
        },
{
    let lines = lines_of(content);
    let ghost ls = lines@.map_values(|l: Vec<char>| l@);
    let mut out: Vec<RestoredTable> = Vec::new();
    let mut i: usize = 0;
    proof {
        assert(out@.map_values(|t: RestoredTable| restored_view(t)) =~= Seq::<(Seq<char>, Seq<Seq<char>>)>::empty());
        assert(after(Seq::empty(), tables_from(ls, 0)) =~~= tables_from(ls, 0)) by {
            match tables_from(ls, 0) {
                Ok(r) => assert(Seq::<(Seq<char>, Seq<Seq<char>>)>::empty() + r =~= r),
                Err(_) => {},
            }
        }
    }
    while i < lines.len()
        invariant
            i <= lines@.len(),
            ls == lines@.map_values(|l: Vec<char>| l@),
            ls == text_lines(content@),
            tables_from(ls, 0) == after(out@.map_values(|t: RestoredTable| restored_view(t)), tables_from(ls, i as int)),
        decreases lines.len() - i,
    {
        if starts_with_chars(&lines[i], "Table: ") {
            proof {
                reveal_strlit("Table: ");
                reveal_strlit("Size: ");
            }
            let name_chars = sub_chars(&lines[i], 7, lines[i].len());
            let name = string_of_chars(&name_chars);
            let mut j = i + 1;
            if j < lines.len() && starts_with_chars(&lines[j], "Size: ") {
                let size_chars = sub_chars(&lines[j], 6, lines[j].len());
                let size_text = string_of_chars(&size_chars);
                if parse_usize(size_text.as_str()).is_none() {
                    return Err(RecoveryError::InvalidSize);
                }
                j = j + 1;
            }
            let start = j;
            let mut data: Vec<String> = Vec::new();
            proof {
                lemma_end_marker_bounds(ls, start as int);
                assert(data@.map_values(|l: String| l@) =~= ls.subrange(start as int, start as int));
            }
            while j < lines.len() && !starts_with_chars(&lines[j], "---END TABLE---")
                invariant
                    start <= j <= lines@.len(),
                    ls == lines@.map_values(|l: Vec<char>| l@),
                    end_marker_from(ls, start as int) == end_marker_from(ls, j as int),
                    data@.map_values(|l: String| l@) == ls.subrange(start as int, j as int),
                decreases lines.len() - j,
            {
                let ghost before = data@.map_values(|l: String| l@);
                let line = string_of_chars(&lines[j]);
                assert(line@ == ls[j as int]);
                data.push(line);
                assert(data@.map_values(|l: String| l@) =~= before.push(ls[j as int]));
                assert(ls.subrange(start as int, j as int + 1) =~= ls.subrange(start as int, j as int).push(ls[j as int]));
                j = j + 1;
            }
            assert(end_marker_from(ls, start as int) == j as int);
            let ghost prev = out@.map_values(|t: RestoredTable| restored_view(t));
            let t = RestoredTable { name, lines: data };
            out.push(t);
            proof {
                assert(name@ == ls[i as int].skip(7));
                assert(out@.map_values(|t: RestoredTable| restored_view(t)) =~= prev.push((name@, ls.subrange(start as int, j as int))));
                match tables_from(ls, j as int + 1) {
                    Ok(r) => {
                        assert(prev + (seq![(name@, ls.subrange(start as int, j as int))] + r) =~= prev.push(
                            (name@, ls.subrange(start as int, j as int)),
                        ) + r);
                    },
                    Err(_) => {},
                }
                assert(prev + seq![(name@, ls.subrange(start as int, j as int))] =~= prev.push(
                    (name@, ls.subrange(start as int, j as int)),
                ));
            }
            if j < lines.len() {
                i = j + 1;
            } else {
                i = lines.len();
                proof {
                    assert(tables_from(ls, j as int + 1) == Ok::<Seq<(Seq<char>, Seq<Seq<char>>)>, RecoveryError>(Seq::empty()));
                    assert(tables_from(ls, i as int) == Ok::<Seq<(Seq<char>, Seq<Seq<char>>)>, RecoveryError>(Seq::empty()));
                }
            }
        } else {
            i = i + 1;
        }
    }
    proof {
        assert(tables_from(ls, i as int) == Ok::<Seq<(Seq<char>, Seq<Seq<char>>)>, RecoveryError>(Seq::empty()));
        assert(out@.map_values(|t: RestoredTable| restored_view(t)) + Seq::<(Seq<char>, Seq<Seq<char>>)>::empty()
            =~= out@.map_values(|t: RestoredTable| restored_view(t)));
    }
    Ok(out)
}

/// What reading a full backup's archive back gives: its tables, or a
/// failure when it is not gzip-compressed UTF-8 text or a size line holds no
/// number.
pub open spec fn restore_outcome(archive: Seq<u8>) -> Result<Seq<(Seq<char>, Seq<Seq<char>>)>, RecoveryError> {
    match gunzip_string(archive) {
        None => Err(RecoveryError::InvalidArchive),
        Some(text) => tables_from(text_lines(text), 0),
    }
}

/// Reads the tables back out of a full backup's archive (see
/// `restore_outcome`).
pub fn restore_base_backup(archive: &Vec<u8>) -> (r: Result<Vec<RestoredTable>, RecoveryError>)
    ensures
        match restore_outcome(archive@) {
            Ok(ts) => r is Ok && r->Ok_0@.map_values(|t: RestoredTable| restored_view(t)) == ts,
            Err(e) => r == Err::<Vec<RestoredTable>, RecoveryError>(e),
        },
{
    match gunzip_text(archive) {
        None => Err(RecoveryError::InvalidArchive),
        Some(text) => parse_backup_tables(text.as_str()),
    }
}

/// Whether a recovery result is the one a recovery from `m` to `target`
/// gives.
pub open spec fn recovery_of(r: RecoveryResult, m: BackupMetadata, target: RecoveryTarget) -> bool {
    &&& r.backup_id == m.backup_id
    &&& r.recovery_target == target
    &&& r.recovered_to_timestamp == m.created_at
    &&& r.applied_incremental_backups == 0
    &&& r.recovered_tables == m.tables@.len()
    &&& r.recovered_data_size == m.data_size_bytes
}

/// The seconds from `start` to `end`, capped at `u64::MAX`, or a clock that
/// went back when `end` is before `start`.
pub open spec fn elapsed_outcome(start: i64, end: i64) -> Result<u64, RecoveryError> {
    if end < start {
        Err(RecoveryError::ClockWentBack)
    } else if end - start > u64::MAX {
        Ok(u64::MAX)
    } else {
        Ok((end - start) as u64)
    }
}

/// The seconds between two clock readings (see `elapsed_outcome`).
fn elapsed_between(start: i64, end: i64) -> (r: Result<u64, RecoveryError>)
    ensures
        r == elapsed_outcome(start, end),
{
    if end < start {
        Err(RecoveryError::ClockWentBack)
    } else {
        let d: i128 = end as i128 - start as i128;
        if d > u64::MAX as i128 {
            Ok(u64::MAX)
        } else {
            Ok(d as u64)
        }
    }
}

/// The seconds from `start` to the clock's reading now (see
/// `elapsed_outcome`).
fn elapsed_since(start: i64) -> (r: Result<u64, RecoveryError>)
    ensures
        exists|end: i64| #[trigger] elapsed_outcome(start, end) == r,
{
    let end = utc_now_seconds();
    elapsed_between(start, end)
}

/// Point-in-time recovery from a backup whose archive has the checksum
/// `archive_checksum`: the archive must be there with the recorded checksum, and its tables must read back; the result reports the
/// backup's time as the point reached, no incremental backups applied, and
/// the time taken by the clock.
pub fn recover_to_point_against(
    metadata: &BackupMetadata,
    archive: Option<&Vec<u8>>,
    target: RecoveryTarget,
    archive_checksum: &str,
) -> (r: Result<
    (RecoveryResult, Vec<RestoredTable>),
    RecoveryError,
>)
    ensures
        match archive {
            None => r == Err::<(RecoveryResult, Vec<RestoredTable>), RecoveryError>(
                RecoveryError::BackupNotFound(metadata.backup_id),
            ),
            Some(data) => if archive_checksum@ != metadata.checksum@ {
                r == Err::<(RecoveryResult, Vec<RestoredTable>), RecoveryError>(
                    RecoveryError::ChecksumMismatch(metadata.backup_id),
                )
            } else {
                match restore_outcome(data@) {
                    Err(e) => r == Err::<(RecoveryResult, Vec<RestoredTable>), RecoveryError>(e),
                    Ok(ts) => match r {
                        Ok((res, tables)) => recovery_of(res, *metadata, target) && tables@.map_values(
                            |t: RestoredTable| restored_view(t),
                        ) == ts,
                        Err(e) => e == RecoveryError::ClockWentBack,
                    },
                }
            },
        },
{
    let start = utc_now_seconds();
    match validate_backup_against(metadata, archive, archive_checksum) {
        Ok(()) => {},
        Err(e) => return Err(e),
    }
    let data = match archive {
        Some(d) => d,
        None => return Err(RecoveryError::BackupNotFound(metadata.backup_id.clone())),
    };
    let tables = match restore_base_backup(data) {
        Ok(t) => t,
        Err(e) => return Err(e),
    };
    let duration = match elapsed_since(start) {
        Ok(d) => d,
        Err(e) => return Err(e),
    };
    let result = RecoveryResult {
        backup_id: metadata.backup_id.clone(),
        recovery_target: target,
        recovered_to_timestamp: metadata.created_at,
        applied_incremental_backups: 0,
        recovered_tables: metadata.tables.len(),
        recovered_data_size: metadata.data_size_bytes,
        duration_seconds: duration,
    };
    Ok((result, tables))
}

/// Point-in-time recovery from a backup (see `recover_to_point_against`),
/// with the archive's checksum computed by `calculate_checksum`.
pub fn recover_to_point(metadata: &BackupMetadata, archive: Option<&Vec<u8>>, target: RecoveryTarget) -> (r: Result<
    (RecoveryResult, Vec<RestoredTable>),
    RecoveryError,
>)
    ensures
        match archive {
            None => r == Err::<(RecoveryResult, Vec<RestoredTable>), RecoveryError>(
                RecoveryError::BackupNotFound(metadata.backup_id),
            ),
            Some(data) => r == Err::<(RecoveryResult, Vec<RestoredTable>), RecoveryError>(
                RecoveryError::ChecksumMismatch(metadata.backup_id),
            ) || match restore_outcome(data@) {
                Err(e) => r == Err::<(RecoveryResult, Vec<RestoredTable>), RecoveryError>(e),
                Ok(ts) => match r {
                    Ok((res, tables)) => recovery_of(res, *metadata, target) && tables@.map_values(
                        |t: RestoredTable| restored_view(t),
                    ) == ts,
                    Err(e) => e == RecoveryError::ClockWentBack,
                },
            },
        },
{
    match archive {
        None => Err(RecoveryError::BackupNotFound(metadata.backup_id.clone())),
        Some(data) => {
            let sum = calculate_checksum(data);
            recover_to_point_against(metadata, archive, target, sum.as_str())
        },
    }
}

/// Restores a full backup: the backup must be a full one and its archive
/// must be there and read back; the result reports the backup's time as the
/// point reached.
pub fn restore_full_backup(metadata: &BackupMetadata, archive: Option<&Vec<u8>>) -> (r: Result<
    (RecoveryResult, Vec<RestoredTable>),
    RecoveryError,
>)
    ensures
        metadata.backup_type != BackupType::Full ==> r == Err::<(RecoveryResult, Vec<RestoredTable>), RecoveryError>(
            RecoveryError::NotFullBackup(metadata.backup_id),
        ),
        metadata.backup_type == BackupType::Full ==> match archive {
            None => r == Err::<(RecoveryResult, Vec<RestoredTable>), RecoveryError>(
                RecoveryError::BackupNotFound(metadata.backup_id),
            ),
            Some(data) => match restore_outcome(data@) {
                Err(e) => r == Err::<(RecoveryResult, Vec<RestoredTable>), RecoveryError>(e),
                Ok(ts) => match r {
                    Ok((res, tables)) => recovery_of(res, *metadata, RecoveryTarget::Latest) && tables@.map_values(
                        |t: RestoredTable| restored_view(t),
                    ) == ts,
                    Err(e) => e == RecoveryError::ClockWentBack,
                },
            },
        },
{
    let start = utc_now_seconds();
    if metadata.backup_type != BackupType::Full {
        return Err(RecoveryError::NotFullBackup(metadata.backup_id.clone()));
    }
    let data = match archive {
        Some(d) => d,
        None => return Err(RecoveryError::BackupNotFound(metadata.backup_id.clone())),
    };
    let tables = match restore_base_backup(data) {
        Ok(t) => t,
        Err(e) => return Err(e),
    };
    let duration = match elapsed_since(start) {
        Ok(d) => d,
        Err(e) => return Err(e),
    };
    let result = RecoveryResult {
        backup_id: metadata.backup_id.clone(),
        recovery_target: RecoveryTarget::Latest,
        recovered_to_timestamp: metadata.created_at,
        applied_incremental_backups: 0,
        recovered_tables: metadata.tables.len(),
        recovered_data_size: metadata.data_size_bytes,
        duration_seconds: duration,
    };
    Ok((result, tables))
}

/// The recovery point a backup gives.
pub open spec fn point_of(m: BackupMetadata) -> (RecoveryPointType, u64, Seq<char>, Seq<char>) {
    (
        RecoveryPointType::Backup(m.backup_type),
        m.created_at,
        m.backup_id@,
        match m.backup_type {
            BackupType::Full => "Full backup"@,
            BackupType::Incremental => "Incremental backup"@,
        },
    )
}

/// What a recovery point stands for.
pub open spec fn point_view(p: RecoveryPoint) -> (RecoveryPointType, u64, Seq<char>, Seq<char>) {
    (
        p.point_type,
        p.timestamp,
        match p.backup_id {
            Some(id) => id@,
            None => Seq::empty(),
        },
        p.description@,
    )
}

/// The recovery points of the given backups, newest first (backups of one
/// time in their given order), each described by its kind.
pub fn list_recovery_points(backups: Vec<BackupMetadata>) -> (r: Vec<RecoveryPoint>)
    ensures
        r@.map_values(|p: RecoveryPoint| point_view(p)) == newest_first(backups@).map_values(
            |m: BackupMetadata| point_of(m),
        ),
        forall|i: int| 0 <= i < r@.len() ==> #[trigger] r@[i].backup_id is Some,
{
    let sorted = sort_newest_first(backups);
    let mut out: Vec<RecoveryPoint> = Vec::new();
    let mut i: usize = 0;
    while i < sorted.len()
        invariant
            i <= sorted@.len(),
            out@.map_values(|p: RecoveryPoint| point_view(p)) == sorted@.take(i as int).map_values(
                |m: BackupMetadata| point_of(m),
            ),
            forall|k: int| 0 <= k < out@.len() ==> #[trigger] out@[k].backup_id is Some,
        decreases sorted.len() - i,
    {
        let m = &sorted[i];
        let description = match m.backup_type {
            BackupType::Full => owned("Full backup"),
            BackupType::Incremental => owned("Incremental backup"),
        };
        let ghost before = out@.map_values(|p: RecoveryPoint| point_view(p));
        let p = RecoveryPoint {
            point_type: RecoveryPointType::Backup(m.backup_type),
            timestamp: m.created_at,
            backup_id: Some(m.backup_id.clone()),
            description,
        };
        assert(point_view(p) == point_of(sorted@[i as int]));
        out.push(p);
        assert(out@.map_values(|p: RecoveryPoint| point_view(p)) =~= before.push(point_of(sorted@[i as int])));
        assert(sorted@.take(i as int + 1).map_values(|m: BackupMetadata| point_of(m)) =~= sorted@.take(
            i as int,
        ).map_values(|m: BackupMetadata| point_of(m)).push(point_of(sorted@[i as int])));
        i = i + 1;
        assert(out@.map_values(|p: RecoveryPoint| point_view(p)) =~= sorted@.take(i as int).map_values(
            |m: BackupMetadata| point_of(m),
        ));
    }
    assert(sorted@.take(i as int) =~= sorted@);
    out
}

} // verus!
