//! A full backup's archive reads back: the text an archive holds is a run
//! of lines, and reading its tables gives each table's name and data lines.

use vstd::prelude::*;
use vstd::utf8::encode_utf8;
use crate::backup::manager::{
    backup_id_text, database_table_names, full_archive, full_header_text, table_data_text, table_part, table_parts,
    wal_part,
};
use crate::backup::recovery::{end_marker_from, has_prefix, scan_lines, strip_cr, tables_from, text_lines};
use crate::config::{digits_value, is_digit, parsed_unsigned, unsigned_digits, usize_parse};
use crate::text::{decimal, digit_char};

verus! {

/// A line that holds no line break and does not end in a carriage return.
pub open spec fn plain_line(l: Seq<char>) -> bool {
    &&& forall|i: int| 0 <= i < l.len() ==> #[trigger] l[i] != '\n'
    &&& !(l.len() > 0 && l.last() == '\r')
}

/// The lines joined into a text, each followed by a line break.
pub open spec fn joined(ls: Seq<Seq<char>>) -> Seq<char>
    decreases ls.len(),
{
    if ls.len() == 0 {
        Seq::empty()
    } else {
        joined(ls.drop_last()) + ls.last() + seq!['\n']
    }
}

proof fn lemma_scan_no_break(l: Seq<char>)
    requires
        forall|i: int| 0 <= i < l.len() ==> #[trigger] l[i] != '\n',
    ensures
        scan_lines(l) == (Seq::<Seq<char>>::empty(), l),
    decreases l.len(),
{
    if l.len() > 0 {
        lemma_scan_no_break(l.drop_last());
        assert(l.drop_last().push(l.last()) =~= l);
    }
}

proof fn lemma_scan_append(a: Seq<char>, b: Seq<char>)
    requires
        scan_lines(a).1.len() == 0,
    ensures
        scan_lines(a + b) == (scan_lines(a).0 + scan_lines(b).0, scan_lines(b).1),
    decreases b.len(),
{
    if b.len() == 0 {
        assert(a + b =~= a);
        assert(scan_lines(a).0 + Seq::<Seq<char>>::empty() =~= scan_lines(a).0);
        assert(scan_lines(a).1 =~= Seq::<char>::empty());
    } else {
        lemma_scan_append(a, b.drop_last());
        assert((a + b).drop_last() =~= a + b.drop_last());
        assert((a + b).last() == b.last());
        let (d, c) = scan_lines(b.drop_last());
        if b.last() == '\n' {
            assert(scan_lines(a).0 + d.push(strip_cr(c)) =~= (scan_lines(a).0 + d).push(strip_cr(c)));
        }
    }
}

/// Plain lines joined read back as the same lines.
pub proof fn lemma_joined_lines(ls: Seq<Seq<char>>)
    requires
        forall|i: int| 0 <= i < ls.len() ==> #[trigger] plain_line(ls[i]),
    ensures
        scan_lines(joined(ls)) == (ls, Seq::<char>::empty()),
        text_lines(joined(ls)) == ls,
    decreases ls.len(),
{
    if ls.len() > 0 {
        let d = ls.drop_last();
        let l = ls.last();
        assert forall|i: int| 0 <= i < d.len() implies #[trigger] plain_line(d[i]) by {
            assert(d[i] == ls[i]);
        }
        lemma_joined_lines(d);
        assert(plain_line(ls[ls.len() - 1]));
        let b = l + seq!['\n'];
        assert(b.drop_last() =~= l);
        lemma_scan_no_break(l);
        assert(strip_cr(l) == l);
        assert(scan_lines(b) == (seq![l], Seq::<char>::empty()));
        lemma_scan_append(joined(d), b);
        assert(joined(ls) =~= joined(d) + b);
        assert(d + seq![l] =~= ls);
    } else {
        assert(joined(ls) =~= Seq::<char>::empty());
        assert(ls =~= Seq::<Seq<char>>::empty());
    }
}

/// Joining two runs of lines joins their texts.
pub proof fn lemma_joined_append(a: Seq<Seq<char>>, b: Seq<Seq<char>>)
    ensures
        joined(a + b) == joined(a) + joined(b),
    decreases b.len(),
{
    if b.len() == 0 {
        assert(a + b =~= a);
        assert(joined(a) + joined(b) =~= joined(a));
    } else {
        lemma_joined_append(a, b.drop_last());
        assert((a + b).drop_last() =~= a + b.drop_last());
        assert((a + b).last() == b.last());
        assert(joined(a) + (joined(b.drop_last()) + b.last() + seq!['\n']) =~= joined(a) + joined(b.drop_last()) + b.last()
            + seq!['\n']);
    }
}

/// The size of a table's data in an archive, in bytes.
pub open spec fn data_size(t: Seq<char>) -> nat {
    encode_utf8(table_data_text(t)).len()
}

/// One table's part of an archive, as text.
pub open spec fn part_text(t: Seq<char>) -> Seq<char> {
    "Table: "@ + t + "\nSize: "@ + decimal(data_size(t)) + "\n"@ + table_data_text(t) + "\n---END TABLE---\n"@
}

/// The lines of a table's data as an archive holds them.
pub open spec fn data_lines(t: Seq<char>) -> Seq<Seq<char>> {
    seq!["Mock data for table: "@ + t, "Row 1: ..."@, "Row 2: ..."@, Seq::<char>::empty()]
}

/// The lines of one table's part of an archive.
pub open spec fn part_lines(t: Seq<char>) -> Seq<Seq<char>> {
    seq!["Table: "@ + t, "Size: "@ + decimal(data_size(t))] + data_lines(t) + seq!["---END TABLE---"@]
}

/// The lines of a full backup's header.
pub open spec fn header_lines(backup_id: Seq<char>, timestamp: u64) -> Seq<Seq<char>> {
    seq!["AuroraDB Backup v1.0"@, "BackupID: "@ + backup_id, "Timestamp: "@ + decimal(timestamp as nat), "Type: Full"@]
}

proof fn lemma_joined_one(l: Seq<char>)
    ensures
        joined(seq![l]) == l + seq!['\n'],
{
    assert(seq![l].drop_last() =~= Seq::<Seq<char>>::empty());
    assert(joined(Seq::<Seq<char>>::empty()) + l + seq!['\n'] =~= l + seq!['\n']);
}

proof fn lemma_encode_append(a: Seq<char>, b: Seq<char>)
    ensures
        encode_utf8(a + b) == encode_utf8(a) + encode_utf8(b),
    decreases a.len(),
{
    if a.len() == 0 {
        assert(a + b =~= b);
        assert(encode_utf8(a) =~= Seq::<u8>::empty());
        assert(Seq::<u8>::empty() + encode_utf8(b) =~= encode_utf8(b));
    } else {
        lemma_encode_append(a.drop_first(), b);
        assert((a + b).drop_first() =~= a.drop_first() + b);
        assert((a + b)[0] == a[0]);
    }
}

proof fn lemma_part_text(t: Seq<char>)
    ensures
        joined(part_lines(t)) == part_text(t),
        table_part(t) == encode_utf8(part_text(t)),
{
    reveal_strlit("Table: ");
    reveal_strlit("\nSize: ");
    reveal_strlit("Size: ");
    reveal_strlit("\n");
    reveal_strlit("Mock data for table: ");
    reveal_strlit("\nRow 1: ...\nRow 2: ...\n");
    reveal_strlit("Row 1: ...");
    reveal_strlit("Row 2: ...");
    reveal_strlit("\n---END TABLE---\n");
    reveal_strlit("---END TABLE---");
    let n = seq!['\n'];
    let l0 = "Table: "@ + t;
    let l1 = "Size: "@ + decimal(data_size(t));
    let l2 = "Mock data for table: "@ + t;
    let l3 = "Row 1: ..."@;
    let l4 = "Row 2: ..."@;
    let l5 = Seq::<char>::empty();
    let l6 = "---END TABLE---"@;
    assert(part_lines(t) =~= seq![l0] + seq![l1] + seq![l2] + seq![l3] + seq![l4] + seq![l5] + seq![l6]);
    lemma_joined_append(seq![l0] + seq![l1] + seq![l2] + seq![l3] + seq![l4] + seq![l5], seq![l6]);
    lemma_joined_append(seq![l0] + seq![l1] + seq![l2] + seq![l3] + seq![l4], seq![l5]);
    lemma_joined_append(seq![l0] + seq![l1] + seq![l2] + seq![l3], seq![l4]);
    lemma_joined_append(seq![l0] + seq![l1] + seq![l2], seq![l3]);
    lemma_joined_append(seq![l0] + seq![l1], seq![l2]);
    lemma_joined_append(seq![l0], seq![l1]);
    lemma_joined_one(l0);
    lemma_joined_one(l1);
    lemma_joined_one(l2);
    lemma_joined_one(l3);
    lemma_joined_one(l4);
    lemma_joined_one(l5);
    lemma_joined_one(l6);
    assert("\nSize: "@ =~= n + "Size: "@);
    assert("\nRow 1: ...\nRow 2: ...\n"@ =~= n + l3 + n + l4 + n);
    assert("\n---END TABLE---\n"@ =~= n + l6 + n);
    assert("\n"@ =~= n);
    assert(joined(part_lines(t)) =~= part_text(t));
    let a = "Table: "@ + t + "\nSize: "@ + decimal(data_size(t)) + "\n"@;
    let d = table_data_text(t);
    let m = "\n---END TABLE---\n"@;
    assert(part_text(t) =~= a + d + m);
    lemma_encode_append(a + d, m);
    lemma_encode_append(a, d);
}

/// The parts of the tables, in order, as text.
pub open spec fn parts_text(tables: Seq<Seq<char>>) -> Seq<char>
    decreases tables.len(),
{
    if tables.len() == 0 {
        Seq::empty()
    } else {
        parts_text(tables.drop_last()) + part_text(tables.last())
    }
}

/// The lines of the parts of the tables, in order.
pub open spec fn parts_lines(tables: Seq<Seq<char>>) -> Seq<Seq<char>>
    decreases tables.len(),
{
    if tables.len() == 0 {
        Seq::empty()
    } else {
        parts_lines(tables.drop_last()) + part_lines(tables.last())
    }
}

/// The lines of the WAL part, when it is there.
pub open spec fn wal_lines(include_wal: bool) -> Seq<Seq<char>> {
    if include_wal {
        seq!["WAL Data: [mock WAL entries]"@]
    } else {
        Seq::empty()
    }
}

/// The text a full backup's archive holds.
pub open spec fn archive_text(backup_id: Seq<char>, timestamp: u64, tables: Seq<Seq<char>>, include_wal: bool) -> Seq<char> {
    full_header_text(backup_id, timestamp) + parts_text(tables) + joined(wal_lines(include_wal))
}

/// The lines of a full backup's archive.
pub open spec fn archive_lines(backup_id: Seq<char>, timestamp: u64, tables: Seq<Seq<char>>, include_wal: bool) -> Seq<
    Seq<char>,
> {
    header_lines(backup_id, timestamp) + parts_lines(tables) + wal_lines(include_wal)
}

proof fn lemma_parts(tables: Seq<Seq<char>>)
    ensures
        joined(parts_lines(tables)) == parts_text(tables),
        table_parts(tables) == encode_utf8(parts_text(tables)),
        parts_lines(tables).len() == 7 * tables.len(),
        forall|m: int, r: int|
            0 <= m < tables.len() && 0 <= r < 7 ==> #[trigger] parts_lines(tables)[7 * m + r] == part_lines(tables[m])[r],
    decreases tables.len(),
{
    if tables.len() == 0 {
        assert(joined(Seq::<Seq<char>>::empty()) =~= Seq::<char>::empty());
    } else {
        let d = tables.drop_last();
        let t = tables.last();
        lemma_parts(d);
        lemma_part_text(t);
        lemma_joined_append(parts_lines(d), part_lines(t));
        lemma_encode_append(parts_text(d), part_text(t));
        assert forall|m: int, r: int| 0 <= m < tables.len() && 0 <= r < 7 implies #[trigger] parts_lines(tables)[7 * m + r]
            == part_lines(tables[m])[r] by {
            if m < d.len() {
                assert(tables[m] == d[m]);
                assert(parts_lines(d)[7 * m + r] == part_lines(d[m])[r]);
            } else {
                assert(7 * m + r - 7 * d.len() == r);
            }
        }
    }
}

proof fn lemma_archive_text(backup_id: Seq<char>, timestamp: u64, tables: Seq<Seq<char>>, include_wal: bool)
    ensures
        joined(archive_lines(backup_id, timestamp, tables, include_wal)) == archive_text(backup_id, timestamp, tables, include_wal),
        full_archive(backup_id, timestamp, tables, include_wal) == encode_utf8(archive_text(backup_id, timestamp, tables, include_wal)),
{
    reveal_strlit("AuroraDB Backup v1.0\nBackupID: ");
    reveal_strlit("AuroraDB Backup v1.0");
    reveal_strlit("BackupID: ");
    reveal_strlit("\nTimestamp: ");
    reveal_strlit("Timestamp: ");
    reveal_strlit("\nType: Full\n");
    reveal_strlit("Type: Full");
    reveal_strlit("WAL Data: [mock WAL entries]\n");
    reveal_strlit("WAL Data: [mock WAL entries]");
    let n = seq!['\n'];
    let h = header_lines(backup_id, timestamp);
    let l0 = h[0];
    let l1 = h[1];
    let l2 = h[2];
    let l3 = h[3];
    assert(h =~= seq![l0] + seq![l1] + seq![l2] + seq![l3]);
    lemma_joined_append(seq![l0] + seq![l1] + seq![l2], seq![l3]);
    lemma_joined_append(seq![l0] + seq![l1], seq![l2]);
    lemma_joined_append(seq![l0], seq![l1]);
    lemma_joined_one(l0);
    lemma_joined_one(l1);
    lemma_joined_one(l2);
    lemma_joined_one(l3);
    assert("AuroraDB Backup v1.0\nBackupID: "@ =~= "AuroraDB Backup v1.0"@ + n + "BackupID: "@);
    assert("\nTimestamp: "@ =~= n + "Timestamp: "@);
    assert("\nType: Full\n"@ =~= n + "Type: Full"@ + n);
    assert(joined(h) =~= full_header_text(backup_id, timestamp));
    lemma_parts(tables);
    lemma_joined_append(h, parts_lines(tables));
    lemma_joined_append(h + parts_lines(tables), wal_lines(include_wal));
    if include_wal {
        lemma_joined_one("WAL Data: [mock WAL entries]"@);
        assert("WAL Data: [mock WAL entries]\n"@ =~= "WAL Data: [mock WAL entries]"@ + n);
        assert(wal_part() == encode_utf8(joined(wal_lines(include_wal))));
    } else {
        assert(joined(wal_lines(include_wal)) =~= Seq::<char>::empty());
        assert(encode_utf8(Seq::<char>::empty()) =~= Seq::<u8>::empty());
    }
    lemma_encode_append(full_header_text(backup_id, timestamp), parts_text(tables));
    lemma_encode_append(full_header_text(backup_id, timestamp) + parts_text(tables), joined(wal_lines(include_wal)));
    assert(full_archive(backup_id, timestamp, tables, include_wal) =~= encode_utf8(full_header_text(backup_id, timestamp))
        + table_parts(tables) + encode_utf8(joined(wal_lines(include_wal))));
}

proof fn lemma_digit_char(d: nat)
    requires
        d < 10,
    ensures
        is_digit(digit_char(d)),
        digit_char(d) as int - '0' as int == d,
{
}

proof fn lemma_decimal(n: nat)
    ensures
        decimal(n).len() >= 1,
        forall|i: int| 0 <= i < decimal(n).len() ==> #[trigger] is_digit(decimal(n)[i]),
        digits_value(decimal(n)) == n,
    decreases n,
{
    if n < 10 {
        lemma_digit_char(n);
        assert(decimal(n) =~= seq![digit_char(n)]);
        assert(seq![digit_char(n)].drop_last() =~= Seq::<char>::empty());
        assert(digits_value(Seq::<char>::empty()) == 0);
        assert(digits_value(decimal(n)) == digits_value(Seq::<char>::empty()) * 10 + (digit_char(n) as int - '0' as int) as nat);
    } else {
        lemma_decimal(n / 10);
        lemma_digit_char(n % 10);
        let s = decimal(n);
        assert(s == decimal(n / 10).push(digit_char(n % 10)));
        assert(s.drop_last() =~= decimal(n / 10));
        assert forall|i: int| 0 <= i < s.len() implies #[trigger] is_digit(s[i]) by {
            if i < s.len() - 1 {
                assert(s[i] == decimal(n / 10)[i]);
            }
        }
        assert(digits_value(s) == digits_value(decimal(n / 10)) * 10 + (digit_char(n % 10) as int - '0' as int) as nat);
        assert((n / 10) * 10 + n % 10 == n);
    }
}

/// A number's decimal text reads back as the number.
proof fn lemma_decimal_parses(n: nat)
    requires
        n <= usize::MAX,
    ensures
        usize_parse(decimal(n)) == Some(n as usize),
{
    lemma_decimal(n);
    let s = decimal(n);
    assert(is_digit(s[0]));
    assert(unsigned_digits(s) == s);
}

proof fn lemma_plain_append(a: Seq<char>, b: Seq<char>)
    requires
        forall|i: int| 0 <= i < a.len() ==> #[trigger] a[i] != '\n',
        plain_line(b),
        b.len() > 0 || plain_line(a),
    ensures
        plain_line(a + b),
{
    assert forall|i: int| 0 <= i < (a + b).len() implies #[trigger] (a + b)[i] != '\n' by {
        if i < a.len() {
            assert((a + b)[i] == a[i]);
        } else {
            assert((a + b)[i] == b[i - a.len()]);
        }
    }
    if b.len() > 0 {
        assert((a + b).last() == b.last());
    } else {
        assert(a + b =~= a);
    }
}

proof fn lemma_decimal_plain(n: nat)
    ensures
        plain_line(decimal(n)),
        decimal(n).len() > 0,
{
    lemma_decimal(n);
    let s = decimal(n);
    assert forall|i: int| 0 <= i < s.len() implies #[trigger] s[i] != '\n' by {
        assert(is_digit(s[i]));
    }
    assert(is_digit(s[s.len() - 1]));
}

/// The tables an archive's text reads back as: each table's name with its
/// data lines.
pub open spec fn read_back(tables: Seq<Seq<char>>) -> Seq<(Seq<char>, Seq<Seq<char>>)> {
    tables.map_values(|t: Seq<char>| (t, data_lines(t)))
}

/// The names an archive can hold and read back: each a plain line whose
/// data size fits in `usize`.
pub open spec fn names_readable(tables: Seq<Seq<char>>) -> bool {
    forall|k: int| 0 <= k < tables.len() ==> plain_line(#[trigger] tables[k]) && data_size(tables[k]) <= usize::MAX
}

proof fn lemma_archive_plain(backup_id: Seq<char>, timestamp: u64, tables: Seq<Seq<char>>, include_wal: bool)
    requires
        plain_line(backup_id),
        names_readable(tables),
    ensures
        forall|i: int|
            0 <= i < archive_lines(backup_id, timestamp, tables, include_wal).len() ==> #[trigger] plain_line(
                archive_lines(backup_id, timestamp, tables, include_wal)[i],
            ),
{
    reveal_strlit("AuroraDB Backup v1.0");
    reveal_strlit("BackupID: ");
    reveal_strlit("Timestamp: ");
    reveal_strlit("Type: Full");
    reveal_strlit("WAL Data: [mock WAL entries]");
    reveal_strlit("Table: ");
    reveal_strlit("Size: ");
    reveal_strlit("Mock data for table: ");
    reveal_strlit("Row 1: ...");
    reveal_strlit("Row 2: ...");
    reveal_strlit("---END TABLE---");
    let ls = archive_lines(backup_id, timestamp, tables, include_wal);
    let h = header_lines(backup_id, timestamp);
    lemma_parts(tables);
    lemma_decimal_plain(timestamp as nat);
    assert forall|i: int| 0 <= i < ls.len() implies #[trigger] plain_line(ls[i]) by {
        if i < 4 {
            assert(ls[i] == h[i]);
            if i == 0 {
                assert(plain_line("AuroraDB Backup v1.0"@));
            } else if i == 1 {
                if backup_id.len() == 0 {
                    assert("BackupID: "@ + backup_id =~= "BackupID: "@);
                }
                lemma_plain_append("BackupID: "@, backup_id);
            } else if i == 2 {
                lemma_plain_append("Timestamp: "@, decimal(timestamp as nat));
            } else {
                assert(plain_line("Type: Full"@));
            }
        } else if i < 4 + 7 * tables.len() {
            let x = i - 4;
            let m = x / 7;
            let r = x % 7;
            assert(x == 7 * m + r);
            assert(ls[i] == parts_lines(tables)[7 * m + r]);
            let t = tables[m];
            assert(plain_line(t) && data_size(t) <= usize::MAX);
            assert(ls[i] == part_lines(t)[r]);
            if r == 0 {
                if t.len() == 0 {
                    assert("Table: "@ + t =~= "Table: "@);
                }
                lemma_plain_append("Table: "@, t);
            } else if r == 1 {
                lemma_decimal_plain(data_size(t));
                lemma_plain_append("Size: "@, decimal(data_size(t)));
            } else if r == 2 {
                if t.len() == 0 {
                    assert("Mock data for table: "@ + t =~= "Mock data for table: "@);
                }
                lemma_plain_append("Mock data for table: "@, t);
            } else if r == 3 {
                assert(plain_line("Row 1: ..."@));
            } else if r == 4 {
                assert(plain_line("Row 2: ..."@));
            } else if r == 5 {
                assert(plain_line(Seq::<char>::empty()));
            } else {
                assert(plain_line("---END TABLE---"@));
            }
        } else {
            assert(include_wal);
            assert(ls[i] == "WAL Data: [mock WAL entries]"@);
        }
    }
}

proof fn lemma_part_lines_at(t: Seq<char>)
    ensures
        part_lines(t).len() == 7,
        part_lines(t)[0] == "Table: "@ + t,
        part_lines(t)[1] == "Size: "@ + decimal(data_size(t)),
        part_lines(t)[2] == "Mock data for table: "@ + t,
        part_lines(t)[3] == "Row 1: ..."@,
        part_lines(t)[4] == "Row 2: ..."@,
        part_lines(t)[5] == Seq::<char>::empty(),
        part_lines(t)[6] == "---END TABLE---"@,
        part_lines(t).subrange(2, 6) == data_lines(t),
{
    assert(part_lines(t) =~= seq![
        "Table: "@ + t,
        "Size: "@ + decimal(data_size(t)),
        "Mock data for table: "@ + t,
        "Row 1: ..."@,
        "Row 2: ..."@,
        Seq::<char>::empty(),
        "---END TABLE---"@,
    ]);
    assert(part_lines(t).subrange(2, 6) =~= data_lines(t));
}

/// Reading from the first line of a table's part gives the table, then
/// what follows the part.
proof fn lemma_one_part(ls: Seq<Seq<char>>, p: int, t: Seq<char>)
    requires
        0 <= p,
        p + 7 <= ls.len(),
        forall|r: int| 0 <= r < 7 ==> #[trigger] ls[p + r] == part_lines(t)[r],
        data_size(t) <= usize::MAX,
    ensures
        tables_from(ls, p) == match tables_from(ls, p + 7) {
            Ok(rest) => Ok(seq![(t, data_lines(t))] + rest),
            Err(e) => Err(e),
        },
{
    reveal_strlit("Table: ");
    reveal_strlit("Size: ");
    reveal_strlit("Mock data for table: ");
    reveal_strlit("Row 1: ...");
    reveal_strlit("Row 2: ...");
    reveal_strlit("---END TABLE---");
    lemma_part_lines_at(t);
    assert(ls[p + 0] == part_lines(t)[0]);
    assert(ls[p] == part_lines(t)[0]);
    assert(ls[p + 1] == part_lines(t)[1]);
    assert(ls[p + 2] == part_lines(t)[2]);
    assert(ls[p + 3] == part_lines(t)[3]);
    assert(ls[p + 4] == part_lines(t)[4]);
    assert(ls[p + 5] == part_lines(t)[5]);
    assert(ls[p + 6] == part_lines(t)[6]);
    let l0 = ls[p];
    let l1 = ls[p + 1];
    assert(l0.take(7) =~= "Table: "@);
    assert(has_prefix(l0, "Table: "@));
    assert(l0.skip(7) =~= t);
    assert(l1.take(6) =~= "Size: "@);
    assert(has_prefix(l1, "Size: "@));
    assert(l1.skip(6) =~= decimal(data_size(t)));
    lemma_decimal_parses(data_size(t));
    let marker = "---END TABLE---"@;
    assert(ls[p + 6].take(15) =~= marker);
    assert(end_marker_from(ls, p + 6) == p + 6);
    assert(!has_prefix(ls[p + 5], marker));
    assert(end_marker_from(ls, p + 5) == p + 6);
    assert(!has_prefix(ls[p + 4], marker));
    assert(end_marker_from(ls, p + 4) == p + 6);
    assert(!has_prefix(ls[p + 3], marker));
    assert(end_marker_from(ls, p + 3) == p + 6);
    let l2 = ls[p + 2];
    assert(!has_prefix(l2, marker)) by {
        if has_prefix(l2, marker) {
            assert(l2.take(15)[0] == 'M');
            assert(marker[0] == '-');
        }
    }
    assert(end_marker_from(ls, p + 2) == p + 6);
    assert(ls.subrange(p + 2, p + 6) =~= part_lines(t).subrange(2, 6));
}

proof fn lemma_tables_from_parts(
    backup_id: Seq<char>,
    timestamp: u64,
    tables: Seq<Seq<char>>,
    include_wal: bool,
    m: int,
)
    requires
        names_readable(tables),
        0 <= m <= tables.len(),
    ensures
        tables_from(archive_lines(backup_id, timestamp, tables, include_wal), 4 + 7 * m) == Ok::<
            Seq<(Seq<char>, Seq<Seq<char>>)>,
            crate::backup::recovery::RecoveryError,
        >(read_back(tables.subrange(m, tables.len() as int))),
    decreases tables.len() - m,
{
    reveal_strlit("Table: ");
    reveal_strlit("WAL Data: [mock WAL entries]");
    let ls = archive_lines(backup_id, timestamp, tables, include_wal);
    let n = tables.len() as int;
    lemma_parts(tables);
    let p = 4 + 7 * m;
    assert(ls.len() == 4 + 7 * n + wal_lines(include_wal).len());
    if m == n {
        assert(read_back(tables.subrange(m, n)) =~= Seq::<(Seq<char>, Seq<Seq<char>>)>::empty());
        if include_wal {
            assert(ls[p] == "WAL Data: [mock WAL entries]"@);
            assert(!has_prefix(ls[p], "Table: "@)) by {
                if has_prefix(ls[p], "Table: "@) {
                    assert(ls[p].take(7)[0] == 'W');
                }
            }
            assert(tables_from(ls, p + 1) == Ok::<Seq<(Seq<char>, Seq<Seq<char>>)>, crate::backup::recovery::RecoveryError>(
                Seq::empty(),
            ));
        }
    } else {
        let t = tables[m];
        assert(plain_line(t) && data_size(t) <= usize::MAX);
        assert forall|r: int| 0 <= r < 7 implies #[trigger] ls[p + r] == part_lines(t)[r] by {
            assert(ls[p + r] == parts_lines(tables)[7 * m + r]);
        }
        lemma_one_part(ls, p, t);
        lemma_tables_from_parts(backup_id, timestamp, tables, include_wal, m + 1);
        assert(4 + 7 * (m + 1) == p + 7);
        assert(read_back(tables.subrange(m, n)) =~= seq![(t, data_lines(t))] + read_back(tables.subrange(m + 1, n)));
    }
}

/// The text of a full backup's archive reads back as its tables, each with
/// its data lines, whatever the backup's identifier, time and tables (names
/// that are plain lines with data sizes that fit in `usize`), with or
/// without the WAL part; and the archive's bytes are that text in UTF-8.
pub proof fn law_archive_reads_back(backup_id: Seq<char>, timestamp: u64, tables: Seq<Seq<char>>, include_wal: bool)
    requires
        plain_line(backup_id),
        names_readable(tables),
    ensures
        full_archive(backup_id, timestamp, tables, include_wal) == encode_utf8(archive_text(backup_id, timestamp, tables, include_wal)),
        tables_from(text_lines(archive_text(backup_id, timestamp, tables, include_wal)), 0) == Ok::<
            Seq<(Seq<char>, Seq<Seq<char>>)>,
            crate::backup::recovery::RecoveryError,
        >(read_back(tables)),
{
    reveal_strlit("AuroraDB Backup v1.0");
    reveal_strlit("BackupID: ");
    reveal_strlit("Timestamp: ");
    reveal_strlit("Type: Full");
    reveal_strlit("Table: ");
    let ls = archive_lines(backup_id, timestamp, tables, include_wal);
    lemma_archive_text(backup_id, timestamp, tables, include_wal);
    lemma_archive_plain(backup_id, timestamp, tables, include_wal);
    lemma_joined_lines(ls);
    lemma_parts(tables);
    lemma_tables_from_parts(backup_id, timestamp, tables, include_wal, 0);
    assert(tables.subrange(0, tables.len() as int) =~= tables);
    let h = header_lines(backup_id, timestamp);
    let pre = "Table: "@;
    assert(ls[3] == h[3] && ls[2] == h[2] && ls[1] == h[1] && ls[0] == h[0]);
    assert(!has_prefix(ls[3], pre)) by {
        if has_prefix(ls[3], pre) {
            assert(ls[3].take(7)[1] == 'y');
        }
    }
    assert(!has_prefix(ls[2], pre)) by {
        if has_prefix(ls[2], pre) {
            assert(ls[2].take(7)[1] == 'i');
        }
    }
    assert(!has_prefix(ls[1], pre)) by {
        if has_prefix(ls[1], pre) {
            assert(ls[1].take(7)[0] == 'B');
        }
    }
    assert(!has_prefix(ls[0], pre)) by {
        if has_prefix(ls[0], pre) {
            assert(ls[0].take(7)[0] == 'A');
        }
    }
    assert(tables_from(ls, 3) == tables_from(ls, 4));
    assert(tables_from(ls, 2) == tables_from(ls, 3));
    assert(tables_from(ls, 1) == tables_from(ls, 2));
    assert(tables_from(ls, 0) == tables_from(ls, 1));
}

/// The archive of a full backup made at `timestamp` is its text in UTF-8,
/// and that text reads back as the database's tables.
pub(crate) proof fn lemma_full_backup_reads_back(timestamp: u64, include_wal: bool)
    ensures
        vstd::utf8::valid_utf8(full_archive(backup_id_text(timestamp), timestamp, database_table_names(), include_wal)),
        tables_from(
            text_lines(
                vstd::utf8::decode_utf8(full_archive(backup_id_text(timestamp), timestamp, database_table_names(), include_wal)),
            ),
            0,
        ) == Ok::<Seq<(Seq<char>, Seq<Seq<char>>)>, crate::backup::recovery::RecoveryError>(read_back(database_table_names())),
{
    reveal_strlit("backup_");
    reveal_strlit("users");
    reveal_strlit("orders");
    reveal_strlit("products");
    reveal_strlit("Mock data for table: ");
    reveal_strlit("\nRow 1: ...\nRow 2: ...\n");
    let id = backup_id_text(timestamp);
    lemma_decimal_plain(timestamp as nat);
    lemma_plain_append("backup_"@, decimal(timestamp as nat));
    let names = database_table_names();
    assert forall|k: int| 0 <= k < names.len() implies plain_line(#[trigger] names[k]) && data_size(names[k]) <= usize::MAX by {
        crate::backup::manager::lemma_encode_utf8_len(table_data_text(names[k]));
        assert(names[k] == "users"@ || names[k] == "orders"@ || names[k] == "products"@);
    }
    law_archive_reads_back(id, timestamp, names, include_wal);
    let text = archive_text(id, timestamp, names, include_wal);
    vstd::utf8::encode_utf8_valid_utf8(text);
    vstd::utf8::encode_utf8_decode_utf8(text);
}

} // verus!
