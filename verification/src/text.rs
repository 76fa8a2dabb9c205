//! Text building blocks shared by the rest of the crate: string equality,
//! decimal rendering, joining, and a small string-keyed map.

use vstd::prelude::*;
use vstd::string::*;

verus! {

broadcast use vstd::string::group_string_axioms;

/// An ASCII letter in upper case; other characters unchanged.
pub open spec fn ascii_upper(c: char) -> char {
    if 'a' <= c && c <= 'z' {
        ((c as int) - 32) as char
    } else {
        c
    }
}

/// An ASCII letter in lower case; other characters unchanged.
pub open spec fn ascii_lower(c: char) -> char {
    if 'A' <= c && c <= 'Z' {
        ((c as int) + 32) as char
    } else {
        c
    }
}

/// Every character is ASCII.
pub open spec fn all_ascii(s: Seq<char>) -> bool {
    forall|i: int| 0 <= i < s.len() ==> (#[trigger] s[i] as int) < 128
}

/// Whether two strings hold the same characters.
pub fn str_equal(a: &str, b: &str) -> (r: bool)
    ensures
        r == (a@ == b@),
{
    let x = chars_of(a);
    let y = chars_of(b);
    if x.len() != y.len() {
        return false;
    }
    let mut i: usize = 0;
    while i < x.len()
        invariant
            i <= x@.len(),
            x@ == a@,
            y@ == b@,
            x@.len() == y@.len(),
            forall|j: int| 0 <= j < i ==> x@[j] == y@[j],
        decreases x@.len() - i,
    {
        if x[i] != y[i] {
            return false;
        }
        i = i + 1;
    }
    assert(a@ =~= b@);
    true
}

/// Appends one character to a string (`String::push`).
#[verifier::external_body]
pub fn push_char(s: &mut String, c: char)
    ensures
        final(s)@ == old(s)@.push(c),
{
    s.push(c)
}

/// An owned copy of a string slice.
pub fn owned(s: &str) -> (r: String)
    ensures
        r@ == s@,
{
    s.to_string()
}

/// Appends a string slice to a string.
pub fn push_text(s: &mut String, t: &str)
    ensures
        final(s)@ == old(s)@ + t@,
{
    s.append(t);
}

/// The characters of a string.
pub fn chars_of(s: &str) -> (r: Vec<char>)
    ensures
        r@ == s@,
{
    let n = s.unicode_len();
    let mut out: Vec<char> = Vec::new();
    let mut i: usize = 0;
    while i < n
        invariant
            i <= n,
            n == s@.len(),
            out@ == s@.subrange(0, i as int),
        decreases n - i,
    {
        out.push(s.get_char(i));
        i = i + 1;
        assert(out@ =~= s@.subrange(0, i as int));
    }
    assert(out@ =~= s@);
    out
}

/// The string made of the given characters.
pub fn string_of_chars(v: &Vec<char>) -> (r: String)
    ensures
        r@ == v@,
{
    let mut s = String::new();
    let mut i: usize = 0;
    while i < v.len()
        invariant
            i <= v.len(),
            s@ == v@.subrange(0, i as int),
        decreases v.len() - i,
    {
        push_char(&mut s, v[i]);
        i = i + 1;
        assert(s@ =~= v@.subrange(0, i as int));
    }
    assert(s@ =~= v@);
    s
}

/// The characters of `v` from `from` up to `to`.
pub fn sub_chars(v: &Vec<char>, from: usize, to: usize) -> (r: Vec<char>)
    requires
        from <= to <= v@.len(),
    ensures
        r@ == v@.subrange(from as int, to as int),
{
    let mut out: Vec<char> = Vec::new();
    let mut i: usize = from;
    while i < to
        invariant
            from <= i <= to,
            to <= v@.len(),
            out@ == v@.subrange(from as int, i as int),
        decreases to - i,
    {
        out.push(v[i]);
        i = i + 1;
        assert(out@ =~= v@.subrange(from as int, i as int));
    }
    out
}

/// The decimal digit character for `d < 10`.
pub open spec fn digit_char(d: nat) -> char {
    if d == 0 { '0' }
    else if d == 1 { '1' }
    else if d == 2 { '2' }
    else if d == 3 { '3' }
    else if d == 4 { '4' }
    else if d == 5 { '5' }
    else if d == 6 { '6' }
    else if d == 7 { '7' }
    else if d == 8 { '8' }
    else { '9' }
}

/// The decimal rendering of a natural number, most significant digit first,
/// without leading zeros ("0" for zero).
pub open spec fn decimal(n: nat) -> Seq<char>
    decreases n,
{
    if n < 10 {
        seq![digit_char(n)]
    } else {
        decimal(n / 10).push(digit_char(n % 10))
    }
}

fn digit_of(d: u64) -> (c: char)
    requires
        d < 10,
    ensures
        c == digit_char(d as nat),
{
    if d == 0 { '0' }
    else if d == 1 { '1' }
    else if d == 2 { '2' }
    else if d == 3 { '3' }
    else if d == 4 { '4' }
    else if d == 5 { '5' }
    else if d == 6 { '6' }
    else if d == 7 { '7' }
    else if d == 8 { '8' }
    else { '9' }
}

/// Appends the decimal rendering of `n` to `s`.
pub fn push_decimal(s: &mut String, n: u64)
    ensures
        final(s)@ == old(s)@ + decimal(n as nat),
    decreases n,
{
    if n < 10 {
        push_char(s, digit_of(n));
        assert(decimal(n as nat) =~= seq![digit_char(n as nat)]);
    } else {
        push_decimal(s, n / 10);
        push_char(s, digit_of(n % 10));
        assert(decimal(n as nat) =~= decimal((n / 10) as nat).push(digit_char((n % 10) as nat)));
    }
}

/// The decimal rendering of `n` as a new string (`u64::to_string`).
pub fn decimal_string(n: u64) -> (r: String)
    ensures
        r@ == decimal(n as nat),
{
    let mut s = String::new();
    push_decimal(&mut s, n);
    assert(s@ =~= decimal(n as nat));
    s
}

/// The decimal rendering of an integer: a minus sign before the digits of a
/// negative number.
pub open spec fn signed_decimal(n: int) -> Seq<char> {
    if n < 0 {
        seq!['-'] + decimal((-n) as nat)
    } else {
        decimal(n as nat)
    }
}

/// Appends the decimal rendering of `n` to `s` (as `i64`'s `Display` does).
pub fn push_signed_decimal(s: &mut String, n: i64)
    ensures
        final(s)@ == old(s)@ + signed_decimal(n as int),
{
    if n < 0 {
        let ghost before = s@;
        push_char(s, '-');
        let m: i64 = -(n + 1);
        let magnitude: u64 = (m as u64) + 1;
        push_decimal(s, magnitude);
        assert(s@ =~= before + signed_decimal(n as int));
    } else {
        push_decimal(s, n as u64);
    }
}

/// The lowercase hexadecimal digit character for `d < 16`.
pub open spec fn hex_digit_char(d: nat) -> char {
    if d < 10 {
        digit_char(d)
    } else if d == 10 {
        'a'
    } else if d == 11 {
        'b'
    } else if d == 12 {
        'c'
    } else if d == 13 {
        'd'
    } else if d == 14 {
        'e'
    } else {
        'f'
    }
}

/// The lowercase hexadecimal rendering of a natural number, without leading
/// zeros ("0" for zero).
pub open spec fn hex(n: nat) -> Seq<char>
    decreases n,
{
    if n < 16 {
        seq![hex_digit_char(n)]
    } else {
        hex(n / 16).push(hex_digit_char(n % 16))
    }
}

/// Whether a text is the lowercase hexadecimal form of some 64-bit number.
pub open spec fn hex_of_some(s: Seq<char>) -> bool {
    exists|h: u64| s == #[trigger] hex(h as nat)
}

fn hex_digit_of(d: u64) -> (c: char)
    requires
        d < 16,
    ensures
        c == hex_digit_char(d as nat),
{
    if d < 10 { digit_of(d) }
    else if d == 10 { 'a' }
    else if d == 11 { 'b' }
    else if d == 12 { 'c' }
    else if d == 13 { 'd' }
    else if d == 14 { 'e' }
    else { 'f' }
}

/// Appends the lowercase hexadecimal rendering of `n` to `s` (as the `{:x}`
/// format does).
pub fn push_hex(s: &mut String, n: u64)
    ensures
        final(s)@ == old(s)@ + hex(n as nat),
    decreases n,
{
    if n < 16 {
        push_char(s, hex_digit_of(n));
        assert(hex(n as nat) =~= seq![hex_digit_char(n as nat)]);
    } else {
        push_hex(s, n / 16);
        push_char(s, hex_digit_of(n % 16));
        assert(hex(n as nat) =~= hex((n / 16) as nat).push(hex_digit_char((n % 16) as nat)));
    }
}

/// `parts` joined with `sep` between consecutive parts.
pub open spec fn join(parts: Seq<Seq<char>>, sep: Seq<char>) -> Seq<char>
    decreases parts.len(),
{
    if parts.len() == 0 {
        Seq::empty()
    } else if parts.len() == 1 {
        parts[0]
    } else {
        join(parts.drop_last(), sep) + sep + parts.last()
    }
}

/// The character sequences of a list of strings.
pub open spec fn views(v: Seq<String>) -> Seq<Seq<char>> {
    v.map_values(|s: String| s@)
}

/// Joins strings with a separator (`[String]::join`).
pub fn join_strings(parts: &Vec<String>, sep: &str) -> (r: String)
    ensures
        r@ == join(views(parts@), sep@),
{
    let mut s = String::new();
    let mut i: usize = 0;
    while i < parts.len()
        invariant
            i <= parts.len(),
            s@ == join(views(parts@).subrange(0, i as int), sep@),
        decreases parts.len() - i,
    {
        let ghost before = views(parts@).subrange(0, i as int);
        let ghost after = views(parts@).subrange(0, i + 1);
        assert(after.drop_last() =~= before);
        assert(after.last() == parts@[i as int]@);
        if i > 0 {
            push_text(&mut s, sep);
        } else {
            assert(before.len() == 0);
        }
        push_text(&mut s, parts[i].as_str());
        i = i + 1;
        assert(s@ =~= join(after, sep@));
    }
    assert(views(parts@).subrange(0, parts.len() as int) =~= views(parts@));
    s
}

/// Whether `s` contains `pat` as a contiguous run of characters.
pub open spec fn contains_seq(s: Seq<char>, pat: Seq<char>) -> bool {
    exists|i: int| 0 <= i <= s.len() - pat.len() && #[trigger] s.subrange(i, i + pat.len()) == pat
}

/// Whether `s` contains `pat`.
pub fn text_contains(s: &str, pat: &str) -> (r: bool)
    ensures
        r == contains_seq(s@, pat@),
{
    let x = chars_of(s);
    let p = chars_of(pat);
    if p.len() > x.len() {
        return false;
    }
    let last: usize = x.len() - p.len();
    let mut i: usize = 0;
    loop
        invariant_except_break
            x@ == s@,
            p@ == pat@,
            last == x@.len() - p@.len(),
            i <= last,
            forall|k: int| 0 <= k < i ==> #[trigger] x@.subrange(k, k + p@.len()) != p@,
        ensures
            forall|k: int| 0 <= k <= x@.len() - p@.len() ==> #[trigger] x@.subrange(k, k + p@.len()) != p@,
            x@ == s@,
            p@ == pat@,
        decreases last - i,
    {
        let mut j: usize = 0;
        let mut ok = true;
        while j < p.len()
            invariant
                x@ == s@,
                p@ == pat@,
                last == x@.len() - p@.len(),
                i <= last,
                p@.len() <= x@.len(),
                x@.len() == x.len(),
                j <= p@.len(),
                ok <==> forall|t: int| 0 <= t < j ==> x@[i + t] == p@[t],
            decreases p@.len() - j,
        {
            if x[i + j] != p[j] {
                ok = false;
            }
            j = j + 1;
        }
        if ok {
            assert(x@.subrange(i as int, i + p@.len()) =~= p@);
            return true;
        }
        proof {
            let t = choose|t: int| 0 <= t < p@.len() && x@[i + t] != p@[t];
            assert(x@.subrange(i as int, i + p@.len())[t] != p@[t]);
        }
        if i == last {
            break;
        }
        i = i + 1;
    }
    false
}

/// Whether some string of `v` has the characters `s`.
pub open spec fn contains_text(v: Seq<String>, s: Seq<char>) -> bool {
    exists|i: int| 0 <= i < v.len() && #[trigger] v[i]@ == s
}

/// Whether some string of `v` equals `s` (`contains` on a list of strings).
pub fn strings_contain(v: &Vec<String>, s: &str) -> (r: bool)
    ensures
        r == contains_text(v@, s@),
{
    let mut i: usize = 0;
    while i < v.len()
        invariant
            i <= v.len(),
            forall|j: int| 0 <= j < i ==> v@[j]@ != s@,
        decreases v.len() - i,
    {
        if str_equal(v[i].as_str(), s) {
            return true;
        }
        i = i + 1;
    }
    false
}

/// The strings of a list with no two equal.
pub open spec fn distinct_strings(v: Seq<String>) -> bool {
    forall|i: int, j: int| 0 <= i < v.len() && 0 <= j < v.len() && i != j ==> #[trigger] v[i]@ != #[trigger] v[j]@
}

/// The index of the entry whose key is `k`, if any.
pub open spec fn key_index<V>(entries: Seq<(String, V)>, k: Seq<char>) -> int {
    choose|i: int| 0 <= i < entries.len() && #[trigger] entries[i].0@ == k
}

/// Whether some entry has key `k`.
pub open spec fn has_key<V>(entries: Seq<(String, V)>, k: Seq<char>) -> bool {
    exists|i: int| 0 <= i < entries.len() && #[trigger] entries[i].0@ == k
}

/// No two entries share a key.
pub open spec fn keys_unique<V>(entries: Seq<(String, V)>) -> bool {
    forall|i: int, j: int|
        0 <= i < entries.len() && 0 <= j < entries.len() && i != j ==> #[trigger] entries[i].0@
            != #[trigger] entries[j].0@
}

/// The map that a list of entries with unique keys stands for.
pub open spec fn entries_map<V>(entries: Seq<(String, V)>) -> Map<Seq<char>, V> {
    Map::new(|k: Seq<char>| has_key(entries, k), |k: Seq<char>| entries[key_index(entries, k)].1)
}

/// The characters of each value of a map whose values are strings.
pub open spec fn text_map(m: Map<Seq<char>, String>) -> Map<Seq<char>, Seq<char>> {
    m.map_values(|s: String| s@)
}

/// A map from strings to values, kept as a list of entries in insertion
/// order with no key twice.
#[derive(Debug)]
pub struct StringMap<V> {
    entries: Vec<(String, V)>,
}

impl<V> View for StringMap<V> {
    type V = Map<Seq<char>, V>;

    closed spec fn view(&self) -> Map<Seq<char>, V> {
        entries_map(self.entries@)
    }
}

impl<V> StringMap<V> {
    /// The map is the one its entries stand for.
    pub proof fn lemma_view(&self)
        ensures
            self@ == entries_map(self.entry_seq()),
    {
    }

    /// The entries, in insertion order.
    pub closed spec fn entry_seq(&self) -> Seq<(String, V)> {
        self.entries@
    }

    /// The type's invariant: no key occurs twice.
    #[verifier::type_invariant]
    closed spec fn wf(&self) -> bool {
        keys_unique(self.entries@)
    }

    /// An empty map.
    pub fn new() -> (m: Self)
        ensures
            m@ == Map::<Seq<char>, V>::empty(),
            m.entry_seq().len() == 0,
    {
        let m = StringMap { entries: Vec::new() };
        assert(m@ =~= Map::<Seq<char>, V>::empty());
        m
    }

    /// The number of entries.
    pub fn len(&self) -> (n: usize)
        ensures
            n == self@.len(),
            n == self.entry_seq().len(),
            self@.dom().finite(),
            keys_unique(self.entry_seq()),
    {
        proof {
            use_type_invariant(self);
            lemma_entries_map_len(self.entries@);
        }
        self.entries.len()
    }

    /// The position of the entry with key `k`, if any.
    pub fn position(&self, k: &str) -> (r: Option<usize>)
        ensures
            match r {
                Some(i) => i < self.entry_seq().len() && self.entry_seq()[i as int].0@ == k@
                    && self@.contains_key(k@) && self@[k@] == self.entry_seq()[i as int].1,
                None => !self@.contains_key(k@),
            },
    {
        proof {
            use_type_invariant(self);
        }
        let mut i: usize = 0;
        while i < self.entries.len()
            invariant
                i <= self.entries.len(),
                forall|j: int| 0 <= j < i ==> self.entries@[j].0@ != k@,
                keys_unique(self.entries@),
            decreases self.entries.len() - i,
        {
            if str_equal(self.entries[i].0.as_str(), k) {
                proof {
                    lemma_key_index_unique(self.entries@, i as int);
                }
                return Some(i);
            }
            i = i + 1;
        }
        None
    }

    /// Whether the map has key `k`.
    pub fn contains_key(&self, k: &str) -> (r: bool)
        ensures
            r == self@.contains_key(k@),
    {
        match self.position(k) {
            Some(i) => {
                assert(has_key(self.entries@, k@));
                true
            },
            None => false,
        }
    }

    /// The value under key `k`, if any.
    pub fn get(&self, k: &str) -> (r: Option<&V>)
        ensures
            match r {
                Some(v) => self@.contains_key(k@) && self@[k@] == *v,
                None => !self@.contains_key(k@),
            },
    {
        match self.position(k) {
            Some(i) => {
                proof {
                    use_type_invariant(self);
                    lemma_key_index_unique(self.entries@, i as int);
                }
                Some(&self.entries[i].1)
            },
            None => None,
        }
    }

    /// Sets key `k` to `v`: an existing entry keeps its place, a new key goes
    /// last.
    pub fn insert(&mut self, k: String, v: V)
        ensures
            final(self)@ == old(self)@.insert(k@, v),
            old(self)@.contains_key(k@) ==> exists|p: int|
                0 <= p < old(self).entry_seq().len() && #[trigger] old(self).entry_seq()[p].0@ == k@
                    && final(self).entry_seq() == old(self).entry_seq().update(p, (k, v)),
            !old(self)@.contains_key(k@) ==> final(self).entry_seq() == old(self).entry_seq().push((k, v)),
    {
        proof {
            use_type_invariant(&*self);
        }
        match self.position(k.as_str()) {
            Some(i) => {
                let ghost old_entries = self.entries@;
                let mut entries: Vec<(String, V)> = Vec::new();
                std::mem::swap(&mut entries, &mut self.entries);
                entries.set(i, (k, v));
                proof {
                    let e = entries@;
                    assert(keys_unique(e)) by {
                        assert forall|a: int, b: int|
                            0 <= a < e.len() && 0 <= b < e.len() && a != b implies #[trigger] e[a].0@
                            != #[trigger] e[b].0@ by {
                            assert(old_entries[a].0@ != old_entries[b].0@ || a == b);
                        }
                    }
                    lemma_key_index_unique(e, i as int);
                    assert forall|key: Seq<char>| has_key(e, key) == has_key(old_entries, key) by {
                        if has_key(e, key) {
                            let j = choose|j: int| 0 <= j < e.len() && #[trigger] e[j].0@ == key;
                            assert(old_entries[j].0@ == key);
                        }
                        if has_key(old_entries, key) {
                            let j = choose|j: int| 0 <= j < old_entries.len() && #[trigger] old_entries[j].0@ == key;
                            assert(e[j].0@ == key);
                        }
                    }
                    assert forall|key: Seq<char>| has_key(e, key) && key != k@ implies e[key_index(e, key)].1
                        == old_entries[key_index(old_entries, key)].1 by {
                        let j = key_index(e, key);
                        lemma_key_index_unique(e, j);
                        assert(old_entries[j].0@ == key);
                        lemma_key_index_unique(old_entries, j);
                    }
                    assert(entries_map(e) =~= entries_map(old_entries).insert(k@, v));
                    assert(e =~= old_entries.update(i as int, (k, v)));
                    assert(old_entries[i as int].0@ == k@);
                }
                self.entries = entries;
            },
            None => {
                let ghost old_entries = self.entries@;
                let ghost kv = k@;
                let mut entries: Vec<(String, V)> = Vec::new();
                std::mem::swap(&mut entries, &mut self.entries);
                entries.push((k, v));
                proof {
                    let e = entries@;
                    assert(e.len() == old_entries.len() + 1);
                    assert(keys_unique(e)) by {
                        assert forall|a: int, b: int|
                            0 <= a < e.len() && 0 <= b < e.len() && a != b implies #[trigger] e[a].0@
                            != #[trigger] e[b].0@ by {
                            if a < old_entries.len() && b < old_entries.len() {
                                assert(e[a] == old_entries[a]);
                                assert(e[b] == old_entries[b]);
                            } else if a < old_entries.len() {
                                assert(e[a] == old_entries[a]);
                                assert(!has_key(old_entries, kv));
                            } else {
                                assert(e[b] == old_entries[b]);
                                assert(!has_key(old_entries, kv));
                            }
                        }
                    }
                    lemma_key_index_unique(e, old_entries.len() as int);
                    assert forall|key: Seq<char>| has_key(e, key) == (has_key(old_entries, key) || key == kv) by {
                        if has_key(e, key) {
                            let j = choose|j: int| 0 <= j < e.len() && #[trigger] e[j].0@ == key;
                            if j < old_entries.len() {
                                assert(e[j] == old_entries[j]);
                            }
                        }
                        if has_key(old_entries, key) {
                            let j = choose|j: int| 0 <= j < old_entries.len() && #[trigger] old_entries[j].0@ == key;
                            assert(e[j] == old_entries[j]);
                        }
                        if key == kv {
                            assert(e[old_entries.len() as int].0@ == key);
                        }
                    }
                    assert forall|key: Seq<char>| has_key(e, key) && key != kv implies e[key_index(e, key)].1
                        == old_entries[key_index(old_entries, key)].1 by {
                        let j = key_index(e, key);
                        lemma_key_index_unique(e, j);
                        if j == old_entries.len() {
                            assert(e[j].0@ == kv);
                        }
                        assert(e[j] == old_entries[j]);
                        lemma_key_index_unique(old_entries, j);
                    }
                    assert(entries_map(e) =~= entries_map(old_entries).insert(kv, v));
                    assert(e =~= old_entries.push((k, v)));
                }
                self.entries = entries;
            },
        }
    }

    /// Replaces the value of the entry at position `i`, keeping its key and
    /// place, and returns the value it held.
    pub fn swap_value(&mut self, i: usize, v: V) -> (r: V)
        requires
            i < old(self).entry_seq().len(),
        ensures
            r == old(self).entry_seq()[i as int].1,
            final(self)@ == old(self)@.insert(old(self).entry_seq()[i as int].0@, v),
            final(self).entry_seq() == old(self).entry_seq().update(i as int, (old(self).entry_seq()[i as int].0, v)),
    {
        proof {
            use_type_invariant(&*self);
        }
        let ghost old_entries = self.entries@;
        let ghost k = old_entries[i as int].0;
        let mut entries: Vec<(String, V)> = Vec::new();
        std::mem::swap(&mut entries, &mut self.entries);
        let (key, old_v) = entries.remove(i);
        entries.insert(i, (key, v));
        proof {
            let e = entries@;
            assert(e =~= old_entries.update(i as int, (k, v)));
            assert(keys_unique(e)) by {
                assert forall|a: int, b: int|
                    0 <= a < e.len() && 0 <= b < e.len() && a != b implies #[trigger] e[a].0@
                    != #[trigger] e[b].0@ by {
                    assert(old_entries[a].0@ != old_entries[b].0@);
                }
            }
            lemma_key_index_unique(e, i as int);
            assert forall|key: Seq<char>| has_key(e, key) == has_key(old_entries, key) by {
                if has_key(e, key) {
                    let j = choose|j: int| 0 <= j < e.len() && #[trigger] e[j].0@ == key;
                    assert(old_entries[j].0@ == key);
                }
                if has_key(old_entries, key) {
                    let j = choose|j: int| 0 <= j < old_entries.len() && #[trigger] old_entries[j].0@ == key;
                    assert(e[j].0@ == key);
                }
            }
            assert forall|key: Seq<char>| has_key(e, key) && key != k@ implies e[key_index(e, key)].1
                == old_entries[key_index(old_entries, key)].1 by {
                let j = key_index(e, key);
                lemma_key_index_unique(e, j);
                assert(old_entries[j].0@ == key);
                lemma_key_index_unique(old_entries, j);
            }
            assert(entries_map(e) =~= entries_map(old_entries).insert(k@, v));
        }
        self.entries = entries;
        old_v
    }

    /// Removes the entry with key `k`, keeping the others in order; returns
    /// whether there was one.
    pub fn remove(&mut self, k: &str) -> (r: bool)
        ensures
            r == old(self)@.contains_key(k@),
            final(self)@ == old(self)@.remove(k@),
            !r ==> final(self).entry_seq() == old(self).entry_seq(),
    {
        proof {
            use_type_invariant(&*self);
        }
        match self.position(k) {
            Some(i) => {
                let ghost old_entries = self.entries@;
                let mut entries: Vec<(String, V)> = Vec::new();
                std::mem::swap(&mut entries, &mut self.entries);
                let _ = entries.remove(i);
                proof {
                    let e = entries@;
                    assert(e =~= old_entries.remove(i as int));
                    assert forall|a: int| 0 <= a < e.len() implies #[trigger] e[a] == old_entries[if a < i { a } else { a + 1 }] by {}
                    assert(keys_unique(e)) by {
                        assert forall|a: int, b: int|
                            0 <= a < e.len() && 0 <= b < e.len() && a != b implies #[trigger] e[a].0@
                            != #[trigger] e[b].0@ by {
                            let a2 = if a < i { a } else { a + 1 };
                            let b2 = if b < i { b } else { b + 1 };
                            assert(e[a] == old_entries[a2]);
                            assert(e[b] == old_entries[b2]);
                        }
                    }
                    assert forall|key: Seq<char>| has_key(e, key) == (has_key(old_entries, key) && key != k@) by {
                        if has_key(e, key) {
                            let j = choose|j: int| 0 <= j < e.len() && #[trigger] e[j].0@ == key;
                            let j2 = if j < i { j } else { j + 1 };
                            assert(e[j] == old_entries[j2]);
                            assert(old_entries[j2].0@ == key);
                            if key == k@ {
                                assert(j2 != i);
                            }
                        }
                        if has_key(old_entries, key) && key != k@ {
                            let j = choose|j: int| 0 <= j < old_entries.len() && #[trigger] old_entries[j].0@ == key;
                            assert(j != i);
                            let j2 = if j < i { j } else { j - 1 };
                            assert(e[j2] == old_entries[j]);
                        }
                    }
                    assert forall|key: Seq<char>| has_key(e, key) implies e[key_index(e, key)].1
                        == old_entries[key_index(old_entries, key)].1 by {
                        let j = key_index(e, key);
                        lemma_key_index_unique(e, j);
                        let j2 = if j < i { j } else { j + 1 };
                        assert(e[j] == old_entries[j2]);
                        lemma_key_index_unique(old_entries, j2);
                    }
                    assert(entries_map(e) =~= entries_map(old_entries).remove(k@));
                }
                self.entries = entries;
                true
            },
            None => {
                proof {
                    assert(self@ =~= self@.remove(k@));
                }
                false
            },
        }
    }

    /// The keys, each once, in insertion order.
    pub fn key_list(&self) -> (r: Vec<String>)
        ensures
            r@.len() == self@.len(),
            forall|k: Seq<char>| self@.contains_key(k) <==> contains_text(r@, k),
    {
        proof {
            use_type_invariant(self);
            lemma_entries_map_len(self.entries@);
        }
        let r = self.keys();
        proof {
            assert forall|k: Seq<char>| self@.contains_key(k) <==> contains_text(r@, k) by {
                if self@.contains_key(k) {
                    let j = choose|j: int| 0 <= j < self.entries@.len() && #[trigger] self.entries@[j].0@ == k;
                    assert(r@[j]@ == k);
                }
                if contains_text(r@, k) {
                    let j = choose|j: int| 0 <= j < r@.len() && #[trigger] r@[j]@ == k;
                    assert(self.entries@[j].0@ == k);
                }
            }
        }
        r
    }

    /// The keys, in insertion order.
    pub fn keys(&self) -> (r: Vec<String>)
        ensures
            r@.len() == self.entry_seq().len(),
            forall|i: int| 0 <= i < r@.len() ==> #[trigger] r@[i] == self.entry_seq()[i].0,
    {
        let mut r: Vec<String> = Vec::new();
        let mut i: usize = 0;
        while i < self.entries.len()
            invariant
                i <= self.entries.len(),
                r@.len() == i,
                forall|j: int| 0 <= j < i ==> #[trigger] r@[j] == self.entries@[j].0,
            decreases self.entries.len() - i,
        {
            r.push(self.entries[i].0.clone());
            i = i + 1;
        }
        r
    }

    /// The entry at position `i` (insertion order).
    pub fn entry_at(&self, i: usize) -> (r: (&String, &V))
        requires
            i < self.entry_seq().len(),
        ensures
            *r.0 == self.entry_seq()[i as int].0,
            *r.1 == self.entry_seq()[i as int].1,
            self@.contains_key(r.0@),
            self@[r.0@] == *r.1,
    {
        proof {
            use_type_invariant(self);
            lemma_key_index_unique(self.entries@, i as int);
        }
        (&self.entries[i].0, &self.entries[i].1)
    }

    /// The entries, in insertion order, as a list.
    pub fn entry_list(&self) -> (r: &Vec<(String, V)>)
        ensures
            r@ == self.entry_seq(),
            keys_unique(self.entry_seq()),
    {
        proof {
            use_type_invariant(self);
        }
        &self.entries
    }

    /// The map whose entries, in this order, are `entries` (no key twice).
    pub fn from_entries(entries: Vec<(String, V)>) -> (m: Self)
        requires
            keys_unique(entries@),
        ensures
            m.entry_seq() == entries@,
            m@ == entries_map(entries@),
    {
        StringMap { entries }
    }
}

impl StringMap<String> {
    /// A copy of the map, entry for entry.
    pub fn duplicate(&self) -> (r: Self)
        ensures
            r@ == self@,
            r.entry_seq() == self.entry_seq(),
    {
        proof {
            use_type_invariant(self);
        }
        let mut entries: Vec<(String, String)> = Vec::new();
        let mut i: usize = 0;
        while i < self.entries.len()
            invariant
                i <= self.entries.len(),
                entries@ == self.entries@.subrange(0, i as int),
            decreases self.entries.len() - i,
        {
            let k = self.entries[i].0.clone();
            let v = self.entries[i].1.clone();
            entries.push((k, v));
            i = i + 1;
            assert(entries@ =~= self.entries@.subrange(0, i as int));
        }
        assert(entries@ =~= self.entries@);
        StringMap { entries }
    }
}

/// A copy of a list of strings.
pub fn copy_strings(v: &Vec<String>) -> (r: Vec<String>)
    ensures
        r@ == v@,
{
    let mut out: Vec<String> = Vec::new();
    let mut i: usize = 0;
    while i < v.len()
        invariant
            i <= v.len(),
            out@ == v@.subrange(0, i as int),
        decreases v.len() - i,
    {
        out.push(v[i].clone());
        i = i + 1;
        assert(out@ =~= v@.subrange(0, i as int));
    }
    assert(out@ =~= v@);
    out
}

/// A copy of a byte vector.
pub fn copy_bytes(v: &Vec<u8>) -> (r: Vec<u8>)
    ensures
        r@ == v@,
{
    let mut out: Vec<u8> = Vec::new();
    let mut i: usize = 0;
    while i < v.len()
        invariant
            i <= v.len(),
            out@ == v@.subrange(0, i as int),
        decreases v.len() - i,
    {
        out.push(v[i]);
        i = i + 1;
        assert(out@ =~= v@.subrange(0, i as int));
    }
    assert(out@ =~= v@);
    out
}

/// Whether two optional lists of strings are both absent, or both present
/// with the same strings in the same order.
pub open spec fn same_strings(a: Option<Vec<String>>, b: Option<Vec<String>>) -> bool {
    match (a, b) {
        (Some(x), Some(y)) => x@ == y@,
        (None, None) => true,
        _ => false,
    }
}

/// A copy of an optional list of strings.
pub fn copy_opt_strings(o: &Option<Vec<String>>) -> (r: Option<Vec<String>>)
    ensures
        same_strings(r, *o),
{
    match o {
        Some(v) => Some(copy_strings(v)),
        None => None,
    }
}

/// The strings of `v` other than `x`, in order.
pub open spec fn without(v: Seq<Seq<char>>, x: Seq<char>) -> Seq<Seq<char>> {
    v.filter(|s: Seq<char>| s != x)
}

/// Removes every string equal to `x`, keeping the others in order
/// (`Vec::retain` with `!=`).
pub fn remove_all(v: &mut Vec<String>, x: &str)
    ensures
        views(final(v)@) == without(views(old(v)@), x@),
{
    let ghost pred = |s: Seq<char>| s != x@;
    let ghost orig = views(v@);
    let mut kept: Vec<String> = Vec::new();
    let mut i: usize = 0;
    proof {
        reveal(Seq::filter);
        assert(orig.subrange(0, 0).filter(pred) =~= Seq::<Seq<char>>::empty());
    }
    while i < v.len()
        invariant
            i <= v@.len(),
            orig == views(v@),
            pred == (|s: Seq<char>| s != x@),
            views(kept@) == orig.subrange(0, i as int).filter(pred),
        decreases v@.len() - i,
    {
        let ghost pre = orig.subrange(0, i as int);
        let ghost next = orig.subrange(0, i + 1);
        proof {
            reveal(Seq::filter);
            assert(next.drop_last() =~= pre);
            assert(next.last() == v@[i as int]@);
        }
        if !str_equal(v[i].as_str(), x) {
            let ghost before = views(kept@);
            kept.push(v[i].clone());
            assert(views(kept@) =~= before.push(v@[i as int]@));
        }
        i = i + 1;
    }
    assert(orig.subrange(0, v@.len() as int) =~= orig);
    *v = kept;
}

/// A copy of an optional string.
pub fn copy_opt_string(s: &Option<String>) -> (r: Option<String>)
    ensures
        r == *s,
{
    match s {
        Some(x) => Some(x.clone()),
        None => None,
    }
}

/// With unique keys, the entry at `i` is the one that `key_index` picks.
pub proof fn lemma_key_index_unique<V>(entries: Seq<(String, V)>, i: int)
    requires
        keys_unique(entries),
        0 <= i < entries.len(),
    ensures
        has_key(entries, entries[i].0@),
        key_index(entries, entries[i].0@) == i,
{
    let k = entries[i].0@;
    assert(has_key(entries, k));
    let j = key_index(entries, k);
    if j != i {
        assert(entries[j].0@ == k);
    }
}

/// With unique keys, taking one more entry adds that entry to the map.
pub proof fn lemma_entries_map_take<V>(entries: Seq<(String, V)>, j: int)
    requires
        keys_unique(entries),
        0 <= j < entries.len(),
    ensures
        entries_map(entries.take(j + 1)) == entries_map(entries.take(j)).insert(entries[j].0@, entries[j].1),
{
    let before = entries.take(j);
    let after = entries.take(j + 1);
    let c = entries[j].0@;
    assert(keys_unique(after)) by {
        assert forall|a: int, b: int|
            0 <= a < after.len() && 0 <= b < after.len() && a != b implies #[trigger] after[a].0@
            != #[trigger] after[b].0@ by {
            assert(after[a] == entries[a]);
            assert(after[b] == entries[b]);
        }
    }
    assert forall|x: Seq<char>| #![auto] entries_map(after).contains_key(x) <==> (entries_map(before).contains_key(x)
        || x == c) by {
        if has_key(after, x) {
            let t = choose|t: int| 0 <= t < after.len() && #[trigger] after[t].0@ == x;
            if t < j {
                assert(before[t].0@ == x);
            }
        }
        if has_key(before, x) {
            let t = choose|t: int| 0 <= t < before.len() && #[trigger] before[t].0@ == x;
            assert(after[t].0@ == x);
        }
        if x == c {
            assert(after[j].0@ == x);
        }
    }
    assert forall|x: Seq<char>| #![auto] entries_map(after).contains_key(x) implies entries_map(after)[x] == (if x
        == c {
        entries[j].1
    } else {
        entries_map(before)[x]
    }) by {
        if x == c {
            lemma_key_index_unique(after, j);
        } else {
            let tb = key_index(before, x);
            assert(before[tb].0@ == x);
            assert(after[tb].0@ == x);
            lemma_key_index_unique(after, tb);
        }
    }
    assert(entries_map(after) =~= entries_map(before).insert(c, entries[j].1));
}

/// With unique keys, the map has as many keys as there are entries.
pub proof fn lemma_entries_map_len<V>(entries: Seq<(String, V)>)
    requires
        keys_unique(entries),
    ensures
        entries_map(entries).dom().finite(),
        entries_map(entries).len() == entries.len(),
    decreases entries.len(),
{
    let m = entries_map(entries);
    if entries.len() == 0 {
        assert(m.dom() =~= Set::<Seq<char>>::empty());
    } else {
        let init = entries.drop_last();
        let last = entries.last();
        assert(keys_unique(init)) by {
            assert forall|a: int, b: int|
                0 <= a < init.len() && 0 <= b < init.len() && a != b implies #[trigger] init[a].0@
                != #[trigger] init[b].0@ by {
                assert(init[a] == entries[a]);
                assert(init[b] == entries[b]);
            }
        }
        lemma_entries_map_len(init);
        let mi = entries_map(init);
        assert(!mi.dom().contains(last.0@)) by {
            if has_key(init, last.0@) {
                let j = choose|j: int| 0 <= j < init.len() && #[trigger] init[j].0@ == last.0@;
                assert(entries[j].0@ == entries[entries.len() - 1].0@);
            }
        }
        assert forall|key: Seq<char>| has_key(entries, key) == (has_key(init, key) || key == last.0@) by {
            if has_key(entries, key) {
                let j = choose|j: int| 0 <= j < entries.len() && #[trigger] entries[j].0@ == key;
                if j < init.len() {
                    assert(init[j] == entries[j]);
                }
            }
            if has_key(init, key) {
                let j = choose|j: int| 0 <= j < init.len() && #[trigger] init[j].0@ == key;
                assert(init[j] == entries[j]);
            }
            if key == last.0@ {
                assert(entries[entries.len() - 1].0@ == key);
            }
        }
        assert(m.dom() =~= mi.dom().insert(last.0@));
    }
}

} // verus!
