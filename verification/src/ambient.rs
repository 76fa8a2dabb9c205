//! Calls into outside crates and std whose results depend on the clock, on
//! chance or on a pattern engine, or that compress, quote or map case.  Each
//! trusted function here makes one such call; the rest of the crate takes
//! their results as values.

use vstd::prelude::*;
use crate::text::{all_ascii, ascii_lower, ascii_upper};

verus! {

/// The system clock in milliseconds since the Unix epoch
/// (`std::time::SystemTime::now().duration_since(UNIX_EPOCH)`, then
/// `Duration::as_millis`, cut to `i64`); nothing for a clock set before the
/// epoch.  Nothing is claimed of the value: it is whatever the clock reads.
#[verifier::external_body]
pub fn clock_millis() -> (r: Option<i64>) {
    match std::time::SystemTime::now().duration_since(std::time::UNIX_EPOCH) {
        Ok(d) => Some(d.as_millis() as i64),
        Err(_) => None,
    }
}

/// The system clock in whole seconds since the Unix epoch
/// (`std::time::SystemTime::now().duration_since(UNIX_EPOCH)`, then
/// `Duration::as_secs`, cut to `i64`); nothing for a clock set before the
/// epoch.  Nothing is claimed of the value: it is whatever the clock reads.
#[verifier::external_body]
pub fn clock_seconds() -> (r: Option<i64>) {
    match std::time::SystemTime::now().duration_since(std::time::UNIX_EPOCH) {
        Ok(d) => Some(d.as_secs() as i64),
        Err(_) => None,
    }
}

/// The current time in milliseconds since the Unix epoch, for time stamps;
/// a clock set before the epoch reads as the epoch itself.
pub fn utc_now_millis() -> (r: i64) {
    match clock_millis() {
        Some(t) => t,
        None => 0,
    }
}

/// The current time in whole seconds since the Unix epoch, for time stamps;
/// a clock set before the epoch reads as the epoch itself.
pub fn utc_now_seconds() -> (r: i64) {
    match clock_seconds() {
        Some(t) => t,
        None => 0,
    }
}

/// The system clock in nanoseconds since the Unix epoch, cut to its low 64
/// bits (`std::time::SystemTime::now().duration_since(UNIX_EPOCH)`, then
/// `Duration::as_nanos`); nothing for a clock set before the epoch.
/// Nothing is claimed of the value: it is whatever the clock reads.
#[verifier::external_body]
pub fn system_clock_nanos() -> (r: Option<u64>) {
    match std::time::SystemTime::now().duration_since(std::time::UNIX_EPOCH) {
        Ok(d) => Some(d.as_nanos() as u64),
        Err(_) => None,
    }
}

/// A random byte (`rand::random::<u8>()`).  Any byte may come back.
#[verifier::external_body]
pub fn random_byte() -> (r: u8) {
    rand::random::<u8>()
}

/// A random 64-bit number (`rand::random::<u64>()`).  Any value may come back.
#[verifier::external_body]
pub fn random_u64() -> (r: u64) {
    rand::random::<u64>()
}

/// A fresh random (version 4) UUID in its hyphenated text form
/// (`uuid::Uuid::new_v4().to_string()`).  The hyphenated form of a UUID is
/// always 36 characters long; which UUID comes back is left open.
#[verifier::external_body]
pub fn new_uuid_text() -> (r: String)
    ensures
        r@.len() == 36,
{
    uuid::Uuid::new_v4().to_string()
}

/// What matching `text` against the regular expression `pattern` gives:
/// `None` when `pattern` is not a valid expression, else whether the
/// expression matches somewhere in `text`.
pub uninterp spec fn regex_outcome(pattern: Seq<char>, text: Seq<char>) -> Option<bool>;

/// Compiles `pattern` with `regex::Regex::new` and, when that succeeds, tests
/// `text` with `Regex::is_match`.  The result is named by `regex_outcome`: it
/// depends on the two strings alone.
#[verifier::external_body]
pub fn regex_match(pattern: &str, text: &str) -> (r: Option<bool>)
    ensures
        r == regex_outcome(pattern@, text@),
{
    match regex::Regex::new(pattern) {
        Ok(re) => Some(re.is_match(text)),
        Err(_) => None,
    }
}

/// The JSON text of a string value: the characters in double quotes, with
/// the escapes JSON needs.
pub uninterp spec fn json_string_text(s: Seq<char>) -> Seq<char>;

/// Serialises a string as a JSON string value with `serde_json::to_string`.
/// The result is named by `json_string_text`: it depends on the string
/// alone.  Serialising a string into memory does not fail; the empty text
/// that would stand for a failure is never returned.
#[verifier::external_body]
pub fn json_quote(s: &str) -> (r: String)
    ensures
        r@ == json_string_text(s@),
{
    match serde_json::to_string(s) {
        Ok(t) => t,
        Err(_) => String::new(),
    }
}

/// Hashes a string with a `DefaultHasher` made by `DefaultHasher::new()`
/// (`Hash::hash`, then `Hasher::finish`).  Nothing is claimed of the value:
/// std does not promise the same hash across platforms or releases.
#[verifier::external_body]
pub fn hash_text(text: &str) -> (r: u64) {
    let mut h = std::collections::hash_map::DefaultHasher::new();
    std::hash::Hash::hash(text, &mut h);
    std::hash::Hasher::finish(&h)
}

/// The lowercase form of a string under Unicode's full case mapping.
pub uninterp spec fn lowercase_text(s: Seq<char>) -> Seq<char>;

/// `str::to_lowercase`: every character replaced by its Unicode lowercase
/// mapping (which may be more than one character).  The result is named by
/// `lowercase_text`: it depends on the string alone.  Unicode maps each
/// ASCII character to one ASCII character, so an ASCII string comes back
/// with each letter in lower case.
#[verifier::external_body]
pub fn to_lowercase(s: &str) -> (r: String)
    ensures
        r@ == lowercase_text(s@),
        all_ascii(s@) ==> r@ == s@.map_values(|c: char| ascii_lower(c)),
{
    s.to_lowercase()
}

/// Hashes a byte slice with a `DefaultHasher` made by `DefaultHasher::new()`
/// (`Hash::hash`, which writes the slice's length as a `usize`, then its
/// bytes; then `Hasher::finish`).  Nothing is claimed of the value: std does
/// not promise the same hash across platforms or releases.
#[verifier::external_body]
pub fn hash_bytes(data: &[u8]) -> (r: u64) {
    let mut h = std::collections::hash_map::DefaultHasher::new();
    std::hash::Hash::hash(data, &mut h);
    std::hash::Hasher::finish(&h)
}

/// The gzip stream that `flate2::write::GzEncoder` writes for `data` at the
/// compression `level` (a default gzip header, then the deflated data and
/// the CRC-32 and length trailer).
pub uninterp spec fn gzip_bytes(data: Seq<u8>, level: u32) -> Seq<u8>;

/// Compresses bytes with `flate2::write::GzEncoder` over an in-memory vector
/// at `flate2::Compression::new(level)` (`write_all`, then `finish`).  The
/// encoder's header and the deflate output depend on the bytes and the level
/// alone, so the result is named by `gzip_bytes`.  Writing into a vector does
/// not fail; the empty vector that would stand for a failure is never
/// returned.  The stream decompresses to the bytes given, so reading it back
/// as text (see `gunzip_string`) gives those bytes as UTF-8, or nothing when
/// they are not UTF-8.  Levels above 10 are refused: the miniz_oxide backend
/// asserts against them in debug builds.
#[verifier::external_body]
pub fn gzip_compress(data: &Vec<u8>, level: u32) -> (r: Vec<u8>)
    requires
        level <= 10,
    ensures
        r@ == gzip_bytes(data@, level),
        gunzip_string(r@) == if vstd::utf8::valid_utf8(data@) {
            Some(vstd::utf8::decode_utf8(data@))
        } else {
            None
        },
{
    let mut e = flate2::write::GzEncoder::new(Vec::new(), flate2::Compression::new(level));
    match std::io::Write::write_all(&mut e, data.as_slice()) {
        Ok(()) => {},
        Err(_) => return Vec::new(),
    }
    match e.finish() {
        Ok(v) => v,
        Err(_) => Vec::new(),
    }
}

/// The text that `flate2::read::GzDecoder` reads out of `data` with
/// `Read::read_to_string`: `None` when the bytes are not a gzip stream or
/// what they hold is not UTF-8.
pub uninterp spec fn gunzip_string(data: Seq<u8>) -> Option<Seq<char>>;

/// Decompresses a gzip stream held in memory and reads it as UTF-8 text
/// (`flate2::read::GzDecoder::new`, then `Read::read_to_string`).  The
/// result depends on the bytes alone, so it is named by `gunzip_string`.
#[verifier::external_body]
pub fn gunzip_text(data: &Vec<u8>) -> (r: Option<String>)
    ensures
        match r {
            Some(s) => gunzip_string(data@) == Some(s@),
            None => gunzip_string(data@) is None,
        },
{
    let mut d = flate2::read::GzDecoder::new(data.as_slice());
    let mut s = String::new();
    match std::io::Read::read_to_string(&mut d, &mut s) {
        Ok(_) => Some(s),
        Err(_) => None,
    }
}

/// The uppercase form of a string under Unicode's full case mapping.
pub uninterp spec fn uppercase_text(s: Seq<char>) -> Seq<char>;

/// The uppercase form of a string: each letter of an ASCII string in upper
/// case, else the Unicode full uppercase mapping.
pub open spec fn upper_of(s: Seq<char>) -> Seq<char> {
    if all_ascii(s) {
        s.map_values(|c: char| ascii_upper(c))
    } else {
        uppercase_text(s)
    }
}

/// `str::to_uppercase`: every character replaced by its Unicode uppercase
/// mapping (which may be more than one character).  The result is named by
/// `uppercase_text`: it depends on the string alone.  Unicode maps each
/// ASCII character to one ASCII character, so an ASCII string comes back
/// with each letter in upper case.
#[verifier::external_body]
pub fn to_uppercase(s: &str) -> (r: String)
    ensures
        r@ == uppercase_text(s@),
        all_ascii(s@) ==> r@ == s@.map_values(|c: char| ascii_upper(c)),
{
    s.to_uppercase()
}

} // verus!
