//! Data encryption: a keyed XOR transform framed by a header and the length
//! of the payload.

use vstd::prelude::*;
use crate::security::SecurityError;
use crate::ambient::random_byte;

verus! {

/// Encryption types.
#[derive(Debug, Clone, Copy, PartialEq, Eq, Structural)]
pub enum EncryptionType {
    AES256,
    ChaCha20,
    /// For searchable encryption.
    Deterministic,
}

/// Who encrypts which column of which table, and how.
#[derive(Debug)]
pub struct EncryptionContext {
    pub user_id: String,
    pub table_name: String,
    pub column_name: String,
    pub encryption_type: EncryptionType,
}

/// The header that starts every encrypted value: the ASCII text
/// `AURORA_ENCRYPTED_V1`.
pub open spec fn encrypted_header() -> Seq<u8> {
    seq![65u8, 85, 82, 79, 82, 65, 95, 69, 78, 67, 82, 89, 80, 84, 69, 68, 95, 86, 49]
}

/// The number of header bytes.
pub const HEADER_LEN: usize = 19;

/// The number of bytes before the payload: the header and an 8-byte length.
pub const PREFIX_LEN: usize = 27;

/// The length of the master key in bytes.
pub const KEY_LEN: usize = 32;

/// The 8 little-endian bytes of `n`.
pub open spec fn le_bytes(n: u64) -> Seq<u8> {
    Seq::new(8, |i: int| ((n >> (8 * i) as u64) & 0xff) as u8)
}

/// The number whose 8 little-endian bytes are `b[0..8]`.
pub open spec fn from_le_bytes(b: Seq<u8>) -> u64 {
    (b[0] as u64) | ((b[1] as u64) << 8u64) | ((b[2] as u64) << 16u64) | ((b[3] as u64) << 24u64) | ((
    b[4] as u64) << 32u64) | ((b[5] as u64) << 40u64) | ((b[6] as u64) << 48u64) | ((b[7] as u64) << 56u64)
}

/// Each byte of `data` XOR-ed with the key byte at the same position,
/// the key repeating as often as needed.
pub open spec fn xor_with_key(data: Seq<u8>, key: Seq<u8>) -> Seq<u8> {
    Seq::new(data.len(), |i: int| data[i] ^ key[i % key.len() as int])
}

/// The encrypted form of `data`: header, length of `data`, then `data`
/// XOR-ed with the key.
pub open spec fn encrypted_form(data: Seq<u8>, key: Seq<u8>) -> Seq<u8> {
    encrypted_header() + le_bytes(data.len() as u64) + xor_with_key(data, key)
}

/// Whether `e` starts with the header and the length field.
pub open spec fn framed(e: Seq<u8>) -> bool {
    e.len() >= PREFIX_LEN && e.subrange(0, HEADER_LEN as int) == encrypted_header()
}

/// The payload length that the length field of `e` announces.
pub open spec fn announced_len(e: Seq<u8>) -> u64 {
    from_le_bytes(e.subrange(HEADER_LEN as int, PREFIX_LEN as int))
}

/// The plain data that an encrypted value stands for: the announced number
/// of payload bytes XOR-ed with the key.
pub open spec fn decrypted_form(e: Seq<u8>, key: Seq<u8>) -> Seq<u8> {
    xor_with_key(e.subrange(PREFIX_LEN as int, PREFIX_LEN + announced_len(e)), key)
}

/// Encrypts and decrypts with a master key.
pub struct DataEncryptionEngine {
    master_key: Vec<u8>,
}

impl DataEncryptionEngine {
    /// The master key.
    pub closed spec fn key(&self) -> Seq<u8> {
        self.master_key@
    }

    /// The key has `KEY_LEN` bytes.
    pub closed spec fn wf(&self) -> bool {
        self.master_key@.len() == KEY_LEN
    }

    /// A well-formed engine's key has `KEY_LEN` bytes, so it is not empty.
    pub proof fn lemma_key_len(&self)
        requires
            self.wf(),
        ensures
            self.key().len() == KEY_LEN,
            self.key().len() > 0,
    {
    }

    /// An engine with a fresh random key of `KEY_LEN` bytes.
    pub fn new() -> (r: Self)
        ensures
            r.wf(),
    {
        let mut key: Vec<u8> = Vec::new();
        let mut i: usize = 0;
        while i < KEY_LEN
            invariant
                i <= KEY_LEN,
                key@.len() == i,
            decreases KEY_LEN - i,
        {
            key.push(random_byte());
            i = i + 1;
        }
        DataEncryptionEngine { master_key: key }
    }

    /// Encrypts `data` (the context is not used): the header, the length of
    /// `data` as 8 little-endian bytes, then `data` XOR-ed with the key.
    pub fn encrypt(&self, data: &[u8], _context: &EncryptionContext) -> (r: Result<Vec<u8>, SecurityError>)
        requires
            self.wf(),
        ensures
            r matches Ok(e) && e@ == encrypted_form(data@, self.key()),
    {
        let mut result = header_bytes();
        push_le_bytes(&mut result, data.len() as u64);
        let n = self.master_key.len();
        let mut i: usize = 0;
        while i < data.len()
            invariant
                i <= data@.len(),
                n == self.master_key@.len(),
                n == KEY_LEN,
                result@ == encrypted_header() + le_bytes(data@.len() as u64) + xor_with_key(
                    data@.subrange(0, i as int),
                    self.master_key@,
                ),
            decreases data@.len() - i,
        {
            let key_byte = self.master_key[i % n];
            result.push(data[i] ^ key_byte);
            i = i + 1;
            assert(result@ =~= encrypted_header() + le_bytes(data@.len() as u64) + xor_with_key(
                data@.subrange(0, i as int),
                self.master_key@,
            ));
        }
        assert(data@.subrange(0, data@.len() as int) =~= data@);
        Ok(result)
    }

    /// Decrypts a value made by `encrypt` (the context is not used): data
    /// without the header and length field is refused; otherwise the
    /// announced number of payload bytes is XOR-ed with the key (bytes after
    /// them are ignored).
    pub fn decrypt(&self, encrypted_data: &[u8], _context: &EncryptionContext) -> (r: Result<Vec<u8>, SecurityError>)
        requires
            self.wf(),
            framed(encrypted_data@) ==> PREFIX_LEN + announced_len(encrypted_data@) <= encrypted_data@.len(),
        ensures
            match r {
                Ok(d) => framed(encrypted_data@) && d@ == decrypted_form(encrypted_data@, self.key()),
                Err(e) => !framed(encrypted_data@) && e == SecurityError::InvalidEncryptedData,
            },
    {
        if encrypted_data.len() < PREFIX_LEN || !starts_with_header(encrypted_data) {
            return Err(SecurityError::InvalidEncryptedData);
        }
        let data_len = read_le_u64(encrypted_data, HEADER_LEN) as usize;
        assert(encrypted_data@.subrange(HEADER_LEN as int, PREFIX_LEN as int) =~= encrypted_data@.subrange(
            HEADER_LEN as int,
            HEADER_LEN + 8,
        ));
        let n = self.master_key.len();
        let mut out: Vec<u8> = Vec::new();
        let ghost payload = encrypted_data@.subrange(PREFIX_LEN as int, PREFIX_LEN + data_len);
        let total = encrypted_data.len();
        let mut i: usize = 0;
        while i < data_len
            invariant
                i <= data_len,
                total == encrypted_data@.len(),
                PREFIX_LEN + data_len <= encrypted_data@.len(),
                payload == encrypted_data@.subrange(PREFIX_LEN as int, PREFIX_LEN + data_len),
                n == self.master_key@.len(),
                n == KEY_LEN,
                out@ == xor_with_key(payload.subrange(0, i as int), self.master_key@),
            decreases data_len - i,
        {
            let key_byte = self.master_key[i % n];
            out.push(encrypted_data[PREFIX_LEN + i] ^ key_byte);
            i = i + 1;
            assert(out@ =~= xor_with_key(payload.subrange(0, i as int), self.master_key@));
        }
        assert(payload.subrange(0, data_len as int) =~= payload);
        Ok(out)
    }
}

/// The header bytes.
fn header_bytes() -> (r: Vec<u8>)
    ensures
        r@ == encrypted_header(),
{
    let r = vec![65u8, 85, 82, 79, 82, 65, 95, 69, 78, 67, 82, 89, 80, 84, 69, 68, 95, 86, 49];
    assert(r@ =~= encrypted_header());
    r
}

/// Whether `b` starts with the header (given it is long enough).
fn starts_with_header(b: &[u8]) -> (r: bool)
    requires
        b@.len() >= HEADER_LEN,
    ensures
        r == (b@.subrange(0, HEADER_LEN as int) == encrypted_header()),
{
    let h = header_bytes();
    let mut i: usize = 0;
    while i < HEADER_LEN
        invariant
            i <= HEADER_LEN,
            b@.len() >= HEADER_LEN,
            h@ == encrypted_header(),
            forall|j: int| 0 <= j < i ==> b@[j] == h@[j],
        decreases HEADER_LEN - i,
    {
        if b[i] != h[i] {
            assert(b@.subrange(0, HEADER_LEN as int)[i as int] != encrypted_header()[i as int]);
            return false;
        }
        i = i + 1;
    }
    assert(b@.subrange(0, HEADER_LEN as int) =~= encrypted_header());
    true
}

/// Appends the 8 little-endian bytes of `n`.
fn push_le_bytes(v: &mut Vec<u8>, n: u64)
    ensures
        final(v)@ == old(v)@ + le_bytes(n),
{
    let mut k: u64 = 0;
    while k < 8
        invariant
            k <= 8,
            v@ == old(v)@ + le_bytes(n).subrange(0, k as int),
        decreases 8 - k,
    {
        let b = ((n >> (8 * k)) & 0xff) as u8;
        v.push(b);
        k = k + 1;
        assert(v@ =~= old(v)@ + le_bytes(n).subrange(0, k as int));
    }
    assert(le_bytes(n).subrange(0, 8) =~= le_bytes(n));
}

/// The number whose 8 little-endian bytes start at `at`.
fn read_le_u64(b: &[u8], at: usize) -> (r: u64)
    requires
        at + 8 <= b@.len(),
    ensures
        r == from_le_bytes(b@.subrange(at as int, at + 8)),
{
    let ghost s = b@.subrange(at as int, at + 8);
    assert(s[0] == b@[at as int] && s[1] == b@[at + 1] && s[2] == b@[at + 2] && s[3] == b@[at + 3]);
    assert(s[4] == b@[at + 4] && s[5] == b@[at + 5] && s[6] == b@[at + 6] && s[7] == b@[at + 7]);
    (b[at] as u64) | ((b[at + 1] as u64) << 8u64) | ((b[at + 2] as u64) << 16u64) | ((b[at + 3] as u64) << 24u64)
        | ((b[at + 4] as u64) << 32u64) | ((b[at + 5] as u64) << 40u64) | ((b[at + 6] as u64) << 48u64) | ((
    b[at + 7] as u64) << 56u64)
}

/// Reading back the 8 little-endian bytes of a number gives the number.
pub proof fn lemma_le_roundtrip(n: u64)
    ensures
        from_le_bytes(le_bytes(n)) == n,
{
    let b = le_bytes(n);
    assert(b[0] == ((n >> 0u64) & 0xff) as u8);
    assert(b[1] == ((n >> 8u64) & 0xff) as u8);
    assert(b[2] == ((n >> 16u64) & 0xff) as u8);
    assert(b[3] == ((n >> 24u64) & 0xff) as u8);
    assert(b[4] == ((n >> 32u64) & 0xff) as u8);
    assert(b[5] == ((n >> 40u64) & 0xff) as u8);
    assert(b[6] == ((n >> 48u64) & 0xff) as u8);
    assert(b[7] == ((n >> 56u64) & 0xff) as u8);
    let b0 = b[0];
    let b1 = b[1];
    let b2 = b[2];
    let b3 = b[3];
    let b4 = b[4];
    let b5 = b[5];
    let b6 = b[6];
    let b7 = b[7];
    assert((b0 as u64) | ((b1 as u64) << 8u64) | ((b2 as u64) << 16u64) | ((b3 as u64) << 24u64) | ((b4 as u64)
        << 32u64) | ((b5 as u64) << 40u64) | ((b6 as u64) << 48u64) | ((b7 as u64) << 56u64) == n) by (bit_vector)
        requires
            b0 == ((n >> 0u64) & 0xff) as u8,
            b1 == ((n >> 8u64) & 0xff) as u8,
            b2 == ((n >> 16u64) & 0xff) as u8,
            b3 == ((n >> 24u64) & 0xff) as u8,
            b4 == ((n >> 32u64) & 0xff) as u8,
            b5 == ((n >> 40u64) & 0xff) as u8,
            b6 == ((n >> 48u64) & 0xff) as u8,
            b7 == ((n >> 56u64) & 0xff) as u8,
    ;
}

/// Law (encryption round trip): decrypting the encrypted form of any data
/// with the same key gives the data back, and the encrypted form is always
/// framed and long enough for the length it announces.
pub proof fn law_decrypt_inverts_encrypt(data: Seq<u8>, key: Seq<u8>)
    requires
        key.len() > 0,
        data.len() <= u64::MAX,
    ensures
        framed(encrypted_form(data, key)),
        PREFIX_LEN + announced_len(encrypted_form(data, key)) <= encrypted_form(data, key).len(),
        decrypted_form(encrypted_form(data, key), key) == data,
{
    let e = encrypted_form(data, key);
    assert(e.subrange(0, HEADER_LEN as int) =~= encrypted_header());
    assert(e.subrange(HEADER_LEN as int, PREFIX_LEN as int) =~= le_bytes(data.len() as u64));
    lemma_le_roundtrip(data.len() as u64);
    let payload = e.subrange(PREFIX_LEN as int, PREFIX_LEN + data.len());
    assert(payload =~= xor_with_key(data, key));
    assert forall|i: int| 0 <= i < data.len() implies #[trigger] xor_with_key(payload, key)[i] == data[i] by {
        let d = data[i];
        let k = key[i % key.len() as int];
        assert((d ^ k) ^ k == d) by (bit_vector);
    }
    assert(decrypted_form(e, key) =~= data);
}

} // verus!
