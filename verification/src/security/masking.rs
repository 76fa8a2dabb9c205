//! Data masking: hiding the values of chosen fields of a record.

use vstd::prelude::*;
use crate::ambient::{hash_text, json_quote, json_string_text};
use crate::text::{
    hex_of_some,
    StringMap, chars_of, contains_text, hex, keys_unique, owned, push_hex, string_of_chars,
    strings_contain,
};
use crate::security::SecurityError;

verus! {

/// How a masked value is hidden.
#[derive(Debug, Clone, Copy, PartialEq, Eq, Structural)]
pub enum MaskingType {
    /// Replaced by `*MASKED*`.
    FullMask,
    /// Text shows only its last four characters (e.g. `XXXX1234`).
    PartialMask,
    /// Replaced by the hash of its JSON text.
    HashMask,
    /// Replaced by null.
    Nullify,
}

/// Which fields to mask, and how.
#[derive(Debug)]
pub struct MaskingPolicy {
    pub name: String,
    pub fields_to_mask: Vec<String>,
    pub masking_type: MaskingType,
    pub roles_exempt: Vec<String>,
}

/// The value of a field: null, a text, or any other JSON value kept as its
/// JSON text (numbers, booleans, arrays, objects).
#[derive(Debug)]
pub enum FieldValue {
    Null,
    Text(String),
    Other(String),
}

/// Data to mask: a record of named fields, or a single value (left as it
/// is).
#[derive(Debug)]
pub enum MaskableData {
    Record(StringMap<FieldValue>),
    Value(FieldValue),
}

/// ASCII letters and digits.
pub open spec fn is_alphanumeric(c: char) -> bool {
    ('0' <= c && c <= '9') || ('a' <= c && c <= 'z') || ('A' <= c && c <= 'Z')
}

/// Partial masking of a text: at most four characters become all `*`;
/// longer texts keep their last four characters, and before them every
/// letter or digit becomes `X` while other characters stay.
pub open spec fn partially_masked(s: Seq<char>) -> Seq<char> {
    if s.len() <= 4 {
        Seq::new(s.len(), |i: int| '*')
    } else {
        Seq::new(s.len(), |i: int| if i < s.len() - 4 && is_alphanumeric(s[i]) { 'X' } else { s[i] })
    }
}

/// The JSON text of a value.
pub open spec fn json_text(v: FieldValue) -> Seq<char> {
    match v {
        FieldValue::Null => "null"@,
        FieldValue::Text(s) => json_string_text(s@),
        FieldValue::Other(t) => t@,
    }
}

/// Whether `r` is `v` masked as `t` says.
pub open spec fn masked_as(r: FieldValue, v: FieldValue, t: MaskingType) -> bool {
    match t {
        MaskingType::FullMask => r matches FieldValue::Text(s) && s@ == "*MASKED*"@,
        MaskingType::PartialMask => match v {
            FieldValue::Text(s) => r matches FieldValue::Text(s2) && s2@ == partially_masked(s@),
            _ => r == v,
        },
        MaskingType::HashMask => r matches FieldValue::Text(s) && hex_of_some(s@),
        MaskingType::Nullify => r is Null,
    }
}

/// Whether `out` is `data` with the fields named by the policy masked: the
/// same fields in the same order, masked values in place of the named ones.
pub open spec fn masking_result(out: MaskableData, data: MaskableData, policy: MaskingPolicy) -> bool {
    match data {
        MaskableData::Record(m) => out matches MaskableData::Record(m2) && m2.entry_seq().len()
            == m.entry_seq().len() && forall|i: int|
            0 <= i < m.entry_seq().len() ==> #[trigger] m2.entry_seq()[i].0@ == m.entry_seq()[i].0@ && (if contains_text(
                policy.fields_to_mask@,
                m.entry_seq()[i].0@,
            ) {
                masked_as(m2.entry_seq()[i].1, m.entry_seq()[i].1, policy.masking_type)
            } else {
                m2.entry_seq()[i].1 == m.entry_seq()[i].1
            }),
        MaskableData::Value(v) => out matches MaskableData::Value(v2) && v2 == v,
    }
}

impl FieldValue {
    /// A copy of the value.
    pub fn duplicate(&self) -> (r: Self)
        ensures
            r == *self,
    {
        match self {
            FieldValue::Null => FieldValue::Null,
            FieldValue::Text(s) => FieldValue::Text(s.clone()),
            FieldValue::Other(t) => FieldValue::Other(t.clone()),
        }
    }

    /// The JSON text of the value.
    pub fn to_json_text(&self) -> (r: String)
        ensures
            r@ == json_text(*self),
    {
        match self {
            FieldValue::Null => owned("null"),
            FieldValue::Text(s) => json_quote(s.as_str()),
            FieldValue::Other(t) => t.clone(),
        }
    }
}

/// Masks values by policy.
pub struct DataMaskingEngine {
    policies: StringMap<MaskingPolicy>,
}

impl DataMaskingEngine {
    /// The policies the engine stores, by name.
    pub closed spec fn stored_policies(&self) -> Map<Seq<char>, MaskingPolicy> {
        self.policies@
    }

    /// An engine without stored policies.
    pub fn new() -> (r: Self)
        ensures
            r.stored_policies() == Map::<Seq<char>, MaskingPolicy>::empty(),
    {
        DataMaskingEngine { policies: StringMap::new() }
    }

    /// Masks the fields of a record that the policy names; any other data is
    /// returned as it is.
    pub fn apply_masking(&self, data: &MaskableData, policy: &MaskingPolicy) -> (r: Result<MaskableData, SecurityError>)
        ensures
            r matches Ok(out) && masking_result(out, *data, *policy),
    {
        match data {
            MaskableData::Record(m) => {
                let n = m.len();
                let mut out: StringMap<FieldValue> = StringMap::new();
                let mut i: usize = 0;
                while i < n
                    invariant
                        i <= n,
                        n == m.entry_seq().len(),
                        keys_unique(m.entry_seq()),
                        out.entry_seq().len() == i,
                        forall|j: int|
                            0 <= j < i ==> #[trigger] out.entry_seq()[j].0@ == m.entry_seq()[j].0@ && (if contains_text(
                                policy.fields_to_mask@,
                                m.entry_seq()[j].0@,
                            ) {
                                masked_as(out.entry_seq()[j].1, m.entry_seq()[j].1, policy.masking_type)
                            } else {
                                out.entry_seq()[j].1 == m.entry_seq()[j].1
                            }),
                    decreases n - i,
                {
                    let (key, value) = m.entry_at(i);
                    let new_value = if strings_contain(&policy.fields_to_mask, key.as_str()) {
                        mask_value(value, policy)
                    } else {
                        value.duplicate()
                    };
                    proof {
                        out.lemma_view();
                        if out@.contains_key(key@) {
                            let j = choose|j: int|
                                0 <= j < out.entry_seq().len() && #[trigger] out.entry_seq()[j].0@ == key@;
                            assert(m.entry_seq()[j].0@ == m.entry_seq()[i as int].0@);
                        }
                    }
                    let ghost before = out.entry_seq();
                    out.insert(key.clone(), new_value);
                    assert(out.entry_seq() == before.push((*key, new_value)));
                    i = i + 1;
                }
                Ok(MaskableData::Record(out))
            },
            MaskableData::Value(v) => Ok(MaskableData::Value(v.duplicate())),
        }
    }
}

/// A value masked as the policy says.
fn mask_value(value: &FieldValue, policy: &MaskingPolicy) -> (r: FieldValue)
    ensures
        masked_as(r, *value, policy.masking_type),
{
    match policy.masking_type {
        MaskingType::FullMask => FieldValue::Text(owned("*MASKED*")),
        MaskingType::PartialMask => match value {
            FieldValue::Text(s) => FieldValue::Text(partial_mask(s.as_str())),
            _ => value.duplicate(),
        },
        MaskingType::HashMask => {
            let text = value.to_json_text();
            let h = hash_text(text.as_str());
            let mut out = String::new();
            push_hex(&mut out, h);
            assert(out@ == hex(h as nat));
            FieldValue::Text(out)
        },
        MaskingType::Nullify => FieldValue::Null,
    }
}

/// Whether a character is an ASCII letter or digit.
fn alphanumeric(c: char) -> (r: bool)
    ensures
        r == is_alphanumeric(c),
{
    ('0' <= c && c <= '9') || ('a' <= c && c <= 'z') || ('A' <= c && c <= 'Z')
}

/// Partial masking of a text (see `partially_masked`).
pub fn partial_mask(s: &str) -> (r: String)
    ensures
        r@ == partially_masked(s@),
{
    let cs = chars_of(s);
    let n = cs.len();
    let mut out: Vec<char> = Vec::new();
    let mut i: usize = 0;
    while i < n
        invariant
            i <= n,
            n == s@.len(),
            cs@ == s@,
            out@ == partially_masked(s@).subrange(0, i as int),
        decreases n - i,
    {
        let c = cs[i];
        let m = if n <= 4 {
            '*'
        } else if i < n - 4 && alphanumeric(c) {
            'X'
        } else {
            c
        };
        out.push(m);
        i = i + 1;
        assert(out@ =~= partially_masked(s@).subrange(0, i as int));
    }
    assert(out@ =~= partially_masked(s@));
    string_of_chars(&out)
}

} // verus!
