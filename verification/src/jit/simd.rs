//! SIMD capabilities of the processor, and grouped counting.

use vstd::prelude::*;
use crate::text::{StringMap, decimal, decimal_string, owned};

verus! {

/// The vector instruction sets a processor offers.
#[derive(Debug, Clone, Copy, PartialEq, Eq, Structural)]
pub struct CpuFeatures {
    pub avx512f: bool,
    pub avx2: bool,
    pub sse41: bool,
}

/// The width in bytes of the widest vector registers: 64 with AVX-512, 32
/// with AVX2, 16 with SSE4.1, else 8.
pub open spec fn vector_size_for(f: CpuFeatures) -> usize {
    if f.avx512f {
        64
    } else if f.avx2 {
        32
    } else if f.sse41 {
        16
    } else {
        8
    }
}

/// The estimated speed-up of vector code: 8 with AVX-512, 4 with AVX2, 2
/// with SSE4.1, else 1.
pub open spec fn performance_multiplier(f: CpuFeatures) -> Seq<char> {
    if f.avx512f {
        "8"@
    } else if f.avx2 {
        "4"@
    } else if f.sse41 {
        "2"@
    } else {
        "1"@
    }
}

/// `true` or `false`.
pub open spec fn bool_text(b: bool) -> Seq<char> {
    if b {
        "true"@
    } else {
        "false"@
    }
}

/// Vector operations sized for the processor they run on.
#[derive(Debug)]
pub struct SimdProcessor {
    vector_size: usize,
    features: CpuFeatures,
}

impl SimdProcessor {
    /// The processor's instruction sets.
    pub closed spec fn cpu(&self) -> CpuFeatures {
        self.features
    }

    /// The register width in bytes.
    pub closed spec fn width(&self) -> usize {
        self.vector_size
    }

    /// A processor for the given instruction sets.
    pub fn new(features: CpuFeatures) -> (r: Self)
        ensures
            r.cpu() == features,
            r.width() == vector_size_for(features),
    {
        let vector_size = if features.avx512f {
            64
        } else if features.avx2 {
            32
        } else if features.sse41 {
            16
        } else {
            8
        };
        SimdProcessor { vector_size, features }
    }

    /// The register width in bytes.
    pub fn vector_size(&self) -> (r: usize)
        ensures
            r == self.width(),
    {
        self.vector_size
    }

    /// The capabilities as text: the vector size, each instruction set, and
    /// the estimated speed-up.
    pub fn get_simd_info(&self) -> (r: StringMap<String>)
        ensures
            r@.dom() == set![
                "vector_size_bytes"@,
                "avx512_enabled"@,
                "avx2_enabled"@,
                "sse41_enabled"@,
                "estimated_performance_multiplier"@,
            ],
            r@["vector_size_bytes"@]@ == decimal(self.width() as nat),
            r@["avx512_enabled"@]@ == bool_text(self.cpu().avx512f),
            r@["avx2_enabled"@]@ == bool_text(self.cpu().avx2),
            r@["sse41_enabled"@]@ == bool_text(self.cpu().sse41),
            r@["estimated_performance_multiplier"@]@ == performance_multiplier(self.cpu()),
    {
        proof {
            reveal_strlit("vector_size_bytes");
            reveal_strlit("avx512_enabled");
            reveal_strlit("avx2_enabled");
            reveal_strlit("sse41_enabled");
            reveal_strlit("estimated_performance_multiplier");
            assert("vector_size_bytes"@.len() == 17);
            assert("avx512_enabled"@.len() == 14);
            assert("avx2_enabled"@.len() == 12);
            assert("sse41_enabled"@.len() == 13);
            assert("estimated_performance_multiplier"@.len() == 32);
        }
        let mut info: StringMap<String> = StringMap::new();
        info.insert(owned("vector_size_bytes"), decimal_string(self.vector_size as u64));
        info.insert(owned("avx512_enabled"), bool_string(self.features.avx512f));
        info.insert(owned("avx2_enabled"), bool_string(self.features.avx2));
        info.insert(owned("sse41_enabled"), bool_string(self.features.sse41));
        let multiplier = if self.features.avx512f {
            owned("8")
        } else if self.features.avx2 {
            owned("4")
        } else if self.features.sse41 {
            owned("2")
        } else {
            owned("1")
        };
        info.insert(owned("estimated_performance_multiplier"), multiplier);
        assert(info@.dom() =~= set![
            "vector_size_bytes"@,
            "avx512_enabled"@,
            "avx2_enabled"@,
            "sse41_enabled"@,
            "estimated_performance_multiplier"@,
        ]);
        info
    }
}

/// `true` or `false` as a new string.
fn bool_string(b: bool) -> (r: String)
    ensures
        r@ == bool_text(b),
{
    if b {
        owned("true")
    } else {
        owned("false")
    }
}

/// How often `k` occurs in `data`.
pub open spec fn occurrences(data: Seq<String>, k: Seq<char>) -> nat
    decreases data.len(),
{
    if data.len() == 0 {
        0
    } else {
        occurrences(data.drop_last(), k) + (if data.last()@ == k {
            1nat
        } else {
            0nat
        })
    }
}

/// The count a group holds: its value, or 0 when absent.
pub open spec fn group_count(m: Map<Seq<char>, i64>, k: Seq<char>) -> int {
    if m.contains_key(k) {
        m[k] as int
    } else {
        0
    }
}

/// The counts after counting `data` into `m`: every key of either, with its
/// old count plus its number of occurrences.
pub open spec fn counted(m: Map<Seq<char>, i64>, data: Seq<String>) -> Map<Seq<char>, i64> {
    Map::new(
        |k: Seq<char>| m.contains_key(k) || occurrences(data, k) > 0,
        |k: Seq<char>| (group_count(m, k) + occurrences(data, k)) as i64,
    )
}

/// Grouped aggregation on top of a `SimdProcessor`.
#[derive(Debug)]
pub struct SimdAggregator {
    processor: SimdProcessor,
}

impl SimdAggregator {
    /// An aggregator for the given instruction sets.
    pub fn new(features: CpuFeatures) -> (r: Self)
        ensures
            r.processor_width() == vector_size_for(features),
    {
        SimdAggregator { processor: SimdProcessor::new(features) }
    }

    /// The register width of the underlying processor.
    pub closed spec fn processor_width(&self) -> usize {
        self.processor.width()
    }

    /// COUNT per group: adds one to the group of each key of `data`.
    pub fn count_simd(&self, groups: &mut StringMap<i64>, data: &[String])
        requires
            forall|k: Seq<char>| group_count(old(groups)@, k) + occurrences(data@, k) <= i64::MAX,
        ensures
            final(groups)@ == counted(old(groups)@, data@),
    {
        let ghost start = groups@;
        assert(counted(start, data@.subrange(0, 0)) =~= start) by {
            assert(data@.subrange(0, 0).len() == 0);
        }
        let mut i: usize = 0;
        while i < data.len()
            invariant
                i <= data@.len(),
                forall|k: Seq<char>| group_count(start, k) + occurrences(data@, k) <= i64::MAX,
                groups@ == counted(start, data@.subrange(0, i as int)),
            decreases data@.len() - i,
        {
            let key = &data[i];
            let ghost pre = data@.subrange(0, i as int);
            let ghost next = data@.subrange(0, i + 1);
            assert(next.drop_last() =~= pre);
            proof {
                lemma_occurrences_prefix(data@, i + 1, key@);
            }
            let current: i64 = match groups.get(key.as_str()) {
                Some(c) => *c,
                None => 0,
            };
            assert(current == group_count(start, key@) + occurrences(pre, key@));
            groups.insert(key.clone(), current + 1);
            i = i + 1;
            assert(groups@ =~= counted(start, next));
        }
        assert(data@.subrange(0, data@.len() as int) =~= data@);
    }
}

/// The occurrences in a prefix are no more than in the whole.
proof fn lemma_occurrences_prefix(data: Seq<String>, i: int, k: Seq<char>)
    requires
        0 <= i <= data.len(),
    ensures
        occurrences(data.subrange(0, i), k) <= occurrences(data, k),
    decreases data.len(),
{
    if i < data.len() {
        lemma_occurrences_prefix(data.drop_last(), i, k);
        assert(data.drop_last().subrange(0, i) =~= data.subrange(0, i));
    } else {
        assert(data.subrange(0, i) =~= data);
    }
}

/// Law (counting counts occurrences): after `count_simd`, each key's group
/// holds its old count plus the number of times the key occurs in the data,
/// and no other group is created.
pub proof fn law_count_adds_occurrences(m: Map<Seq<char>, i64>, data: Seq<String>, k: Seq<char>)
    requires
        group_count(m, k) + occurrences(data, k) <= i64::MAX,
    ensures
        group_count(counted(m, data), k) == group_count(m, k) + occurrences(data, k),
        counted(m, data).contains_key(k) <==> (m.contains_key(k) || occurrences(data, k) > 0),
{
}

} // verus!
