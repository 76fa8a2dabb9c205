//! SIMD capabilities as the vectoriser sees them.

use vstd::prelude::*;
use crate::text::{owned, views};

verus! {

/// Vector capabilities of the processor.
#[derive(Debug)]
pub struct SIMDCapabilities {
    /// In bits (128, 256, 512).
    pub max_vector_width: usize,
    pub supported_instructions: Vec<String>,
    /// Fused multiply-add.
    pub has_fma: bool,
    /// AVX-512 gather and scatter.
    pub has_gather_scatter: bool,
    /// L1 cache line size in bytes.
    pub cache_line_size: usize,
}

/// Kinds of operations that can be vectorised.
#[derive(Debug, Clone, Copy, PartialEq, Eq, Structural)]
pub enum OperationType {
    Arithmetic,
    Comparison,
    Aggregation,
    Filter,
    Projection,
    HashComputation,
}

/// The capabilities assumed for vectorisation: AVX2 (256-bit vectors) with
/// fused multiply-add, no gather or scatter, 64-byte cache lines.
pub open spec fn assumed_capabilities(c: SIMDCapabilities) -> bool {
    &&& c.max_vector_width == 256
    &&& views(c.supported_instructions@) == seq!["SSE2"@, "SSE4.2"@, "AVX"@, "AVX2"@]
    &&& c.has_fma
    &&& !c.has_gather_scatter
    &&& c.cache_line_size == 64
}

/// Vectorises query operations for the processor's capabilities.
#[derive(Debug)]
pub struct SIMDVectorizer {
    capabilities: SIMDCapabilities,
}

impl SIMDVectorizer {
    /// The capabilities used.
    pub closed spec fn caps(&self) -> SIMDCapabilities {
        self.capabilities
    }

    /// A vectoriser for the assumed capabilities.
    pub fn new() -> (r: Self)
        ensures
            assumed_capabilities(r.caps()),
    {
        SIMDVectorizer { capabilities: Self::detect_capabilities() }
    }

    /// The assumed capabilities (see `assumed_capabilities`).
    pub fn detect_capabilities() -> (r: SIMDCapabilities)
        ensures
            assumed_capabilities(r),
    {
        let instructions = vec![owned("SSE2"), owned("SSE4.2"), owned("AVX"), owned("AVX2")];
        assert(views(instructions@) =~= seq!["SSE2"@, "SSE4.2"@, "AVX"@, "AVX2"@]);
        SIMDCapabilities {
            max_vector_width: 256,
            supported_instructions: instructions,
            has_fma: true,
            has_gather_scatter: false,
            cache_line_size: 64,
        }
    }

    /// The capabilities used.
    pub fn capabilities(&self) -> (r: &SIMDCapabilities)
        ensures
            *r == self.caps(),
    {
        &self.capabilities
    }
}

} // verus!
