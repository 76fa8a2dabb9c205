//! Time series: Gorilla-style compression of points, and series kept in
//! chunks of a fixed number of points.

use vstd::prelude::*;
use vstd::std_specs::bits::{u64_leading_zeros, u64_trailing_zeros, axiom_u64_leading_zeros, axiom_u64_trailing_zeros};
use crate::text::{StringMap, copy_bytes, owned};

verus! {

/// A point of a time series.  The value is kept as the bits of an IEEE-754
/// double.
#[derive(Debug)]
pub struct TimeSeriesPoint {
    /// Unix time in milliseconds.
    pub timestamp: i64,
    pub value_bits: u64,
    pub tags: StringMap<String>,
}

/// Time series settings.
#[derive(Debug, Clone, Copy, PartialEq, Eq, Structural)]
pub struct TimeSeriesConfig {
    /// Points per chunk.
    pub chunk_size: usize,
    pub compression_enabled: bool,
    pub retention_period_days: u32,
    pub adaptive_chunking: bool,
}

/// Aggregations over a time range.
#[derive(Debug, Clone, Copy, PartialEq, Eq, Structural)]
pub enum AggregationType {
    Sum,
    Avg,
    Min,
    Max,
    Count,
}

/// The little-endian bytes of the low `n` bytes of `x`.
pub open spec fn low_bytes(x: u64, n: nat) -> Seq<u8> {
    Seq::new(n, |i: int| ((x >> (8 * i) as u64) & 0xff) as u8)
}

/// The encoding of a timestamp delta: one zero byte for no change; else a
/// one byte, then the delta in one byte (-63 to 64), or a `2` byte and two
/// bytes (-255 to 256), or a `3` byte and four bytes.
pub open spec fn timestamp_code(delta: i64) -> Seq<u8> {
    if delta == 0 {
        seq![0u8]
    } else if -63 <= delta && delta <= 64 {
        seq![1u8, delta as u8]
    } else if -255 <= delta && delta <= 256 {
        seq![1u8, 2u8] + low_bytes(delta as u64, 2)
    } else {
        seq![1u8, 3u8] + low_bytes(delta as u64, 4)
    }
}

/// The encoding of the XOR of a value with the previous one: one zero byte
/// when equal; else a one byte, two bytes that describe the leading zeros,
/// significant bits and trailing zeros, then as many low bytes of the XOR
/// as its significant bits need.
pub open spec fn value_code(x: u64) -> Seq<u8> {
    if x == 0 {
        seq![0u8]
    } else {
        let lz = u64_leading_zeros(x);
        let tz = u64_trailing_zeros(x) as int;
        let sig = 64 - lz - tz;
        (if lz >= 32 {
            seq![1u8, 0u8, ((((lz - 32) as u32) << 2u32) | ((sig - 1) as u32)) as u8]
        } else {
            seq![1u8, lz as u8, ((((sig - 1) as u32) << 2u32) | ((tz as u32) & 3u32)) as u8]
        }) + low_bytes(x, ((sig + 7) / 8) as nat)
    }
}

/// A nonzero word has at most 63 leading and trailing zeros together.
proof fn lemma_zeros_bound(x: u64)
    requires
        x != 0,
    ensures
        u64_leading_zeros(x) + u64_trailing_zeros(x) <= 63,
        u64_leading_zeros(x) <= 63,
        u64_trailing_zeros(x) <= 63,
{
    axiom_u64_leading_zeros(x);
    axiom_u64_trailing_zeros(x);
    let lz = u64_leading_zeros(x);
    let tz = u64_trailing_zeros(x);
    if lz + tz > 63 {
        let j: u64 = (63 - lz) as u64;
        assert(j < tz);
        assert((x >> j) & 1u64 == 0u64);
    }
}

/// Gorilla compression of a series of points.
#[derive(Debug)]
pub struct GorillaCompressor {
    prev_timestamp: i64,
    prev_value_bits: u64,
    buffer: Vec<u8>,
}

impl GorillaCompressor {
    /// The encoded bytes so far.
    pub closed spec fn data(&self) -> Seq<u8> {
        self.buffer@
    }

    /// The last timestamp compressed (0 at first).
    pub closed spec fn last_timestamp(&self) -> i64 {
        self.prev_timestamp
    }

    /// The bits of the last value compressed (0 at first).
    pub closed spec fn last_value_bits(&self) -> u64 {
        self.prev_value_bits
    }

    /// A compressor with nothing encoded.
    pub fn new() -> (r: Self)
        ensures
            r.data().len() == 0,
            r.last_timestamp() == 0,
            r.last_value_bits() == 0,
    {
        GorillaCompressor { prev_timestamp: 0, prev_value_bits: 0, buffer: Vec::new() }
    }

    /// Appends the encoding of a point: the change of timestamp, then the
    /// XOR of the value bits with the previous ones.
    pub fn compress(&mut self, point: &TimeSeriesPoint) -> (r: Result<(), TimeSeriesError>)
        requires
            i64::MIN <= point.timestamp - old(self).last_timestamp() <= i64::MAX,
        ensures
            r is Ok,
            final(self).data() == old(self).data() + timestamp_code(
                (point.timestamp - old(self).last_timestamp()) as i64,
            ) + value_code(point.value_bits ^ old(self).last_value_bits()),
            final(self).last_timestamp() == point.timestamp,
            final(self).last_value_bits() == point.value_bits,
    {
        let delta = point.timestamp - self.prev_timestamp;
        self.compress_timestamp(delta);
        let xor = point.value_bits ^ self.prev_value_bits;
        self.compress_value(xor);
        self.prev_timestamp = point.timestamp;
        self.prev_value_bits = point.value_bits;
        Ok(())
    }

    /// Appends the encoding of a timestamp delta.
    fn compress_timestamp(&mut self, delta: i64)
        ensures
            final(self).data() == old(self).data() + timestamp_code(delta),
            final(self).last_timestamp() == old(self).last_timestamp(),
            final(self).last_value_bits() == old(self).last_value_bits(),
    {
        let ghost start = self.buffer@;
        if delta == 0 {
            self.buffer.push(0);
        } else if delta >= -63 && delta <= 64 {
            self.buffer.push(1);
            self.buffer.push(delta as u8);
        } else if delta >= -255 && delta <= 256 {
            self.buffer.push(1);
            self.buffer.push(2);
            push_low_bytes(&mut self.buffer, delta as u64, 2);
        } else {
            self.buffer.push(1);
            self.buffer.push(3);
            push_low_bytes(&mut self.buffer, delta as u64, 4);
        }
        assert(self.buffer@ =~= start + timestamp_code(delta));
    }

    /// Appends the encoding of a value XOR.
    fn compress_value(&mut self, xor_value: u64)
        ensures
            final(self).data() == old(self).data() + value_code(xor_value),
            final(self).last_timestamp() == old(self).last_timestamp(),
            final(self).last_value_bits() == old(self).last_value_bits(),
    {
        let ghost start = self.buffer@;
        if xor_value == 0 {
            self.buffer.push(0);
            assert(self.buffer@ =~= start + value_code(xor_value));
        } else {
            proof {
                lemma_zeros_bound(xor_value);
            }
            let leading_zeros: u32 = xor_value.leading_zeros();
            let trailing_zeros: u32 = xor_value.trailing_zeros();
            let significant_bits: u32 = 64 - leading_zeros - trailing_zeros;
            let ghost head = self.buffer@;
            if leading_zeros >= 32 {
                self.buffer.push(1);
                self.buffer.push(0);
                self.buffer.push((((leading_zeros - 32) << 2u32) | (significant_bits - 1)) as u8);
            } else {
                self.buffer.push(1);
                self.buffer.push(leading_zeros as u8);
                self.buffer.push((((significant_bits - 1) << 2u32) | (trailing_zeros & 3)) as u8);
            }
            let bytes_needed = ((significant_bits + 7) / 8) as usize;
            push_low_bytes(&mut self.buffer, xor_value, bytes_needed);
            assert(self.buffer@ =~= start + value_code(xor_value));
        }
    }

    /// The encoded bytes so far.
    pub fn get_compressed_data(&self) -> (r: &Vec<u8>)
        ensures
            r@ == self.data(),
    {
        &self.buffer
    }
}

/// Appends the `n` low bytes of `x`, least significant first.
fn push_low_bytes(buf: &mut Vec<u8>, x: u64, n: usize)
    requires
        n <= 8,
    ensures
        final(buf)@ == old(buf)@ + low_bytes(x, n as nat),
{
    let mut i: usize = 0;
    while i < n
        invariant
            i <= n <= 8,
            buf@ == old(buf)@ + low_bytes(x, i as nat),
        decreases n - i,
    {
        let b = ((x >> ((i as u64) * 8)) & 0xff) as u8;
        buf.push(b);
        i = i + 1;
        assert(buf@ =~= old(buf)@ + low_bytes(x, i as nat));
    }
}

/// The time and value bits of a point.
pub open spec fn point_key(p: TimeSeriesPoint) -> (i64, u64) {
    (p.timestamp, p.value_bits)
}

/// The times and value bits of a list of points.
pub open spec fn point_keys(ps: Seq<TimeSeriesPoint>) -> Seq<(i64, u64)> {
    ps.map_values(|p: TimeSeriesPoint| point_key(p))
}

/// Whether each point's time differs from the previous one's (from 0 for
/// the first) by an amount that fits in `i64`.
pub open spec fn deltas_fit(ps: Seq<(i64, u64)>) -> bool {
    forall|i: int| 0 <= i < ps.len() ==> #[trigger] delta_fits(ps, i)
}

/// Whether the time of point `i` differs from the previous one's (from 0
/// for the first) by an amount that fits in `i64`.
pub open spec fn delta_fits(ps: Seq<(i64, u64)>, i: int) -> bool {
    i64::MIN <= ps[i].0 - (if i == 0 {
        0i64
    } else {
        ps[i - 1].0
    }) <= i64::MAX
}

/// The Gorilla encoding of a list of points, from a fresh compressor.
pub open spec fn gorilla_encoding(ps: Seq<(i64, u64)>) -> Seq<u8>
    decreases ps.len(),
{
    if ps.len() == 0 {
        Seq::empty()
    } else {
        let prev: (i64, u64) = if ps.len() == 1 {
            (0i64, 0u64)
        } else {
            ps[ps.len() - 2]
        };
        gorilla_encoding(ps.drop_last()) + timestamp_code((ps.last().0 - prev.0) as i64) + value_code(
            ps.last().1 ^ prev.1,
        )
    }
}

/// A chunk of a series.
#[derive(Debug)]
pub struct TimeSeriesChunk {
    pub series_id: String,
    pub start_time: i64,
    pub end_time: i64,
    pub points: Vec<TimeSeriesPoint>,
    pub compressed_data: Option<Vec<u8>>,
}

/// The number of points a chunk holds when full (at least one).
pub open spec fn chunk_capacity(config: TimeSeriesConfig) -> nat {
    if config.chunk_size == 0 {
        1
    } else {
        config.chunk_size as nat
    }
}

/// The points of a list of chunks, in order.
pub open spec fn chunk_list_points(cs: Seq<TimeSeriesChunk>) -> Seq<(i64, u64)>
    decreases cs.len(),
{
    if cs.len() == 0 {
        Seq::empty()
    } else {
        chunk_list_points(cs.drop_last()) + point_keys(cs.last().points@)
    }
}

/// A well-formed chunk: not empty, no fuller than the capacity, spanning
/// the times of its first and last points, with the encoding of its points
/// once it is full (when compression is on).
pub open spec fn chunk_ok(c: TimeSeriesChunk, config: TimeSeriesConfig) -> bool {
    let ks = point_keys(c.points@);
    &&& 1 <= ks.len() <= chunk_capacity(config)
    &&& c.start_time == ks[0].0
    &&& c.end_time == ks.last().0
    &&& deltas_fit(ks)
    &&& if config.compression_enabled && ks.len() >= config.chunk_size {
        c.compressed_data matches Some(d) && d@ == gorilla_encoding(ks)
    } else {
        c.compressed_data is None
    }
}

/// A well-formed list of chunks: every chunk well formed, every chunk but
/// the last full.
pub open spec fn chunks_ok(cs: Seq<TimeSeriesChunk>, config: TimeSeriesConfig) -> bool {
    &&& forall|i: int| 0 <= i < cs.len() ==> #[trigger] chunk_ok(cs[i], config)
    &&& forall|i: int| 0 <= i < cs.len() - 1 ==> #[trigger] cs[i].points@.len() == chunk_capacity(config)
}

/// A point as plain values: its time, value bits and tags.
pub open spec fn point_view(p: TimeSeriesPoint) -> (i64, u64, Map<Seq<char>, String>) {
    (p.timestamp, p.value_bits, p.tags@)
}

/// The plain values of a list of points.
pub open spec fn point_views(ps: Seq<TimeSeriesPoint>) -> Seq<(i64, u64, Map<Seq<char>, String>)> {
    ps.map_values(|p: TimeSeriesPoint| point_view(p))
}

/// The points whose time lies in `[start, end]`, in order.
pub open spec fn points_in_range(ps: Seq<TimeSeriesPoint>, start: i64, end: i64) -> Seq<(i64, u64, Map<Seq<char>, String>)>
    decreases ps.len(),
{
    if ps.len() == 0 {
        Seq::empty()
    } else if start <= ps.last().timestamp <= end {
        points_in_range(ps.drop_last(), start, end).push(point_view(ps.last()))
    } else {
        points_in_range(ps.drop_last(), start, end)
    }
}

/// Whether a range query reads the points of a chunk: the chunk's span
/// meets `[start, end]`.  A compressed chunk keeps its points beside their
/// encoding, and they are read from there.
pub open spec fn chunk_read(c: TimeSeriesChunk, start: i64, end: i64) -> bool {
    c.end_time >= start && c.start_time <= end
}

/// The points a range query finds in a list of chunks, in order.
pub open spec fn range_points(cs: Seq<TimeSeriesChunk>, start: i64, end: i64) -> Seq<(i64, u64, Map<Seq<char>, String>)>
    decreases cs.len(),
{
    if cs.len() == 0 {
        Seq::empty()
    } else if chunk_read(cs.last(), start, end) {
        range_points(cs.drop_last(), start, end) + points_in_range(cs.last().points@, start, end)
    } else {
        range_points(cs.drop_last(), start, end)
    }
}

/// Inserts a point after every point of no later time.
pub open spec fn insert_by_time(
    s: Seq<(i64, u64, Map<Seq<char>, String>)>,
    x: (i64, u64, Map<Seq<char>, String>),
) -> Seq<(i64, u64, Map<Seq<char>, String>)>
    decreases s.len(),
{
    if s.len() == 0 {
        seq![x]
    } else if s.last().0 > x.0 {
        insert_by_time(s.drop_last(), x).push(s.last())
    } else {
        s.push(x)
    }
}

/// The points in time order, points of equal time keeping their order (a
/// stable sort).
pub open spec fn sort_by_time(s: Seq<(i64, u64, Map<Seq<char>, String>)>) -> Seq<(i64, u64, Map<Seq<char>, String>)>
    decreases s.len(),
{
    if s.len() == 0 {
        Seq::empty()
    } else {
        insert_by_time(sort_by_time(s.drop_last()), s.last())
    }
}

proof fn lemma_insert_by_time_at(
    s: Seq<(i64, u64, Map<Seq<char>, String>)>,
    x: (i64, u64, Map<Seq<char>, String>),
    j: int,
)
    requires
        0 <= j <= s.len(),
        forall|k: int| j <= k < s.len() ==> #[trigger] s[k].0 > x.0,
        j == 0 || s[j - 1].0 <= x.0,
    ensures
        insert_by_time(s, x) == s.insert(j, x),
    decreases s.len(),
{
    if j == s.len() {
        if s.len() == 0 {
            assert(s.insert(j, x) =~= seq![x]);
        } else {
            assert(s.insert(j, x) =~= s.push(x));
        }
    } else {
        assert(s[s.len() - 1].0 > x.0);
        lemma_insert_by_time_at(s.drop_last(), x, j);
        assert(s.drop_last().insert(j, x).push(s.last()) =~= s.insert(j, x));
    }
}

/// Puts a copy of the point into the time-ordered list, after every point
/// of no later time.
fn insert_point_by_time(out: &mut Vec<TimeSeriesPoint>, p: &TimeSeriesPoint)
    ensures
        point_views(final(out)@) == insert_by_time(point_views(old(out)@), point_view(*p)),
{
    let mut j: usize = out.len();
    let mut settled = false;
    while j > 0 && !settled
        invariant
            j <= out@.len(),
            forall|k: int| j <= k < out@.len() ==> #[trigger] out@[k].timestamp > p.timestamp,
            settled ==> j > 0 && out@[j - 1].timestamp <= p.timestamp,
        decreases j + if settled {
            0int
        } else {
            1int
        },
    {
        if out[j - 1].timestamp > p.timestamp {
            j = j - 1;
        } else {
            settled = true;
        }
    }
    let copy = TimeSeriesPoint { timestamp: p.timestamp, value_bits: p.value_bits, tags: p.tags.duplicate() };
    proof {
        let vs = point_views(out@);
        assert forall|k: int| j <= k < vs.len() implies #[trigger] vs[k].0 > point_view(*p).0 by {
            assert(vs[k] == point_view(out@[k]));
        }
        if j > 0 {
            assert(vs[j - 1] == point_view(out@[j - 1]));
        }
        lemma_insert_by_time_at(vs, point_view(*p), j as int);
    }
    let ghost before = out@;
    out.insert(j, copy);
    assert(point_views(out@) =~= point_views(before).insert(j as int, point_view(*p)));
}

/// Stores series in chunks.
#[derive(Debug)]
pub struct TimeSeriesEngine {
    config: TimeSeriesConfig,
    chunks: StringMap<Vec<TimeSeriesChunk>>,
}

impl TimeSeriesEngine {
    /// The settings.
    pub closed spec fn settings(&self) -> TimeSeriesConfig {
        self.config
    }

    /// The chunks of a series (none for an unknown series).
    pub closed spec fn series_chunks(&self, id: Seq<char>) -> Seq<TimeSeriesChunk> {
        if self.chunks@.contains_key(id) {
            self.chunks@[id]@
        } else {
            Seq::empty()
        }
    }

    /// The points of a series, in the order they were inserted.
    pub open spec fn series_points(&self, id: Seq<char>) -> Seq<(i64, u64)> {
        chunk_list_points(self.series_chunks(id))
    }

    /// Every series is a well-formed list of chunks.
    pub closed spec fn wf(&self) -> bool {
        forall|id: Seq<char>| #[trigger] chunks_ok(self.series_chunks(id), self.config)
    }

    /// An engine without series.
    pub fn new(config: TimeSeriesConfig) -> (r: Self)
        ensures
            r.wf(),
            r.settings() == config,
            forall|id: Seq<char>| #[trigger] r.series_chunks(id).len() == 0,
    {
        TimeSeriesEngine { config, chunks: StringMap::new() }
    }

    /// The time of the last point of a series, if any.
    pub open spec fn last_time(&self, id: Seq<char>) -> Option<i64> {
        if self.series_chunks(id).len() == 0 {
            None
        } else {
            Some(point_keys(self.series_chunks(id).last().points@).last().0)
        }
    }

    /// For each chunk of a series, in order: its first and last times, its
    /// number of points, and whether it holds compressed data.
    pub fn chunks_of(&self, series_id: &str) -> (r: Vec<(i64, i64, usize, bool)>)
        ensures
            r@.len() == self.series_chunks(series_id@).len(),
            forall|i: int|
                0 <= i < r@.len() ==> #[trigger] r@[i] == (
                    self.series_chunks(series_id@)[i].start_time,
                    self.series_chunks(series_id@)[i].end_time,
                    self.series_chunks(series_id@)[i].points@.len() as usize,
                    self.series_chunks(series_id@)[i].compressed_data is Some,
                ),
    {
        let mut out: Vec<(i64, i64, usize, bool)> = Vec::new();
        match self.chunks.get(series_id) {
            Some(list) => {
                let mut i: usize = 0;
                while i < list.len()
                    invariant
                        i <= list@.len(),
                        list@ == self.series_chunks(series_id@),
                        out@.len() == i,
                        forall|j: int|
                            0 <= j < i ==> #[trigger] out@[j] == (
                                list@[j].start_time,
                                list@[j].end_time,
                                list@[j].points@.len() as usize,
                                list@[j].compressed_data is Some,
                            ),
                    decreases list@.len() - i,
                {
                    let c = &list[i];
                    out.push((c.start_time, c.end_time, c.points.len(), c.compressed_data.is_some()));
                    i = i + 1;
                }
            },
            None => {},
        }
        out
    }

    /// The points of a series whose time lies in `[start_time, end_time]`,
    /// in time order (points of equal time in the order they were
    /// inserted), read from the chunks whose span meets the range.
    pub fn query_range(&self, series_id: &str, start_time: i64, end_time: i64) -> (r: Result<
        Vec<TimeSeriesPoint>,
        TimeSeriesError,
    >)
        ensures
            r matches Ok(ps) && point_views(ps@) == sort_by_time(
                range_points(self.series_chunks(series_id@), start_time, end_time),
            ),
    {
        let mut out: Vec<TimeSeriesPoint> = Vec::new();
        match self.chunks.get(series_id) {
            Some(list) => {
                let ghost cs = list@;
                assert(cs == self.series_chunks(series_id@));
                let mut k: usize = 0;
                assert(cs.take(0) =~= Seq::<TimeSeriesChunk>::empty());
                while k < list.len()
                    invariant
                        k <= cs.len(),
                        cs == list@,
                        point_views(out@) == sort_by_time(range_points(cs.take(k as int), start_time, end_time)),
                    decreases list.len() - k,
                {
                    let c = &list[k];
                    let ghost before = range_points(cs.take(k as int), start_time, end_time);
                    assert(cs.take(k as int + 1).drop_last() =~= cs.take(k as int));
                    assert(cs.take(k as int + 1).last() == *c);
                    if c.end_time >= start_time && c.start_time <= end_time {
                        let mut i: usize = 0;
                        assert(c.points@.take(0) =~= Seq::<TimeSeriesPoint>::empty());
                        assert(before + points_in_range(c.points@.take(0), start_time, end_time) =~= before);
                        while i < c.points.len()
                            invariant
                                i <= c.points@.len(),
                                point_views(out@) == sort_by_time(
                                    before + points_in_range(c.points@.take(i as int), start_time, end_time),
                                ),
                            decreases c.points.len() - i,
                        {
                            let p = &c.points[i];
                            let ghost found = before + points_in_range(c.points@.take(i as int), start_time, end_time);
                            assert(c.points@.take(i as int + 1).drop_last() =~= c.points@.take(i as int));
                            assert(c.points@.take(i as int + 1).last() == *p);
                            if start_time <= p.timestamp && p.timestamp <= end_time {
                                insert_point_by_time(&mut out, p);
                                assert((found.push(point_view(*p))).drop_last() =~= found);
                                assert(before + points_in_range(c.points@.take(i as int + 1), start_time, end_time)
                                    =~= found.push(point_view(*p)));
                            } else {
                                assert(before + points_in_range(c.points@.take(i as int + 1), start_time, end_time)
                                    =~= found);
                            }
                            i = i + 1;
                        }
                        assert(c.points@.take(i as int) =~= c.points@);
                    }
                    k = k + 1;
                }
                assert(cs.take(k as int) =~= cs);
            },
            None => {
                assert(self.series_chunks(series_id@) =~= Seq::<TimeSeriesChunk>::empty());
            },
        }
        Ok(out)
    }

    /// Appends a point to a series: to its last chunk while that is not
    /// full, else to a new chunk.  A chunk that becomes full is compressed
    /// when compression is on.
    pub fn insert_point(&mut self, series_id: &str, point: TimeSeriesPoint) -> (r: Result<(), TimeSeriesError>)
        requires
            old(self).wf(),
            old(self).last_time(series_id@) matches Some(t) ==> i64::MIN <= point.timestamp - t <= i64::MAX,
        ensures
            r is Ok,
            final(self).wf(),
            final(self).settings() == old(self).settings(),
            final(self).series_points(series_id@) == old(self).series_points(series_id@).push(point_key(point)),
            forall|id: Seq<char>| id != series_id@ ==> #[trigger] final(self).series_chunks(id) == old(self).series_chunks(id),
    {
        let cap: usize = if self.config.chunk_size == 0 {
            1
        } else {
            self.config.chunk_size
        };
        let ghost old_chunks = self.series_chunks(series_id@);
        let ghost old_map = self.chunks@;
        let mut list: Vec<TimeSeriesChunk> = match self.chunks.position(series_id) {
            Some(i) => self.chunks.swap_value(i, Vec::new()),
            None => Vec::new(),
        };
        assert(list@ == old_chunks);
        proof {
            assert(chunks_ok(old_chunks, self.config));
        }
        let ts = point.timestamp;
        let ghost key = point_key(point);
        let need_new = list.len() == 0 || list[list.len() - 1].points.len() >= cap;
        if need_new {
            list.push(
                TimeSeriesChunk {
                    series_id: owned(series_id),
                    start_time: ts,
                    end_time: ts,
                    points: Vec::new(),
                    compressed_data: None,
                },
            );
        }
        let ghost mid = list@;
        let mut chunk = match list.pop() {
            Some(c) => c,
            None => {
                proof {
                    assert(false);
                }
                return Ok(());
            },
        };
        let ghost before_points = chunk.points@;
        chunk.points.push(point);
        chunk.end_time = ts;
        proof {
            let cfg = self.config;
            if !need_new {
                assert(mid == old_chunks);
                assert(chunk_ok(old_chunks[old_chunks.len() - 1], cfg));
                assert(before_points == old_chunks.last().points@);
            }
            let ks = point_keys(chunk.points@);
            assert(ks =~= point_keys(before_points).push(key));
            assert forall|i: int| 0 <= i < ks.len() implies #[trigger] delta_fits(ks, i) by {
                if i < ks.len() - 1 {
                    assert(ks[i] == point_keys(before_points)[i]);
                    if i > 0 {
                        assert(ks[i - 1] == point_keys(before_points)[i - 1]);
                    }
                    if !need_new {
                        assert(delta_fits(point_keys(before_points), i));
                    }
                } else if i > 0 {
                    assert(ks[i - 1] == point_keys(before_points).last());
                }
            }
        }
        if self.config.compression_enabled && chunk.points.len() >= self.config.chunk_size {
            chunk.compressed_data = Some(encode_points(&chunk.points));
        }
        let ghost rest = list@;
        list.push(chunk);
        proof {
            let cfg = self.config;
            let new_list = list@;
            assert(new_list.drop_last() =~= rest);
            assert(rest =~= mid.drop_last());
            if need_new {
                assert(mid.drop_last() =~= old_chunks);
                assert(before_points.len() == 0);
                assert(point_keys(before_points) =~= Seq::<(i64, u64)>::empty());
                assert(chunk_list_points(new_list) =~= chunk_list_points(old_chunks).push(key));
            } else {
                assert(mid == old_chunks);
                assert(before_points == old_chunks.last().points@);
                assert(chunk_list_points(old_chunks) == chunk_list_points(old_chunks.drop_last()) + point_keys(
                    before_points,
                ));
                assert(chunk_list_points(new_list) =~= chunk_list_points(old_chunks).push(key));
            }
            let ks = point_keys(chunk.points@);
            assert(ks =~= point_keys(before_points).push(key));
            assert(chunk_ok(chunk, cfg)) by {
                if !need_new {
                    assert(chunk_ok(old_chunks[old_chunks.len() - 1], cfg));
                    assert(ks[0] == point_keys(before_points)[0]);
                }
            }
            assert forall|i: int| 0 <= i < new_list.len() implies #[trigger] chunk_ok(new_list[i], cfg) by {
                if i < new_list.len() - 1 {
                    assert(new_list[i] == old_chunks[i]);
                }
            }
            assert forall|i: int| 0 <= i < new_list.len() - 1 implies #[trigger] new_list[i].points@.len()
                == chunk_capacity(cfg) by {
                assert(new_list[i] == old_chunks[i]);
                if need_new && i == old_chunks.len() - 1 {
                    assert(chunk_ok(old_chunks[i], cfg));
                }
            }
        }
        self.chunks.insert(owned(series_id), list);
        proof {
            assert forall|id: Seq<char>| id != series_id@ implies #[trigger] self.series_chunks(id)
                == old(self).series_chunks(id) by {
                assert(self.chunks@.contains_key(id) == old_map.contains_key(id));
                if old_map.contains_key(id) {
                    assert(self.chunks@[id] == old_map[id]);
                }
            }
            assert forall|id: Seq<char>| #[trigger] chunks_ok(self.series_chunks(id), self.config) by {
                if id != series_id@ {
                    assert(self.series_chunks(id) == old(self).series_chunks(id));
                }
            }
        }
        Ok(())
    }
}

/// The Gorilla encoding of a chunk's points.
fn encode_points(points: &Vec<TimeSeriesPoint>) -> (r: Vec<u8>)
    requires
        deltas_fit(point_keys(points@)),
    ensures
        r@ == gorilla_encoding(point_keys(points@)),
{
    let ghost ks = point_keys(points@);
    let mut comp = GorillaCompressor::new();
    let mut i: usize = 0;
    assert(ks.subrange(0, 0) =~= Seq::<(i64, u64)>::empty());
    while i < points.len()
        invariant
            i <= points@.len(),
            ks == point_keys(points@),
            deltas_fit(ks),
            comp.data() == gorilla_encoding(ks.subrange(0, i as int)),
            comp.last_timestamp() == (if i == 0 {
                0i64
            } else {
                ks[i - 1].0
            }),
            comp.last_value_bits() == (if i == 0 {
                0u64
            } else {
                ks[i - 1].1
            }),
        decreases points@.len() - i,
    {
        let ghost next = ks.subrange(0, i + 1);
        assert(next.drop_last() =~= ks.subrange(0, i as int));
        assert(ks[i as int] == point_key(points@[i as int]));
        assert(delta_fits(ks, i as int));
        let _ = comp.compress(&points[i]);
        i = i + 1;
    }
    assert(ks.subrange(0, points@.len() as int) =~= ks);
    copy_bytes(comp.get_compressed_data())
}

/// Time series errors.
#[derive(Debug, Clone, Copy, PartialEq, Eq, Structural)]
pub enum TimeSeriesError {
    /// A timestamp too far from the previous one to encode.
    TimestampOutOfRange,
}

/// Every point's time lies in `[lo, hi]`.
pub open spec fn times_within(s: Seq<(i64, u64, Map<Seq<char>, String>)>, lo: int, hi: int) -> bool {
    forall|k: int| 0 <= k < s.len() ==> lo <= #[trigger] s[k].0 <= hi
}

/// The points come in time order.
pub open spec fn time_ordered(s: Seq<(i64, u64, Map<Seq<char>, String>)>) -> bool {
    forall|i: int, j: int| 0 <= i < j < s.len() ==> #[trigger] s[i].0 <= #[trigger] s[j].0
}

proof fn lemma_insert_within(
    s: Seq<(i64, u64, Map<Seq<char>, String>)>,
    x: (i64, u64, Map<Seq<char>, String>),
    lo: int,
    hi: int,
)
    requires
        times_within(s, lo, hi),
        lo <= x.0 <= hi,
    ensures
        times_within(insert_by_time(s, x), lo, hi),
    decreases s.len(),
{
    if s.len() > 0 && s.last().0 > x.0 {
        assert(times_within(s.drop_last(), lo, hi)) by {
            assert forall|k: int| 0 <= k < s.drop_last().len() implies lo <= #[trigger] s.drop_last()[k].0 <= hi by {
                assert(s.drop_last()[k] == s[k]);
            }
        }
        lemma_insert_within(s.drop_last(), x, lo, hi);
        let t = insert_by_time(s.drop_last(), x);
        assert forall|k: int| 0 <= k < t.push(s.last()).len() implies lo <= #[trigger] t.push(s.last())[k].0 <= hi by {
            if k < t.len() {
                assert(t.push(s.last())[k] == t[k]);
            }
        }
    } else if s.len() > 0 {
        assert forall|k: int| 0 <= k < s.push(x).len() implies lo <= #[trigger] s.push(x)[k].0 <= hi by {
            if k < s.len() {
                assert(s.push(x)[k] == s[k]);
            }
        }
    }
}

proof fn lemma_insert_ordered(s: Seq<(i64, u64, Map<Seq<char>, String>)>, x: (i64, u64, Map<Seq<char>, String>))
    requires
        time_ordered(s),
    ensures
        time_ordered(insert_by_time(s, x)),
    decreases s.len(),
{
    if s.len() > 0 {
        let last = s.last();
        let d = s.drop_last();
        assert(time_ordered(d)) by {
            assert forall|i: int, j: int| 0 <= i < j < d.len() implies #[trigger] d[i].0 <= #[trigger] d[j].0 by {
                assert(d[i] == s[i] && d[j] == s[j]);
            }
        }
        if last.0 > x.0 {
            lemma_insert_ordered(d, x);
            assert(times_within(d, i64::MIN as int, last.0 as int)) by {
                assert forall|k: int| 0 <= k < d.len() implies i64::MIN <= #[trigger] d[k].0 <= last.0 by {
                    assert(d[k] == s[k]);
                    assert(s[k].0 <= s[s.len() - 1].0);
                }
            }
            lemma_insert_within(d, x, i64::MIN as int, last.0 as int);
            let t = insert_by_time(d, x);
            let u = t.push(last);
            assert forall|i: int, j: int| 0 <= i < j < u.len() implies #[trigger] u[i].0 <= #[trigger] u[j].0 by {
                assert(u[i] == t[i]);
                if j < t.len() {
                    assert(u[j] == t[j]);
                }
            }
        } else {
            let u = s.push(x);
            assert forall|i: int, j: int| 0 <= i < j < u.len() implies #[trigger] u[i].0 <= #[trigger] u[j].0 by {
                assert(u[i] == s[i]);
                if j < s.len() {
                    assert(u[j] == s[j]);
                } else {
                    assert(s[i].0 <= s[s.len() - 1].0 || i == s.len() - 1);
                }
            }
        }
    }
}

proof fn lemma_sort_ordered_within(s: Seq<(i64, u64, Map<Seq<char>, String>)>, lo: int, hi: int)
    requires
        times_within(s, lo, hi),
    ensures
        time_ordered(sort_by_time(s)),
        times_within(sort_by_time(s), lo, hi),
    decreases s.len(),
{
    if s.len() > 0 {
        assert(times_within(s.drop_last(), lo, hi)) by {
            assert forall|k: int| 0 <= k < s.drop_last().len() implies lo <= #[trigger] s.drop_last()[k].0 <= hi by {
                assert(s.drop_last()[k] == s[k]);
            }
        }
        lemma_sort_ordered_within(s.drop_last(), lo, hi);
        lemma_insert_ordered(sort_by_time(s.drop_last()), s.last());
        lemma_insert_within(sort_by_time(s.drop_last()), s.last(), lo, hi);
    }
}

proof fn lemma_points_in_range_within(ps: Seq<TimeSeriesPoint>, start: i64, end: i64)
    ensures
        times_within(points_in_range(ps, start, end), start as int, end as int),
    decreases ps.len(),
{
    if ps.len() > 0 {
        lemma_points_in_range_within(ps.drop_last(), start, end);
        let t = points_in_range(ps.drop_last(), start, end);
        if start <= ps.last().timestamp <= end {
            assert forall|k: int| 0 <= k < t.push(point_view(ps.last())).len() implies start <= #[trigger] t.push(
                point_view(ps.last()),
            )[k].0 <= end by {
                if k < t.len() {
                    assert(t.push(point_view(ps.last()))[k] == t[k]);
                }
            }
        }
    }
}

proof fn lemma_range_points_within(cs: Seq<TimeSeriesChunk>, start: i64, end: i64)
    ensures
        times_within(range_points(cs, start, end), start as int, end as int),
    decreases cs.len(),
{
    if cs.len() > 0 {
        lemma_range_points_within(cs.drop_last(), start, end);
        if chunk_read(cs.last(), start, end) {
            let a = range_points(cs.drop_last(), start, end);
            let b = points_in_range(cs.last().points@, start, end);
            lemma_points_in_range_within(cs.last().points@, start, end);
            assert forall|k: int| 0 <= k < (a + b).len() implies start <= #[trigger] (a + b)[k].0 <= end by {
                if k < a.len() {
                    assert((a + b)[k] == a[k]);
                } else {
                    assert((a + b)[k] == b[k - a.len()]);
                }
            }
        }
    }
}

/// A range query gives its points in time order, each with a time in the
/// range asked for.
pub proof fn law_range_query_ordered(engine: TimeSeriesEngine, series_id: Seq<char>, start_time: i64, end_time: i64)
    ensures
        time_ordered(sort_by_time(range_points(engine.series_chunks(series_id), start_time, end_time))),
        times_within(
            sort_by_time(range_points(engine.series_chunks(series_id), start_time, end_time)),
            start_time as int,
            end_time as int,
        ),
{
    lemma_range_points_within(engine.series_chunks(series_id), start_time, end_time);
    lemma_sort_ordered_within(range_points(engine.series_chunks(series_id), start_time, end_time), start_time as int, end_time as int);
}


/// The time and value bits of a point given as plain values.
pub open spec fn view_key(v: (i64, u64, Map<Seq<char>, String>)) -> (i64, u64) {
    (v.0, v.1)
}

/// The times and value bits of a list of points given as plain values.
pub open spec fn view_keys(s: Seq<(i64, u64, Map<Seq<char>, String>)>) -> Seq<(i64, u64)> {
    s.map_values(|v: (i64, u64, Map<Seq<char>, String>)| view_key(v))
}

/// The points (time and value bits) whose time lies in `[start, end]`, in
/// order.
pub open spec fn keys_in_range(ks: Seq<(i64, u64)>, start: i64, end: i64) -> Seq<(i64, u64)>
    decreases ks.len(),
{
    if ks.len() == 0 {
        Seq::empty()
    } else if start <= ks.last().0 <= end {
        keys_in_range(ks.drop_last(), start, end).push(ks.last())
    } else {
        keys_in_range(ks.drop_last(), start, end)
    }
}

/// The points come in time order.
pub open spec fn keys_ordered(ks: Seq<(i64, u64)>) -> bool {
    forall|i: int, j: int| 0 <= i < j < ks.len() ==> #[trigger] ks[i].0 <= #[trigger] ks[j].0
}

proof fn lemma_keys_in_range_concat(a: Seq<(i64, u64)>, b: Seq<(i64, u64)>, start: i64, end: i64)
    ensures
        keys_in_range(a + b, start, end) == keys_in_range(a, start, end) + keys_in_range(b, start, end),
    decreases b.len(),
{
    if b.len() == 0 {
        assert(a + b =~= a);
        assert(keys_in_range(a, start, end) + keys_in_range(b, start, end) =~= keys_in_range(a, start, end));
    } else {
        assert((a + b).drop_last() =~= a + b.drop_last());
        assert((a + b).last() == b.last());
        lemma_keys_in_range_concat(a, b.drop_last(), start, end);
        if start <= b.last().0 <= end {
            assert(keys_in_range(a, start, end) + keys_in_range(b.drop_last(), start, end).push(b.last())
                =~= (keys_in_range(a, start, end) + keys_in_range(b.drop_last(), start, end)).push(b.last()));
        }
    }
}

proof fn lemma_keys_in_range_none(ks: Seq<(i64, u64)>, start: i64, end: i64)
    requires
        forall|i: int| 0 <= i < ks.len() ==> !(start <= #[trigger] ks[i].0 <= end),
    ensures
        keys_in_range(ks, start, end).len() == 0,
    decreases ks.len(),
{
    if ks.len() > 0 {
        assert forall|i: int| 0 <= i < ks.drop_last().len() implies !(start <= #[trigger] ks.drop_last()[i].0 <= end) by {
            assert(ks.drop_last()[i] == ks[i]);
        }
        assert(!(start <= ks[ks.len() - 1].0 <= end));
        lemma_keys_in_range_none(ks.drop_last(), start, end);
    }
}

proof fn lemma_keys_in_range_ordered(ks: Seq<(i64, u64)>, start: i64, end: i64)
    requires
        keys_ordered(ks),
    ensures
        keys_ordered(keys_in_range(ks, start, end)),
        forall|i: int| 0 <= i < keys_in_range(ks, start, end).len() ==> exists|j: int| 0 <= j < ks.len()
            && #[trigger] keys_in_range(ks, start, end)[i] == ks[j],
    decreases ks.len(),
{
    if ks.len() > 0 {
        let d = ks.drop_last();
        assert(keys_ordered(d)) by {
            assert forall|i: int, j: int| 0 <= i < j < d.len() implies #[trigger] d[i].0 <= #[trigger] d[j].0 by {
                assert(d[i] == ks[i] && d[j] == ks[j]);
            }
        }
        lemma_keys_in_range_ordered(d, start, end);
        let r = keys_in_range(d, start, end);
        assert forall|i: int| 0 <= i < r.len() implies exists|j: int| 0 <= j < ks.len() && #[trigger] r[i] == ks[j] by {
            let j = choose|j: int| 0 <= j < d.len() && r[i] == d[j];
            assert(ks[j] == d[j]);
        }
        if start <= ks.last().0 <= end {
            let u = r.push(ks.last());
            assert forall|i: int, j: int| 0 <= i < j < u.len() implies #[trigger] u[i].0 <= #[trigger] u[j].0 by {
                assert(u[i] == r[i]);
                let a = choose|a: int| 0 <= a < d.len() && r[i] == d[a];
                assert(d[a] == ks[a]);
                if j < r.len() {
                    assert(u[j] == r[j]);
                } else {
                    assert(ks[a].0 <= ks[ks.len() - 1].0);
                }
            }
            assert forall|i: int| 0 <= i < u.len() implies exists|j: int| 0 <= j < ks.len() && #[trigger] u[i] == ks[j] by {
                if i < r.len() {
                    assert(u[i] == r[i]);
                } else {
                    assert(u[i] == ks[ks.len() - 1]);
                }
            }
        }
    }
}

proof fn lemma_points_in_range_keys(ps: Seq<TimeSeriesPoint>, start: i64, end: i64)
    ensures
        view_keys(points_in_range(ps, start, end)) == keys_in_range(point_keys(ps), start, end),
    decreases ps.len(),
{
    if ps.len() == 0 {
        assert(view_keys(points_in_range(ps, start, end)) =~= Seq::<(i64, u64)>::empty());
    } else {
        let ks = point_keys(ps);
        assert(ks.drop_last() =~= point_keys(ps.drop_last()));
        assert(ks.last() == point_key(ps.last()));
        lemma_points_in_range_keys(ps.drop_last(), start, end);
        let r = points_in_range(ps.drop_last(), start, end);
        if start <= ps.last().timestamp <= end {
            assert(view_keys(r.push(point_view(ps.last()))) =~= view_keys(r).push(point_key(ps.last())));
        }
    }
}

/// The chunks' points, each within its chunk's first and last times, in
/// time order throughout.
proof fn lemma_range_points_keys(cs: Seq<TimeSeriesChunk>, config: TimeSeriesConfig, start: i64, end: i64)
    requires
        forall|i: int| 0 <= i < cs.len() ==> #[trigger] chunk_ok(cs[i], config),
        keys_ordered(chunk_list_points(cs)),
    ensures
        view_keys(range_points(cs, start, end)) == keys_in_range(chunk_list_points(cs), start, end),
    decreases cs.len(),
{
    if cs.len() == 0 {
        assert(view_keys(range_points(cs, start, end)) =~= Seq::<(i64, u64)>::empty());
    } else {
        let pre = cs.drop_last();
        let c = cs.last();
        let a = chunk_list_points(pre);
        let b = point_keys(c.points@);
        assert(chunk_list_points(cs) == a + b);
        assert forall|i: int| 0 <= i < pre.len() implies #[trigger] chunk_ok(pre[i], config) by {
            assert(pre[i] == cs[i]);
        }
        assert(keys_ordered(a)) by {
            assert forall|i: int, j: int| 0 <= i < j < a.len() implies #[trigger] a[i].0 <= #[trigger] a[j].0 by {
                assert((a + b)[i] == a[i] && (a + b)[j] == a[j]);
            }
        }
        lemma_range_points_keys(pre, config, start, end);
        lemma_keys_in_range_concat(a, b, start, end);
        lemma_points_in_range_keys(c.points@, start, end);
        let rp = range_points(pre, start, end);
        if chunk_read(c, start, end) {
            let q = points_in_range(c.points@, start, end);
            assert(view_keys(rp + q) =~= view_keys(rp) + view_keys(q));
        } else {
            assert(chunk_ok(cs[cs.len() - 1], config));
            assert forall|i: int| 0 <= i < b.len() implies !(start <= #[trigger] b[i].0 <= end) by {
                assert((a + b)[a.len() + i] == b[i]);
                assert((a + b)[a.len() as int] == b[0]);
                assert((a + b)[a.len() + b.len() - 1] == b[b.len() - 1]);
                if i > 0 {
                    assert((a + b)[a.len() as int].0 <= (a + b)[a.len() + i].0);
                }
                if i < b.len() - 1 {
                    assert((a + b)[a.len() + i].0 <= (a + b)[a.len() + b.len() - 1].0);
                }
            }
            lemma_keys_in_range_none(b, start, end);
            assert(keys_in_range(a, start, end) + keys_in_range(b, start, end) =~= keys_in_range(a, start, end));
        }
    }
}

proof fn lemma_sort_ordered_identity(s: Seq<(i64, u64, Map<Seq<char>, String>)>)
    requires
        time_ordered(s),
    ensures
        sort_by_time(s) == s,
    decreases s.len(),
{
    if s.len() > 0 {
        let d = s.drop_last();
        assert(time_ordered(d)) by {
            assert forall|i: int, j: int| 0 <= i < j < d.len() implies #[trigger] d[i].0 <= #[trigger] d[j].0 by {
                assert(d[i] == s[i] && d[j] == s[j]);
            }
        }
        lemma_sort_ordered_identity(d);
        if d.len() > 0 {
            assert(d.last() == s[s.len() - 2]);
        }
        assert(d.push(s.last()) =~= s);
    }
}

/// When a series' points were inserted in time order, a range query gives
/// back exactly the inserted points whose time lies in the range, in the
/// order they were inserted (which is time order).
pub proof fn law_range_query_returns_inserted(engine: TimeSeriesEngine, series_id: Seq<char>, start_time: i64, end_time: i64)
    requires
        engine.wf(),
        keys_ordered(engine.series_points(series_id)),
    ensures
        view_keys(sort_by_time(range_points(engine.series_chunks(series_id), start_time, end_time)))
            == keys_in_range(engine.series_points(series_id), start_time, end_time),
{
    let cs = engine.series_chunks(series_id);
    assert(chunks_ok(cs, engine.config));
    lemma_range_points_keys(cs, engine.config, start_time, end_time);
    let rp = range_points(cs, start_time, end_time);
    let ks = chunk_list_points(cs);
    lemma_keys_in_range_ordered(ks, start_time, end_time);
    assert(time_ordered(rp)) by {
        assert forall|i: int, j: int| 0 <= i < j < rp.len() implies #[trigger] rp[i].0 <= #[trigger] rp[j].0 by {
            let kr = keys_in_range(ks, start_time, end_time);
            assert(view_keys(rp) == kr);
            assert(view_keys(rp)[i] == view_key(rp[i]));
            assert(view_keys(rp)[j] == view_key(rp[j]));
            assert(kr[i].0 <= kr[j].0);
        }
    }
    lemma_sort_ordered_identity(rp);
}

} // verus!
