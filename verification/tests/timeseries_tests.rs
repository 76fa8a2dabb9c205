use auroradb::advanced::timeseries::{GorillaCompressor, TimeSeriesConfig, TimeSeriesEngine, TimeSeriesPoint};
use auroradb::text::StringMap;

fn point(timestamp: i64, value: f64) -> TimeSeriesPoint {
    TimeSeriesPoint { timestamp, value_bits: value.to_bits(), tags: StringMap::new() }
}

#[test]
fn gorilla_timestamp_deltas() {
    let mut c = GorillaCompressor::new();
    c.compress(&point(0, 0.0)).unwrap();
    assert_eq!(c.get_compressed_data().clone(), vec![0u8, 0u8]);
    c.compress(&point(10, 0.0)).unwrap();
    assert_eq!(c.get_compressed_data()[2..].to_vec(), vec![1u8, 10u8, 0u8]);
    c.compress(&point(210, 0.0)).unwrap();
    assert_eq!(c.get_compressed_data()[5..].to_vec(), vec![1u8, 2u8, 200u8, 0u8, 0u8]);
    c.compress(&point(100_210, 0.0)).unwrap();
    let tail = c.get_compressed_data()[10..].to_vec();
    assert_eq!(tail, vec![1u8, 3u8, 0xa0, 0x86, 0x01, 0x00, 0u8]);
}

#[test]
fn gorilla_value_xor_encoding() {
    let mut c = GorillaCompressor::new();
    c.compress(&TimeSeriesPoint { timestamp: 0, value_bits: 0x0000_0000_0000_00f0, tags: StringMap::new() }).unwrap();
    // leading zeros 56 (>= 32): header 1, 0, ((56-32) << 2 | (4-1)); one byte of value
    assert_eq!(c.get_compressed_data().clone(), vec![0u8, 1u8, 0u8, ((24u32 << 2) | 3) as u8, 0xf0]);
    let mut d = GorillaCompressor::new();
    d.compress(&TimeSeriesPoint { timestamp: 0, value_bits: 0x8000_0000_0000_0001, tags: StringMap::new() }).unwrap();
    let data = d.get_compressed_data().clone();
    assert_eq!(data[..4].to_vec(), vec![0u8, 1u8, 0u8, ((63u32 << 2) | 0) as u8]);
    assert_eq!(data.len(), 4 + 8);
}

#[test]
fn series_fill_chunks_in_order() {
    let config = TimeSeriesConfig { chunk_size: 3, compression_enabled: true, retention_period_days: 7, adaptive_chunking: false };
    let mut engine = TimeSeriesEngine::new(config);
    for i in 0..7 {
        engine.insert_point("cpu", point(i * 1000, i as f64)).unwrap();
    }
    engine.insert_point("mem", point(5, 1.5)).unwrap();
    let chunks = engine.chunks_of("cpu");
    assert_eq!(chunks, vec![(0, 2000, 3, true), (3000, 5000, 3, true), (6000, 6000, 1, false)]);
    assert_eq!(engine.chunks_of("mem"), vec![(5, 5, 1, false)]);
    assert!(engine.chunks_of("disk").is_empty());
}

#[test]
fn series_range_query_in_time_order() {
    let config = TimeSeriesConfig { chunk_size: 10, compression_enabled: true, retention_period_days: 7, adaptive_chunking: false };
    let mut engine = TimeSeriesEngine::new(config);
    engine.insert_point("cpu", point(30, 3.0)).unwrap();
    engine.insert_point("cpu", point(10, 1.0)).unwrap();
    engine.insert_point("cpu", point(20, 2.0)).unwrap();
    engine.insert_point("cpu", point(50, 5.0)).unwrap();
    let got = engine.query_range("cpu", 10, 30).unwrap();
    let times: Vec<i64> = got.iter().map(|p| p.timestamp).collect();
    assert_eq!(times, vec![10, 20, 30]);
    assert_eq!(f64::from_bits(got[1].value_bits), 2.0);
    assert!(engine.query_range("mem", 0, 100).unwrap().is_empty());
}

#[test]
fn range_query_reads_compressed_chunks() {
    let config = TimeSeriesConfig { chunk_size: 3, compression_enabled: true, retention_period_days: 7, adaptive_chunking: false };
    let mut engine = TimeSeriesEngine::new(config);
    for i in 0..7 {
        engine.insert_point("cpu", point(i * 1000, i as f64)).unwrap();
    }
    let got = engine.query_range("cpu", 1000, 6000).unwrap();
    let times: Vec<i64> = got.iter().map(|p| p.timestamp).collect();
    assert_eq!(times, vec![1000, 2000, 3000, 4000, 5000, 6000]);
    assert_eq!(f64::from_bits(got[0].value_bits), 1.0);
}
