//! Estimators of the metrics protocol.

use fips::mmp::algorithms::{JitterEstimator, OwdTrendDetector, SpinBitState, SrttEstimator};

const MS: u128 = 1_000_000;

#[test]
fn test_jitter_zero_input() {
    let mut j = JitterEstimator::new();
    j.update(0);
    assert_eq!(j.jitter_us(), 0);
}

#[test]
fn test_jitter_convergence() {
    let mut j = JitterEstimator::new();
    // Feed constant transit delta of 1000µs
    for _ in 0..200 {
        j.update(1000);
    }
    // Should converge near 1000µs
    let jitter = j.jitter_us();
    assert!(jitter > 900 && jitter < 1100, "jitter={jitter}, expected ~1000");
}

#[test]
fn test_srtt_first_sample() {
    let mut s = SrttEstimator::new();
    s.update(10_000); // 10ms
    assert_eq!(s.srtt_us(), 10_000);
    assert_eq!(s.rttvar_us(), 5_000);
    assert!(s.initialized());
}

#[test]
fn test_srtt_convergence() {
    let mut s = SrttEstimator::new();
    // Feed constant 50ms RTT
    for _ in 0..100 {
        s.update(50_000);
    }
    let srtt = s.srtt_us();
    assert!((srtt - 50_000).abs() < 1000, "srtt={srtt}, expected ~50000");
}

#[test]
fn test_owd_trend_flat() {
    let mut d = OwdTrendDetector::new(32);
    for i in 0..20 {
        d.push(i, 5000); // constant OWD
    }
    let trend = d.trend_us_per_sec();
    assert_eq!(trend, 0, "flat OWD should have zero trend");
}

#[test]
fn test_owd_trend_increasing() {
    let mut d = OwdTrendDetector::new(32);
    for i in 0..20 {
        d.push(i, 5000 + (i as i64) * 100); // increasing by 100µs per packet
    }
    let trend = d.trend_us_per_sec();
    assert!(trend > 0, "increasing OWD should have positive trend, got {trend}");
}

#[test]
fn test_owd_trend_insufficient_samples() {
    let mut d = OwdTrendDetector::new(32);
    d.push(0, 5000);
    assert_eq!(d.trend_us_per_sec(), 0);
}

#[test]
fn test_spin_bit_initiator_rtt() {
    let mut initiator = SpinBitState::new(true);
    let mut responder = SpinBitState::new(false);

    let t0: u128 = 0;
    let t1 = t0 + 10 * MS;
    let t2 = t0 + 20 * MS;

    // Initiator sends with spin=false (initial)
    let bit_to_send = initiator.tx_bit();
    assert!(!bit_to_send);

    // Responder receives, copies bit
    responder.rx_observe(bit_to_send, 1, t0);
    assert!(!responder.tx_bit());

    // Responder sends back, initiator receives
    let resp_bit = responder.tx_bit();
    let rtt1 = initiator.rx_observe(resp_bit, 2, t1);
    // First edge: no previous edge to compare
    assert!(rtt1.is_none());

    // Now initiator's spin flipped to true
    let bit2 = initiator.tx_bit();
    assert!(bit2);

    // Responder receives new bit
    responder.rx_observe(bit2, 3, t1);
    assert!(responder.tx_bit());

    // Responder sends back, initiator receives
    let resp_bit2 = responder.tx_bit();
    let rtt2 = initiator.rx_observe(resp_bit2, 4, t2);
    // Second edge: should produce an RTT sample
    assert!(rtt2.is_some());
    assert_eq!(rtt2, Some(10 * MS));
}

#[test]
fn test_spin_bit_responder_counter_guard() {
    let mut responder = SpinBitState::new(false);

    // Receive counter=5 with spin=true
    responder.rx_observe(true, 5, 0);
    assert!(responder.tx_bit());

    // Reordered packet with counter=3 and spin=false should be ignored
    responder.rx_observe(false, 3, 1);
    assert!(responder.tx_bit()); // unchanged
}

#[test]
fn first_jitter_sample_is_a_sixteenth() {
    let mut j = JitterEstimator::default();
    j.update(-1600);
    assert_eq!(j.jitter_us(), 100);
    j.update(1600);
    assert_eq!(j.jitter_us(), 193);
    let mut least = JitterEstimator::new();
    least.update(i32::MIN);
    assert_eq!(least.jitter_us(), 134_217_728);
}

#[test]
fn second_srtt_sample_moves_an_eighth() {
    let mut s = SrttEstimator::default();
    s.update(8_000);
    s.update(16_000);
    // rttvar = 3/4 * 4000 + 1/4 * 8000, srtt = 7/8 * 8000 + 1/8 * 16000
    assert_eq!(s.rttvar_us(), 5_000);
    assert_eq!(s.srtt_us(), 9_000);
    assert_eq!(s.rto_us(), 9_000 + 1_000_000);
}

#[test]
fn trend_is_the_slope_in_microseconds() {
    let mut d = OwdTrendDetector::new(8);
    for i in 0..5u32 {
        d.push(i, 7 * i as i64);
    }
    assert_eq!(d.trend_us_per_sec(), 7_000);
    for i in 0..5u32 {
        d.push(10 + i, 1000 - 3 * i as i64);
    }
    assert_eq!(d.len(), 8);
    d.clear();
    assert!(d.is_empty());
    assert_eq!(d.trend_us_per_sec(), 0);
}

#[test]
fn trend_agrees_with_floating_point() {
    let samples: [(u32, i64); 6] =
        [(3, 1200), (4, 1180), (7, 1900), (9, -500), (12, 2500), (13, 2600)];
    let mut d = OwdTrendDetector::new(6);
    for (s, o) in samples {
        d.push(s, o);
    }
    let n = 6.0f64;
    let sx: f64 = samples.iter().map(|p| p.0 as f64).sum();
    let sy: f64 = samples.iter().map(|p| p.1 as f64).sum();
    let sxy: f64 = samples.iter().map(|p| p.0 as f64 * p.1 as f64).sum();
    let sxx: f64 = samples.iter().map(|p| p.0 as f64 * p.0 as f64).sum();
    let slope = (n * sxy - sx * sy) / (n * sxx - sx * sx);
    assert_eq!(d.trend_us_per_sec(), (slope * 1000.0) as i32);
}

#[test]
fn trend_takes_any_number_of_samples() {
    let mut d = OwdTrendDetector::new(100_000);
    for i in 0..100_000u32 {
        d.push(i, 5 * i as i64);
    }
    assert_eq!(d.len(), 100_000);
    assert_eq!(d.trend_us_per_sec(), 5_000);
    let mut steep = OwdTrendDetector::new(40_000);
    for i in 0..40_000u32 {
        steep.push(i.wrapping_mul(107_374), if i % 2 == 0 { i64::MIN } else { i64::MAX });
    }
    assert!(steep.trend_us_per_sec() > 0);
    let mut falling = OwdTrendDetector::new(2);
    falling.push(0, i64::MAX);
    falling.push(1, i64::MIN);
    assert_eq!(falling.trend_us_per_sec(), i32::MIN);
    let mut rising = OwdTrendDetector::new(2);
    rising.push(0, i64::MIN);
    rising.push(1, i64::MAX);
    assert_eq!(rising.trend_us_per_sec(), i32::MAX);
}

#[test]
fn trend_is_cut_off_towards_zero() {
    for (low, high, expected) in [(0, 1, 333), (1, 0, -333), (0, 2_147_483, 715_827_666)] {
        let mut d = OwdTrendDetector::new(4);
        d.push(0, low);
        d.push(3, high);
        assert_eq!(d.trend_us_per_sec(), expected);
    }
}

#[test]
fn only_the_last_samples_are_seen() {
    let samples: Vec<(u32, i64)> =
        (0..20u32).map(|i| (i, (i as i64 * 7919) % 1000 - 300)).collect();
    let mut all = OwdTrendDetector::new(6);
    for (s, o) in &samples {
        all.push(*s, *o);
    }
    let mut last = OwdTrendDetector::new(6);
    for (s, o) in &samples[14..] {
        last.push(*s, *o);
    }
    assert_eq!(all.len(), 6);
    assert_eq!(all.trend_us_per_sec(), last.trend_us_per_sec());
    all.clear();
    assert_eq!(all.trend_us_per_sec(), 0);
    for (s, o) in &samples[14..] {
        all.push(*s, *o);
    }
    assert_eq!(all.trend_us_per_sec(), last.trend_us_per_sec());
}
