use mandelbrot::stats::FrameStats;

#[test]
fn first_frames_do_not_report_before_interval() {
    let mut stats = FrameStats::new(1000);
    assert_eq!(stats.frame(1016), None);
    assert_eq!(stats.frame(2000), None);
    assert_eq!(stats.frame(3000), None);
}

#[test]
fn report_after_interval_gives_count_and_sum() {
    let mut stats = FrameStats::new(0);
    for k in 1..=10usize {
        assert_eq!(stats.frame(k * 16), None);
    }
    // 11th frame at 2016 > 2000: time 2016 - 160 = 1856.
    assert_eq!(stats.frame(2016), Some((11, 2016)));
    // next report only after 4016
    assert_eq!(stats.frame(4016), None);
    assert_eq!(stats.frame(4017), Some((13, 4017)));
}

#[test]
fn ring_sum_spans_last_32_frames() {
    let mut stats = FrameStats::new(0);
    let mut now = 0usize;
    let mut stamps = vec![0usize];
    for k in 0..100usize {
        now += 10 + (k % 7);
        stamps.push(now);
        let report = stats.frame(now);
        if let Some((frames, sum)) = report {
            assert_eq!(frames, k + 1);
            let oldest = if frames <= 32 { 0 } else { stamps[frames - 32] };
            assert_eq!(sum, now - oldest);
        }
    }
    // force a report with a large jump
    now += 5000;
    stamps.push(now);
    let (frames, sum) = stats.frame(now).unwrap();
    assert_eq!(frames, 101);
    assert_eq!(sum, now - stamps[101 - 32]);
}

#[test]
fn accepts_frame_rejects_going_backwards() {
    let stats = FrameStats::new(500);
    assert!(stats.accepts_frame(500));
    assert!(stats.accepts_frame(10_000));
    assert!(!stats.accepts_frame(499));
}

#[test]
fn accepts_frame_rejects_schedule_overflow() {
    let stats = FrameStats::new(0);
    assert!(!stats.accepts_frame(usize::MAX));
    assert!(stats.accepts_frame(usize::MAX - 2000));
}
