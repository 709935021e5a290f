use cpu_orbit::metrics::{
    ceil_sqrt, next_sample_rate, Instance, SysMetrics, DEFAULT_SAMPLE_RATE, SPACING,
};
use cpu_orbit::usage::UNIT;

fn table(rows: &[(&str, u64, u64)]) -> Vec<u8> {
    let mut out = String::from("cpu  0 0 0 0 0 0 0 0 0 0\n");
    for (id, user, idle) in rows {
        out.push_str(&format!("{} {} 0 0 {} 0 0 0 0 0 0\n", id, user, idle));
    }
    out.push_str("intr 1 2 3\n");
    out.into_bytes()
}

#[test]
fn ceil_sqrt_is_the_smallest_root_that_reaches() {
    let expected = [0, 1, 2, 2, 2, 3, 3, 3, 3, 3, 4, 4, 4, 4, 4, 4, 4, 5];
    for (n, k) in expected.iter().enumerate() {
        assert_eq!(ceil_sqrt(n), *k);
    }
    assert_eq!(ceil_sqrt(1_000_000), 1_000);
    assert_eq!(ceil_sqrt(1_000_001), 1_001);
}

#[test]
fn instances_fill_a_centred_square_grid() {
    let four = SysMetrics::instances(4);
    let places: Vec<[i64; 3]> = four.iter().map(|i| i.position).collect();
    assert_eq!(
        places,
        vec![[-1_000, 0, -1_000], [1_000, 0, -1_000], [-1_000, 0, 1_000], [1_000, 0, 1_000]]
    );
    let five = SysMetrics::instances(5);
    let places: Vec<[i64; 3]> = five.iter().map(|i| i.position).collect();
    assert_eq!(
        places,
        vec![
            [-2_000, 0, -2_000],
            [0, 0, -2_000],
            [2_000, 0, -2_000],
            [-2_000, 0, 0],
            [0, 0, 0]
        ]
    );
    assert_eq!(SPACING, 2_000);
}

#[test]
fn instances_are_not_rotated() {
    for i in SysMetrics::instances(7) {
        assert_eq!(i.rotation, [1_000, 0, 0, 0]);
    }
    assert_eq!(
        SysMetrics::instances(1),
        vec![Instance { position: [0, 0, 0], rotation: [1_000, 0, 0, 0] }]
    );
    assert!(SysMetrics::instances(0).is_empty());
}

#[test]
fn sample_rates_cycle_upward_and_around() {
    assert_eq!(next_sample_rate(500), 1_000);
    assert_eq!(next_sample_rate(1_000), 2_000);
    assert_eq!(next_sample_rate(2_000), 5_000);
    assert_eq!(next_sample_rate(5_000), 10_000);
    assert_eq!(next_sample_rate(10_000), 20_000);
    assert_eq!(next_sample_rate(20_000), 50_000);
    assert_eq!(next_sample_rate(50_000), 500);
    assert_eq!(next_sample_rate(0), 500);
    assert_eq!(next_sample_rate(1_500), 2_000);
    assert_eq!(next_sample_rate(u64::MAX), 500);
}

#[test]
fn metrics_start_with_one_reading() {
    let m = SysMetrics::new(1_000, &table(&[("cpu0", 0, 0), ("cpu1", 0, 0), ("cpu2", 0, 0)]));
    assert_eq!(m.cpu_metrics.ncpus(), 3);
    assert_eq!(m.cpu_core_instances.len(), 3);
    assert_eq!(m.cpu_core_instances[2].position, [-1_000, 0, 1_000]);
    assert_eq!(m.sample_rate_hz, DEFAULT_SAMPLE_RATE);
    assert_eq!(m.last_sample_time, 1_000);
    assert_eq!(m.sample_period(), Some(500));
}

#[test]
fn sample_is_due_after_more_than_one_period() {
    let m = SysMetrics::new(1_000, b"");
    assert!(!m.sample_due(0));
    assert!(!m.sample_due(1_000));
    assert!(!m.sample_due(1_499));
    assert!(!m.sample_due(1_500));
    assert!(m.sample_due(1_501));
    assert!(m.sample_due(u64::MAX));
}

#[test]
fn no_sample_is_ever_due_at_rate_zero() {
    let mut m = SysMetrics::new(0, b"");
    m.sample_rate_hz = 0;
    assert_eq!(m.sample_period(), None);
    assert!(!m.sample_due(u64::MAX));
    assert_eq!(m.progress(u64::MAX), 0);
}

#[test]
fn progress_is_the_elapsed_share_of_the_period() {
    let m = SysMetrics::new(1_000, b"");
    assert_eq!(m.progress(0), 0);
    assert_eq!(m.progress(1_000), 0);
    assert_eq!(m.progress(1_001), 2_000);
    assert_eq!(m.progress(1_250), 500_000);
    assert_eq!(m.progress(1_500), UNIT);
    assert_eq!(m.progress(1_501), UNIT);
    assert_eq!(m.progress(u64::MAX), UNIT);
}

#[test]
fn progress_rounds_down() {
    let mut m = SysMetrics::new(0, b"");
    m.sample_rate_hz = 333_333;
    assert_eq!(m.sample_period(), Some(3));
    assert_eq!(m.progress(1), 333_333);
    assert_eq!(m.progress(2), 666_666);
    m.sample_rate_hz = 2_000_000;
    assert_eq!(m.sample_period(), Some(0));
    assert_eq!(m.progress(0), 0);
    assert_eq!(m.progress(1), UNIT);
    assert!(m.sample_due(1));
}

#[test]
fn cycle_sample_rate_moves_the_rate_only() {
    let mut m = SysMetrics::new(40, &table(&[("cpu0", 0, 0)]));
    m.cycle_sample_rate();
    assert_eq!(m.sample_rate_hz, 5_000);
    assert_eq!(m.sample_period(), Some(200));
    assert_eq!(m.last_sample_time, 40);
    assert_eq!(m.cpu_metrics.ncpus(), 1);
    assert_eq!(m.cpu_core_instances.len(), 1);
    for _ in 0..3 {
        m.cycle_sample_rate();
    }
    assert_eq!(m.sample_rate_hz, 50_000);
    m.cycle_sample_rate();
    assert_eq!(m.sample_rate_hz, 500);
}

#[test]
fn update_samples_when_due_and_blends_in_between() {
    let mut m = SysMetrics::new(0, &table(&[("cpu0", 0, 0)]));
    let second = table(&[("cpu0", 20, 80)]);
    let third = table(&[("cpu0", 80, 120)]);
    assert!(m.update(100, Some(&second)).is_empty());
    assert_eq!(m.cpu_metrics.sample_count(b"cpu0"), 1);
    assert_eq!(m.last_sample_time, 0);
    assert!(m.update(501, Some(&second)).is_empty());
    assert_eq!(m.cpu_metrics.sample_count(b"cpu0"), 2);
    assert_eq!(m.last_sample_time, 501);
    assert_eq!(m.update(1_002, Some(&third)), vec![200_000]);
    assert_eq!(m.cpu_metrics.sample_count(b"cpu0"), 3);
    assert_eq!(m.last_sample_time, 1_002);
    assert_eq!(m.update(1_252, None), vec![400_000]);
    assert_eq!(m.update(1_502, None), vec![600_000]);
    assert_eq!(m.cpu_metrics.sample_count(b"cpu0"), 3);
}

#[test]
fn update_without_a_table_leaves_the_sample_due() {
    let mut m = SysMetrics::new(0, &table(&[("cpu0", 0, 0)]));
    assert!(m.sample_due(700));
    assert!(m.update(700, None).is_empty());
    assert_eq!(m.last_sample_time, 0);
    assert_eq!(m.cpu_metrics.sample_count(b"cpu0"), 1);
    assert!(m.sample_due(701));
    let next = table(&[("cpu0", 1, 1)]);
    m.update(701, Some(&next));
    assert_eq!(m.last_sample_time, 701);
    assert_eq!(m.cpu_metrics.sample_count(b"cpu0"), 2);
}
