use experiment_tracker::gpu::{
    parse_optional_u32, parse_process_output, parse_stats_output, parse_u32, parse_u64, GpuError, GpuHistory,
};

#[test]
fn history_keeps_the_last_entries_in_order() {
    let mut h: GpuHistory<u32> = GpuHistory::new(3);
    assert!(h.is_empty());
    for x in 1..=5u32 {
        h.push(x);
    }
    assert_eq!(h.len(), 3);
    let o: Vec<u32> = h.ordered().into_iter().copied().collect();
    assert_eq!(o, vec![3, 4, 5]);
    h.push(6);
    let o: Vec<u32> = h.ordered().into_iter().copied().collect();
    assert_eq!(o, vec![4, 5, 6]);
}

#[test]
fn history_not_yet_full() {
    let mut h: GpuHistory<&str> = GpuHistory::new(300);
    h.push("a");
    h.push("b");
    let o: Vec<&str> = h.ordered().into_iter().copied().collect();
    assert_eq!(o, vec!["a", "b"]);
}

#[test]
fn numbers_read_like_floats_then_cast() {
    assert_eq!(parse_u32(" 42 "), 42);
    assert_eq!(parse_u32("45.9"), 45);
    assert_eq!(parse_u32("1e3"), 1000);
    assert_eq!(parse_u32("-5"), 0);
    assert_eq!(parse_u32("abc"), 0);
    assert_eq!(parse_u32("99999999999"), u32::MAX);
    assert_eq!(parse_u32("inf"), u32::MAX);
    assert_eq!(parse_u32("NaN"), 0);
    assert_eq!(parse_u32(".5"), 0);
    assert_eq!(parse_u32("7."), 7);
    assert_eq!(parse_u32("2.5E1"), 25);
    assert_eq!(parse_u32("1e-3"), 0);
    assert_eq!(parse_u32("0e99999999999999999999"), 0);
    assert_eq!(parse_u32("1e99999999999999999999"), u32::MAX);
    assert_eq!(parse_u64("8192"), 8192);
    assert_eq!(parse_u64("1e30"), u64::MAX);
    assert_eq!(parse_optional_u32("[N/A]"), None);
    assert_eq!(parse_optional_u32(" N/A "), None);
    assert_eq!(parse_optional_u32(""), None);
    assert_eq!(parse_optional_u32(" 35 "), Some(35));
}

#[test]
fn stats_line_fields() {
    let out = "42, 1024, 4096, 55, 35.20, 80.00, 1500, [N/A], NVIDIA GeForce RTX 3050, 545.29\n";
    let g = parse_stats_output(out).unwrap();
    assert_eq!(g.utilization_percent, 42);
    assert_eq!(g.vram_used_mb, 1024);
    assert_eq!(g.vram_total_mb, 4096);
    assert_eq!(g.temperature_celsius, 55);
    assert_eq!(g.power_draw_text, "35.20");
    assert_eq!(g.power_limit_text, "80.00");
    assert_eq!(g.clock_speed_mhz, 1500);
    assert_eq!(g.fan_speed_percent, None);
    assert_eq!(g.gpu_name, "NVIDIA GeForce RTX 3050");
    assert_eq!(g.driver_version, "545.29");
    assert!(g.temp_critical(50));
    assert!(!g.temp_critical(55));
}

#[test]
fn stats_errors() {
    match parse_stats_output("  \n") {
        Err(e) => {
            assert!(matches!(e, GpuError::EmptyOutput));
            assert_eq!(e.message(), "nvidia-smi returned empty output");
        }
        Ok(_) => panic!("expected an error"),
    }
    match parse_stats_output("1, 2, 3") {
        Err(e) => {
            assert!(matches!(e, GpuError::TooFewFields { count: 3, .. }));
            assert_eq!(e.message(), "nvidia-smi returned 3 fields, expected 10: 1, 2, 3");
        }
        Ok(_) => panic!("expected an error"),
    }
}

#[test]
fn process_lines() {
    let out = "1234, python, 2048\nNo Running Processes Found\n\n99, x\n  77 , train.py , 12.7 \n";
    let ps = parse_process_output(out);
    assert_eq!(ps.len(), 2);
    assert_eq!(ps[0].pid, 1234);
    assert_eq!(ps[0].name, "python");
    assert_eq!(ps[0].vram_used_mb, 2048);
    assert_eq!(ps[1].pid, 77);
    assert_eq!(ps[1].name, "train.py");
    assert_eq!(ps[1].vram_used_mb, 12);
}

#[test]
fn number_fields_round_like_f64() {
    assert_eq!(parse_u32("2.9999999999999999"), 3);
    assert_eq!(parse_u32("2.999999999999999"), 2);
    assert_eq!(parse_u32("0.99999999999999999"), 1);
    assert_eq!(parse_u32("9.9999999999999999999e-1"), 1);
    assert_eq!(parse_u64("9007199254740993"), 9007199254740992);
    assert_eq!(parse_u64("9007199254740995"), 9007199254740996);
    assert_eq!(parse_u64("9007199254740993.5"), 9007199254740994);
    assert_eq!(parse_u64("18446744073709551615"), u64::MAX);
    assert_eq!(parse_u64("18446744073709550591"), 18446744073709549568);
    assert_eq!(parse_u64("1e-400"), 0);
    assert_eq!(parse_u64("1e400"), u64::MAX);
    let samples = [
        "0", "1", "4503599627370495.5", "4503599627370496.5", "4503599627370497.5",
        "9007199254740991.5", "9007199254740992.9", "123456789.123456789123456789",
        "0.999999999999999944488848768742172978818416595458984375",
        "0.99999999999999994448884876874217297881841659545898437",
        "0.999999999999999944488848768742172978818416595458984376",
        "1.9999999999999998889776975374843459576368331909179687",
        "1.99999999999999988897769753748434595763683319091796875",
        "1.99999999999999988897769753748434595763683319091796876",
        "72057594037927937", "72057594037927944", "72057594037927952", "7205759403792795e1",
        "1.8446744073709551e19", "12345678901234567890", "4294967295.9999999", "4294967296",
    ];
    for t in samples {
        let f: f64 = t.parse().unwrap();
        assert_eq!(parse_u64(t), f as u64, "{}", t);
        assert_eq!(parse_u32(t), f as u32, "{}", t);
    }
}
