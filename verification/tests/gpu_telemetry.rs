use recur64::gpu_telemetry::{parse_gpu_query, GpuSamples};

#[test]
fn samples_track_peak_min_last_and_busy_mean() {
    let mut s = GpuSamples::empty();
    s.record((100, 0, 40));
    s.record((300, 50, 45));
    s.record((200, 70, 43));
    assert_eq!(s.samples, 3);
    assert_eq!(s.peak_vram_mb, Some(300));
    assert_eq!(s.min_vram_mb, Some(100));
    assert_eq!(s.last_vram_mb, Some(200));
    assert_eq!(s.util_max, Some(70));
    assert_eq!(s.temp_max_c, Some(45));
    let busy_mean = s.busy_util_sum as f64 / s.busy_samples as f64;
    assert_eq!(busy_mean, 60.0, "idle samples excluded");
}

#[test]
fn no_samples_means_no_summary() {
    let s = GpuSamples::empty();
    assert_eq!(s.samples, 0);
    assert!(s.peak_vram_mb.is_none());
    assert!(s.temp_max_c.is_none());
}

#[test]
fn query_output_parses_the_first_line() {
    assert_eq!(parse_gpu_query("5120, 87, 66\n"), Some((5120, 87, 66)));
    assert_eq!(parse_gpu_query("5120,87,66"), Some((5120, 87, 66)));
    assert_eq!(parse_gpu_query(" 1 ,\t2 , 3 , 4\r\n9, 9, 9\n"), Some((1, 2, 3)));
    assert_eq!(parse_gpu_query("+7, 0, 0"), Some((7, 0, 0)));
}

#[test]
fn query_output_refuses_what_is_not_three_numbers() {
    assert_eq!(parse_gpu_query(""), None);
    assert_eq!(parse_gpu_query("\n1, 2, 3"), None);
    assert_eq!(parse_gpu_query("1, 2"), None);
    assert_eq!(parse_gpu_query("1, [N/A], 3"), None);
    assert_eq!(parse_gpu_query("1, -2, 3"), None);
    assert_eq!(parse_gpu_query("1, , 3"), None);
    assert_eq!(parse_gpu_query("18446744073709551616, 0, 0"), None);
    assert_eq!(parse_gpu_query("18446744073709551615, 0, 0"), Some((u64::MAX, 0, 0)));
}
