use playlist_core::loudness::{loudness_candidate_list, GainScanTally};

fn integrated_lufs(stderr: &str) -> Option<f64> {
    loudness_candidate_list(stderr).iter().find_map(|t| t.parse::<f64>().ok())
}

#[test]
fn parses_summary_integrated_loudness() {
    let stderr = "\
[Parsed_ebur128_0 @ 0x55] t: 2.5  TARGET:-23 LUFS  M: -12.1 S: -13.0  I: -12.5 LUFS  LRA: 0.0 LU
[Parsed_ebur128_0 @ 0x55] Summary:

  Integrated loudness:
    I:         -9.8 LUFS
    Threshold: -20.6 LUFS

  Loudness range:
    LRA:        5.0 LU
";
    assert_eq!(integrated_lufs(stderr), Some(-9.8));
}

#[test]
fn parse_returns_none_without_summary() {
    assert_eq!(integrated_lufs("no loudness here"), None);
}

#[test]
fn candidates_come_last_line_first() {
    let report = "I: -20.0 LUFS\nI: x LUFS\r\n  I:  -7.5  LUFS  \nI: -3 LU\n";
    assert_eq!(loudness_candidate_list(report), vec!["-7.5", "x", "-20.0"]);
    assert_eq!(integrated_lufs(report), Some(-7.5));
    assert!(loudness_candidate_list("I: LUFS").iter().all(|t| t == "LUFS"));
}

#[test]
fn scan_reports_every_fifth_track() {
    let mut t = GainScanTally::new(7);
    let mut reports = Vec::new();
    for ok in [true, false, true, true, true, false, true] {
        reports.push(t.record(ok));
    }
    assert_eq!(reports, vec![false, false, false, false, true, false, false]);
    assert_eq!((t.scanned, t.failed, t.total), (5, 2, 7));
}
