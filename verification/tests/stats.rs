use nucleus::stats::{stats_step, StatsStep, cpu_usage_checked, cpu_usage_usec, find_usage_line, parse_counter, parse_memory_max, trim, StatsError};

#[test]
fn trimming_matches_str_trim() {
    for s in ["", " ", "  12\n", "\t\u{a0}x y\u{3000}", "max\n", "\u{85}a\u{2028}", "a"] {
        assert_eq!(trim(s), s.trim(), "input {:?}", s);
    }
}

#[test]
fn counters() {
    assert_eq!(parse_counter("12345\n"), Some(12345));
    assert_eq!(parse_counter(" 7 "), Some(7));
    assert_eq!(parse_counter("x"), None);
    assert_eq!(parse_memory_max("max\n"), Some(0));
    assert_eq!(parse_memory_max("1073741824\n"), Some(1073741824));
    assert_eq!(parse_memory_max("maxi"), None);
}

#[test]
fn cpu_stat() {
    let stat = "usage_usec 250000\nuser_usec 200000\nsystem_usec 50000\n";
    assert_eq!(cpu_usage_usec(stat), Ok(250000));
    assert_eq!(cpu_usage_usec("user_usec 1\r\nusage_usec  42\r\n"), Ok(42));
    assert_eq!(cpu_usage_usec("user_usec 1\n"), Ok(0));
    assert_eq!(cpu_usage_usec(""), Ok(0));
    assert_eq!(cpu_usage_usec("usage_usec abc\n"), Err(StatsError::InvalidNumber));
    assert_eq!(cpu_usage_checked("usage_usec\n"), None);
    assert_eq!(cpu_usage_checked("usage_usec 9"), Some(Ok(9)));
}

#[test]
fn usage_line_matches_lines_iterator() {
    for s in ["a\nusage_usec 1\r\nb", "usage_usec", "\n\nusage_usec_x 3\n", "x\r\n", "usage_usec 5\r"] {
        let expected = s.lines().find(|l| l.starts_with("usage_usec"));
        assert_eq!(find_usage_line(s), expected, "input {:?}", s);
    }
}

#[test]
fn display_steps() {
    assert_eq!(stats_step(false, true), StatsStep::Show { again: false });
    assert_eq!(stats_step(true, true), StatsStep::Show { again: true });
    assert_eq!(stats_step(true, false), StatsStep::Stopped);
    assert_eq!(stats_step(false, false), StatsStep::Fail);
}
