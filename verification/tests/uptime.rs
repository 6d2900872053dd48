use process_uptime::{FieldFault, ProcessUptime, PseudoFile, UptimeError};

const STAT_LINE: &str = "1234 (bash) S 1 1234 1234 34816 1234 4194304 1000 0 0 0 10 5 0 0 20 0 1 0 8523 11931648 1320 18446744073709551615 1 1 0 0 0 0 65536 3670020 1266777851 0 0 0 17 3 0 0 0 0 0 0 0 0 0 0 0 0 0\n";

fn missing(file: PseudoFile, index: usize) -> UptimeError {
    UptimeError::MalformedData { file, index, fault: FieldFault::Missing }
}

fn not_a_number(file: PseudoFile, index: usize) -> UptimeError {
    UptimeError::MalformedData { file, index, fault: FieldFault::NotANumber }
}

#[test]
fn test_system_uptime() {
    assert_eq!(
        ProcessUptime::system_uptime("609773.79 19153047.14\n").unwrap(),
        609773
    )
}

#[test]
fn system_uptime_rounds_down() {
    assert_eq!(ProcessUptime::system_uptime("0.00 0.00\n"), Ok(0));
    assert_eq!(ProcessUptime::system_uptime("0.99 5.00\n"), Ok(0));
    assert_eq!(ProcessUptime::system_uptime("1.00 5.00\n"), Ok(1));
    assert_eq!(ProcessUptime::system_uptime("41.999999 1.0\n"), Ok(41));
    assert_eq!(ProcessUptime::system_uptime("16777217.50 1.0\n"), Ok(16777217));
    assert_eq!(ProcessUptime::system_uptime("4294967296.5 1.0\n"), Ok(4294967296));
}

#[test]
fn system_uptime_reads_the_first_field_only() {
    assert_eq!(ProcessUptime::system_uptime("12"), Ok(12));
    assert_eq!(ProcessUptime::system_uptime("12 not-a-number\n"), Ok(12));
    assert_eq!(ProcessUptime::system_uptime("  \t 7.5\n"), Ok(7));
    assert_eq!(ProcessUptime::system_uptime("\n\n3.25 9"), Ok(3));
    assert_eq!(ProcessUptime::system_uptime("8.1\t9.2\r\n"), Ok(8));
}

#[test]
fn system_uptime_takes_a_point_at_either_end() {
    assert_eq!(ProcessUptime::system_uptime("5. 1"), Ok(5));
    assert_eq!(ProcessUptime::system_uptime(".5 1"), Ok(0));
    assert_eq!(ProcessUptime::system_uptime("007.50 1"), Ok(7));
}

#[test]
fn system_uptime_splits_at_unicode_white_space() {
    assert_eq!(ProcessUptime::system_uptime("12\u{a0}34"), Ok(12));
    assert_eq!(ProcessUptime::system_uptime("\u{3000}7.9\u{2003}1"), Ok(7));
    assert_eq!(ProcessUptime::system_uptime("\u{85}\u{1680}\u{2028}\u{2029}\u{202f}\u{205f}9.9"), Ok(9));
    assert_eq!(ProcessUptime::system_uptime("3\u{b}4"), Ok(3));
    assert_eq!(ProcessUptime::system_uptime("3\u{c}4"), Ok(3));
}

#[test]
fn system_uptime_keeps_other_characters_in_the_field() {
    let file = PseudoFile::SystemUptime;
    assert_eq!(ProcessUptime::system_uptime("12\u{200b}34"), Err(not_a_number(file, 0)));
    assert_eq!(ProcessUptime::system_uptime("12\u{180e}34"), Err(not_a_number(file, 0)));
    assert_eq!(ProcessUptime::system_uptime("12\u{1c}34"), Err(not_a_number(file, 0)));
}

#[test]
fn system_uptime_stops_at_the_greatest_number() {
    assert_eq!(
        ProcessUptime::system_uptime("18446744073709551615.99 1.0\n"),
        Ok(u64::MAX)
    );
    assert_eq!(
        ProcessUptime::system_uptime("18446744073709551614.99 1.0\n"),
        Ok(u64::MAX - 1)
    );
    assert_eq!(ProcessUptime::system_uptime("18446744073709551616 1.0\n"), Ok(u64::MAX));
    assert_eq!(
        ProcessUptime::system_uptime("99999999999999999999999999999999.5 1.0\n"),
        Ok(u64::MAX)
    );
}

#[test]
fn system_uptime_without_a_field() {
    let file = PseudoFile::SystemUptime;
    assert_eq!(ProcessUptime::system_uptime(""), Err(missing(file, 0)));
    assert_eq!(ProcessUptime::system_uptime("\n"), Err(missing(file, 0)));
    assert_eq!(ProcessUptime::system_uptime("  \t \r\n"), Err(missing(file, 0)));
}

#[test]
fn system_uptime_without_a_number() {
    let file = PseudoFile::SystemUptime;
    for text in [
        "abc 1.0\n",
        "1.2.3 1.0\n",
        ". 1.0\n",
        "-1 1.0\n",
        "+1 1.0\n",
        "1e3 1.0\n",
        "1,5 1.0\n",
        "inf",
        "NaN",
        "0x10",
        "12s",
        "\u{661}\u{662}",
    ] {
        assert_eq!(ProcessUptime::system_uptime(text), Err(not_a_number(file, 0)));
    }
}

#[test]
fn process_uptime_reads_the_twenty_second_field() {
    assert_eq!(ProcessUptime::process_uptime(1234, STAT_LINE), Ok(8523));
}

#[test]
fn process_uptime_counts_fields_by_white_space_alone() {
    let line = "7 (a b) S 1 7 7 0 -1 4194304 100 0 0 0 1 2 0 0 20 0 1 0 555 666 777\n";
    assert_eq!(ProcessUptime::process_uptime(7, line), Ok(0));
    let line = "7 (ab) S 1 7 7 0 -1 4194304 100 0 0 0 1 2 0 0 20 0 1 0 555 666 777\n";
    assert_eq!(ProcessUptime::process_uptime(7, line), Ok(555));
}

#[test]
fn process_uptime_with_too_few_fields() {
    let file = PseudoFile::ProcessStat { pid: 42 };
    let twenty_one = "1 2 3 4 5 6 7 8 9 10 11 12 13 14 15 16 17 18 19 20 21";
    let twenty_two = "1 2 3 4 5 6 7 8 9 10 11 12 13 14 15 16 17 18 19 20 21 22";
    assert_eq!(ProcessUptime::process_uptime(42, ""), Err(missing(file, 21)));
    assert_eq!(ProcessUptime::process_uptime(42, "42 (cat) R"), Err(missing(file, 21)));
    assert_eq!(ProcessUptime::process_uptime(42, twenty_one), Err(missing(file, 21)));
    assert_eq!(ProcessUptime::process_uptime(42, twenty_two), Ok(22));
}

#[test]
fn process_uptime_error_names_the_process() {
    assert_eq!(
        ProcessUptime::process_uptime(9, "x"),
        Err(UptimeError::MalformedData {
            file: PseudoFile::ProcessStat { pid: 9 },
            index: 21,
            fault: FieldFault::Missing,
        })
    );
    assert_ne!(
        ProcessUptime::process_uptime(9, "x"),
        ProcessUptime::process_uptime(10, "x")
    );
}

#[test]
fn process_uptime_without_a_number() {
    let file = PseudoFile::ProcessStat { pid: 42 };
    let line = "1 2 3 4 5 6 7 8 9 10 11 12 13 14 15 16 17 18 19 20 21 x22 23";
    assert_eq!(ProcessUptime::process_uptime(42, line), Err(not_a_number(file, 21)));
    let line = "1 2 3 4 5 6 7 8 9 10 11 12 13 14 15 16 17 18 19 20 21 -22 23";
    assert_eq!(ProcessUptime::process_uptime(42, line), Err(not_a_number(file, 21)));
}

#[test]
fn ps_etime_with_either_line_ending() {
    assert_eq!(ProcessUptime::get_ps_etime(b"42\n"), Ok(42));
    assert_eq!(ProcessUptime::get_ps_etime(b"42\r\n"), Ok(42));
    assert_eq!(ProcessUptime::get_ps_etime(b"42"), Ok(42));
}

#[test]
fn ps_etime_of_plain_digits() {
    assert_eq!(ProcessUptime::get_ps_etime(b"0\n"), Ok(0));
    assert_eq!(ProcessUptime::get_ps_etime(b"000123\n"), Ok(123));
    assert_eq!(ProcessUptime::get_ps_etime(b"609773\n"), Ok(609773));
    assert_eq!(ProcessUptime::get_ps_etime(b"18446744073709551615\n"), Ok(u64::MAX));
}

#[test]
fn ps_etime_takes_off_one_line_ending_only() {
    assert_eq!(ProcessUptime::get_ps_etime(b"42\n\n"), Err(UptimeError::ToolFailure));
    assert_eq!(ProcessUptime::get_ps_etime(b"42\r"), Err(UptimeError::ToolFailure));
    assert_eq!(ProcessUptime::get_ps_etime(b"42\r\r\n"), Err(UptimeError::ToolFailure));
    assert_eq!(ProcessUptime::get_ps_etime(b"42\n\r"), Err(UptimeError::ToolFailure));
    assert_eq!(ProcessUptime::get_ps_etime(b"42\r\n\n"), Err(UptimeError::ToolFailure));
}

#[test]
fn ps_etime_without_a_number() {
    for output in [
        &b""[..],
        b"\n",
        b"\r\n",
        b" 42\n",
        b"42 \n",
        b"+42\n",
        b"-42\n",
        b"4 2\n",
        b"42.0\n",
        b"ELAPSED\n",
        b"18446744073709551616\n",
        b"99999999999999999999999999\n",
        b"\xff42\n",
        b"4\xc2\xa02\n",
        b"\xd9\xa1\n",
    ] {
        assert_eq!(ProcessUptime::get_ps_etime(output), Err(UptimeError::ToolFailure));
    }
}

#[test]
fn uptime_is_seconds_since_boot_less_start() {
    assert_eq!(ProcessUptime::uptime_since_start(609773, 8523, 100), Ok(609688));
    assert_eq!(ProcessUptime::uptime_since_start(609773, 8599, 100), Ok(609688));
    assert_eq!(ProcessUptime::uptime_since_start(609773, 8600, 100), Ok(609687));
    assert_eq!(ProcessUptime::uptime_since_start(100, 0, 100), Ok(100));
    assert_eq!(ProcessUptime::uptime_since_start(100, 1000, 10), Ok(0));
    assert_eq!(ProcessUptime::uptime_since_start(100, 250, 1), Err(UptimeError::ClockFailure));
    assert_eq!(ProcessUptime::uptime_since_start(100, 99, 1), Ok(1));
    assert_eq!(ProcessUptime::uptime_since_start(u64::MAX, u64::MAX, 1), Ok(0));
    assert_eq!(ProcessUptime::uptime_since_start(u64::MAX, u64::MAX, i64::MAX), Ok(u64::MAX - 2));
}

#[test]
fn uptime_needs_positive_clock_ticks() {
    assert_eq!(
        ProcessUptime::uptime_since_start(609773, 8523, 0),
        Err(UptimeError::SystemQueryFailure)
    );
    assert_eq!(
        ProcessUptime::uptime_since_start(609773, 8523, -1),
        Err(UptimeError::SystemQueryFailure)
    );
    assert_eq!(
        ProcessUptime::uptime_since_start(0, u64::MAX, i64::MIN),
        Err(UptimeError::SystemQueryFailure)
    );
}

#[test]
fn uptime_is_never_negative() {
    assert_eq!(ProcessUptime::uptime_since_start(84, 8523, 100), Err(UptimeError::ClockFailure));
    assert_eq!(ProcessUptime::uptime_since_start(85, 8523, 100), Ok(0));
    assert_eq!(ProcessUptime::uptime_since_start(0, 1, 1), Err(UptimeError::ClockFailure));
    assert_eq!(ProcessUptime::uptime_since_start(0, 0, 1), Ok(0));
}

#[test]
fn uptime_follows_the_clock() {
    let first = ProcessUptime::uptime_since_start(609773, 8523, 100).unwrap();
    let second = ProcessUptime::uptime_since_start(609776, 8523, 100).unwrap();
    assert_eq!(second, first + 3);
    let mut last = 0;
    for now in 85..200 {
        let uptime = ProcessUptime::uptime_since_start(now, 8523, 100).unwrap();
        assert!(uptime >= last);
        assert_eq!(uptime, now - 85);
        last = uptime;
    }
}

#[test]
fn proc_stat_uptime_from_the_three_readings() {
    assert_eq!(
        ProcessUptime::proc_stat_uptime(1234, "609773.79 19153047.14\n", STAT_LINE, 100),
        Ok(609688)
    );
    assert_eq!(
        ProcessUptime::proc_stat_uptime(1234, "609776.80 19153050.00\n", STAT_LINE, 100),
        Ok(609691)
    );
}

#[test]
fn proc_stat_uptime_fails_with_the_first_reading_that_fails() {
    assert_eq!(
        ProcessUptime::proc_stat_uptime(7, "", "", 0),
        Err(missing(PseudoFile::SystemUptime, 0))
    );
    assert_eq!(
        ProcessUptime::proc_stat_uptime(7, "x", "", 0),
        Err(not_a_number(PseudoFile::SystemUptime, 0))
    );
    assert_eq!(
        ProcessUptime::proc_stat_uptime(7, "1.5 2.5\n", "", 0),
        Err(missing(PseudoFile::ProcessStat { pid: 7 }, 21))
    );
    assert_eq!(
        ProcessUptime::proc_stat_uptime(7, "1.5 2.5\n", STAT_LINE, 0),
        Err(UptimeError::SystemQueryFailure)
    );
    assert_eq!(
        ProcessUptime::proc_stat_uptime(7, "1.5 2.5\n", STAT_LINE, 100),
        Err(UptimeError::ClockFailure)
    );
}

#[test]
fn since_modified_is_the_time_gone_by() {
    assert_eq!(
        ProcessUptime::since_modified(5, 1_700_000_000, 1_700_000_042),
        Ok(ProcessUptime { pid: 5, uptime: 42 })
    );
    assert_eq!(
        ProcessUptime::since_modified(5, 10, 10),
        Ok(ProcessUptime { pid: 5, uptime: 0 })
    );
    assert_eq!(
        ProcessUptime::since_modified(5, 0, u64::MAX),
        Ok(ProcessUptime { pid: 5, uptime: u64::MAX })
    );
}

#[test]
fn since_modified_in_the_future_is_a_clock_failure() {
    assert_eq!(ProcessUptime::since_modified(5, 11, 10), Err(UptimeError::ClockFailure));
    assert_eq!(ProcessUptime::since_modified(5, u64::MAX, 0), Err(UptimeError::ClockFailure));
}

#[test]
fn errors_describe_themselves() {
    let file = PseudoFile::SystemUptime;
    assert_eq!(UptimeError::NotFound { file }.description(), "pseudo-file not found");
    assert_eq!(missing(file, 0).description(), "expected field not found");
    assert_eq!(not_a_number(file, 0).description(), "could not parse value as a number");
    assert_eq!(UptimeError::ToolFailure.description(), "process-listing tool failed");
    assert_eq!(
        UptimeError::SystemQueryFailure.description(),
        "clock ticks per second not available"
    );
    assert_eq!(
        UptimeError::ClockFailure.description(),
        "process started after the time of reading"
    );
}

#[test]
fn pseudo_files_have_their_paths() {
    assert_eq!(PseudoFile::SystemUptime.path(), "/proc/uptime");
    assert_eq!(PseudoFile::ProcessStat { pid: 1234 }.path(), "/proc/1234/stat");
    assert_eq!(PseudoFile::ProcessStat { pid: 1 }.path(), "/proc/1/stat");
    assert_eq!(PseudoFile::ProcessStat { pid: 0 }.path(), "/proc/0/stat");
    assert_eq!(PseudoFile::ProcessStat { pid: 10 }.path(), "/proc/10/stat");
    assert_eq!(PseudoFile::ProcessStat { pid: u32::MAX }.path(), "/proc/4294967295/stat");
    assert_eq!(PseudoFile::ProcessEntry { pid: 1234 }.path(), "/proc/1234");
    assert_eq!(PseudoFile::ProcessEntry { pid: 0 }.path(), "/proc/0");
}
