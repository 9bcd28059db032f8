use procview::record::has_unique_pids;
use procview::record::ProcessRecord;
use procview::timefmt::{format_time, format_uptime, u64_to_string};

#[test]
fn decimal_rendering() {
    assert_eq!(u64_to_string(0).as_str(), "0");
    assert_eq!(u64_to_string(7).as_str(), "7");
    assert_eq!(u64_to_string(42).as_str(), "42");
    assert_eq!(u64_to_string(90610).as_str(), "90610");
}

#[test]
fn time_below_a_day_uses_clock_form() {
    assert_eq!(format_time(0).as_str(), "00:00:00");
    assert_eq!(format_time(59).as_str(), "00:00:59");
    assert_eq!(format_time(3661).as_str(), "01:01:01");
    assert_eq!(format_time(86399).as_str(), "23:59:59");
}

#[test]
fn time_in_days_uses_day_hour_form() {
    // One day and one hour.
    assert_eq!(format_time(90000).as_str(), "01d01h");
    assert_eq!(format_time(90 * 86400).as_str(), "90d00h");
}

#[test]
fn time_beyond_ninety_nine_days_shows_days_only() {
    assert_eq!(format_time(100 * 86400).as_str(), "100d");
}

#[test]
fn uptime_form() {
    assert_eq!(format_uptime(0).as_str(), "0 days, 00:00");
    assert_eq!(format_uptime(90061).as_str(), "1 days, 01:01");
    assert_eq!(format_uptime(2 * 86400 + 10 * 3600 + 5 * 60).as_str(), "2 days, 10:05");
}

fn rec(pid: u32) -> ProcessRecord {
    ProcessRecord {
        pid,
        ppid: 0,
        user: "u".to_string(),
        status: "S".to_string(),
        cpu_millipct: 0,
        mem_millipct: 0,
        virtual_mem: 0,
        cpu_time: 0,
        command: "c".to_string(),
    }
}

#[test]
fn unique_pid_check() {
    assert!(has_unique_pids(&vec![rec(1), rec(2), rec(3)]));
    assert!(!has_unique_pids(&vec![rec(1), rec(2), rec(1)]));
    assert!(has_unique_pids(&Vec::new()));
}
