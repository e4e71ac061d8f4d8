use rwatch::uptime::{elapsed_seconds, first_uptime_field, format_uptime, uptime_seconds_from};

#[test]
fn formats_zero() {
    assert_eq!(format_uptime(0), "0d 00h 00m 00s");
}

#[test]
fn formats_each_unit() {
    assert_eq!(format_uptime(90061), "1d 01h 01m 01s");
    assert_eq!(format_uptime(86399), "0d 23h 59m 59s");
    assert_eq!(format_uptime(86400 * 12 + 3600 * 10 + 60 * 42 + 9), "12d 10h 42m 09s");
}

#[test]
fn formats_largest() {
    assert_eq!(format_uptime(u64::MAX), "213503982334601d 07h 00m 15s");
}

#[test]
fn parts_recompose_the_duration() {
    for total in [0u64, 59, 60, 3599, 3600, 86399, 86400, 1234567, 98765432] {
        let text = format_uptime(total);
        let parts: Vec<u64> = text
            .split(' ')
            .map(|p| p[..p.len() - 1].parse().unwrap())
            .collect();
        assert_eq!(parts[0] * 86400 + parts[1] * 3600 + parts[2] * 60 + parts[3], total);
        assert!(parts[1] < 24 && parts[2] < 60 && parts[3] < 60);
    }
}

#[test]
fn first_field_of_proc_uptime() {
    assert_eq!(first_uptime_field("12345.67 54321.00\n").unwrap(), "12345.67");
    assert_eq!(first_uptime_field("  \t 9.5").unwrap(), "9.5");
}

#[test]
fn empty_proc_uptime_is_reported() {
    assert_eq!(first_uptime_field("").err().unwrap(), "Invalid /proc/uptime");
    assert_eq!(first_uptime_field(" \n\t ").err().unwrap(), "Invalid /proc/uptime");
}

#[test]
fn unreadable_uptime_value_is_reported() {
    assert_eq!(uptime_seconds_from("12.5", Some(12)).unwrap(), 12);
    assert_eq!(
        uptime_seconds_from("abc", None).err().unwrap(),
        "Invalid uptime value: abc"
    );
}

#[test]
fn elapsed_since_boot() {
    assert_eq!(elapsed_seconds(1_700_000_100, 1_700_000_000), 100);
    assert_eq!(elapsed_seconds(5, 5), 0);
}
