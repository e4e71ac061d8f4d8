use rwatch::memory::{available_memory_kib, parse_meminfo_value, parse_memory_info, total_memory_kib, MemoryInfo};

const SAMPLE: &str = "MemTotal:       16318508 kB\nMemFree:         1234567 kB\nMemAvailable:    8000000 kB\nBuffers:          100000 kB\n";

#[test]
fn parses_total_and_available() {
    let m = parse_memory_info(SAMPLE).unwrap();
    assert_eq!(m.total_kib, 16318508);
    assert_eq!(m.available_kib, 8000000);
}

#[test]
fn order_of_lines_does_not_matter() {
    let m = parse_memory_info("MemAvailable: 5 kB\nMemTotal: 7 kB").unwrap();
    assert_eq!((m.total_kib, m.available_kib), (7, 5));
}

#[test]
fn first_matching_line_wins() {
    let m = parse_memory_info("MemTotal: 1 kB\nMemTotal: 2 kB\nMemAvailable: 3 kB\n").unwrap();
    assert_eq!((m.total_kib, m.available_kib), (1, 3));
}

#[test]
fn missing_total_is_reported() {
    assert_eq!(
        parse_memory_info("MemAvailable: 3 kB\n").err().unwrap(),
        "MemTotal not found"
    );
    assert_eq!(parse_memory_info("").err().unwrap(), "MemTotal not found");
}

#[test]
fn missing_available_is_reported() {
    assert_eq!(
        parse_memory_info("MemTotal: 3 kB\nMemFree: 1 kB\n").err().unwrap(),
        "MemAvailable not found"
    );
}

#[test]
fn both_lines_are_found_before_values_are_read() {
    // The total line is broken, but the missing available line is reported first.
    assert_eq!(
        parse_memory_info("MemTotal:\n").err().unwrap(),
        "MemAvailable not found"
    );
}

#[test]
fn line_without_value_is_reported_whole() {
    assert_eq!(
        parse_memory_info("MemTotal:\r\nMemAvailable: 4 kB\r\n").err().unwrap(),
        "Invalid meminfo line: MemTotal:"
    );
}

#[test]
fn bad_value_is_reported() {
    assert_eq!(
        parse_memory_info("MemTotal: 12 kB\nMemAvailable: 4x kB\n").err().unwrap(),
        "Invalid memory value: 4x"
    );
    assert_eq!(
        parse_memory_info("MemTotal: -12 kB\nMemAvailable: 4 kB\n").err().unwrap(),
        "Invalid memory value: -12"
    );
}

#[test]
fn value_that_overflows_is_reported() {
    assert_eq!(
        parse_meminfo_value("MemTotal: 18446744073709551616 kB").err().unwrap(),
        "Invalid memory value: 18446744073709551616"
    );
    assert_eq!(
        parse_meminfo_value("MemTotal: 18446744073709551615 kB").unwrap(),
        u64::MAX
    );
}

#[test]
fn value_accepts_plus_sign_and_any_white_space() {
    assert_eq!(parse_meminfo_value("MemTotal:\t+42\u{3000}kB").unwrap(), 42);
    assert_eq!(parse_meminfo_value("  a   007 ").unwrap(), 7);
    assert_eq!(
        parse_meminfo_value("MemTotal: + kB").err().unwrap(),
        "Invalid memory value: +"
    );
}

#[test]
fn prefix_must_start_the_line() {
    assert_eq!(
        parse_memory_info(" MemTotal: 1 kB\nMemAvailable: 1 kB").err().unwrap(),
        "MemTotal not found"
    );
}

#[test]
fn used_is_total_less_available() {
    let m = MemoryInfo { total_kib: 1000, available_kib: 250 };
    assert_eq!(m.used_kib(), 750);
    assert_eq!(m.used_kib() + m.available_kib, m.total_kib);
}

#[test]
fn kib_from_bytes_and_pages() {
    assert_eq!(total_memory_kib(17179869184), 16777216);
    assert_eq!(total_memory_kib(1023), 0);
    assert_eq!(available_memory_kib(10, 6, 16384), 256);
    assert_eq!(available_memory_kib(1, 0, 1000), 0);
}

/// How `/proc/meminfo` is read, written with `str::lines`,
/// `str::split_whitespace` and `str::parse`.
fn reference(input: &str) -> Result<(u64, u64), String> {
    fn value(line: &str) -> Result<u64, String> {
        let value = line
            .split_whitespace()
            .nth(1)
            .ok_or_else(|| format!("Invalid meminfo line: {line}"))?;
        value
            .parse::<u64>()
            .map_err(|_| format!("Invalid memory value: {value}"))
    }
    let total = input
        .lines()
        .find(|line| line.starts_with("MemTotal:"))
        .ok_or("MemTotal not found")?;
    let available = input
        .lines()
        .find(|line| line.starts_with("MemAvailable:"))
        .ok_or("MemAvailable not found")?;
    Ok((value(total)?, value(available)?))
}

#[test]
fn agrees_with_std_text_handling() {
    let inputs = [
        SAMPLE,
        "",
        "\n",
        "\r\n",
        "MemTotal:\r",
        "MemTotal: 1\rMemAvailable: 2",
        "MemTotal: 1 kB\r\r\nMemAvailable: 2\r",
        "MemTotal: 1\n\nMemAvailable:\t\t2 kB\n\n",
        "MemTotal:\u{2003}9\u{85}kB\nMemAvailable: +0 kB",
        "MemTotal: 1 kB\nMemAvailable: 00000000000000000000018446744073709551615",
        "MemTotal: 1 kB\nMemAvailable: \u{ff11}",
        "xMemTotal: 1\nMemTotal:1\nMemAvailable: 2",
        "MemTotal:1 2\nMemAvailable: 2 3",
        "MemTotal: a b\nMemAvailable: 2 3",
        "MemAvailable: 5\r\nMemTotal: \u{a0}7\u{a0}\r\n",
    ];
    for input in inputs {
        let ours = parse_memory_info(input).map(|m| (m.total_kib, m.available_kib));
        assert_eq!(ours, reference(input), "{input:?}");
    }
}

#[test]
fn reads_back_what_was_written() {
    for (total, available) in [(0u64, 0u64), (16318508, 8000000), (u64::MAX, 1), (7, u64::MAX)] {
        let text = format!("MemTotal: {total} kB\nMemAvailable: {available} kB\n");
        let m = parse_memory_info(&text).unwrap();
        assert_eq!((m.total_kib, m.available_kib), (total, available));
    }
}
