use rwatch::cpu::{bar, cpu_deltas, cpu_snapshots, cpu_times_from_ticks, per_core_cpu_snapshots, total_cpu_snapshot, CpuTimes};

#[test]
fn deltas_between_samples() {
    let before = CpuTimes { idle: 100, total: 400 };
    let after = CpuTimes { idle: 130, total: 500 };
    assert_eq!(cpu_deltas(&before, &after), (70, 100));
}

#[test]
fn no_elapsed_time_gives_no_busy_time() {
    let t = CpuTimes { idle: 5, total: 9 };
    assert_eq!(cpu_deltas(&t, &CpuTimes { idle: 5, total: 9 }), (0, 0));
}

#[test]
fn fully_idle_and_fully_busy() {
    let before = CpuTimes { idle: 0, total: 0 };
    assert_eq!(cpu_deltas(&before, &CpuTimes { idle: 10, total: 10 }), (0, 10));
    assert_eq!(cpu_deltas(&before, &CpuTimes { idle: 0, total: 10 }), (10, 10));
}

#[test]
fn bar_has_its_width() {
    assert_eq!(bar(0, 4), "\u{2591}\u{2591}\u{2591}\u{2591}");
    assert_eq!(bar(4, 4), "\u{2588}\u{2588}\u{2588}\u{2588}");
    assert_eq!(bar(1, 3), "\u{2588}\u{2591}\u{2591}");
    assert_eq!(bar(0, 0), "");
    assert_eq!(bar(7, 20).chars().count(), 20);
}

#[test]
fn times_from_ticks() {
    let t = cpu_times_from_ticks(10, 20, 30, 40);
    assert_eq!((t.idle, t.total), (30, 100));
    let s = total_cpu_snapshot(1, 2, 3, 4);
    assert_eq!(s.name, "cpu");
    assert_eq!((s.times.idle, s.times.total), (3, 10));
}

#[test]
fn per_core_snapshots_are_named_by_index() {
    let ticks: Vec<u64> = (0..48).collect();
    let cores = per_core_cpu_snapshots(&ticks, 12);
    assert_eq!(cores.len(), 12);
    assert_eq!(cores[0].name, "cpu0");
    assert_eq!(cores[11].name, "cpu11");
    assert_eq!((cores[1].times.idle, cores[1].times.total), (6, 4 + 5 + 6 + 7));
    assert!(per_core_cpu_snapshots(&ticks, 0).is_empty());
}

#[test]
fn whole_machine_comes_first() {
    let total = total_cpu_snapshot(1, 1, 1, 1);
    let cores = per_core_cpu_snapshots(&vec![1, 1, 1, 1, 2, 2, 2, 2], 2);
    let all = cpu_snapshots(total, cores);
    let names: Vec<&str> = all.iter().map(|c| c.name.as_str()).collect();
    assert_eq!(names, vec!["cpu", "cpu0", "cpu1"]);
}

use rwatch::cpu::{parse_cpu_stat, parse_stat_line};

const STAT: &str = "cpu  10 20 30 40 5 0 0 0 0 0\ncpu0 1 2 3 4 0 0 0 0 0 0\r\ncpu1 5 6 7 8 0 0 0 0 0 0\nintr 12345 0 0\nctxt 999\n";

#[test]
fn reads_cpu_lines_of_proc_stat() {
    let cpus = parse_cpu_stat(STAT).unwrap();
    let got: Vec<(&str, u64, u64)> = cpus.iter().map(|c| (c.name.as_str(), c.times.idle, c.times.total)).collect();
    assert_eq!(got, vec![("cpu", 40, 100), ("cpu0", 4, 10), ("cpu1", 8, 26)]);
}

#[test]
fn other_lines_are_skipped() {
    assert!(parse_stat_line("intr 1 2 3").is_none());
    assert!(parse_stat_line("").is_none());
    assert!(parse_cpu_stat("btime 1\n\n").unwrap().is_empty());
}

#[test]
fn short_or_bad_cpu_line_is_reported() {
    assert_eq!(
        parse_cpu_stat("cpu 1 2 3\n").err().unwrap(),
        "Invalid /proc/stat line: cpu 1 2 3"
    );
    assert_eq!(
        parse_cpu_stat("cpu 1 2 x 4\n").err().unwrap(),
        "Invalid /proc/stat line: cpu 1 2 x 4"
    );
    assert_eq!(
        parse_cpu_stat("cpu 18446744073709551615 1 0 0\n").err().unwrap(),
        "Invalid /proc/stat line: cpu 18446744073709551615 1 0 0"
    );
}
