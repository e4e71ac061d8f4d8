use rwatch::cpu::{CpuSnapshot, CpuTimes};
use rwatch::memory::MemoryInfo;
use rwatch::model::{collect_snapshot, SystemSnapshot};
use rwatch::ui::{build_frame, clamp_scroll, cpu_row, visible_lines, CpuFigure, MemoryFigures};

fn cpu(name: &str, idle: u64, total: u64) -> CpuSnapshot {
    CpuSnapshot { name: name.to_string(), times: CpuTimes { idle, total } }
}

fn snapshot(cpus: Vec<CpuSnapshot>) -> SystemSnapshot {
    collect_snapshot(
        "Linux".to_string(),
        "Ryzen".to_string(),
        90061,
        "0.10 0.20 0.30".to_string(),
        MemoryInfo { total_kib: 2097152, available_kib: 1048576 },
        cpus,
    )
}

fn figures() -> MemoryFigures {
    MemoryFigures {
        total_gib: "2.00".to_string(),
        available_gib: "1.00".to_string(),
        used_gib: "1.00".to_string(),
        usage_percent: "50.0".to_string(),
    }
}

#[test]
fn whole_frame() {
    let previous = snapshot(vec![cpu("cpu", 0, 0), cpu("cpu0", 0, 0), cpu("cpu1", 0, 0)]);
    let current = snapshot(vec![cpu("cpu", 5, 10), cpu("cpu0", 0, 5), cpu("cpu1", 5, 5)]);
    let cpus = vec![
        CpuFigure { filled: 10, usage: " 50.0".to_string() },
        CpuFigure { filled: 20, usage: "100.0".to_string() },
        CpuFigure { filled: 0, usage: "  0.0".to_string() },
    ];
    let lines = build_frame(&previous, &current, &cpus, &figures());
    let full = "\u{2588}".repeat(20);
    let empty = "\u{2591}".repeat(20);
    let half = format!("{}{}", "\u{2588}".repeat(10), "\u{2591}".repeat(10));
    let expected = vec![
        "rwatch".to_string(),
        "======".to_string(),
        String::new(),
        "System: Linux".to_string(),
        "CPU:    Ryzen \u{d7} 2".to_string(),
        "Uptime: 1d 01h 01m 01s".to_string(),
        "Load:   0.10 0.20 0.30".to_string(),
        String::new(),
        "CPU:".to_string(),
        format!("  Total [{half}]  50.0%"),
        format!("  cpu0  [{full}] 100.0%"),
        format!("  cpu1  [{empty}]   0.0%"),
        String::new(),
        "Memory:".to_string(),
        "  Total:      2.00 GiB".to_string(),
        "  Available:  1.00 GiB".to_string(),
        "  Used:       1.00 GiB".to_string(),
        "  Usage:      50.0%".to_string(),
        String::new(),
        "Updating every 1s \u{2014} Ctrl+C or q to quit".to_string(),
    ];
    assert_eq!(lines, expected);
    assert!(lines.iter().all(|l| !l.contains('\n')));
}

#[test]
fn rows_follow_the_shorter_sample() {
    let previous = snapshot(vec![cpu("cpu", 0, 0)]);
    let current = snapshot(vec![cpu("cpu", 0, 0), cpu("cpu0", 0, 0)]);
    let cpus = vec![CpuFigure { filled: 0, usage: "  0.0".to_string() }];
    let lines = build_frame(&previous, &current, &cpus, &figures());
    assert_eq!(lines.len(), 9 + 1 + 8);
    assert_eq!(lines[4], "CPU:    Ryzen \u{d7} 1");
}

#[test]
fn no_cpus_means_no_cores() {
    let s = snapshot(vec![]);
    let lines = build_frame(&s, &s, &vec![], &figures());
    assert_eq!(lines.len(), 17);
    assert_eq!(lines[4], "CPU:    Ryzen \u{d7} 0");
}

#[test]
fn labels_are_padded_to_five() {
    let empty = "\u{2591}".repeat(20);
    assert_eq!(cpu_row(&"cpu".to_string(), 0, &"1.0".to_string()), format!("  Total [{empty}] 1.0%"));
    assert_eq!(cpu_row(&"c".to_string(), 0, &"1.0".to_string()), format!("  c     [{empty}] 1.0%"));
    assert_eq!(cpu_row(&"cpu123".to_string(), 0, &"1.0".to_string()), format!("  cpu123 [{empty}] 1.0%"));
    assert_eq!(cpu_row(&"\u{e9}t\u{e9}".to_string(), 0, &"1.0".to_string()), format!("  \u{e9}t\u{e9}   [{empty}] 1.0%"));
}

#[test]
fn scroll_is_clamped_to_last_page() {
    assert_eq!(clamp_scroll(20, 5, 3), 3);
    assert_eq!(clamp_scroll(20, 5, 100), 15);
    assert_eq!(clamp_scroll(20, 5, usize::MAX), 15);
    assert_eq!(clamp_scroll(4, 5, 2), 0);
    assert_eq!(clamp_scroll(0, 0, 2), 0);
    assert_eq!(clamp_scroll(20, 5, clamp_scroll(20, 5, 99)), clamp_scroll(20, 5, 99));
}

#[test]
fn visible_lines_are_cut_to_the_terminal() {
    let lines: Vec<String> = vec!["abcdef".to_string(), "\u{2588}\u{2588}\u{2588}".to_string(), "x".to_string()];
    assert_eq!(visible_lines(&lines, 0, 2, 4), vec!["abcd".to_string(), "\u{2588}\u{2588}\u{2588}".to_string()]);
    assert_eq!(visible_lines(&lines, 1, 5, 2), vec!["\u{2588}\u{2588}".to_string(), "x".to_string()]);
    assert!(visible_lines(&lines, 3, 5, 2).is_empty());
    assert!(visible_lines(&lines, 0, 0, 2).is_empty());
    assert_eq!(visible_lines(&lines, 2, 5, 0), vec![String::new()]);
}

#[test]
fn clamped_view_is_full() {
    let lines: Vec<String> = (0..10).map(|i| i.to_string()).collect();
    for offset in [0usize, 3, 9, 50, usize::MAX] {
        let o = clamp_scroll(lines.len(), 4, offset);
        assert_eq!(visible_lines(&lines, o, 4, 80).len(), 4);
    }
    let o = clamp_scroll(lines.len(), 40, 7);
    assert_eq!(visible_lines(&lines, o, 40, 80).len(), 10);
}

#[test]
fn snapshot_keeps_its_parts() {
    let s = snapshot(vec![cpu("cpu", 1, 2)]);
    assert_eq!(s.uptime, "1d 01h 01m 01s");
    assert_eq!(s.loadavg, "0.10 0.20 0.30");
    assert_eq!(s.memory.total_kib, 2097152);
    assert_eq!(s.cpu.len(), 1);
}
