use sysmon::render::{format_header, format_row, format_summary, format_uptime, render, truncate_name};
use sysmon::snapshot::{LoadAverages, ProcessSample, Snapshot};

fn proc(pid: u64, name: &str, cpu_centi: u64, mem_kb: u64) -> ProcessSample {
    ProcessSample { pid, name: name.to_string(), cpu_centi_percent: cpu_centi, memory_kb: mem_kb }
}

fn two_proc_snapshot() -> Snapshot {
    Snapshot {
        global_cpu_centi_percent: 0,
        core_count: 1,
        total_memory_kb: 0,
        used_memory_kb: 0,
        available_memory_kb: 0,
        process_count: 2,
        uptime_seconds: 0,
        load_averages: None,
        processes: vec![proc(1, "a", 1000, 2048), proc(2, "b", 9000, 1024)],
    }
}

fn header() -> String {
    format!("{:>6}  {:<25}  {:>6}  {:>10}\n", "PID", "Name", "CPU%", "MemoryMB")
        + &format!("{:-<6}  {:-<25}  {:-<6}  {:-<10}\n", "", "", "", "")
}

fn row(pid: &str, name: &str, cpu: &str, mem: &str) -> String {
    format!("{:>6}  {:<25}  {:>6}  {:>10}\n", pid, name, cpu, mem)
}

#[test]
fn truncation_at_thirty_characters() {
    let name = "abcdefghijklmnopqrstuvwxyz0123";
    assert_eq!(name.len(), 30);
    let shown = truncate_name(name);
    assert_eq!(shown, "abcdefghijklmnopqrstuv...");
    assert_eq!(shown.len(), 25);
}

#[test]
fn short_names_kept_whole() {
    let name25 = "abcdefghijklmnopqrstuvwxy";
    assert_eq!(name25.len(), 25);
    assert_eq!(truncate_name(name25), name25);
    assert_eq!(truncate_name(""), "");
}

#[test]
fn uptime_with_all_segments() {
    assert_eq!(format_uptime(90061), "1d 1h 1m 1s");
}

#[test]
fn uptime_seconds_only() {
    assert_eq!(format_uptime(45), "45s");
}

#[test]
fn uptime_boundaries() {
    assert_eq!(format_uptime(0), "0s");
    assert_eq!(format_uptime(3600), "1h 0m 0s");
    assert_eq!(format_uptime(60), "1m 0s");
    assert_eq!(format_uptime(86400), "1d 0h 0m 0s");
}

#[test]
fn header_matches_fixed_layout() {
    assert_eq!(format_header(), header());
}

#[test]
fn row_matches_fixed_layout() {
    let r = format_row(&proc(1, "a", 1000, 2048));
    assert_eq!(r, row("1", "a", "10.00", "2.00"));
}

#[test]
fn cpu_sort_lists_hungriest_first() {
    let snap = two_proc_snapshot();
    let out = render(&snap, "cpu", 10, false);
    let expected = header() + &row("2", "b", "90.00", "1.00") + &row("1", "a", "10.00", "2.00");
    assert_eq!(out, expected);
}

#[test]
fn memory_sort_with_limit_one() {
    let snap = two_proc_snapshot();
    let out = render(&snap, "memory", 1, false);
    // pid 1 holds 2048 KB = 2.00 MB, more than pid 2's 1024 KB = 1.00 MB
    let expected = header() + &row("1", "a", "10.00", "2.00");
    assert_eq!(out, expected);
}

#[test]
fn limit_zero_gives_headers_only() {
    let snap = two_proc_snapshot();
    let out = render(&snap, "cpu", 0, false);
    assert_eq!(out, header());
}

#[test]
fn limit_beyond_table_lists_everything() {
    let snap = two_proc_snapshot();
    let out = render(&snap, "memory", 100, false);
    assert_eq!(out.lines().count(), 4);
}

#[test]
fn unrecognized_sort_key_falls_back_to_memory() {
    let snap = two_proc_snapshot();
    let bogus = render(&snap, "bogus", 10, false);
    let memory = render(&snap, "memory", 10, false);
    assert_eq!(bogus, memory);
}

#[test]
fn cpu_rows_non_increasing() {
    let snap = Snapshot {
        processes: vec![
            proc(1, "a", 100, 5),
            proc(2, "b", 7500, 10),
            proc(3, "c", 50, 20),
            proc(4, "d", 7500, 1),
        ],
        process_count: 4,
        ..two_proc_snapshot()
    };
    let out = render(&snap, "cpu", 10, false);
    let cpus: Vec<f64> = out
        .lines()
        .skip(2)
        .map(|l| l.split_whitespace().nth(2).unwrap().parse::<f64>().unwrap())
        .collect();
    assert_eq!(cpus.len(), 4);
    for w in cpus.windows(2) {
        assert!(w[0] >= w[1]);
    }
}

#[test]
fn ties_keep_enumeration_order() {
    let snap = Snapshot {
        processes: vec![proc(7, "x", 500, 64), proc(3, "y", 500, 64), proc(9, "z", 500, 64)],
        process_count: 3,
        ..two_proc_snapshot()
    };
    let out = render(&snap, "cpu", 10, false);
    let pids: Vec<u64> = out
        .lines()
        .skip(2)
        .map(|l| l.split_whitespace().next().unwrap().parse::<u64>().unwrap())
        .collect();
    assert_eq!(pids, vec![7, 3, 9]);
}

#[test]
fn summary_block_layout() {
    let snap = Snapshot {
        global_cpu_centi_percent: 2500,
        core_count: 8,
        total_memory_kb: 16 * 1024 * 1024,
        used_memory_kb: 1024 * 1024,
        available_memory_kb: 15 * 1024 * 1024,
        process_count: 2,
        uptime_seconds: 45,
        load_averages: Some(LoadAverages { one_centi: 101, five_centi: 52, fifteen_centi: 8 }),
        processes: vec![],
    };
    let text = format_summary(&snap);
    let dashes = "-".repeat(60);
    let expected = format!("System Summary:\n{dashes}\n")
        + &format!("CPU Usage: {:>6}% ({} Cores/Threads)\n", "25.00", 8)
        + &format!("Memory:    {:>7} MB / {:>7} MB Used ({:>7} MB Avail)\n", "1024.00", "16384.00", "15360.00")
        + "Load Avg:  1.01, 0.52, 0.08 (1m, 5m, 15m)\n"
        + "Processes: 2\n"
        + "Uptime:    45s\n"
        + &format!("{dashes}\n\n");
    assert_eq!(text, expected);
}

#[test]
fn summary_without_load_averages_omits_the_line() {
    let snap = Snapshot { load_averages: None, ..two_proc_snapshot() };
    let text = format_summary(&snap);
    assert!(!text.contains("Load Avg"));
}

#[test]
fn summary_prepended_when_requested() {
    let snap = two_proc_snapshot();
    let with = render(&snap, "memory", 10, true);
    let without = render(&snap, "memory", 10, false);
    assert!(with.ends_with(&without));
    assert!(with.starts_with("System Summary:\n"));
    assert!(with.len() > without.len());
}

#[test]
fn memory_conversion_rounds_to_nearest_hundredth() {
    // 1000 KB is 0.9765625 MB, shown as 0.98
    let r = format_row(&proc(1, "p", 0, 1000));
    assert_eq!(r, row("1", "p", "0.00", "0.98"));
    // 1536 KB is exactly 1.50 MB
    let r = format_row(&proc(1, "p", 0, 1536));
    assert_eq!(r, row("1", "p", "0.00", "1.50"));
}
