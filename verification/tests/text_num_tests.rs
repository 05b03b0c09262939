use sysmon::num::{centi_to_string, kb_to_mb_string, u64_string};
use sysmon::rank::{parse_sort_key, sort_processes, SortKey};
use sysmon::snapshot::ProcessSample;
use sysmon::text::{ascii_lowercase, pad_left_str, pad_right_str, str_eq};

#[test]
fn decimal_strings() {
    assert_eq!(u64_string(0), "0");
    assert_eq!(u64_string(7), "7");
    assert_eq!(u64_string(10), "10");
    assert_eq!(u64_string(90061), "90061");
    assert_eq!(u64_string(u64::MAX), "18446744073709551615");
}

#[test]
fn centi_strings() {
    assert_eq!(centi_to_string(0), "0.00");
    assert_eq!(centi_to_string(5), "0.05");
    assert_eq!(centi_to_string(50), "0.50");
    assert_eq!(centi_to_string(100), "1.00");
    assert_eq!(centi_to_string(9000), "90.00");
    assert_eq!(centi_to_string(12345), "123.45");
}

#[test]
fn kb_to_mb_strings() {
    assert_eq!(kb_to_mb_string(0), "0.00");
    assert_eq!(kb_to_mb_string(512), "0.50");
    assert_eq!(kb_to_mb_string(1024), "1.00");
    assert_eq!(kb_to_mb_string(1536), "1.50");
    assert_eq!(kb_to_mb_string(1000), "0.98");
    // rounds to nearest: 5 KB is 0.0048828125 MB
    assert_eq!(kb_to_mb_string(5), "0.00");
    assert_eq!(kb_to_mb_string(6), "0.01");
}

#[test]
fn padding() {
    assert_eq!(pad_left_str("ab", 5, ' '), "   ab");
    assert_eq!(pad_right_str("ab", 5, ' '), "ab   ");
    assert_eq!(pad_left_str("abcdef", 5, ' '), "abcdef");
    assert_eq!(pad_left_str("", 3, '-'), "---");
}

#[test]
fn string_equality_and_lowercasing() {
    assert!(str_eq("cpu", "cpu"));
    assert!(!str_eq("cpu", "CPU"));
    assert!(!str_eq("cpu", "cp"));
    assert!(str_eq("", ""));
    assert_eq!(ascii_lowercase("CPU"), "cpu");
    assert_eq!(ascii_lowercase("WaTcH"), "watch");
    assert_eq!(ascii_lowercase("abc-123"), "abc-123");
}

#[test]
fn sort_key_parsing() {
    assert_eq!(parse_sort_key("cpu"), SortKey::Cpu);
    assert_eq!(parse_sort_key("memory"), SortKey::Memory);
    assert_eq!(parse_sort_key("bogus"), SortKey::Memory);
    assert_eq!(parse_sort_key(""), SortKey::Memory);
}

fn proc(pid: u64, cpu_centi: u64, mem_kb: u64) -> ProcessSample {
    ProcessSample { pid, name: String::new(), cpu_centi_percent: cpu_centi, memory_kb: mem_kb }
}

#[test]
fn sorting_is_descending_and_stable() {
    let input = vec![proc(1, 100, 50), proc(2, 300, 50), proc(3, 100, 70), proc(4, 300, 10)];
    let by_cpu: Vec<u64> = sort_processes(input, SortKey::Cpu).iter().map(|p| p.pid).collect();
    assert_eq!(by_cpu, vec![2, 4, 1, 3]);

    let input = vec![proc(1, 100, 50), proc(2, 300, 50), proc(3, 100, 70), proc(4, 300, 10)];
    let by_mem: Vec<u64> = sort_processes(input, SortKey::Memory).iter().map(|p| p.pid).collect();
    assert_eq!(by_mem, vec![3, 1, 2, 4]);

    let empty: Vec<u64> = sort_processes(vec![], SortKey::Cpu).iter().map(|p| p.pid).collect();
    assert!(empty.is_empty());
}
