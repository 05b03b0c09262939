//! The report formatter: turns a snapshot into bounded, sorted,
//! column-aligned text, optionally prefixed by a system summary block.
//!
//! Every public function's output is pinned exactly by a spec-level
//! text function over the snapshot's view.

use vstd::prelude::*;
use vstd::string::StrSliceExecFns;
use vstd::string::StringExecFns;

use crate::num::{centi_string, centi_to_string, dec_digits, kb_to_mb_string, mb_string, u64_string};
use crate::rank::{
    lemma_sort_desc_permutes, lemma_sort_desc_sorted, lemma_sorted_desc_take, parse_sort_key,
    rank, sort_desc, sort_key_of, sorted_desc, SortKey,
};
use crate::snapshot::{LoadAverages, ProcessSample, Snapshot};
use crate::text::{pad_left, pad_left_str, pad_right, pad_right_str, push_repeat, repeat_char};

verus! {

/// The smaller of two counts.
pub open spec fn min_nat(a: nat, b: nat) -> nat {
    if a <= b {
        a
    } else {
        b
    }
}

/// The display form of a process name: names longer than 25 characters
/// are cut to their first 22 characters with a three-character ellipsis
/// marker appended.
pub open spec fn display_name(name: Seq<char>) -> Seq<char> {
    if name.len() > 25 {
        name.take(22) + "..."@
    } else {
        name
    }
}

/// Truncates a process name for display: at most 25 characters, longer
/// names become their first 22 characters plus "...".
pub fn truncate_name(name: &str) -> (r: String)
    ensures
        r@ == display_name(name@),
{
    let n = name.unicode_len();
    if n > 25 {
        let head = name.substring_char(0, 22);
        let mut r = head.to_owned();
        r.append("...");
        r
    } else {
        name.to_owned()
    }
}

/// One data row of the report: PID right-aligned in 6 columns, name
/// left-aligned in 25, CPU% and memory in MB right-aligned in 6 and 10,
/// two decimal places each, columns separated by two spaces.
pub open spec fn row_text(p: ProcessSample) -> Seq<char> {
    pad_left(dec_digits(p.pid as nat), 6, ' ') + "  "@ + pad_right(display_name(p.name@), 25, ' ')
        + "  "@ + pad_left(centi_string(p.cpu_centi_percent as nat), 6, ' ') + "  "@ + pad_left(
        mb_string(p.memory_kb as nat),
        10,
        ' ',
    ) + "\n"@
}

/// Formats one data row of the report.
pub fn format_row(p: &ProcessSample) -> (r: String)
    ensures
        r@ == row_text(*p),
{
    let pid = u64_string(p.pid);
    let mut r = pad_left_str(pid.as_str(), 6, ' ');
    r.append("  ");
    let shown = truncate_name(p.name.as_str());
    let name_col = pad_right_str(shown.as_str(), 25, ' ');
    r.append(name_col.as_str());
    r.append("  ");
    let cpu = centi_to_string(p.cpu_centi_percent);
    let cpu_col = pad_left_str(cpu.as_str(), 6, ' ');
    r.append(cpu_col.as_str());
    r.append("  ");
    let mem = kb_to_mb_string(p.memory_kb);
    let mem_col = pad_left_str(mem.as_str(), 10, ' ');
    r.append(mem_col.as_str());
    r.append("\n");
    proof {
        assert(r@ =~= row_text(*p));
    }
    r
}

/// The header and separator rows of the report table.
pub open spec fn header_text() -> Seq<char> {
    pad_left("PID"@, 6, ' ') + "  "@ + pad_right("Name"@, 25, ' ') + "  "@ + pad_left(
        "CPU%"@,
        6,
        ' ',
    ) + "  "@ + pad_left("MemoryMB"@, 10, ' ') + "\n"@ + repeat_char('-', 6) + "  "@ + repeat_char(
        '-',
        25,
    ) + "  "@ + repeat_char('-', 6) + "  "@ + repeat_char('-', 10) + "\n"@
}

/// Formats the header and separator rows of the report table.
pub fn format_header() -> (r: String)
    ensures
        r@ == header_text(),
{
    let mut r = pad_left_str("PID", 6, ' ');
    r.append("  ");
    let name_col = pad_right_str("Name", 25, ' ');
    r.append(name_col.as_str());
    r.append("  ");
    let cpu_col = pad_left_str("CPU%", 6, ' ');
    r.append(cpu_col.as_str());
    r.append("  ");
    let mem_col = pad_left_str("MemoryMB", 10, ' ');
    r.append(mem_col.as_str());
    r.append("\n");
    push_repeat(&mut r, '-', 6);
    r.append("  ");
    push_repeat(&mut r, '-', 25);
    r.append("  ");
    push_repeat(&mut r, '-', 6);
    r.append("  ");
    push_repeat(&mut r, '-', 10);
    r.append("\n");
    proof {
        assert(r@ =~= header_text());
    }
    r
}

/// The concatenation of the data rows for a process table.
pub open spec fn rows_text(s: Seq<ProcessSample>) -> Seq<char>
    decreases s.len(),
{
    if s.len() == 0 {
        Seq::empty()
    } else {
        rows_text(s.drop_last()) + row_text(s.last())
    }
}

/// The full report table for a process table: header, separator, then
/// the first `limit` processes after the stable descending sort.
pub open spec fn table_text(procs: Seq<ProcessSample>, k: SortKey, limit: nat) -> Seq<char> {
    header_text() + rows_text(sort_desc(procs, k).take(min_nat(limit, procs.len()) as int))
}

/// Formats the first `limit` rows of an already ranked process table;
/// the number of data rows is exactly `min(limit, sorted.len())`.
pub fn format_rows(sorted: &Vec<ProcessSample>, limit: usize) -> (rows: Vec<String>)
    ensures
        rows@.len() == min_nat(limit as nat, sorted@.len()),
        forall|i: int| 0 <= i < rows@.len() ==> rows@[i]@ == row_text(sorted@[i]),
{
    let m = if limit < sorted.len() {
        limit
    } else {
        sorted.len()
    };
    let mut rows: Vec<String> = Vec::new();
    let mut i: usize = 0;
    while i < m
        invariant
            i <= m,
            m == min_nat(limit as nat, sorted@.len()),
            rows@.len() == i,
            forall|j: int| 0 <= j < i ==> rows@[j]@ == row_text(sorted@[j]),
        decreases m - i,
    {
        let row = format_row(&sorted[i]);
        rows.push(row);
        i = i + 1;
    }
    rows
}

/// The system summary block: aggregate CPU, core count, memory in MB,
/// load averages when the platform exposes them, live process count and
/// decomposed uptime, framed by separator lines.
pub open spec fn summary_text(s: Snapshot) -> Seq<char> {
    "System Summary:\n"@ + dash_line() + "CPU Usage: "@ + pad_left(
        centi_string(s.global_cpu_centi_percent as nat),
        6,
        ' ',
    ) + "% ("@ + dec_digits(s.core_count as nat) + " Cores/Threads)\n"@ + "Memory:    "@
        + pad_left(mb_string(s.used_memory_kb as nat), 7, ' ') + " MB / "@ + pad_left(
        mb_string(s.total_memory_kb as nat),
        7,
        ' ',
    ) + " MB Used ("@ + pad_left(mb_string(s.available_memory_kb as nat), 7, ' ')
        + " MB Avail)\n"@ + (match s.load_averages {
        Option::Some(l) => load_text(l),
        Option::None => Seq::empty(),
    }) + "Processes: "@ + dec_digits(s.process_count as nat) + "\n"@ + "Uptime:    "@
        + uptime_text(s.uptime_seconds as nat) + "\n"@ + dash_line() + "\n"@
}

/// A line of sixty dashes followed by a newline.
pub open spec fn dash_line() -> Seq<char> {
    repeat_char('-', 60) + "\n"@
}

/// The load-average line of the summary block.
pub open spec fn load_text(l: LoadAverages) -> Seq<char> {
    "Load Avg:  "@ + centi_string(l.one_centi as nat) + ", "@ + centi_string(l.five_centi as nat)
        + ", "@ + centi_string(l.fifteen_centi as nat) + " (1m, 5m, 15m)\n"@
}

/// An uptime decomposed into days, hours, minutes and seconds, with
/// zero-valued leading units elided; the seconds segment always appears.
pub open spec fn uptime_text(u: nat) -> Seq<char> {
    let d = u / 86400;
    let h = (u % 86400) / 3600;
    let mi = (u % 3600) / 60;
    let sec = u % 60;
    (if d > 0 {
        dec_digits(d) + "d "@
    } else {
        Seq::empty()
    }) + (if h > 0 || d > 0 {
        dec_digits(h) + "h "@
    } else {
        Seq::empty()
    }) + (if mi > 0 || h > 0 || d > 0 {
        dec_digits(mi) + "m "@
    } else {
        Seq::empty()
    }) + dec_digits(sec) + "s"@
}

/// Formats an uptime in seconds as its day/hour/minute/second segments.
pub fn format_uptime(u: u64) -> (r: String)
    ensures
        r@ == uptime_text(u as nat),
{
    let d = u / 86400;
    let h = (u % 86400) / 3600;
    let mi = (u % 3600) / 60;
    let sec = u % 60;
    let mut r = String::new();
    if d > 0 {
        let t = u64_string(d);
        r.append(t.as_str());
        r.append("d ");
    }
    if h > 0 || d > 0 {
        let t = u64_string(h);
        r.append(t.as_str());
        r.append("h ");
    }
    if mi > 0 || h > 0 || d > 0 {
        let t = u64_string(mi);
        r.append(t.as_str());
        r.append("m ");
    }
    let t = u64_string(sec);
    r.append(t.as_str());
    r.append("s");
    proof {
        assert(r@ =~= uptime_text(u as nat));
    }
    r
}

/// Formats the system summary block.
pub fn format_summary(s: &Snapshot) -> (r: String)
    ensures
        r@ == summary_text(*s),
{
    let mut r = String::new();
    r.append("System Summary:\n");
    push_dash_line(&mut r);
    r.append("CPU Usage: ");
    let cpu = centi_to_string(s.global_cpu_centi_percent);
    let cpu_col = pad_left_str(cpu.as_str(), 6, ' ');
    r.append(cpu_col.as_str());
    r.append("% (");
    let cores = u64_string(s.core_count);
    r.append(cores.as_str());
    r.append(" Cores/Threads)\n");
    r.append("Memory:    ");
    let used = kb_to_mb_string(s.used_memory_kb);
    let used_col = pad_left_str(used.as_str(), 7, ' ');
    r.append(used_col.as_str());
    r.append(" MB / ");
    let total = kb_to_mb_string(s.total_memory_kb);
    let total_col = pad_left_str(total.as_str(), 7, ' ');
    r.append(total_col.as_str());
    r.append(" MB Used (");
    let avail = kb_to_mb_string(s.available_memory_kb);
    let avail_col = pad_left_str(avail.as_str(), 7, ' ');
    r.append(avail_col.as_str());
    r.append(" MB Avail)\n");
    match &s.load_averages {
        Some(l) => {
            r.append("Load Avg:  ");
            let one = centi_to_string(l.one_centi);
            r.append(one.as_str());
            r.append(", ");
            let five = centi_to_string(l.five_centi);
            r.append(five.as_str());
            r.append(", ");
            let fifteen = centi_to_string(l.fifteen_centi);
            r.append(fifteen.as_str());
            r.append(" (1m, 5m, 15m)\n");
        },
        None => {},
    }
    r.append("Processes: ");
    let count = u64_string(s.process_count);
    r.append(count.as_str());
    r.append("\n");
    r.append("Uptime:    ");
    let up = format_uptime(s.uptime_seconds);
    r.append(up.as_str());
    r.append("\n");
    push_dash_line(&mut r);
    r.append("\n");
    proof {
        assert(r@ =~= summary_text(*s));
    }
    r
}

fn push_dash_line(r: &mut String)
    ensures
        final(r)@ == old(r)@ + dash_line(),
{
    push_repeat(r, '-', 60);
    r.append("\n");
    proof {
        assert(r@ =~= old(r)@ + dash_line());
    }
}

/// The whole rendered report: the summary block when requested, then
/// the header and the bounded, ranked process table.
pub open spec fn report_text(s: Snapshot, k: SortKey, limit: nat, include_summary: bool) -> Seq<
    char,
> {
    (if include_summary {
        summary_text(s)
    } else {
        Seq::empty()
    }) + table_text(s.processes@, k, limit)
}

/// Renders a snapshot: sorts descending by the named key (any name
/// other than "cpu" falls back to the memory metric), keeps at most
/// `limit` rows, and prepends the summary block when asked to. A pure
/// function of its arguments.
pub fn render(snapshot: &Snapshot, sort_key: &str, limit: usize, include_summary: bool) -> (out:
    String)
    ensures
        out@ == report_text(*snapshot, sort_key_of(sort_key@), limit as nat, include_summary),
{
    let k = parse_sort_key(sort_key);
    let mut out = String::new();
    if include_summary {
        let s = format_summary(snapshot);
        out.append(s.as_str());
    }
    let h = format_header();
    out.append(h.as_str());
    let sorted = rank(snapshot, k);
    let rows = format_rows(&sorted, limit);
    let ghost shown = sort_desc(snapshot.processes@, k).take(
        min_nat(limit as nat, snapshot.processes@.len()) as int,
    );
    proof {
        assert(rows@.len() == shown.len());
        assert(shown.take(0) =~= Seq::<ProcessSample>::empty());
    }
    let mut i: usize = 0;
    while i < rows.len()
        invariant
            i <= rows@.len(),
            rows@.len() == shown.len(),
            forall|j: int| 0 <= j < shown.len() ==> rows@[j]@ == row_text(shown[j]),
            out@ == (if include_summary {
                summary_text(*snapshot)
            } else {
                Seq::<char>::empty()
            }) + header_text() + rows_text(shown.take(i as int)),
        decreases rows@.len() - i,
    {
        out.append(rows[i].as_str());
        proof {
            assert(shown.take(i as int + 1).drop_last() =~= shown.take(i as int));
            assert(shown.take(i as int + 1).last() == shown[i as int]);
        }
        i = i + 1;
    }
    proof {
        assert(shown.take(shown.len() as int) =~= shown);
        assert(out@ =~= report_text(
            *snapshot,
            sort_key_of(sort_key@),
            limit as nat,
            include_summary,
        ));
    }
    out
}

/// Sort-correctness law: the processes behind the data rows of any
/// report are non-increasing in the chosen metric.
pub proof fn lemma_report_rows_sorted(procs: Seq<ProcessSample>, k: SortKey, limit: nat)
    ensures
        sorted_desc(sort_desc(procs, k).take(min_nat(limit, procs.len()) as int), k),
{
    lemma_sort_desc_sorted(procs, k);
    lemma_sort_desc_permutes(procs, k);
    lemma_sorted_desc_take(sort_desc(procs, k), k, min_nat(limit, procs.len()) as int);
}

/// Fallback law: rendering with any sort-key name other than "cpu"
/// yields exactly the text that the name "memory" yields.
pub proof fn lemma_unrecognized_key_falls_back(
    s: Snapshot,
    key_name: Seq<char>,
    limit: nat,
    include_summary: bool,
)
    requires
        key_name != "cpu"@,
    ensures
        report_text(s, sort_key_of(key_name), limit, include_summary) == report_text(
            s,
            sort_key_of("memory"@),
            limit,
            include_summary,
        ),
{
    reveal_strlit("cpu");
    reveal_strlit("memory");
    assert("memory"@.len() != "cpu"@.len());
    assert(sort_key_of(key_name) == SortKey::Memory);
    assert(sort_key_of("memory"@) == SortKey::Memory);
}

} // verus!
