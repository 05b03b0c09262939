//! Command-line configuration: flag parsing with warn-and-keep-default
//! recovery, exactly as specified by a functional fold over the
//! argument list.
//!
//! Bad or missing flag values never abort: each produces a warning and
//! leaves the prior default in effect. Unrecognized flags are silently
//! ignored.

use vstd::prelude::*;
use vstd::string::StrSliceExecFns;

use crate::text::{ascii_lowercase, lower, str_eq};

verus! {

broadcast use vstd::seq::group_seq_axioms;

/// The run configuration assembled from the command line.
pub struct Config {
    /// Sort-key name, lowercased; any value but "cpu" means memory.
    pub sort_key: String,
    /// Mode name, lowercased; "watch" repeats, anything else runs once.
    pub mode: String,
    /// Maximum number of processes listed.
    pub count: usize,
    /// Whether the system summary block is included.
    pub summary: bool,
    /// A process to terminate instead of reporting.
    pub kill_pid: Option<u64>,
    /// Watch-mode refresh interval in seconds, always positive.
    pub rate_secs: u64,
}

/// The mathematical image of a [`Config`].
#[verifier::ext_equal]
pub struct ConfigV {
    pub sort_key: Seq<char>,
    pub mode: Seq<char>,
    pub count: nat,
    pub summary: bool,
    pub kill_pid: Option<u64>,
    pub rate_secs: u64,
}

impl View for Config {
    type V = ConfigV;

    open spec fn view(&self) -> ConfigV {
        ConfigV {
            sort_key: self.sort_key@,
            mode: self.mode@,
            count: self.count as nat,
            summary: self.summary,
            kill_pid: self.kill_pid,
            rate_secs: self.rate_secs,
        }
    }
}

/// A recoverable configuration problem; the index names the offending
/// argument.
#[derive(Clone, Copy, PartialEq, Eq, Structural, Debug)]
pub enum ArgWarning {
    SortMissingValue,
    ModeMissingValue,
    CountMissingValue,
    CountInvalid { arg_index: usize },
    KillMissingValue,
    KillInvalid { arg_index: usize },
    RateMissingValue,
    RateInvalid { arg_index: usize },
    RateNotPositive,
}

/// The defaults: memory sort, one-shot mode, ten processes, no summary,
/// no kill target, one-second refresh.
pub open spec fn initial_config() -> ConfigV {
    ConfigV {
        sort_key: "memory"@,
        mode: "show"@,
        count: 10,
        summary: false,
        kill_pid: None,
        rate_secs: 1,
    }
}

pub open spec fn is_digit(c: char) -> bool {
    '0' <= c && c <= '9'
}

/// The value of a digit character; other characters count as zero.
pub open spec fn digit_val(c: char) -> nat {
    if is_digit(c) {
        (c as u32 - 48) as nat
    } else {
        0
    }
}

pub open spec fn all_digits(s: Seq<char>) -> bool {
    forall|i: int| 0 <= i < s.len() ==> is_digit(s[i])
}

/// The value of a digit string, most significant digit first.
pub open spec fn digits_val(s: Seq<char>) -> nat
    decreases s.len(),
{
    if s.len() == 0 {
        0
    } else {
        digits_val(s.drop_last()) * 10 + digit_val(s.last())
    }
}

/// A number with an optional leading plus sign stripped.
pub open spec fn numeric_body(s: Seq<char>) -> Seq<char> {
    if s.len() > 0 && s[0] == '+' {
        s.drop_first()
    } else {
        s
    }
}

/// What parsing a decimal `u64` yields: the digits' value when the
/// (sign-stripped) body is non-empty, all digits, and in range;
/// nothing otherwise.
pub open spec fn spec_parse_u64(s: Seq<char>) -> Option<u64> {
    let b = numeric_body(s);
    if b.len() > 0 && all_digits(b) && digits_val(b) <= u64::MAX {
        Some(digits_val(b) as u64)
    } else {
        None
    }
}

/// What parsing a decimal `usize` yields.
pub open spec fn spec_parse_usize(s: Seq<char>) -> Option<usize> {
    let b = numeric_body(s);
    if b.len() > 0 && all_digits(b) && digits_val(b) <= usize::MAX {
        Some(digits_val(b) as usize)
    } else {
        None
    }
}

proof fn lemma_digits_val_prefix(s: Seq<char>, j: int)
    requires
        0 <= j <= s.len(),
    ensures
        digits_val(s.take(j)) <= digits_val(s),
    decreases s.len() - j,
{
    if j == s.len() {
        assert(s.take(j) =~= s);
    } else {
        lemma_digits_val_prefix(s, j + 1);
        assert(s.take(j + 1).drop_last() =~= s.take(j));
        assert(digits_val(s.take(j + 1)) == digits_val(s.take(j)) * 10 + digit_val(s[j]));
    }
}

/// Parses a non-negative decimal integer with an optional leading `+`,
/// rejecting empty bodies, non-digits and values over `u64::MAX`.
pub fn parse_u64(s: &str) -> (r: Option<u64>)
    ensures
        r == spec_parse_u64(s@),
{
    let n = s.unicode_len();
    let mut i: usize = 0;
    if n > 0 && s.get_char(0) == '+' {
        i = 1;
    }
    let ghost start = i as int;
    let ghost b = numeric_body(s@);
    proof {
        assert(b =~= s@.skip(start));
    }
    if i >= n {
        return None;
    }
    let mut acc: u64 = 0;
    while i < n
        invariant
            0 <= start <= i as int <= n,
            n == s@.len(),
            b == numeric_body(s@),
            b == s@.skip(start),
            b.len() == n - start,
            all_digits(b.take(i - start)),
            acc == digits_val(b.take(i - start)),
        decreases n - i,
    {
        let c = s.get_char(i);
        proof {
            assert(b[i - start] == s@[i as int]);
        }
        if c < '0' || c > '9' {
            return None;
        }
        let d: u64 = (c as u8 - 48) as u64;
        proof {
            assert(d == digit_val(c));
        }
        if acc > (u64::MAX - d) / 10 {
            proof {
                let m = u64::MAX as int;
                let q = (m - d) / 10;
                let rr = (m - d) % 10;
                assert(m - d == 10 * q + rr);
                assert(acc * 10 >= 10 * q + 10);
                assert(b.take(i - start + 1).drop_last() =~= b.take(i - start));
                assert(b.take(i - start + 1).last() == b[i - start]);
                assert(digits_val(b.take(i - start + 1)) > u64::MAX);
                lemma_digits_val_prefix(b, i - start + 1);
            }
            return None;
        }
        proof {
            let m = u64::MAX as int;
            let q = (m - d) / 10;
            let rr = (m - d) % 10;
            assert(m - d == 10 * q + rr);
            assert(acc <= q);
            assert(acc * 10 + d <= m);
            assert(b.take(i - start + 1).drop_last() =~= b.take(i - start));
            assert(b.take(i - start + 1).last() == b[i - start]);
        }
        acc = acc * 10 + d;
        i = i + 1;
    }
    proof {
        assert(b.take(i - start) =~= b);
    }
    Some(acc)
}

/// Parses a non-negative decimal integer into a `usize`.
pub fn parse_usize(s: &str) -> (r: Option<usize>)
    ensures
        r == spec_parse_usize(s@),
{
    match parse_u64(s) {
        Some(v) => {
            if v <= usize::MAX as u64 {
                Some(v as usize)
            } else {
                None
            }
        },
        None => {
            proof {
                assert(usize::MAX as u64 <= u64::MAX);
            }
            None
        },
    }
}

/// One step of the flag scan at position `i`: the updated
/// configuration, the warnings so far, and the next position.
pub open spec fn step_parse(
    args: Seq<Seq<char>>,
    i: int,
    c: ConfigV,
    ws: Seq<ArgWarning>,
) -> (ConfigV, Seq<ArgWarning>, int) {
    let a = args[i];
    if a == "--sort"@ || a == "-s"@ {
        if i + 1 < args.len() {
            (ConfigV { sort_key: lower(args[i + 1]), ..c }, ws, i + 2)
        } else {
            (c, ws.push(ArgWarning::SortMissingValue), i + 1)
        }
    } else if a == "--mode"@ || a == "-m"@ {
        if i + 1 < args.len() {
            (ConfigV { mode: lower(args[i + 1]), ..c }, ws, i + 2)
        } else {
            (c, ws.push(ArgWarning::ModeMissingValue), i + 1)
        }
    } else if a == "--count"@ || a == "-c"@ {
        if i + 1 < args.len() {
            match spec_parse_usize(args[i + 1]) {
                Some(v) => (ConfigV { count: v as nat, ..c }, ws, i + 2),
                None => (
                    c,
                    ws.push(ArgWarning::CountInvalid { arg_index: (i + 1) as usize }),
                    i + 2,
                ),
            }
        } else {
            (c, ws.push(ArgWarning::CountMissingValue), i + 1)
        }
    } else if a == "--summary"@ || a == "-u"@ {
        (ConfigV { summary: true, ..c }, ws, i + 1)
    } else if a == "--kill"@ || a == "-k"@ {
        if i + 1 < args.len() {
            match spec_parse_usize(args[i + 1]) {
                Some(v) => (ConfigV { kill_pid: Some(v as u64), ..c }, ws, i + 2),
                None => (
                    c,
                    ws.push(ArgWarning::KillInvalid { arg_index: (i + 1) as usize }),
                    i + 2,
                ),
            }
        } else {
            (c, ws.push(ArgWarning::KillMissingValue), i + 1)
        }
    } else if a == "--rate"@ || a == "-r"@ {
        if i + 1 < args.len() {
            match spec_parse_u64(args[i + 1]) {
                Some(v) => if v > 0 {
                    (ConfigV { rate_secs: v, ..c }, ws, i + 2)
                } else {
                    (c, ws.push(ArgWarning::RateNotPositive), i + 2)
                },
                None => (
                    c,
                    ws.push(ArgWarning::RateInvalid { arg_index: (i + 1) as usize }),
                    i + 2,
                ),
            }
        } else {
            (c, ws.push(ArgWarning::RateMissingValue), i + 1)
        }
    } else {
        (c, ws, i + 1)
    }
}

/// The flag scan from position `i` to the end of the argument list.
pub open spec fn parse_from(
    args: Seq<Seq<char>>,
    i: int,
    c: ConfigV,
    ws: Seq<ArgWarning>,
) -> (ConfigV, Seq<ArgWarning>)
    decreases args.len() - i,
{
    if i < 0 || i >= args.len() {
        (c, ws)
    } else {
        let r = step_parse(args, i, c, ws);
        parse_from(args, r.2, r.0, r.1)
    }
}

/// The configuration and warnings produced by a full argument list;
/// the first argument is the program name and is skipped.
pub open spec fn spec_parse_args(args: Seq<Seq<char>>) -> (ConfigV, Seq<ArgWarning>) {
    parse_from(args, 1, initial_config(), Seq::empty())
}

/// Scans the argument list for flags, recovering from every bad or
/// missing value with a warning and the prior default.
pub fn parse_args(args: &Vec<String>) -> (r: (Config, Vec<ArgWarning>))
    ensures
        r.0@ == spec_parse_args(args.deep_view()).0,
        r.1@ == spec_parse_args(args.deep_view()).1,
{
    let ghost argv = args.deep_view();
    let mut cfg = Config {
        sort_key: "memory".to_owned(),
        mode: "show".to_owned(),
        count: 10,
        summary: false,
        kill_pid: None,
        rate_secs: 1,
    };
    let mut ws: Vec<ArgWarning> = Vec::new();
    proof {
        assert(argv.len() == args@.len());
        assert(cfg@ =~= initial_config());
        assert(ws@ =~= Seq::<ArgWarning>::empty());
    }
    let mut i: usize = 1;
    while i < args.len()
        invariant
            1 <= i,
            argv == args.deep_view(),
            argv.len() == args@.len(),
            spec_parse_args(argv) == parse_from(argv, i as int, cfg@, ws@),
        decreases argv.len() - i,
    {
        let ghost gi = i as int;
        let ghost c0 = cfg@;
        let ghost w0 = ws@;
        let ghost st = step_parse(argv, gi, c0, w0);
        proof {
            assert(argv[gi] == args@[gi]@);
            assert(gi + 1 < argv.len() ==> argv[gi + 1] == args@[gi + 1]@);
        }
        let a = &args[i];
        if str_eq(a.as_str(), "--sort") || str_eq(a.as_str(), "-s") {
            if i + 1 < args.len() {
                cfg.sort_key = ascii_lowercase(args[i + 1].as_str());
                i = i + 2;
            } else {
                ws.push(ArgWarning::SortMissingValue);
                i = i + 1;
            }
        } else if str_eq(a.as_str(), "--mode") || str_eq(a.as_str(), "-m") {
            if i + 1 < args.len() {
                cfg.mode = ascii_lowercase(args[i + 1].as_str());
                i = i + 2;
            } else {
                ws.push(ArgWarning::ModeMissingValue);
                i = i + 1;
            }
        } else if str_eq(a.as_str(), "--count") || str_eq(a.as_str(), "-c") {
            if i + 1 < args.len() {
                match parse_usize(args[i + 1].as_str()) {
                    Some(v) => {
                        cfg.count = v;
                    },
                    None => {
                        ws.push(ArgWarning::CountInvalid { arg_index: i + 1 });
                    },
                }
                i = i + 2;
            } else {
                ws.push(ArgWarning::CountMissingValue);
                i = i + 1;
            }
        } else if str_eq(a.as_str(), "--summary") || str_eq(a.as_str(), "-u") {
            cfg.summary = true;
            i = i + 1;
        } else if str_eq(a.as_str(), "--kill") || str_eq(a.as_str(), "-k") {
            if i + 1 < args.len() {
                match parse_usize(args[i + 1].as_str()) {
                    Some(v) => {
                        cfg.kill_pid = Some(v as u64);
                    },
                    None => {
                        ws.push(ArgWarning::KillInvalid { arg_index: i + 1 });
                    },
                }
                i = i + 2;
            } else {
                ws.push(ArgWarning::KillMissingValue);
                i = i + 1;
            }
        } else if str_eq(a.as_str(), "--rate") || str_eq(a.as_str(), "-r") {
            if i + 1 < args.len() {
                match parse_u64(args[i + 1].as_str()) {
                    Some(v) => {
                        if v > 0 {
                            cfg.rate_secs = v;
                        } else {
                            ws.push(ArgWarning::RateNotPositive);
                        }
                    },
                    None => {
                        ws.push(ArgWarning::RateInvalid { arg_index: i + 1 });
                    },
                }
                i = i + 2;
            } else {
                ws.push(ArgWarning::RateMissingValue);
                i = i + 1;
            }
        } else {
            i = i + 1;
        }
        proof {
            assert(cfg@ =~= st.0);
            assert(ws@ =~= st.1);
            assert(i as int == st.2);
            assert(parse_from(argv, gi, c0, w0) == parse_from(argv, st.2, st.0, st.1));
        }
    }
    proof {
        assert(parse_from(argv, i as int, cfg@, ws@) == (cfg@, ws@));
    }
    (cfg, ws)
}

} // verus!
