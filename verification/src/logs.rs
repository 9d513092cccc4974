//! Log parsing and selection: levels, timestamps, line windows.
//!
//! File I/O stays with the embedding program; it hands the raw lines in
//! and everything here — level detection, timestamp extraction, tail and
//! offset windows with their line numbering — is specified and proved.

use vstd::multiset::Multiset;
use vstd::prelude::*;

use crate::text::chars_to_string;
use crate::text::contains_ci;
use crate::text::contains_seq;
use crate::text::contains_sub;
use crate::text::contains_sub_ci;
use crate::text::is_digit;
use crate::text::is_digit_char;
use crate::text::opt_string_is;
use crate::text::str_to_chars;
use crate::text::subvec;

verus! {

/// One parsed log line.
#[derive(Debug, Clone, PartialEq, Eq)]
pub struct LogLine {
    pub line_number: usize,
    pub content: String,
    pub level: Option<String>,
    pub timestamp: Option<String>,
}

/// One log file as listed to the caller.
#[derive(Debug, Clone, PartialEq, Eq)]
pub struct LogFile {
    pub name: String,
    pub path: String,
    pub size: u64,
    pub modified: Option<String>,
}

/// The outcome of reading a window of a log file.
#[derive(Debug, Clone, PartialEq, Eq)]
pub struct LogReadResult {
    pub success: bool,
    pub lines: Vec<LogLine>,
    pub total_lines: usize,
    pub file_size: u64,
    pub error: Option<String>,
}

/// The outcome of listing a directory of log files.
#[derive(Debug, Clone, PartialEq, Eq)]
pub struct LogFilesResult {
    pub success: bool,
    pub files: Vec<LogFile>,
    pub error: Option<String>,
}

/// The level a line reports, recognised without regard to ASCII case.
pub open spec fn log_level_spec(line: Seq<char>) -> Option<Seq<char>> {
    if contains_ci(line, "[ERROR]"@) || contains_ci(line, " ERROR "@) || contains_ci(
        line,
        "ERROR:"@,
    ) {
        Some("ERROR"@)
    } else if contains_ci(line, "[WARN]"@) || contains_ci(line, " WARN "@) || contains_ci(
        line,
        "WARNING"@,
    ) {
        Some("WARN"@)
    } else if contains_ci(line, "[INFO]"@) || contains_ci(line, " INFO "@) {
        Some("INFO"@)
    } else if contains_ci(line, "[DEBUG]"@) || contains_ci(line, " DEBUG "@) {
        Some("DEBUG"@)
    } else if contains_ci(line, "[TRACE]"@) || contains_ci(line, " TRACE "@) {
        Some("TRACE"@)
    } else {
        None
    }
}

/// Extracts the log level of a line (ERROR, WARN, INFO, DEBUG, TRACE).
pub fn extract_log_level(line: &str) -> (r: Option<String>)
    ensures
        opt_string_is(r, log_level_spec(line@)),
{
    let v = str_to_chars(line);
    if contains_sub_ci(&v, &str_to_chars("[ERROR]")) || contains_sub_ci(&v, &str_to_chars(" ERROR "))
        || contains_sub_ci(&v, &str_to_chars("ERROR:")) {
        Some(String::from_str("ERROR"))
    } else if contains_sub_ci(&v, &str_to_chars("[WARN]")) || contains_sub_ci(
        &v,
        &str_to_chars(" WARN "),
    ) || contains_sub_ci(&v, &str_to_chars("WARNING")) {
        Some(String::from_str("WARN"))
    } else if contains_sub_ci(&v, &str_to_chars("[INFO]")) || contains_sub_ci(
        &v,
        &str_to_chars(" INFO "),
    ) {
        Some(String::from_str("INFO"))
    } else if contains_sub_ci(&v, &str_to_chars("[DEBUG]")) || contains_sub_ci(
        &v,
        &str_to_chars(" DEBUG "),
    ) {
        Some(String::from_str("DEBUG"))
    } else if contains_sub_ci(&v, &str_to_chars("[TRACE]")) || contains_sub_ci(
        &v,
        &str_to_chars(" TRACE "),
    ) {
        Some(String::from_str("TRACE"))
    } else {
        None
    }
}

/// `s` with every leading `[` removed.
pub open spec fn strip_leading_brackets(s: Seq<char>) -> Seq<char>
    decreases s.len(),
{
    if s.len() > 0 && s[0] == '[' {
        strip_leading_brackets(s.skip(1))
    } else {
        s
    }
}

/// `s` with every trailing `]` removed.
pub open spec fn strip_trailing_brackets(s: Seq<char>) -> Seq<char>
    decreases s.len(),
{
    if s.len() > 0 && s[s.len() - 1] == ']' {
        strip_trailing_brackets(s.take(s.len() - 1))
    } else {
        s
    }
}

/// The timestamp at the head of a line, if one looks present: after
/// leading brackets, nineteen characters that start with a digit and
/// contain `-` and `:`, with trailing brackets removed.
pub open spec fn timestamp_spec(line: Seq<char>) -> Option<Seq<char>> {
    let t = strip_leading_brackets(line);
    if t.len() >= 19 {
        let p = t.take(19);
        if is_digit(p[0]) && contains_seq(p, "-"@) && contains_seq(p, ":"@) {
            Some(strip_trailing_brackets(p))
        } else {
            None
        }
    } else {
        None
    }
}

/// Extracts the leading timestamp of a line, if one looks present.
pub fn extract_timestamp(line: &str) -> (r: Option<String>)
    ensures
        opt_string_is(r, timestamp_spec(line@)),
{
    let v = str_to_chars(line);
    let n = v.len();
    let mut a: usize = 0;
    proof {
        assert(v@.skip(0) =~= v@);
    }
    while a < n && v[a] == '['
        invariant
            a <= n == v@.len(),
            strip_leading_brackets(v@) == strip_leading_brackets(v@.skip(a as int)),
        decreases n - a,
    {
        proof {
            assert(v@.skip(a as int)[0] == v@[a as int]);
            assert(v@.skip(a as int).skip(1) =~= v@.skip(a + 1 as int));
        }
        a += 1;
    }
    proof {
        if a < n {
            assert(v@.skip(a as int)[0] == v@[a as int]);
        }
        assert(strip_leading_brackets(v@) == v@.skip(a as int));
    }
    if n - a >= 19 {
        let p = subvec(&v, a, a + 19);
        proof {
            assert(p@ =~= v@.skip(a as int).take(19));
        }
        if is_digit_char(p[0]) && contains_sub(&p, &str_to_chars("-")) && contains_sub(
            &p,
            &str_to_chars(":"),
        ) {
            let mut b: usize = 19;
            proof {
                assert(p@.take(19) =~= p@);
            }
            while b > 0 && p[b - 1] == ']'
                invariant
                    b <= 19 == p@.len(),
                    strip_trailing_brackets(p@) == strip_trailing_brackets(p@.take(b as int)),
                decreases b,
            {
                proof {
                    let pre = p@.take(b as int);
                    assert(pre[pre.len() - 1] == p@[b - 1 as int]);
                    assert(pre.take(pre.len() - 1) =~= p@.take(b - 1 as int));
                }
                b -= 1;
            }
            proof {
                let pre = p@.take(b as int);
                if b > 0 {
                    assert(pre[pre.len() - 1] == p@[b - 1 as int]);
                }
                assert(strip_trailing_brackets(p@) == pre);
            }
            let out = subvec(&p, 0, b);
            proof {
                assert(out@ =~= p@.take(b as int));
            }
            Some(chars_to_string(&out))
        } else {
            None
        }
    } else {
        None
    }
}

/// Parses one log line: keeps the text, extracts level and timestamp.
pub fn parse_log_line(line_number: usize, content: &str) -> (r: LogLine)
    ensures
        r.line_number == line_number,
        r.content@ == content@,
        opt_string_is(r.level, log_level_spec(content@)),
        opt_string_is(r.timestamp, timestamp_spec(content@)),
{
    let level = extract_log_level(content);
    let timestamp = extract_timestamp(content);
    LogLine { line_number, content: String::from_str(content), level, timestamp }
}

/// One parsed line of the selection corresponds to one source line.
pub open spec fn selected_line_is(r: LogLine, source: Seq<char>, number: int) -> bool {
    r.line_number == number && r.content@ == source && opt_string_is(
        r.level,
        log_level_spec(source),
    ) && opt_string_is(r.timestamp, timestamp_spec(source))
}

/// Selects and numbers a window of log lines.
///
/// With no offset (or zero) and a tail count, the window is the last
/// `tail_lines` lines, numbered by their position in the file; otherwise
/// the window starts at `offset` and takes `tail_lines` lines, five
/// hundred when none is given.
pub fn select_log_lines(
    all_lines: &Vec<String>,
    tail_lines: Option<usize>,
    offset: Option<usize>,
) -> (r: Vec<LogLine>)
    ensures
        ({
            let total = all_lines@.len() as int;
            let start = match offset {
                Some(o) => o as int,
                None => 0int,
            };
            let take_n = match tail_lines {
                Some(t) => t as int,
                None => 500int,
            };
            if start == 0 && tail_lines is Some {
                let cnt = if take_n < total {
                    take_n
                } else {
                    total
                };
                let base = total - cnt;
                r@.len() == cnt && forall|i: int|
                    0 <= i < cnt ==> selected_line_is(
                        #[trigger] r@[i],
                        all_lines@[base + i]@,
                        base + i + 1,
                    )
            } else {
                let cnt = if start >= total {
                    0int
                } else if take_n < total - start {
                    take_n
                } else {
                    total - start
                };
                r@.len() == cnt && forall|i: int|
                    0 <= i < cnt ==> selected_line_is(
                        #[trigger] r@[i],
                        all_lines@[start + i]@,
                        start + i + 1,
                    )
            }
        }),
{
    let total = all_lines.len();
    let start = match offset {
        Some(o) => o,
        None => 0,
    };
    let take_n = match tail_lines {
        Some(t) => t,
        None => 500,
    };
    let tail_mode = start == 0 && tail_lines.is_some();
    let (base, cnt) = if tail_mode {
        let c = if take_n < total {
            take_n
        } else {
            total
        };
        (total - c, c)
    } else {
        if start >= total {
            (0, 0)
        } else {
            let c = if take_n < total - start {
                take_n
            } else {
                total - start
            };
            (start, c)
        }
    };
    let mut r: Vec<LogLine> = Vec::new();
    let mut k: usize = 0;
    while k < cnt
        invariant
            k <= cnt,
            total == all_lines@.len(),
            base + cnt <= total,
            r@.len() == k,
            forall|i: int|
                0 <= i < k ==> selected_line_is(
                    #[trigger] r@[i],
                    all_lines@[base + i]@,
                    base + i + 1,
                ),
        decreases cnt - k,
    {
        let line = parse_log_line(base + k + 1, all_lines[base + k].as_str());
        r.push(line);
        k += 1;
    }
    r
}

/// Numbers freshly read lines from one onward, parsing each.
pub fn number_log_lines(lines: &Vec<String>) -> (r: Vec<LogLine>)
    ensures
        r@.len() == lines@.len(),
        forall|i: int|
            0 <= i < r@.len() ==> selected_line_is(#[trigger] r@[i], lines@[i]@, i + 1),
{
    let n = lines.len();
    let mut r: Vec<LogLine> = Vec::new();
    let mut k: usize = 0;
    while k < n
        invariant
            k <= n == lines@.len(),
            r@.len() == k,
            forall|i: int|
                0 <= i < k ==> selected_line_is(#[trigger] r@[i], lines@[i]@, i + 1),
        decreases n - k,
    {
        let line = parse_log_line(k + 1, lines[k].as_str());
        r.push(line);
        k += 1;
    }
    r
}

/// `a`'s modification time comes no later than `b`'s; files without one
/// come first, so they land last in the newest-first listing.
pub open spec fn modified_le(a: LogFile, b: LogFile) -> bool {
    match (a.modified, b.modified) {
        (None, _) => true,
        (Some(_), None) => false,
        (Some(x), Some(y)) => crate::text::seq_le(x@, y@),
    }
}

/// The order relates every two files one way or the other.
pub proof fn lemma_modified_le_total(a: LogFile, b: LogFile)
    ensures
        modified_le(a, b) || modified_le(b, a),
{
    match (a.modified, b.modified) {
        (Some(x), Some(y)) => {
            crate::text::lemma_seq_le_total(x@, y@);
        },
        _ => {},
    }
}

/// The order chains.
pub proof fn lemma_modified_le_trans(a: LogFile, b: LogFile, c: LogFile)
    requires
        modified_le(a, b),
        modified_le(b, c),
    ensures
        modified_le(a, c),
{
    match (a.modified, b.modified) {
        (Some(x), Some(y)) => {
            match c.modified {
                Some(z) => {
                    crate::text::lemma_seq_le_trans(x@, y@, z@);
                },
                None => {},
            }
        },
        _ => {},
    }
}

/// Whether `a`'s modification time comes no later than `b`'s.
pub fn file_le(a: &LogFile, b: &LogFile) -> (r: bool)
    ensures
        r == modified_le(*a, *b),
{
    match (&a.modified, &b.modified) {
        (None, _) => true,
        (Some(_), None) => false,
        (Some(x), Some(y)) => {
            let xv = str_to_chars(x.as_str());
            let yv = str_to_chars(y.as_str());
            crate::text::chars_le(&xv, &yv)
        },
    }
}

/// Later files come first, files without a time last.
pub open spec fn sorted_newest_first(s: Seq<LogFile>) -> bool {
    forall|i: int, j: int| 0 <= i < j < s.len() ==> modified_le(s[j], s[i])
}

/// Orders a directory listing newest first, keeping every entry.
pub fn sort_log_files_newest_first(files: Vec<LogFile>) -> (r: Vec<LogFile>)
    ensures
        r@.len() == files@.len(),
        r@.to_multiset() == files@.to_multiset(),
        sorted_newest_first(r@),
{
    broadcast use vstd::seq_lib::group_to_multiset_ensures;

    let ghost orig = files@;
    let mut rest = files;
    let mut r: Vec<LogFile> = Vec::new();
    proof {
        assert(r@.to_multiset().add(rest@.to_multiset()) =~= orig.to_multiset());
    }
    while rest.len() > 0
        invariant
            r@.len() + rest@.len() == orig.len(),
            r@.to_multiset().add(rest@.to_multiset()) == orig.to_multiset(),
            sorted_newest_first(r@),
            forall|i: int, j: int|
                0 <= i < r@.len() && 0 <= j < rest@.len() ==> modified_le(rest@[j], r@[i]),
        decreases rest@.len(),
    {
        let n = rest.len();
        let mut best: usize = 0;
        let mut k: usize = 1;
        proof {
            lemma_modified_le_total(rest@[0], rest@[0]);
        }
        while k < n
            invariant
                best < k <= n == rest@.len(),
                forall|j: int| 0 <= j < k ==> modified_le(rest@[j], rest@[best as int]),
            decreases n - k,
        {
            if !file_le(&rest[k], &rest[best]) {
                proof {
                    lemma_modified_le_total(rest@[k as int], rest@[best as int]);
                    lemma_modified_le_total(rest@[k as int], rest@[k as int]);
                    assert forall|j: int|
                        0 <= j < k implies modified_le(rest@[j], rest@[k as int]) by {
                        lemma_modified_le_trans(
                            rest@[j],
                            rest@[best as int],
                            rest@[k as int],
                        );
                    }
                }
                best = k;
            }
            k += 1;
        }
        let ghost rold = r@;
        let ghost restold = rest@;
        let ghost bb = best as int;
        let x = rest.remove(best);
        r.push(x);
        proof {
            broadcast use vstd::seq_lib::group_to_multiset_ensures;

            assert(restold[bb] == x);
            assert(restold.contains(x));
            assert(restold.to_multiset().count(x) > 0);
            assert(r@.to_multiset() =~= rold.to_multiset().insert(x));
            assert(rest@.to_multiset() =~= restold.to_multiset().remove(x));
            assert(r@.to_multiset().add(rest@.to_multiset()) =~= rold.to_multiset().add(
                restold.to_multiset(),
            ));
            assert(r@ == rold.push(x));
            assert forall|i: int, j: int|
                0 <= i < j < r@.len() implies modified_le(r@[j], r@[i]) by {
                if j < rold.len() {
                } else {
                    assert(r@[j] == x);
                    if i < rold.len() {
                        assert(modified_le(x, rold[i]));
                    }
                }
            }
            assert forall|i: int, j: int|
                0 <= i < r@.len() && 0 <= j < rest@.len() implies modified_le(
                rest@[j],
                r@[i],
            ) by {
                let src = if j < bb {
                    j
                } else {
                    j + 1
                };
                assert(rest@[j] == restold[src]);
                if i < rold.len() {
                    assert(modified_le(restold[src], rold[i]));
                } else {
                    assert(r@[i] == x);
                    assert(modified_le(restold[src], restold[bb]));
                }
            }
        }
    }
    proof {
        broadcast use vstd::seq_lib::group_to_multiset_ensures;

        assert(rest@.to_multiset() =~= Multiset::<LogFile>::empty());
        assert(r@.to_multiset().add(rest@.to_multiset()) =~= r@.to_multiset());
    }
    r
}

/// `suffix` closes `s`.
pub open spec fn ends_with_seq(s: Seq<char>, suffix: Seq<char>) -> bool {
    suffix.len() <= s.len() && s.skip(s.len() - suffix.len()) == suffix
}

/// Whether a directory entry is named like a log file.
pub fn is_log_file_name(name: &str) -> (r: bool)
    ensures
        r == (ends_with_seq(name@, ".log"@) || ends_with_seq(name@, ".txt"@)),
{
    let v = str_to_chars(name);
    ends_with_sub(&v, &str_to_chars(".log")) || ends_with_sub(&v, &str_to_chars(".txt"))
}

/// Whether `suffix` closes `v`.
fn ends_with_sub(v: &Vec<char>, suffix: &Vec<char>) -> (r: bool)
    ensures
        r == ends_with_seq(v@, suffix@),
{
    let n = v.len();
    let m = suffix.len();
    if m > n {
        return false;
    }
    let mut k: usize = 0;
    while k < m
        invariant
            k <= m <= n,
            n == v@.len(),
            m == suffix@.len(),
            forall|t: int| 0 <= t < k ==> v@[n - m + t] == suffix@[t],
        decreases m - k,
    {
        if v[n - m + k] != suffix[k] {
            proof {
                assert(v@.skip(n - m as int)[k as int] == v@[n - m + k]);
            }
            return false;
        }
        k += 1;
    }
    proof {
        assert(v@.skip(n - m as int) =~= suffix@);
    }
    true
}

} // verus!
