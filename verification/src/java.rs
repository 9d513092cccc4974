//! Java discovery support: parsing `java --version` output and choosing
//! among detected installations.
//!
//! Running the interpreter and scanning installation directories is the
//! embedding program's work; the parsing of what came back, the validity
//! rule (major version at least twenty-five) and the selection order are
//! specified and proved here.

use vstd::prelude::*;
use vstd::string::StrSliceExecFns;
use vstd::string::StringExecFns;

use crate::text::contains_seq;
use crate::text::contains_sub;
use crate::text::dec_digits_spec;
use crate::text::dec_value_spec;
use crate::text::find_first;
use crate::text::find_first_sub;
use crate::text::is_digit;
use crate::text::is_digit_char;
use crate::text::parse_u32_chars;
use crate::text::split_ws_spec;
use crate::text::split_ws_str;
use crate::text::str_to_chars;
use crate::text::subvec;
use crate::text::u32_to_string;

verus! {

/// What is known about one Java installation.
#[derive(Debug, Clone, PartialEq, Eq)]
pub struct JavaInfo {
    pub installed: bool,
    pub version: Option<String>,
    pub major_version: Option<u32>,
    pub vendor: Option<String>,
    pub is_valid: bool,
    pub java_path: Option<String>,
    pub error: Option<String>,
}

/// A token that announces the version token after it.
pub open spec fn version_marker(t: Seq<char>) -> bool {
    t == "openjdk"@ || t == "java"@
}

/// The token opens with a digit.
pub open spec fn digit_start(t: Seq<char>) -> bool {
    t.len() > 0 && is_digit(t[0])
}

/// The first token that follows a marker and opens with a digit, scanning
/// from position `i`.
pub open spec fn primary_version_from(toks: Seq<Seq<char>>, i: int) -> Option<Seq<char>>
    decreases toks.len() - i,
    when 0 <= i <= toks.len()
{
    if i >= toks.len() {
        None
    } else if version_marker(toks[i]) && i + 1 < toks.len() && digit_start(toks[i + 1]) {
        Some(toks[i + 1])
    } else {
        primary_version_from(toks, i + 1)
    }
}

/// The first token that opens with a digit and contains a dot, scanning
/// from position `i`.
pub open spec fn fallback_version_from(toks: Seq<Seq<char>>, i: int) -> Option<Seq<char>>
    decreases toks.len() - i,
    when 0 <= i <= toks.len()
{
    if i >= toks.len() {
        None
    } else if digit_start(toks[i]) && contains_seq(toks[i], "."@) {
        Some(toks[i])
    } else {
        fallback_version_from(toks, i + 1)
    }
}

/// The version token of a `java --version` first line: the token after
/// an `openjdk` or `java` marker, else the first dotted number.
pub open spec fn version_spec(line: Seq<char>) -> Option<Seq<char>> {
    match primary_version_from(split_ws_spec(line), 0) {
        Some(v) => Some(v),
        None => fallback_version_from(split_ws_spec(line), 0),
    }
}

/// Extracts the version number from a `java --version` first line.
pub fn extract_version(line: &str) -> (r: Option<String>)
    ensures
        crate::text::opt_string_is(r, version_spec(line@)),
{
    let tokens = split_ws_str(line);
    let ghost toks = split_ws_spec(line@);
    let n = tokens.len();
    let openjdk = String::from_str("openjdk");
    let java_word = String::from_str("java");
    let mut i: usize = 0;
    while i < n
        invariant
            toks == split_ws_spec(line@),
            i <= n == toks.len(),
            tokens@.len() == toks.len(),
            forall|t: int| 0 <= t < toks.len() ==> tokens@[t]@ == toks[t],
            openjdk@ == "openjdk"@,
            java_word@ == "java"@,
            primary_version_from(toks, 0) == primary_version_from(toks, i as int),
        decreases n - i,
    {
        let is_marker = tokens[i] == openjdk || tokens[i] == java_word;
        if is_marker && i + 1 < n {
            let next_chars = str_to_chars(tokens[i + 1].as_str());
            if next_chars.len() > 0 && is_digit_char(next_chars[0]) {
                return Some(tokens[i + 1].clone());
            }
        }
        i += 1;
    }
    let mut k: usize = 0;
    while k < n
        invariant
            toks == split_ws_spec(line@),
            k <= n == toks.len(),
            tokens@.len() == toks.len(),
            forall|t: int| 0 <= t < toks.len() ==> tokens@[t]@ == toks[t],
            primary_version_from(toks, 0) is None,
            fallback_version_from(toks, 0) == fallback_version_from(toks, k as int),
        decreases n - k,
    {
        let tok_chars = str_to_chars(tokens[k].as_str());
        if tok_chars.len() > 0 && is_digit_char(tok_chars[0]) && contains_sub(
            &tok_chars,
            &str_to_chars("."),
        ) {
            return Some(tokens[k].clone());
        }
        k += 1;
    }
    None
}

/// The vendor named in a `java --version` second line.
pub open spec fn vendor_spec(line: Seq<char>) -> Seq<char> {
    if contains_seq(line, "Temurin"@) {
        "Eclipse Temurin (Adoptium)"@
    } else if contains_seq(line, "Oracle"@) {
        "Oracle"@
    } else if contains_seq(line, "GraalVM"@) {
        "GraalVM"@
    } else if contains_seq(line, "Amazon"@) || contains_seq(line, "Corretto"@) {
        "Amazon Corretto"@
    } else if contains_seq(line, "Azul"@) || contains_seq(line, "Zulu"@) {
        "Azul Zulu"@
    } else if contains_seq(line, "OpenJDK"@) {
        "OpenJDK"@
    } else {
        line
    }
}

/// Extracts the vendor name from a `java --version` second line.
pub fn extract_vendor(line: &str) -> (r: String)
    ensures
        r@ == vendor_spec(line@),
{
    let v = str_to_chars(line);
    if contains_sub(&v, &str_to_chars("Temurin")) {
        String::from_str("Eclipse Temurin (Adoptium)")
    } else if contains_sub(&v, &str_to_chars("Oracle")) {
        String::from_str("Oracle")
    } else if contains_sub(&v, &str_to_chars("GraalVM")) {
        String::from_str("GraalVM")
    } else if contains_sub(&v, &str_to_chars("Amazon")) || contains_sub(
        &v,
        &str_to_chars("Corretto"),
    ) {
        String::from_str("Amazon Corretto")
    } else if contains_sub(&v, &str_to_chars("Azul")) || contains_sub(&v, &str_to_chars("Zulu")) {
        String::from_str("Azul Zulu")
    } else if contains_sub(&v, &str_to_chars("OpenJDK")) {
        String::from_str("OpenJDK")
    } else {
        String::from_str(line)
    }
}

/// The part of a version token before its first dot, or all of it.
pub open spec fn version_head(version: Seq<char>) -> Seq<char> {
    match find_first(version, "."@) {
        Some(i) => version.take(i),
        None => version,
    }
}

/// Every character is a digit.
pub open spec fn all_digits(s: Seq<char>) -> bool {
    forall|i: int| 0 <= i < s.len() ==> is_digit(s[i])
}

/// The major version of a version token: its digits before the first dot
/// (or all of it), when they are digits whose value fits.
pub open spec fn major_version_spec(version: Seq<char>) -> Option<int> {
    if version_head(version).len() > 0 && all_digits(version_head(version)) && dec_value_spec(
        version_head(version),
    ) <= u32::MAX {
        Some(dec_value_spec(version_head(version)) as int)
    } else {
        None
    }
}

/// Reads the major version out of a version token.
pub fn major_version_of(version: &str) -> (r: Option<u32>)
    ensures
        match (r, major_version_spec(version@)) {
            (Some(a), Some(b)) => a as int == b,
            (None, None) => true,
            _ => false,
        },
{
    let v = str_to_chars(version);
    let head = match find_first_sub(&v, &str_to_chars(".")) {
        Some(i) => {
            let h = subvec(&v, 0, i);
            proof {
                assert(h@ =~= v@.take(i as int));
            }
            h
        },
        None => {
            let h = subvec(&v, 0, v.len());
            proof {
                assert(h@ =~= v@);
            }
            h
        },
    };
    proof {
        assert(head@ == version_head(version@));
    }
    parse_u32_chars(&head)
}

/// The message reported when the found Java is too old.
pub open spec fn invalid_version_msg_spec(major: Option<int>) -> Seq<char> {
    "Java 25 or higher is required. Found version: "@ + dec_digits_spec(
        match major {
            Some(m) => m as nat,
            None => 0,
        },
    )
}

/// Parses a `java --version` report into what is known of the installation.
///
/// The first line yields the version and major version; the second, when
/// present, the vendor.  The installation is valid when the major version
/// is at least twenty-five; otherwise the error names what was found.
pub fn parse_java_version_output(first_line: &str, second_line: Option<&str>, java_path: &str) -> (r:
    JavaInfo)
    ensures
        r.installed,
        crate::text::opt_string_is(r.version, version_spec(first_line@)),
        ({
            let major = match version_spec(first_line@) {
                Some(v) => major_version_spec(v),
                None => None,
            };
            &&& match (r.major_version, major) {
                (Some(a), Some(b)) => a as int == b,
                (None, None) => true,
                _ => false,
            }
            &&& r.is_valid == (match major {
                Some(m) => m >= 25,
                None => false,
            })
            &&& match r.error {
                Some(m) => !r.is_valid && m@ == invalid_version_msg_spec(major),
                None => r.is_valid,
            }
        }),
        match (r.vendor, second_line) {
            (Some(v), Some(l)) => v@ == vendor_spec(l@),
            (None, None) => true,
            _ => false,
        },
        match r.java_path {
            Some(p) => p@ == java_path@,
            None => false,
        },
{
    let version = extract_version(first_line);
    let major_version = match &version {
        Some(v) => major_version_of(v.as_str()),
        None => None,
    };
    let vendor = match second_line {
        Some(l) => Some(extract_vendor(l)),
        None => None,
    };
    let is_valid = match major_version {
        Some(m) => m >= 25,
        None => false,
    };
    let error = if !is_valid {
        let found = match major_version {
            Some(m) => m,
            None => 0,
        };
        let mut msg = String::from_str("Java 25 or higher is required. Found version: ");
        let digits = u32_to_string(found);
        msg.append(digits.as_str());
        Some(msg)
    } else {
        None
    };
    JavaInfo {
        installed: true,
        version,
        major_version,
        vendor,
        is_valid,
        java_path: Some(String::from_str(java_path)),
        error,
    }
}

/// Position `i` holds the first valid installation of the sequence.
pub open spec fn first_valid_at(candidates: Seq<JavaInfo>, i: int) -> bool {
    0 <= i < candidates.len() && candidates[i].is_valid && forall|j: int|
        0 <= j < i ==> !candidates[j].is_valid
}

/// The first valid installation among the scanned candidates.
#[verifier::loop_isolation(false)]
pub fn find_java_25_installation(candidates: Vec<JavaInfo>) -> (r: Option<JavaInfo>)
    ensures
        match r {
            Some(info) => exists|i: int| #[trigger]
                first_valid_at(candidates@, i) && info == candidates@[i],
            None => forall|j: int| 0 <= j < candidates@.len() ==> !candidates@[j].is_valid,
        },
{
    let ghost orig = candidates@;
    let mut rest = candidates;
    let n = rest.len();
    let mut k: usize = 0;
    while k < n
        invariant
            rest@ == orig,
            k <= n == rest@.len(),
            forall|j: int| 0 <= j < k ==> !rest@[j].is_valid,
        decreases n - k,
    {
        if rest[k].is_valid {
            let ghost kk = k as int;
            let found = rest.remove(k);
            proof {
                assert(found == orig[kk]);
                assert(first_valid_at(orig, kk));
            }
            return Some(found);
        }
        k += 1;
    }
    None
}

/// Chooses among the Java found on the search path and the one found by
/// scanning installation directories, in the order the discovery runs:
/// a valid path Java wins, then any scanned one, then the invalid path
/// Java, and with nothing found the report says to install Java.
pub fn choose_java(path_info: Option<JavaInfo>, scan_result: Option<JavaInfo>) -> (r: JavaInfo)
    ensures
        match (path_info, scan_result) {
            (Some(p), Some(s)) => r == (if p.is_valid {
                p
            } else {
                s
            }),
            (Some(p), None) => r == p,
            (None, Some(s)) => r == s,
            (None, None) => !r.installed && !r.is_valid && r.version is None
                && r.major_version is None && r.vendor is None && r.java_path is None && match r
                .error {
                Some(m) => m@ == "Java not found. Please install Java 25 or higher."@,
                None => false,
            },
        },
{
    match (path_info, scan_result) {
        (Some(p), Some(s)) => if p.is_valid {
            p
        } else {
            s
        },
        (Some(p), None) => p,
        (None, Some(s)) => s,
        (None, None) => JavaInfo {
            installed: false,
            version: None,
            major_version: None,
            vendor: None,
            is_valid: false,
            java_path: None,
            error: Some(String::from_str("Java not found. Please install Java 25 or higher.")),
        },
    }
}

} // verus!
