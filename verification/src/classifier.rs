//! The text classifier: inspects one line of console output and extracts
//! authentication events, a profile name, and ANSI escape removal.
//!
//! Every recogniser is a pure function of the line; the stdout classifier
//! additionally remembers the most recently captured profile name for the
//! lifetime of one output stream.

use vstd::prelude::*;
use vstd::string::StringExecFns;

use crate::text::contains_seq;
use crate::text::contains_sub;
use crate::text::find_first;
use crate::text::find_first_sub;
use crate::text::is_space;
use crate::text::is_space_char;
use crate::text::lemma_word_len_value;
use crate::text::opt_string_eq;
use crate::text::str_to_chars;
use crate::text::subvec;
use crate::text::chars_to_string;
use crate::text::trim_chars;
use crate::text::trim_spec;
use crate::text::trim_start_spec;
use crate::text::word_len;

verus! {

/// One raw console line, tagged for publication.
#[derive(Debug, Clone, PartialEq, Eq)]
pub struct ServerOutput {
    pub instance_id: String,
    pub line: String,
    /// "stdout" or "stderr".
    pub stream: String,
    pub timestamp: String,
}

/// A device-authorization challenge found in the output.
#[derive(Debug, Clone, PartialEq, Eq)]
pub struct AuthEvent {
    pub instance_id: String,
    pub auth_url: String,
    pub code: String,
}

/// The server has no stored credentials and waits for an operator.
#[derive(Debug, Clone, PartialEq, Eq)]
pub struct AuthNeededEvent {
    pub instance_id: String,
    pub message: String,
}

/// Authentication finished; carries the captured profile name, if any.
#[derive(Debug, Clone, PartialEq, Eq)]
pub struct AuthSuccessEvent {
    pub instance_id: String,
    pub profile_name: Option<String>,
    pub auth_mode: String,
}

/// The at-most-one structured signal a stdout line can carry.
#[derive(Debug, Clone, PartialEq, Eq)]
pub enum ConsoleSignal {
    AuthNeeded(AuthNeededEvent),
    NeedsPersistence(String),
    AuthRequired(AuthEvent),
    AuthSuccess(AuthSuccessEvent),
}

/// `s` with ANSI escape runs removed, scanning in state `in_escape`.
///
/// An escape character followed by `[` starts a run that is dropped up
/// to and including the next `m`; every other character is kept, a stray
/// escape with no `[` after it included.
pub open spec fn strip_ansi_from(s: Seq<char>, in_escape: bool) -> Seq<char>
    decreases s.len(),
{
    if s.len() == 0 {
        Seq::empty()
    } else if in_escape {
        if s[0] == 'm' {
            strip_ansi_from(s.skip(1), false)
        } else {
            strip_ansi_from(s.skip(1), true)
        }
    } else if s[0] == '\x1b' && s.len() >= 2 && s[1] == '[' {
        strip_ansi_from(s.skip(2), true)
    } else {
        seq![s[0]] + strip_ansi_from(s.skip(1), false)
    }
}

/// `s` with ANSI escape runs removed.
pub open spec fn strip_ansi_spec(s: Seq<char>) -> Seq<char> {
    strip_ansi_from(s, false)
}

/// Removes ANSI escape runs from a character vector.
pub fn strip_ansi_chars(v: &Vec<char>) -> (r: Vec<char>)
    ensures
        r@ == strip_ansi_spec(v@),
{
    let n = v.len();
    let mut out: Vec<char> = Vec::new();
    let mut in_escape = false;
    let mut i: usize = 0;
    proof {
        assert(v@.skip(0) =~= v@);
    }
    while i < n
        invariant
            i <= n == v@.len(),
            strip_ansi_spec(v@) == out@ + strip_ansi_from(v@.skip(i as int), in_escape),
        decreases n - i,
    {
        proof {
            assert(v@.skip(i as int)[0] == v@[i as int]);
            assert(v@.skip(i as int).skip(1) =~= v@.skip(i + 1 as int));
        }
        let c = v[i];
        if in_escape {
            if c == 'm' {
                in_escape = false;
            }
            i += 1;
        } else if c == '\x1b' && i + 1 < n && v[i + 1] == '[' {
            proof {
                assert(v@.skip(i as int)[1] == v@[i + 1 as int]);
                assert(v@.skip(i as int).skip(2) =~= v@.skip(i + 2 as int));
            }
            in_escape = true;
            i += 2;
        } else {
            proof {
                if c == '\x1b' {
                    assert(v@.skip(i as int).len() >= 2 ==> v@.skip(i as int)[1] == v@[i
                        + 1 as int]);
                }
            }
            let ghost rest = strip_ansi_from(v@.skip(i + 1 as int), false);
            let ghost prev = out@;
            out.push(c);
            proof {
                assert(out@ =~= prev + seq![c]);
                assert((prev + seq![c]) + rest =~= prev + (seq![c] + rest));
            }
            i += 1;
        }
    }
    proof {
        assert(out@ + strip_ansi_from(v@.skip(n as int), in_escape) =~= out@);
    }
    out
}

/// Removes ANSI escape runs from a line of console output.
pub fn strip_ansi_codes(s: &str) -> (r: String)
    ensures
        r@ == strip_ansi_spec(s@),
{
    let v = str_to_chars(s);
    let out = strip_ansi_chars(&v);
    chars_to_string(&out)
}

/// The canonical device-verification URL for a user code.
pub open spec fn device_verify_url_spec(code: Seq<char>) -> Seq<char> {
    "https://oauth.accounts.hytale.com/oauth2/device/verify?user_code="@ + code
}

/// The URL and code taken from an `Enter code:` line, if any.
pub open spec fn enter_code_spec(clean: Seq<char>) -> Option<(Seq<char>, Seq<char>)> {
    match find_first(clean, "Enter code:"@) {
        Some(i) => {
            let t = trim_start_spec(clean.skip(i + 11));
            let code = t.take(word_len(t));
            if code.len() == 0 {
                None
            } else {
                Some((device_verify_url_spec(code), code))
            }
        },
        None => None,
    }
}

/// The URL and code of the auth challenge in a clean line, if any: the URL
/// runs from the first `https://` to the next whitespace and must carry a
/// `user_code=` parameter, whose value extends to the end of the URL; a
/// line without such a URL may instead offer an `Enter code:` fallback.
pub open spec fn auth_challenge_spec(clean: Seq<char>) -> Option<(Seq<char>, Seq<char>)> {
    if contains_seq(clean, "user_code="@) {
        match find_first(clean, "https://"@) {
            Some(u) => {
                let url = clean.skip(u).take(word_len(clean.skip(u)));
                match find_first(url, "user_code="@) {
                    Some(k) => Some((url, url.skip(k + 10))),
                    None => enter_code_spec(clean),
                }
            },
            None => enter_code_spec(clean),
        }
    } else {
        enter_code_spec(clean)
    }
}

/// Parses the `Enter code:` fallback out of an already-cleaned line.
fn parse_enter_code(instance_id: &str, clean: &Vec<char>) -> (r: Option<AuthEvent>)
    ensures
        match (r, enter_code_spec(clean@)) {
            (Some(ev), Some(pair)) => ev.instance_id@ == instance_id@ && ev.auth_url@ == pair.0
                && ev.code@ == pair.1,
            (None, None) => true,
            _ => false,
        },
{
    let pat = str_to_chars("Enter code:");
    proof {
        reveal_strlit("Enter code:");
    }
    match find_first_sub(clean, &pat) {
        Some(i) => {
            proof {
                assert(pat@.len() == 11);
                assert(i + 11 <= clean@.len());
            }
            let n = clean.len();
            let mut a = i + 11;
            proof {
                assert(trim_start_spec(clean@.skip(i + 11 as int)) == trim_start_spec(
                    clean@.skip(a as int),
                ));
            }
            while a < n && is_space_char(clean[a])
                invariant
                    i + 11 <= a <= n == clean@.len(),
                    trim_start_spec(clean@.skip(i + 11 as int)) == trim_start_spec(
                        clean@.skip(a as int),
                    ),
                decreases n - a,
            {
                proof {
                    assert(clean@.skip(a as int)[0] == clean@[a as int]);
                    assert(clean@.skip(a as int).skip(1) =~= clean@.skip(a + 1 as int));
                }
                a += 1;
            }
            proof {
                if a < n {
                    assert(clean@.skip(a as int)[0] == clean@[a as int]);
                }
                assert(trim_start_spec(clean@.skip(i + 11 as int)) == clean@.skip(a as int));
            }
            let mut b = a;
            while b < n && !is_space_char(clean[b])
                invariant
                    a <= b <= n == clean@.len(),
                    forall|t: int| a <= t < b ==> !is_space(clean@[t]),
                decreases n - b,
            {
                b += 1;
            }
            proof {
                let t = clean@.skip(a as int);
                assert forall|s: int| 0 <= s < b - a implies !is_space(t[s]) by {
                    assert(t[s] == clean@[a + s]);
                }
                if b < n {
                    assert(t[b - a as int] == clean@[b as int]);
                }
                lemma_word_len_value(t, b - a as int);
            }
            if b == a {
                return None;
            }
            let code_chars = subvec(clean, a, b);
            proof {
                assert(code_chars@ =~= clean@.skip(a as int).take(b - a as int));
            }
            let code = chars_to_string(&code_chars);
            let mut url = String::from_str(
                "https://oauth.accounts.hytale.com/oauth2/device/verify?user_code=",
            );
            url.append(code.as_str());
            Some(
                AuthEvent {
                    instance_id: String::from_str(instance_id),
                    auth_url: url,
                    code,
                },
            )
        },
        None => None,
    }
}

/// Parses the device-authorization challenge out of a raw console line.
///
/// The line is first cleaned of ANSI escapes; the result is exactly what
/// `auth_challenge_spec` states for the cleaned line.
pub fn parse_auth_event(instance_id: &str, line: &str) -> (r: Option<AuthEvent>)
    ensures
        ({
            let clean = strip_ansi_spec(line@);
            match (r, auth_challenge_spec(clean)) {
                (Some(ev), Some(pair)) => ev.instance_id@ == instance_id@ && ev.auth_url@
                    == pair.0 && ev.code@ == pair.1,
                (None, None) => true,
                _ => false,
            }
        }),
{
    let lv = str_to_chars(line);
    let clean = strip_ansi_chars(&lv);
    let user_code_pat = str_to_chars("user_code=");
    let https_pat = str_to_chars("https://");
    if contains_sub(&clean, &user_code_pat) {
        match find_first_sub(&clean, &https_pat) {
            Some(u) => {
                let n = clean.len();
                let mut j = u;
                while j < n && !is_space_char(clean[j])
                    invariant
                        u <= j <= n == clean@.len(),
                        forall|t: int| u <= t < j ==> !is_space(clean@[t]),
                    decreases n - j,
                {
                    j += 1;
                }
                proof {
                    let rest = clean@.skip(u as int);
                    assert forall|s: int| 0 <= s < j - u implies !is_space(rest[s]) by {
                        assert(rest[s] == clean@[u + s]);
                    }
                    if j < n {
                        assert(rest[j - u as int] == clean@[j as int]);
                    }
                    lemma_word_len_value(rest, j - u as int);
                }
                let url_chars = subvec(&clean, u, j);
                proof {
                    assert(url_chars@ =~= clean@.skip(u as int).take(j - u as int));
                }
                match find_first_sub(&url_chars, &user_code_pat) {
                    Some(k) => {
                        proof {
                            reveal_strlit("user_code=");
                            assert(user_code_pat@.len() == 10);
                            assert(k + 10 <= url_chars@.len());
                        }
                        let code_chars = subvec(&url_chars, k + 10, url_chars.len());
                        proof {
                            assert(code_chars@ =~= url_chars@.skip(k + 10 as int));
                        }
                        Some(
                            AuthEvent {
                                instance_id: String::from_str(instance_id),
                                auth_url: chars_to_string(&url_chars),
                                code: chars_to_string(&code_chars),
                            },
                        )
                    },
                    None => parse_enter_code(instance_id, &clean),
                }
            },
            None => parse_enter_code(instance_id, &clean),
        }
    } else {
        parse_enter_code(instance_id, &clean)
    }
}

/// The line announces that no credentials are stored.
pub open spec fn needs_auth_line(clean: Seq<char>) -> bool {
    contains_seq(clean, "No server tokens configured"@)
}

/// The line announces that credentials live in memory only.
pub open spec fn needs_persistence_line(clean: Seq<char>) -> bool {
    contains_seq(clean, "Credentials stored in memory only"@)
}

/// The line announces that authentication succeeded.
pub open spec fn auth_success_line(clean: Seq<char>) -> bool {
    contains_seq(clean, "Authentication successful"@)
}

/// The profile name captured from a clean line, if any: the text between
/// the auto-selected-profile sentinel and the first `(` after it, trimmed.
pub open spec fn profile_name_spec(clean: Seq<char>) -> Option<Seq<char>> {
    match find_first(clean, "Auto-selected profile:"@) {
        Some(i) => {
            let after = clean.skip(i + 22);
            match find_first(after, "("@) {
                Some(p) => Some(trim_spec(after.take(p))),
                None => None,
            }
        },
        None => None,
    }
}

/// The auth mode named after a `Mode:` label, trimmed; a fixed default
/// when no label is present.
pub open spec fn auth_mode_spec(clean: Seq<char>) -> Seq<char> {
    match find_first(clean, "Mode:"@) {
        Some(i) => trim_spec(clean.skip(i + 5)),
        None => "OAUTH_DEVICE"@,
    }
}

/// The per-stream classifier for a process's standard output.
///
/// It carries the instance identifier for tagging events and remembers
/// the most recently captured profile name for the stream's lifetime.
pub struct StdoutClassifier {
    pub instance_id: String,
    pub profile_name: Option<String>,
}

impl StdoutClassifier {
    /// A fresh classifier with no profile captured yet.
    pub fn new(instance_id: String) -> (r: StdoutClassifier)
        ensures
            r.instance_id@ == instance_id@,
            r.profile_name is None,
    {
        StdoutClassifier { instance_id, profile_name: None }
    }

    /// Classifies one raw stdout line.
    ///
    /// The line is cleaned of ANSI escapes once; the profile name is
    /// captured first when present, and at most one signal is produced,
    /// in priority order: needs-auth, needs-persistence, auth challenge,
    /// auth success.
    pub fn classify(&mut self, line: &str) -> (r: Option<ConsoleSignal>)
        ensures
            ({
                let clean = strip_ansi_spec(line@);
                &&& final(self).instance_id == old(self).instance_id
                &&& match profile_name_spec(clean) {
                    Some(p) => match final(self).profile_name {
                        Some(q) => q@ == p,
                        None => false,
                    },
                    None => final(self).profile_name == old(self).profile_name,
                }
                &&& match r {
                    Some(ConsoleSignal::AuthNeeded(ev)) => needs_auth_line(clean)
                        && ev.instance_id@ == old(self).instance_id@ && ev.message@
                        == "Server requires authentication. Click 'Start Authentication' to begin."@,
                    Some(ConsoleSignal::NeedsPersistence(id)) => !needs_auth_line(clean)
                        && needs_persistence_line(clean) && id@ == old(self).instance_id@,
                    Some(ConsoleSignal::AuthRequired(ev)) => !needs_auth_line(clean)
                        && !needs_persistence_line(clean) && match auth_challenge_spec(clean) {
                        Some(pair) => ev.instance_id@ == old(self).instance_id@ && ev.auth_url@
                            == pair.0 && ev.code@ == pair.1,
                        None => false,
                    },
                    Some(ConsoleSignal::AuthSuccess(ev)) => !needs_auth_line(clean)
                        && !needs_persistence_line(clean) && auth_challenge_spec(clean) is None
                        && auth_success_line(clean) && ev.instance_id@ == old(self).instance_id@
                        && ev.auth_mode@ == auth_mode_spec(clean) && opt_string_eq(
                        ev.profile_name,
                        final(self).profile_name,
                    ),
                    None => !needs_auth_line(clean) && !needs_persistence_line(clean)
                        && auth_challenge_spec(clean) is None && !auth_success_line(clean),
                }
            }),
    {
        let lv = str_to_chars(line);
        let clean = strip_ansi_chars(&lv);

        let profile_pat = str_to_chars("Auto-selected profile:");
        proof {
            reveal_strlit("Auto-selected profile:");
        }
        match find_first_sub(&clean, &profile_pat) {
            Some(i) => {
                let n = clean.len();
                proof {
                    assert(profile_pat@.len() == 22);
                    assert(i + 22 <= clean@.len());
                }
                let after = subvec(&clean, i + 22, n);
                proof {
                    assert(after@ =~= clean@.skip(i + 22 as int));
                }
                let paren = str_to_chars("(");
                match find_first_sub(&after, &paren) {
                    Some(p) => {
                        let raw = subvec(&after, 0, p);
                        proof {
                            assert(raw@ =~= after@.take(p as int));
                        }
                        let name = trim_chars(&raw);
                        self.profile_name = Some(chars_to_string(&name));
                    },
                    None => {},
                }
            },
            None => {},
        }

        let needs_auth_pat = str_to_chars("No server tokens configured");
        if contains_sub(&clean, &needs_auth_pat) {
            return Some(
                ConsoleSignal::AuthNeeded(
                    AuthNeededEvent {
                        instance_id: self.instance_id.clone(),
                        message: String::from_str(
                            "Server requires authentication. Click 'Start Authentication' to begin.",
                        ),
                    },
                ),
            );
        }

        let persist_pat = str_to_chars("Credentials stored in memory only");
        if contains_sub(&clean, &persist_pat) {
            return Some(ConsoleSignal::NeedsPersistence(self.instance_id.clone()));
        }

        let id = self.instance_id.clone();
        match parse_auth_event(id.as_str(), line) {
            Some(ev) => {
                return Some(ConsoleSignal::AuthRequired(ev));
            },
            None => {},
        }

        let success_pat = str_to_chars("Authentication successful");
        if contains_sub(&clean, &success_pat) {
            let mode_pat = str_to_chars("Mode:");
            proof {
                reveal_strlit("Mode:");
            }
            let mode = match find_first_sub(&clean, &mode_pat) {
                Some(i) => {
                    let n = clean.len();
                    proof {
                        assert(mode_pat@.len() == 5);
                        assert(i + 5 <= clean@.len());
                    }
                    let rem = subvec(&clean, i + 5, n);
                    proof {
                        assert(rem@ =~= clean@.skip(i + 5 as int));
                    }
                    let t = trim_chars(&rem);
                    chars_to_string(&t)
                },
                None => String::from_str("OAUTH_DEVICE"),
            };
            let profile = match &self.profile_name {
                Some(s) => Some(s.clone()),
                None => None,
            };
            return Some(
                ConsoleSignal::AuthSuccess(
                    AuthSuccessEvent {
                        instance_id: self.instance_id.clone(),
                        profile_name: profile,
                        auth_mode: mode,
                    },
                ),
            );
        }

        None
    }
}

/// The short authorization code in a download utility's line, if any:
/// the first token after the colon that follows the first (case-blind)
/// `code` marker, kept only when it has at least four characters.
pub open spec fn auth_code_spec(line: Seq<char>) -> Option<Seq<char>> {
    if crate::text::contains_ci(line, "code:"@) || crate::text::contains_ci(line, "code :"@) {
        match crate::text::find_first_ci(line, "code"@) {
            Some(idx) => auth_code_after(line.skip(idx)),
            None => None,
        }
    } else {
        None
    }
}

/// The code taken from the text that starts at the `code` marker.
pub open spec fn auth_code_after(after: Seq<char>) -> Option<Seq<char>> {
    match find_first(after, ":"@) {
        Some(c) => auth_code_token(trim_start_spec(after.skip(c + 1))),
        None => None,
    }
}

/// The leading token, when it is long enough to be a code.
pub open spec fn auth_code_token(t: Seq<char>) -> Option<Seq<char>> {
    if word_len(t) >= 4 {
        Some(t.take(word_len(t)))
    } else {
        None
    }
}

/// Extracts the authorization code from a download utility's line.
pub fn extract_auth_code(line: &str) -> (r: Option<String>)
    ensures
        crate::text::opt_string_is(r, auth_code_spec(line@)),
{
    let v = str_to_chars(line);
    let has_marker = crate::text::contains_sub_ci(&v, &str_to_chars("code:"))
        || crate::text::contains_sub_ci(&v, &str_to_chars("code :"));
    if !has_marker {
        return None;
    }
    match crate::text::find_first_ci_sub(&v, &str_to_chars("code")) {
        Some(idx) => {
            let n = v.len();
            let after = subvec(&v, idx, n);
            proof {
                assert(after@ =~= v@.skip(idx as int));
            }
            match find_first_sub(&after, &str_to_chars(":")) {
                Some(c) => {
                    let m = after.len();
                    proof {
                        reveal_strlit(":");
                        assert(c + 1 <= m);
                    }
                    let mut a = c + 1;
                    proof {
                        assert(trim_start_spec(after@.skip(c + 1 as int)) == trim_start_spec(
                            after@.skip(a as int),
                        ));
                    }
                    while a < m && is_space_char(after[a])
                        invariant
                            c + 1 <= a <= m == after@.len(),
                            trim_start_spec(after@.skip(c + 1 as int)) == trim_start_spec(
                                after@.skip(a as int),
                            ),
                        decreases m - a,
                    {
                        proof {
                            assert(after@.skip(a as int)[0] == after@[a as int]);
                            assert(after@.skip(a as int).skip(1) =~= after@.skip(a + 1 as int));
                        }
                        a += 1;
                    }
                    proof {
                        if a < m {
                            assert(after@.skip(a as int)[0] == after@[a as int]);
                        }
                        assert(trim_start_spec(after@.skip(c + 1 as int)) == after@.skip(a as int));
                    }
                    let mut b = a;
                    while b < m && !is_space_char(after[b])
                        invariant
                            a <= b <= m == after@.len(),
                            forall|t: int| a <= t < b ==> !is_space(after@[t]),
                        decreases m - b,
                    {
                        b += 1;
                    }
                    proof {
                        let t = after@.skip(a as int);
                        assert forall|s: int| 0 <= s < b - a implies !is_space(t[s]) by {
                            assert(t[s] == after@[a + s]);
                        }
                        if b < m {
                            assert(t[b - a as int] == after@[b as int]);
                        }
                        lemma_word_len_value(t, b - a as int);
                    }
                    if b - a >= 4 {
                        let code = subvec(&after, a, b);
                        proof {
                            assert(code@ =~= after@.skip(a as int).take(b - a as int));
                        }
                        Some(chars_to_string(&code))
                    } else {
                        None
                    }
                },
                None => None,
            }
        },
        None => None,
    }
}

/// Builds the generic output-line event for one line of either stream.
pub fn make_output_event(instance_id: &str, line: &str, stream: &str) -> (r: ServerOutput)
    ensures
        r.instance_id@ == instance_id@,
        r.line@ == line@,
        r.stream@ == stream@,
{
    ServerOutput {
        instance_id: String::from_str(instance_id),
        line: String::from_str(line),
        stream: String::from_str(stream),
        timestamp: crate::clock::now_rfc3339(),
    }
}

} // verus!
