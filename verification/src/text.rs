//! Character-sequence utilities: substring search, conversion between
//! `&str`/`String` and `Vec<char>`, trimming and whitespace splitting.
//!
//! Console lines are modelled as sequences of characters; every searcher
//! here is specified against `Seq<char>` and proved, so the classifier's
//! contracts can be stated exactly.

use vstd::prelude::*;
use vstd::string::StrSliceExecFns;
use vstd::string::StringExecFns;

verus! {

/// `needle` occurs in `hay` at position `i`.
pub open spec fn match_at(hay: Seq<char>, needle: Seq<char>, i: int) -> bool {
    0 <= i && i + needle.len() <= hay.len() && hay.subrange(i, i + needle.len()) == needle
}

/// `needle` occurs somewhere in `hay`.
pub open spec fn contains_seq(hay: Seq<char>, needle: Seq<char>) -> bool {
    exists|i: int| match_at(hay, needle, i)
}

/// Builds the character vector of a string slice.
pub fn str_to_chars(s: &str) -> (v: Vec<char>)
    ensures
        v@ == s@,
{
    let n = s.unicode_len();
    let mut v: Vec<char> = Vec::new();
    let mut i: usize = 0;
    while i < n
        invariant
            n == s@.len(),
            i <= n,
            v@ == s@.take(i as int),
        decreases n - i,
    {
        let c = s.get_char(i);
        v.push(c);
        proof {
            assert(v@ =~= s@.take(i + 1 as int));
        }
        i += 1;
    }
    proof {
        assert(v@ =~= s@);
    }
    v
}

/// Appends one character to a string.
///
/// Relies on `String::push`: the character becomes the last of the string.
#[verifier::external_body]
fn push_char(s: &mut String, c: char)
    ensures
        final(s)@ == old(s)@.push(c),
{
    s.push(c);
}

/// Builds a string from a character vector.
pub fn chars_to_string(v: &Vec<char>) -> (r: String)
    ensures
        r@ == v@,
{
    let mut r = String::new();
    let mut i: usize = 0;
    while i < v.len()
        invariant
            i <= v@.len(),
            r@ == v@.take(i as int),
        decreases v@.len() - i,
    {
        push_char(&mut r, v[i]);
        proof {
            assert(r@ =~= v@.take(i + 1 as int));
        }
        i += 1;
    }
    proof {
        assert(r@ =~= v@);
    }
    r
}

/// Copies the range `[from, to)` of a character vector.
pub fn subvec(v: &Vec<char>, from: usize, to: usize) -> (r: Vec<char>)
    requires
        from <= to <= v@.len(),
    ensures
        r@ == v@.subrange(from as int, to as int),
{
    let mut r: Vec<char> = Vec::new();
    let mut i: usize = from;
    while i < to
        invariant
            from <= i <= to <= v@.len(),
            r@ == v@.subrange(from as int, i as int),
        decreases to - i,
    {
        r.push(v[i]);
        proof {
            assert(r@ =~= v@.subrange(from as int, i + 1 as int));
        }
        i += 1;
    }
    r
}

/// Finds the first occurrence of `needle` in `hay`.
pub fn find_sub(hay: &Vec<char>, needle: &Vec<char>) -> (r: Option<usize>)
    ensures
        match r {
            Some(i) => match_at(hay@, needle@, i as int) && forall|j: int|
                0 <= j < i ==> !match_at(hay@, needle@, j),
            None => !contains_seq(hay@, needle@),
        },
{
    let n = hay.len();
    let m = needle.len();
    if m > n {
        proof {
            assert forall|j: int| !match_at(hay@, needle@, j) by {}
        }
        return None;
    }
    if m == 0 {
        proof {
            assert(hay@.subrange(0, 0) =~= needle@);
        }
        return Some(0);
    }
    let mut i: usize = 0;
    while i <= n - m
        invariant
            1 <= m <= n == hay@.len(),
            m == needle@.len(),
            i <= n - m + 1,
            forall|j: int| 0 <= j < i ==> !match_at(hay@, needle@, j),
        decreases n - i,
    {
        let mut k: usize = 0;
        let mut ok = true;
        while k < m
            invariant
                m <= n == hay@.len(),
                m == needle@.len(),
                i <= n - m,
                k <= m,
                ok ==> forall|t: int| 0 <= t < k ==> hay@[i + t] == needle@[t],
                !ok ==> !match_at(hay@, needle@, i as int),
            decreases m - k,
        {
            if hay[i + k] != needle[k] {
                proof {
                    if match_at(hay@, needle@, i as int) {
                        assert(hay@.subrange(i as int, i + m as int)[k as int] == hay@[i + k]);
                    }
                }
                ok = false;
            }
            k += 1;
        }
        if ok {
            proof {
                assert(hay@.subrange(i as int, i + m as int) =~= needle@);
            }
            return Some(i);
        }
        i += 1;
    }
    proof {
        assert forall|j: int| !match_at(hay@, needle@, j) by {
            if match_at(hay@, needle@, j) {
                assert(j + m <= n);
                assert(j < i);
            }
        }
    }
    None
}

/// Whether `needle` occurs in `hay`.
pub fn contains_sub(hay: &Vec<char>, needle: &Vec<char>) -> (r: bool)
    ensures
        r == contains_seq(hay@, needle@),
{
    match find_sub(hay, needle) {
        Some(i) => {
            proof {
                assert(match_at(hay@, needle@, i as int));
            }
            true
        },
        None => false,
    }
}

/// Whether a string contains a pattern; both are compared character-wise.
pub fn str_contains(hay: &str, needle: &str) -> (r: bool)
    ensures
        r == contains_seq(hay@, needle@),
{
    let h = str_to_chars(hay);
    let n = str_to_chars(needle);
    contains_sub(&h, &n)
}

/// The position of the first occurrence of `needle` in `hay`.
pub open spec fn find_first(hay: Seq<char>, needle: Seq<char>) -> Option<int>
    decreases hay.len(),
{
    if match_at(hay, needle, 0) {
        Some(0)
    } else if hay.len() == 0 {
        None
    } else {
        match find_first(hay.skip(1), needle) {
            Some(i) => Some(i + 1),
            None => None,
        }
    }
}

/// Occurrences of `needle` one position into `hay` are occurrences shifted by one.
proof fn lemma_match_shift(hay: Seq<char>, needle: Seq<char>, t: int)
    requires
        hay.len() >= 1,
        t >= 0,
    ensures
        match_at(hay.skip(1), needle, t) <==> match_at(hay, needle, t + 1),
{
    let m = needle.len() as int;
    if match_at(hay.skip(1), needle, t) {
        assert(hay.subrange(t + 1, t + 1 + m) =~= hay.skip(1).subrange(t, t + m));
    }
    if match_at(hay, needle, t + 1) {
        assert(hay.skip(1).subrange(t, t + m) =~= hay.subrange(t + 1, t + 1 + m));
    }
}

/// `find_first` returns the first occurrence when there is one, else nothing.
pub proof fn lemma_find_first_props(hay: Seq<char>, needle: Seq<char>)
    ensures
        match find_first(hay, needle) {
            Some(i) => match_at(hay, needle, i) && forall|j: int|
                0 <= j < i ==> !match_at(hay, needle, j),
            None => forall|j: int| !match_at(hay, needle, j),
        },
    decreases hay.len(),
{
    if match_at(hay, needle, 0) {
    } else if hay.len() == 0 {
        assert forall|j: int| !match_at(hay, needle, j) by {
            if j != 0 && match_at(hay, needle, j) {
                assert(j >= 1 ==> j + needle.len() > hay.len());
            }
        }
    } else {
        lemma_find_first_props(hay.skip(1), needle);
        match find_first(hay.skip(1), needle) {
            Some(i) => {
                lemma_match_shift(hay, needle, i);
                assert forall|j: int| 0 <= j < i + 1 implies !match_at(hay, needle, j) by {
                    if j >= 1 {
                        lemma_match_shift(hay, needle, j - 1);
                    }
                }
            },
            None => {
                assert forall|j: int| !match_at(hay, needle, j) by {
                    if j >= 1 {
                        lemma_match_shift(hay, needle, j - 1);
                    }
                }
            },
        }
    }
}

/// Finds the first occurrence of `needle` in `hay`, tied to `find_first`.
pub fn find_first_sub(hay: &Vec<char>, needle: &Vec<char>) -> (r: Option<usize>)
    ensures
        match r {
            Some(i) => find_first(hay@, needle@) == Some(i as int) && match_at(
                hay@,
                needle@,
                i as int,
            ),
            None => find_first(hay@, needle@) is None && !contains_seq(hay@, needle@),
        },
{
    let r = find_sub(hay, needle);
    proof {
        lemma_find_first_props(hay@, needle@);
        match r {
            Some(i) => {
                match find_first(hay@, needle@) {
                    Some(k) => {
                        if k < i {
                            assert(!match_at(hay@, needle@, k));
                        }
                        if (i as int) < k {
                            assert(!match_at(hay@, needle@, i as int));
                        }
                    },
                    None => {
                        assert(!match_at(hay@, needle@, i as int));
                    },
                }
            },
            None => {},
        }
    }
    r
}

/// The code point of `c` with an ASCII capital letter folded to lower
/// case.  Case folding here is deliberately ASCII-only: every case-blind
/// marker the supervisor searches for ("code:", the log level tags) is
/// ASCII, so folding the other side beyond ASCII would change no match
/// against them, and full Unicode case mapping (which can expand one
/// character to several) is out of scope of this model.
pub open spec fn lower_code(c: char) -> u32 {
    if 65 <= c as u32 && c as u32 <= 90 {
        (c as u32 + 32) as u32
    } else {
        c as u32
    }
}

/// Whether two characters agree up to ASCII case.
pub fn chars_eq_ci(a: char, b: char) -> (r: bool)
    ensures
        r == (lower_code(a) == lower_code(b)),
{
    let ua = a as u32;
    let ub = b as u32;
    let la = if 65 <= ua && ua <= 90 { ua + 32 } else { ua };
    let lb = if 65 <= ub && ub <= 90 { ub + 32 } else { ub };
    la == lb
}

/// `needle` occurs in `hay` at position `i`, up to ASCII case.
pub open spec fn match_at_ci(hay: Seq<char>, needle: Seq<char>, i: int) -> bool {
    0 <= i && i + needle.len() <= hay.len() && forall|t: int|
        0 <= t < needle.len() ==> lower_code(hay[i + t]) == lower_code(needle[t])
}

/// `needle` occurs somewhere in `hay`, up to ASCII case.
pub open spec fn contains_ci(hay: Seq<char>, needle: Seq<char>) -> bool {
    exists|i: int| match_at_ci(hay, needle, i)
}

/// Whether `needle` occurs in `hay` when ASCII case is ignored.
pub fn contains_sub_ci(hay: &Vec<char>, needle: &Vec<char>) -> (r: bool)
    ensures
        r == contains_ci(hay@, needle@),
{
    let n = hay.len();
    let m = needle.len();
    if m > n {
        proof {
            assert forall|j: int| !match_at_ci(hay@, needle@, j) by {}
        }
        return false;
    }
    if m == 0 {
        proof {
            assert(match_at_ci(hay@, needle@, 0));
        }
        return true;
    }
    let mut i: usize = 0;
    while i <= n - m
        invariant
            1 <= m <= n == hay@.len(),
            m == needle@.len(),
            i <= n - m + 1,
            forall|j: int| 0 <= j < i ==> !match_at_ci(hay@, needle@, j),
        decreases n - i,
    {
        let mut k: usize = 0;
        let mut ok = true;
        while k < m
            invariant
                1 <= m <= n == hay@.len(),
                m == needle@.len(),
                i <= n - m,
                k <= m,
                ok ==> forall|t: int|
                    0 <= t < k ==> lower_code(hay@[i + t]) == lower_code(needle@[t]),
                !ok ==> !match_at_ci(hay@, needle@, i as int),
            decreases m - k,
        {
            if !chars_eq_ci(hay[i + k], needle[k]) {
                ok = false;
            }
            k += 1;
        }
        if ok {
            proof {
                assert(match_at_ci(hay@, needle@, i as int));
            }
            return true;
        }
        i += 1;
    }
    proof {
        assert forall|j: int| !match_at_ci(hay@, needle@, j) by {
            if match_at_ci(hay@, needle@, j) {
                assert(j + m <= n);
                assert(j < i);
            }
        }
    }
    false
}

/// The position of the first occurrence of `needle` in `hay`, up to
/// ASCII case.
pub open spec fn find_first_ci(hay: Seq<char>, needle: Seq<char>) -> Option<int>
    decreases hay.len(),
{
    if match_at_ci(hay, needle, 0) {
        Some(0)
    } else if hay.len() == 0 {
        None
    } else {
        match find_first_ci(hay.skip(1), needle) {
            Some(i) => Some(i + 1),
            None => None,
        }
    }
}

/// Case-ignoring occurrences one position into `hay` are occurrences
/// shifted by one.
proof fn lemma_match_ci_shift(hay: Seq<char>, needle: Seq<char>, t: int)
    requires
        hay.len() >= 1,
        t >= 0,
    ensures
        match_at_ci(hay.skip(1), needle, t) <==> match_at_ci(hay, needle, t + 1),
{
    let m = needle.len() as int;
    if match_at_ci(hay.skip(1), needle, t) {
        assert forall|s: int|
            0 <= s < m implies lower_code(hay[t + 1 + s]) == lower_code(needle[s]) by {
            assert(hay.skip(1)[t + s] == hay[t + 1 + s]);
        }
    }
    if match_at_ci(hay, needle, t + 1) {
        assert forall|s: int|
            0 <= s < m implies lower_code(hay.skip(1)[t + s]) == lower_code(needle[s]) by {
            assert(hay.skip(1)[t + s] == hay[t + 1 + s]);
        }
    }
}

/// `find_first_ci` returns the first occurrence when there is one.
pub proof fn lemma_find_first_ci_props(hay: Seq<char>, needle: Seq<char>)
    ensures
        match find_first_ci(hay, needle) {
            Some(i) => match_at_ci(hay, needle, i) && forall|j: int|
                0 <= j < i ==> !match_at_ci(hay, needle, j),
            None => forall|j: int| !match_at_ci(hay, needle, j),
        },
    decreases hay.len(),
{
    if match_at_ci(hay, needle, 0) {
    } else if hay.len() == 0 {
        assert forall|j: int| !match_at_ci(hay, needle, j) by {
            if j != 0 && match_at_ci(hay, needle, j) {
                assert(j >= 1 ==> j + needle.len() > hay.len());
            }
        }
    } else {
        lemma_find_first_ci_props(hay.skip(1), needle);
        match find_first_ci(hay.skip(1), needle) {
            Some(i) => {
                lemma_match_ci_shift(hay, needle, i);
                assert forall|j: int| 0 <= j < i + 1 implies !match_at_ci(hay, needle, j) by {
                    if j >= 1 {
                        lemma_match_ci_shift(hay, needle, j - 1);
                    }
                }
            },
            None => {
                assert forall|j: int| !match_at_ci(hay, needle, j) by {
                    if j >= 1 {
                        lemma_match_ci_shift(hay, needle, j - 1);
                    }
                }
            },
        }
    }
}

/// Finds the first occurrence of `needle` in `hay` up to ASCII case,
/// tied to `find_first_ci`.
pub fn find_first_ci_sub(hay: &Vec<char>, needle: &Vec<char>) -> (r: Option<usize>)
    ensures
        match r {
            Some(i) => find_first_ci(hay@, needle@) == Some(i as int) && match_at_ci(
                hay@,
                needle@,
                i as int,
            ),
            None => find_first_ci(hay@, needle@) is None && !contains_ci(hay@, needle@),
        },
{
    let n = hay.len();
    let m = needle.len();
    proof {
        lemma_find_first_ci_props(hay@, needle@);
    }
    if m > n {
        proof {
            assert forall|j: int| !match_at_ci(hay@, needle@, j) by {}
            if find_first_ci(hay@, needle@) is Some {
                let w = find_first_ci(hay@, needle@)->0;
                assert(!match_at_ci(hay@, needle@, w));
            }
        }
        return None;
    }
    if m == 0 {
        proof {
            assert(match_at_ci(hay@, needle@, 0));
        }
        return Some(0);
    }
    let mut i: usize = 0;
    while i <= n - m
        invariant
            1 <= m <= n == hay@.len(),
            m == needle@.len(),
            i <= n - m + 1,
            forall|j: int| 0 <= j < i ==> !match_at_ci(hay@, needle@, j),
        decreases n - i,
    {
        let mut k: usize = 0;
        let mut ok = true;
        while k < m
            invariant
                1 <= m <= n == hay@.len(),
                m == needle@.len(),
                i <= n - m,
                k <= m,
                ok ==> forall|t: int|
                    0 <= t < k ==> lower_code(hay@[i + t]) == lower_code(needle@[t]),
                !ok ==> !match_at_ci(hay@, needle@, i as int),
            decreases m - k,
        {
            if !chars_eq_ci(hay[i + k], needle[k]) {
                ok = false;
            }
            k += 1;
        }
        if ok {
            proof {
                assert(match_at_ci(hay@, needle@, i as int));
                lemma_find_first_ci_props(hay@, needle@);
                match find_first_ci(hay@, needle@) {
                    Some(w) => {
                        if w < i {
                            assert(!match_at_ci(hay@, needle@, w));
                        }
                        if (i as int) < w {
                            assert(!match_at_ci(hay@, needle@, i as int));
                        }
                    },
                    None => {
                        assert(!match_at_ci(hay@, needle@, i as int));
                    },
                }
            }
            return Some(i);
        }
        i += 1;
    }
    proof {
        assert forall|j: int| !match_at_ci(hay@, needle@, j) by {
            if match_at_ci(hay@, needle@, j) {
                assert(j + m <= n);
                assert(j < i);
            }
        }
        if find_first_ci(hay@, needle@) is Some {
            let w = find_first_ci(hay@, needle@)->0;
            assert(!match_at_ci(hay@, needle@, w));
        }
    }
    None
}

/// The code point belongs to the Unicode White_Space class: the ASCII
/// whitespace characters, next line, no-break space, the Ogham space
/// mark, the typographic spaces, the line and paragraph separators, the
/// narrow and mathematical no-break spaces, and the ideographic space.
pub open spec fn is_space_code(u: u32) -> bool {
    (9 <= u && u <= 13) || u == 32 || u == 0x85 || u == 0xA0 || u == 0x1680 || (0x2000 <= u && u
        <= 0x200A) || u == 0x2028 || u == 0x2029 || u == 0x202F || u == 0x205F || u == 0x3000
}

/// The whitespace characters recognised by the supervisor: the Unicode
/// White_Space class, which is also what trimming and whitespace
/// splitting of strings recognise.
pub open spec fn is_space(c: char) -> bool {
    is_space_code(c as u32)
}

/// Whether `c` is a whitespace character.
pub fn is_space_char(c: char) -> (r: bool)
    ensures
        r == is_space(c),
{
    let u = c as u32;
    (9 <= u && u <= 13) || u == 32 || u == 0x85 || u == 0xA0 || u == 0x1680 || (0x2000 <= u && u
        <= 0x200A) || u == 0x2028 || u == 0x2029 || u == 0x202F || u == 0x205F || u == 0x3000
}

/// `s` with its leading whitespace removed.
pub open spec fn trim_start_spec(s: Seq<char>) -> Seq<char>
    decreases s.len(),
{
    if s.len() > 0 && is_space(s[0]) {
        trim_start_spec(s.skip(1))
    } else {
        s
    }
}

/// `s` with its trailing whitespace removed.
pub open spec fn trim_end_spec(s: Seq<char>) -> Seq<char>
    decreases s.len(),
{
    if s.len() > 0 && is_space(s[s.len() - 1]) {
        trim_end_spec(s.take(s.len() - 1))
    } else {
        s
    }
}

/// `s` with whitespace removed at both ends.
pub open spec fn trim_spec(s: Seq<char>) -> Seq<char> {
    trim_end_spec(trim_start_spec(s))
}

/// Removes ASCII whitespace at both ends of a character vector.
pub fn trim_chars(v: &Vec<char>) -> (r: Vec<char>)
    ensures
        r@ == trim_spec(v@),
{
    let n = v.len();
    let mut a: usize = 0;
    proof {
        assert(v@.skip(0) =~= v@);
    }
    while a < n && is_space_char(v[a])
        invariant
            a <= n == v@.len(),
            trim_start_spec(v@) == trim_start_spec(v@.skip(a as int)),
        decreases n - a,
    {
        proof {
            assert(v@.skip(a as int)[0] == v@[a as int]);
            assert(v@.skip(a as int).skip(1) =~= v@.skip(a + 1 as int));
        }
        a += 1;
    }
    proof {
        if a < n {
            assert(v@.skip(a as int)[0] == v@[a as int]);
        }
        assert(trim_start_spec(v@) == v@.skip(a as int));
        assert(v@.skip(a as int).take(n - a as int) =~= v@.skip(a as int));
    }
    let mut b: usize = n;
    while b > a && is_space_char(v[b - 1])
        invariant
            a <= b <= n == v@.len(),
            trim_start_spec(v@) == v@.skip(a as int),
            trim_end_spec(v@.skip(a as int)) == trim_end_spec(
                v@.skip(a as int).take(b - a as int),
            ),
        decreases b,
    {
        proof {
            let pre = v@.skip(a as int).take(b - a as int);
            assert(pre[pre.len() - 1] == v@[b - 1 as int]);
            assert(pre.take(pre.len() - 1) =~= v@.skip(a as int).take(b - 1 - a as int));
        }
        b -= 1;
    }
    proof {
        let pre = v@.skip(a as int).take(b - a as int);
        if b > a {
            assert(pre[pre.len() - 1] == v@[b - 1 as int]);
        }
        assert(trim_end_spec(v@.skip(a as int)) == pre);
        assert(pre =~= v@.subrange(a as int, b as int));
    }
    subvec(v, a, b)
}

/// Removes ASCII whitespace at both ends of a string.
pub fn trim_str(s: &str) -> (r: String)
    ensures
        r@ == trim_spec(s@),
{
    let v = str_to_chars(s);
    let t = trim_chars(&v);
    chars_to_string(&t)
}

/// The length of the leading run of non-whitespace characters of `s`.
pub open spec fn word_len(s: Seq<char>) -> int
    decreases s.len(),
{
    if s.len() == 0 || is_space(s[0]) {
        0
    } else {
        1 + word_len(s.skip(1))
    }
}

pub proof fn lemma_word_len_bounds(s: Seq<char>)
    ensures
        0 <= word_len(s) <= s.len(),
        s.len() > 0 && !is_space(s[0]) ==> word_len(s) >= 1,
    decreases s.len(),
{
    if s.len() > 0 && !is_space(s[0]) {
        lemma_word_len_bounds(s.skip(1));
    }
}

/// The whitespace-separated words of `s`, in order.
pub open spec fn split_ws_spec(s: Seq<char>) -> Seq<Seq<char>>
    decreases s.len(),
    via split_ws_spec_decreases
{
    if s.len() == 0 {
        Seq::empty()
    } else if is_space(s[0]) {
        split_ws_spec(s.skip(1))
    } else {
        seq![s.take(word_len(s))] + split_ws_spec(s.skip(word_len(s)))
    }
}

#[via_fn]
proof fn split_ws_spec_decreases(s: Seq<char>) {
    if s.len() > 0 && !is_space(s[0]) {
        lemma_word_len_bounds(s);
    }
}

/// When the first `k` characters of `s` are not whitespace and position `k`
/// is the end or whitespace, the leading word of `s` has length `k`.
pub proof fn lemma_word_len_value(s: Seq<char>, k: int)
    requires
        0 <= k <= s.len(),
        forall|t: int| 0 <= t < k ==> !is_space(s[t]),
        k == s.len() || is_space(s[k]),
    ensures
        word_len(s) == k,
    decreases k,
{
    if k == 0 {
    } else {
        assert(!is_space(s[0]));
        lemma_word_len_value(s.skip(1), k - 1);
    }
}

/// Splits a character vector into its whitespace-separated words.
pub fn split_ws(v: &Vec<char>) -> (r: Vec<String>)
    ensures
        r@.len() == split_ws_spec(v@).len(),
        forall|t: int| 0 <= t < r@.len() ==> r@[t]@ == split_ws_spec(v@)[t],
{
    let n = v.len();
    let mut r: Vec<String> = Vec::new();
    let mut i: usize = 0;
    proof {
        assert(v@.skip(0) =~= v@);
    }
    while i < n
        invariant
            i <= n == v@.len(),
            split_ws_spec(v@).len() == r@.len() + split_ws_spec(v@.skip(i as int)).len(),
            forall|t: int|
                0 <= t < r@.len() ==> r@[t]@ == split_ws_spec(v@)[t],
            forall|t: int|
                0 <= t < split_ws_spec(v@.skip(i as int)).len() ==> split_ws_spec(v@)[r@.len() + t]
                    == split_ws_spec(v@.skip(i as int))[t],
        decreases n - i,
    {
        if is_space_char(v[i]) {
            proof {
                assert(v@.skip(i as int)[0] == v@[i as int]);
                assert(v@.skip(i as int).skip(1) =~= v@.skip(i + 1 as int));
            }
            i += 1;
        } else {
            let start = i;
            let mut j = i;
            while j < n && !is_space_char(v[j])
                invariant
                    start <= j <= n == v@.len(),
                    forall|t: int| start <= t < j ==> !is_space(v@[t]),
                decreases n - j,
            {
                j += 1;
            }
            proof {
                let rest = v@.skip(start as int);
                assert forall|t: int| 0 <= t < j - start implies !is_space(rest[t]) by {
                    assert(rest[t] == v@[start + t]);
                }
                if j < n {
                    assert(rest[j - start as int] == v@[j as int]);
                }
                lemma_word_len_value(rest, j - start as int);
                assert(rest[0] == v@[start as int]);
                assert(rest.skip(j - start as int) =~= v@.skip(j as int));
                assert(split_ws_spec(rest) == seq![rest.take(j - start as int)] + split_ws_spec(
                    v@.skip(j as int),
                ));
            }
            let word_chars = subvec(v, start, j);
            proof {
                assert(v@.subrange(start as int, j as int) =~= v@.skip(start as int).take(
                    j - start as int,
                ));
            }
            let word = chars_to_string(&word_chars);
            let ghost prev = r@;
            r.push(word);
            proof {
                let rest = v@.skip(start as int);
                let w = rest.take(j - start as int);
                assert(word@ == w);
                assert(split_ws_spec(rest)[0] == w);
                assert(split_ws_spec(v@)[prev.len() as int] == w);
                assert forall|t: int|
                    0 <= t < split_ws_spec(v@.skip(j as int)).len() implies split_ws_spec(
                    v@,
                )[r@.len() + t] == split_ws_spec(v@.skip(j as int))[t] by {
                    assert(split_ws_spec(rest)[t + 1] == split_ws_spec(v@.skip(j as int))[t]);
                    assert(split_ws_spec(v@)[prev.len() + (t + 1)] == split_ws_spec(rest)[t + 1]);
                }
            }
            i = j;
        }
    }
    proof {
        assert(v@.skip(n as int) =~= Seq::<char>::empty());
        assert(split_ws_spec(v@.skip(n as int)).len() == 0);
    }
    r
}

/// `a` comes no later than `b` in code-point lexicographic order.
pub open spec fn seq_le(a: Seq<char>, b: Seq<char>) -> bool
    decreases a.len(),
{
    if a.len() == 0 {
        true
    } else if b.len() == 0 {
        false
    } else if (a[0] as u32) < (b[0] as u32) {
        true
    } else if (a[0] as u32) > (b[0] as u32) {
        false
    } else {
        seq_le(a.skip(1), b.skip(1))
    }
}

/// The lexicographic order relates every two sequences one way or the other.
pub proof fn lemma_seq_le_total(a: Seq<char>, b: Seq<char>)
    ensures
        seq_le(a, b) || seq_le(b, a),
    decreases a.len(),
{
    if a.len() > 0 && b.len() > 0 && a[0] as u32 == b[0] as u32 {
        lemma_seq_le_total(a.skip(1), b.skip(1));
    }
}

/// The lexicographic order chains.
pub proof fn lemma_seq_le_trans(a: Seq<char>, b: Seq<char>, c: Seq<char>)
    requires
        seq_le(a, b),
        seq_le(b, c),
    ensures
        seq_le(a, c),
    decreases a.len(),
{
    if a.len() > 0 && b.len() > 0 && c.len() > 0 && a[0] as u32 == b[0] as u32 && b[0] as u32
        == c[0] as u32 {
        lemma_seq_le_trans(a.skip(1), b.skip(1), c.skip(1));
    }
}

/// Whether `a` comes no later than `b` in code-point order.
pub fn chars_le(a: &Vec<char>, b: &Vec<char>) -> (r: bool)
    ensures
        r == seq_le(a@, b@),
{
    let mut i: usize = 0;
    proof {
        assert(a@.skip(0) =~= a@);
        assert(b@.skip(0) =~= b@);
    }
    loop
        invariant
            i <= a@.len(),
            i <= b@.len(),
            seq_le(a@, b@) == seq_le(a@.skip(i as int), b@.skip(i as int)),
        decreases a@.len() - i,
    {
        if i >= a.len() {
            return true;
        }
        if i >= b.len() {
            proof {
                assert(a@.skip(i as int).len() > 0);
            }
            return false;
        }
        proof {
            assert(a@.skip(i as int)[0] == a@[i as int]);
            assert(b@.skip(i as int)[0] == b@[i as int]);
            assert(a@.skip(i as int).skip(1) =~= a@.skip(i + 1 as int));
            assert(b@.skip(i as int).skip(1) =~= b@.skip(i + 1 as int));
        }
        let ca = a[i] as u32;
        let cb = b[i] as u32;
        if ca < cb {
            return true;
        }
        if ca > cb {
            return false;
        }
        i += 1;
    }
}

/// An optional string holds exactly the optional character sequence.
pub open spec fn opt_string_is(o: Option<String>, s: Option<Seq<char>>) -> bool {
    match (o, s) {
        (Some(a), Some(b)) => a@ == b,
        (None, None) => true,
        _ => false,
    }
}

/// Two optional strings hold the same characters.
pub open spec fn opt_string_eq(a: Option<String>, b: Option<String>) -> bool {
    match (a, b) {
        (Some(x), Some(y)) => x@ == y@,
        (None, None) => true,
        _ => false,
    }
}

/// Copies an optional string.
pub fn clone_opt_string(o: &Option<String>) -> (r: Option<String>)
    ensures
        opt_string_eq(r, *o),
{
    match o {
        Some(s) => Some(s.clone()),
        None => None,
    }
}

/// `c` is an ASCII decimal digit.
pub open spec fn is_digit(c: char) -> bool {
    48 <= c as u32 <= 57
}

/// The numeric value of an ASCII digit.
pub open spec fn digit_val(c: char) -> nat {
    (c as u32 - 48) as nat
}

/// Whether `c` is an ASCII decimal digit.
pub fn is_digit_char(c: char) -> (r: bool)
    ensures
        r == is_digit(c),
{
    let u = c as u32;
    48 <= u && u <= 57
}

/// The digit character for one value below ten.
pub open spec fn digit_char_spec(d: nat) -> char {
    if d == 0 {
        '0'
    } else if d == 1 {
        '1'
    } else if d == 2 {
        '2'
    } else if d == 3 {
        '3'
    } else if d == 4 {
        '4'
    } else if d == 5 {
        '5'
    } else if d == 6 {
        '6'
    } else if d == 7 {
        '7'
    } else if d == 8 {
        '8'
    } else {
        '9'
    }
}

fn digit_char(d: u32) -> (c: char)
    requires
        d < 10,
    ensures
        c == digit_char_spec(d as nat),
{
    if d == 0 {
        '0'
    } else if d == 1 {
        '1'
    } else if d == 2 {
        '2'
    } else if d == 3 {
        '3'
    } else if d == 4 {
        '4'
    } else if d == 5 {
        '5'
    } else if d == 6 {
        '6'
    } else if d == 7 {
        '7'
    } else if d == 8 {
        '8'
    } else {
        '9'
    }
}

/// The decimal notation of `n`, most significant digit first.
pub open spec fn dec_digits_spec(n: nat) -> Seq<char>
    decreases n,
{
    if n < 10 {
        seq![digit_char_spec(n)]
    } else {
        dec_digits_spec(n / 10).push(digit_char_spec(n % 10))
    }
}

fn push_dec_digits(v: &mut Vec<char>, n: u32)
    ensures
        final(v)@ == old(v)@ + dec_digits_spec(n as nat),
    decreases n,
{
    if n < 10 {
        let ghost prev = v@;
        v.push(digit_char(n));
        proof {
            assert(v@ =~= prev + seq![digit_char_spec(n as nat)]);
        }
    } else {
        push_dec_digits(v, n / 10);
        let ghost prev = v@;
        v.push(digit_char(n % 10));
        proof {
            assert(v@ =~= prev.push(digit_char_spec((n % 10) as nat)));
            assert(v@ =~= old(v)@ + dec_digits_spec((n / 10) as nat).push(
                digit_char_spec((n % 10) as nat),
            ));
        }
    }
}

/// Formats `n` in decimal.
pub fn u32_to_string(n: u32) -> (r: String)
    ensures
        r@ == dec_digits_spec(n as nat),
{
    let mut v: Vec<char> = Vec::new();
    push_dec_digits(&mut v, n);
    chars_to_string(&v)
}

/// The value of a digit string, read most significant digit first.
pub open spec fn dec_value_spec(s: Seq<char>) -> nat
    decreases s.len(),
{
    if s.len() == 0 {
        0
    } else {
        dec_value_spec(s.take(s.len() - 1)) * 10 + digit_val(s[s.len() - 1])
    }
}

/// A digit string's value only grows with more digits at its end.
proof fn lemma_dec_value_prefix(s: Seq<char>, i: int)
    requires
        0 <= i <= s.len(),
    ensures
        dec_value_spec(s.take(i)) <= dec_value_spec(s),
    decreases s.len() - i,
{
    if i < s.len() {
        lemma_dec_value_prefix(s, i + 1);
        assert(s.take(i + 1).take(i) =~= s.take(i));
        assert(dec_value_spec(s.take(i + 1)) == dec_value_spec(s.take(i)) * 10 + digit_val(
            s.take(i + 1)[i],
        ));
    } else {
        assert(s.take(i) =~= s);
    }
}

/// Reads a decimal number: defined exactly when the characters are one
/// or more digits whose value fits in 32 bits.
pub fn parse_u32_chars(v: &Vec<char>) -> (r: Option<u32>)
    ensures
        match r {
            Some(value) => v@.len() > 0 && (forall|i: int| 0 <= i < v@.len() ==> is_digit(v@[i]))
                && value as nat == dec_value_spec(v@),
            None => v@.len() == 0 || (exists|i: int| 0 <= i < v@.len() && !is_digit(v@[i]))
                || dec_value_spec(v@) > u32::MAX,
        },
{
    let n = v.len();
    if n == 0 {
        return None;
    }
    let mut acc: u32 = 0;
    let mut i: usize = 0;
    proof {
        assert(v@.take(0) =~= Seq::<char>::empty());
    }
    while i < n
        invariant
            i <= n == v@.len(),
            forall|t: int| 0 <= t < i ==> is_digit(v@[t]),
            acc as nat == dec_value_spec(v@.take(i as int)),
        decreases n - i,
    {
        let c = v[i];
        if !is_digit_char(c) {
            return None;
        }
        let d = c as u32 - 48;
        if acc > (u32::MAX - d) / 10 {
            proof {
                assert(v@.take(i + 1 as int).take(i as int) =~= v@.take(i as int));
                assert(v@.take(i + 1 as int)[i as int] == v@[i as int]);
                assert(dec_value_spec(v@.take(i + 1 as int)) == acc as nat * 10 + digit_val(
                    v@[i as int],
                ));
                assert(dec_value_spec(v@.take(i + 1 as int)) > u32::MAX);
                lemma_dec_value_prefix(v@, i + 1);
            }
            return None;
        }
        proof {
            assert(v@.take(i + 1 as int).take(i as int) =~= v@.take(i as int));
            assert(v@.take(i + 1 as int)[i as int] == v@[i as int]);
        }
        acc = acc * 10 + d;
        i += 1;
    }
    proof {
        assert(v@.take(n as int) =~= v@);
    }
    Some(acc)
}

/// Splits a string into its whitespace-separated words.
pub fn split_ws_str(s: &str) -> (r: Vec<String>)
    ensures
        r@.len() == split_ws_spec(s@).len(),
        forall|t: int| 0 <= t < r@.len() ==> r@[t]@ == split_ws_spec(s@)[t],
{
    let v = str_to_chars(s);
    split_ws(&v)
}

} // verus!
