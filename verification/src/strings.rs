//! Verified building blocks for the text manipulation the engine performs:
//! substring search, replace-all (the basis of prompt templating), whitespace
//! trimming, and plain string equality.

use vstd::prelude::*;
use vstd::string::StrSliceExecFns;
use vstd::string::StringExecFns;

verus! {

/// `pat` occurs in `s` starting at position `i`.
pub open spec fn occurs_at(s: Seq<char>, pat: Seq<char>, i: int) -> bool {
    0 <= i && i + pat.len() <= s.len() && s.subrange(i, i + pat.len() as int) == pat
}

/// `pat` occurs somewhere in `s`.
pub open spec fn contains_seq(s: Seq<char>, pat: Seq<char>) -> bool {
    exists|i: int| occurs_at(s, pat, i)
}

/// Position of the leftmost occurrence of `pat` in `s`, if any.
pub open spec fn find_spec(s: Seq<char>, pat: Seq<char>) -> Option<int>
    decreases s.len(),
{
    if pat.len() > s.len() {
        Option::None
    } else if s.subrange(0, pat.len() as int) == pat {
        Option::Some(0)
    } else if s.len() == 0 {
        Option::None
    } else {
        match find_spec(s.drop_first(), pat) {
            Option::None => Option::None,
            Option::Some(i) => Option::Some(i + 1),
        }
    }
}

/// `find_spec` returns exactly the first occurrence of `pat`, or nothing.
pub proof fn lemma_find_spec(s: Seq<char>, pat: Seq<char>)
    ensures
        match find_spec(s, pat) {
            Option::Some(i) => 0 <= i && i + pat.len() <= s.len() && occurs_at(s, pat, i)
                && forall|j: int| 0 <= j < i ==> !occurs_at(s, pat, j),
            Option::None => forall|j: int| !occurs_at(s, pat, j),
        },
    decreases s.len(),
{
    if pat.len() > s.len() {
        assert(forall|j: int| !occurs_at(s, pat, j));
    } else if s.subrange(0, pat.len() as int) == pat {
        assert(occurs_at(s, pat, 0));
    } else if s.len() == 0 {
        assert(forall|j: int| !occurs_at(s, pat, j));
    } else {
        let t = s.drop_first();
        lemma_find_spec(t, pat);
        assert forall|j: int| 1 <= j && occurs_at(s, pat, j) implies occurs_at(t, pat, j - 1) by {
            assert(t.subrange(j - 1, j - 1 + pat.len() as int)
                =~= s.subrange(j, j + pat.len() as int));
        }
        assert forall|j: int| occurs_at(t, pat, j) implies occurs_at(s, pat, j + 1) by {
            assert(s.subrange(j + 1, j + 1 + pat.len() as int)
                =~= t.subrange(j, j + pat.len() as int));
        }
        assert(!occurs_at(s, pat, 0));
        match find_spec(t, pat) {
            Option::None => {
                assert forall|j: int| !occurs_at(s, pat, j) by {
                    if 1 <= j && occurs_at(s, pat, j) {
                        assert(occurs_at(t, pat, j - 1));
                    }
                }
            }
            Option::Some(i) => {
                assert(occurs_at(s, pat, i + 1));
                assert forall|j: int| 0 <= j < i + 1 implies !occurs_at(s, pat, j) by {
                    if 1 <= j && occurs_at(s, pat, j) {
                        assert(occurs_at(t, pat, j - 1));
                    }
                }
            }
        }
    }
}

/// Every occurrence replaced by `rep`, scanning left to right; an empty
/// pattern leaves the text unchanged.
pub open spec fn replace_all_spec(s: Seq<char>, pat: Seq<char>, rep: Seq<char>) -> Seq<char>
    decreases s.len(),
    via replace_all_spec_dec
{
    if pat.len() == 0 {
        s
    } else {
        match find_spec(s, pat) {
            Option::None => s,
            Option::Some(i) => s.subrange(0, i) + rep + replace_all_spec(
                s.subrange(i + pat.len(), s.len() as int),
                pat,
                rep,
            ),
        }
    }
}

#[via_fn]
proof fn replace_all_spec_dec(s: Seq<char>, pat: Seq<char>, rep: Seq<char>) {
    lemma_find_spec(s, pat);
}

/// Equality of two string slices, decided without trusting anything beyond
/// character access.
pub fn str_eq(a: &str, b: &str) -> (r: bool)
    ensures
        r == (a@ == b@),
{
    let n = a.unicode_len();
    if n != b.unicode_len() {
        return false;
    }
    let mut i: usize = 0;
    while i < n
        invariant
            n == a@.len(),
            n == b@.len(),
            i <= n,
            forall|j: int| 0 <= j < i ==> a@[j] == b@[j],
        decreases n - i,
    {
        if a.get_char(i) != b.get_char(i) {
            assert(a@ != b@);
            return false;
        }
        i += 1;
    }
    assert(a@ =~= b@);
    true
}

/// Leftmost occurrence of `pat` in `s`, by naive scan.
pub fn find_first(s: &str, pat: &str) -> (r: Option<usize>)
    ensures
        match r {
            Some(i) => find_spec(s@, pat@) == Option::Some(i as int),
            None => find_spec(s@, pat@) is None,
        },
{
    proof {
        lemma_find_spec(s@, pat@);
    }
    let n = s.unicode_len();
    let m = pat.unicode_len();
    if m > n {
        return None;
    }
    if m == 0 {
        proof {
            assert(s@.subrange(0, 0) =~= pat@);
        }
        return Some(0);
    }
    let mut i: usize = 0;
    while i <= n - m
        invariant
            n == s@.len(),
            m == pat@.len(),
            0 < m <= n,
            i <= n - m + 1,
            forall|j: int| 0 <= j < i ==> !occurs_at(s@, pat@, j),
        decreases n - i,
    {
        let sub = s.substring_char(i, i + m);
        if str_eq(sub, pat) {
            proof {
                assert(occurs_at(s@, pat@, i as int));
                lemma_find_spec(s@, pat@);
                match find_spec(s@, pat@) {
                    Option::None => {
                        assert(false);
                    }
                    Option::Some(k) => {
                        assert(!(k < i) && !(i < k));
                    }
                }
            }
            return Some(i);
        }
        i += 1;
    }
    proof {
        assert forall|j: int| !occurs_at(s@, pat@, j) by {
            if occurs_at(s@, pat@, j) {
                assert(0 <= j && j + m <= n);
                assert(j < i);
            }
        }
        lemma_find_spec(s@, pat@);
    }
    None
}

/// Whether `pat` occurs in `s`.
pub fn contains_str(s: &str, pat: &str) -> (r: bool)
    ensures
        r == contains_seq(s@, pat@),
{
    proof {
        lemma_find_spec(s@, pat@);
    }
    match find_first(s, pat) {
        Some(_) => true,
        None => false,
    }
}

/// Replace every occurrence of `pat` in `s` by `rep`, scanning left to right.
pub fn replace_all(s: &str, pat: &str, rep: &str) -> (r: String)
    ensures
        r@ == replace_all_spec(s@, pat@, rep@),
{
    let m = pat.unicode_len();
    if m == 0 {
        return s.to_owned();
    }
    let mut res = String::new();
    let mut pos: usize = 0;
    let n = s.unicode_len();
    proof {
        assert(s@.subrange(0, n as int) =~= s@);
        assert(res@ + replace_all_spec(s@, pat@, rep@) =~= replace_all_spec(s@, pat@, rep@));
    }
    loop
        invariant
            n == s@.len(),
            m == pat@.len(),
            0 < m,
            pos <= n,
            replace_all_spec(s@, pat@, rep@) == res@ + replace_all_spec(
                s@.subrange(pos as int, n as int),
                pat@,
                rep@,
            ),
        decreases n - pos,
    {
        let sub = s.substring_char(pos, n);
        match find_first(sub, pat) {
            Some(i) => {
                proof {
                    lemma_find_spec(sub@, pat@);
                }
                let piece = s.substring_char(pos, pos + i);
                res.append(piece);
                res.append(rep);
                proof {
                    assert(piece@ =~= sub@.subrange(0, i as int));
                    assert(sub@.subrange(i + pat@.len(), sub@.len() as int)
                        =~= s@.subrange(pos + i + m, n as int));
                }
                pos = pos + i + m;
            }
            None => {
                res.append(sub);
                proof {
                    assert(replace_all_spec(sub@, pat@, rep@) == sub@);
                }
                return res;
            }
        }
    }
}

/// Characters the engine treats as whitespace: the Unicode `White_Space`
/// set, matching what `str::trim` removes.
pub open spec fn is_space_char(c: char) -> bool {
    c == ' ' || c == '\t' || c == '\n' || c == '\r' || c == '\u{000b}' || c == '\u{000c}'
        || c == '\u{0085}' || c == '\u{00a0}' || c == '\u{1680}' || ('\u{2000}' <= c
        && c <= '\u{200a}') || c == '\u{2028}' || c == '\u{2029}' || c == '\u{202f}'
        || c == '\u{205f}' || c == '\u{3000}'
}

/// Executable test for [`is_space_char`].
pub fn is_space(c: char) -> (r: bool)
    ensures
        r == is_space_char(c),
{
    c == ' ' || c == '\t' || c == '\n' || c == '\r' || c == '\u{000b}' || c == '\u{000c}'
        || c == '\u{0085}' || c == '\u{00a0}' || c == '\u{1680}' || ('\u{2000}' <= c
        && c <= '\u{200a}') || c == '\u{2028}' || c == '\u{2029}' || c == '\u{202f}'
        || c == '\u{205f}' || c == '\u{3000}'
}

/// Number of leading whitespace characters.
pub open spec fn ws_front(s: Seq<char>) -> int
    decreases s.len(),
{
    if s.len() > 0 && is_space_char(s[0]) {
        1 + ws_front(s.drop_first())
    } else {
        0
    }
}

pub proof fn lemma_ws_front(s: Seq<char>)
    ensures
        0 <= ws_front(s) <= s.len(),
        forall|j: int| 0 <= j < ws_front(s) ==> is_space_char(s[j]),
        ws_front(s) < s.len() ==> !is_space_char(s[ws_front(s)]),
    decreases s.len(),
{
    if s.len() > 0 && is_space_char(s[0]) {
        let t = s.drop_first();
        lemma_ws_front(t);
        assert forall|j: int| 0 <= j < ws_front(s) implies is_space_char(s[j]) by {
            if j > 0 {
                assert(t[j - 1] == s[j]);
            }
        }
        if ws_front(s) < s.len() {
            assert(t[ws_front(t)] == s[ws_front(s)]);
        }
    }
}

/// Number of trailing whitespace characters.
pub open spec fn ws_back(s: Seq<char>) -> int
    decreases s.len(),
{
    if s.len() > 0 && is_space_char(s[s.len() - 1]) {
        1 + ws_back(s.drop_last())
    } else {
        0
    }
}

pub proof fn lemma_ws_back(s: Seq<char>)
    ensures
        0 <= ws_back(s) <= s.len(),
        forall|j: int| s.len() - ws_back(s) <= j < s.len() ==> is_space_char(s[j]),
        ws_back(s) < s.len() ==> !is_space_char(s[s.len() - 1 - ws_back(s)]),
    decreases s.len(),
{
    if s.len() > 0 && is_space_char(s[s.len() - 1]) {
        lemma_ws_back(s.drop_last());
        assert forall|j: int| s.len() - ws_back(s) <= j < s.len() implies is_space_char(
            s[j],
        ) by {
            if j < s.len() - 1 {
                assert(s.drop_last()[j] == s[j]);
            }
        }
    }
}

/// The text with leading whitespace removed.
pub open spec fn trim_start_spec(s: Seq<char>) -> Seq<char> {
    s.subrange(ws_front(s), s.len() as int)
}

/// The text with trailing whitespace removed.
pub open spec fn trim_end_spec(s: Seq<char>) -> Seq<char> {
    s.subrange(0, s.len() - ws_back(s))
}

/// The text with whitespace removed at both ends.
pub open spec fn trim_spec(s: Seq<char>) -> Seq<char> {
    trim_end_spec(trim_start_spec(s))
}

/// Index of the first non-whitespace character (or the length).
fn scan_ws_front(s: &str) -> (r: usize)
    ensures
        r == ws_front(s@),
{
    proof {
        lemma_ws_front(s@);
    }
    let n = s.unicode_len();
    let mut i: usize = 0;
    while i < n && is_space(s.get_char(i))
        invariant
            n == s@.len(),
            i <= n,
            forall|j: int| 0 <= j < i ==> is_space_char(s@[j]),
        decreases n - i,
    {
        i += 1;
    }
    proof {
        lemma_ws_front(s@);
        if i < ws_front(s@) {
            assert(is_space_char(s@[i as int]));
        }
        if ws_front(s@) < i {
            assert(!is_space_char(s@[ws_front(s@)]));
        }
    }
    i
}

/// Count of trailing whitespace characters.
fn scan_ws_back(s: &str) -> (r: usize)
    ensures
        r == ws_back(s@),
{
    proof {
        lemma_ws_back(s@);
    }
    let n = s.unicode_len();
    let mut i: usize = 0;
    while i < n && is_space(s.get_char(n - 1 - i))
        invariant
            n == s@.len(),
            i <= n,
            forall|j: int| n - i <= j < n ==> is_space_char(s@[j]),
        decreases n - i,
    {
        i += 1;
    }
    proof {
        lemma_ws_back(s@);
        if i < ws_back(s@) {
            assert(is_space_char(s@[n - 1 - i]));
        }
        if ws_back(s@) < i {
            assert(!is_space_char(s@[n - 1 - ws_back(s@)]));
        }
    }
    i
}

/// Remove leading whitespace.
pub fn trim_start(s: &str) -> (r: String)
    ensures
        r@ == trim_start_spec(s@),
{
    proof {
        lemma_ws_front(s@);
    }
    let k = scan_ws_front(s);
    let n = s.unicode_len();
    s.substring_char(k, n).to_owned()
}

/// Remove trailing whitespace.
pub fn trim_end(s: &str) -> (r: String)
    ensures
        r@ == trim_end_spec(s@),
{
    proof {
        lemma_ws_back(s@);
    }
    let k = scan_ws_back(s);
    let n = s.unicode_len();
    s.substring_char(0, n - k).to_owned()
}

/// Remove whitespace at both ends.
pub fn trim_both(s: &str) -> (r: String)
    ensures
        r@ == trim_spec(s@),
{
    let t = trim_start(s);
    trim_end(t.as_str())
}

/// Concatenate two strings.
pub fn concat2(a: &str, b: &str) -> (r: String)
    ensures
        r@ == a@ + b@,
{
    let mut res = a.to_owned();
    res.append(b);
    res
}

/// Concatenate three strings.
pub fn concat3(a: &str, b: &str, c: &str) -> (r: String)
    ensures
        r@ == a@ + b@ + c@,
{
    let mut res = a.to_owned();
    res.append(b);
    res.append(c);
    res
}


/// No open brace occurs in `t`.
pub open spec fn brace_free(t: Seq<char>) -> bool {
    forall|k: int| 0 <= k < t.len() ==> t[k] != '{'
}

/// Law: replacing a brace-delimited pattern leaves no trace to reopen. If
/// the pattern starts with `{` and has no other open brace, the replacement
/// has no open brace, and every open brace in the text starts an occurrence
/// of the pattern, then the replaced text has no open brace at all — and so
/// no occurrence of the pattern.
pub proof fn lemma_replace_all_no_reopen(s: Seq<char>, pat: Seq<char>, rep: Seq<char>)
    requires
        pat.len() > 0,
        pat[0] == '{',
        forall|k: int| 1 <= k < pat.len() ==> pat[k] != '{',
        brace_free(rep),
        forall|k: int| 0 <= k < s.len() && s[k] == '{' ==> occurs_at(s, pat, k),
    ensures
        brace_free(replace_all_spec(s, pat, rep)),
        !contains_seq(replace_all_spec(s, pat, rep), pat),
    decreases s.len(),
{
    lemma_find_spec(s, pat);
    let t = replace_all_spec(s, pat, rep);
    match find_spec(s, pat) {
        Option::None => {
            assert forall|k: int| 0 <= k < t.len() implies t[k] != '{' by {
                if t[k] == '{' {
                    assert(occurs_at(s, pat, k));
                }
            }
        },
        Option::Some(i) => {
            let m = pat.len() as int;
            let suffix = s.subrange(i + m, s.len() as int);
            assert forall|k: int| 0 <= k < suffix.len() && suffix[k] == '{' implies occurs_at(
                suffix,
                pat,
                k,
            ) by {
                assert(s[i + m + k] == '{');
                assert(occurs_at(s, pat, i + m + k));
                assert(suffix.subrange(k, k + m) =~= s.subrange(i + m + k, i + m + k + m));
            }
            lemma_replace_all_no_reopen(suffix, pat, rep);
            let prefix = s.subrange(0, i);
            assert forall|k: int| 0 <= k < prefix.len() implies prefix[k] != '{' by {
                if prefix[k] == '{' {
                    assert(s[k] == '{');
                    assert(occurs_at(s, pat, k));
                }
            }
            assert(t == prefix + rep + replace_all_spec(suffix, pat, rep));
            assert forall|k: int| 0 <= k < t.len() implies t[k] != '{' by {
                if k < prefix.len() {
                    assert(t[k] == prefix[k]);
                } else if k < prefix.len() + rep.len() {
                    assert(t[k] == rep[k - prefix.len()]);
                } else {
                    assert(t[k] == replace_all_spec(suffix, pat, rep)[k - prefix.len()
                        - rep.len()]);
                }
            }
        },
    }
    assert forall|j: int| !occurs_at(t, pat, j) by {
        if occurs_at(t, pat, j) {
            assert(t.subrange(j, j + pat.len() as int)[0] == t[j]);
            assert(t[j] == '{');
        }
    }
}

} // verus!
