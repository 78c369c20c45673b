//! Shell-style expansion of a declared link path: `$VAR`, `${VAR}`,
//! `${VAR:-default}`, a doubled `$$` as a literal dollar, and a leading `~`
//! standing for the home directory.
//!
//! The grammar, over bytes:
//! - `$` followed by a run of name bytes (ASCII letters, digits, `_`) is a
//!   variable reference; an undefined variable is an error.
//! - `${` opens a braced reference, closed by the first `}`.  A `:-` inside
//!   the braces splits it into name and default; an undefined variable with
//!   a default expands to the default.  An unclosed `${` stays literal.
//! - `$$` expands to a single `$`; a `$` followed by anything else stays
//!   literal.
//! - After variable expansion, a leading `~` that is the whole path or is
//!   followed by `/` becomes the home directory — unless the `~` itself came
//!   out of a variable, in which case it stays, and unless no home directory
//!   is known.

use vstd::prelude::*;
use crate::env::{Env, spec_lookup, lookup_var};
use crate::errors::LinkError;
use crate::paths::{SLASH, copy_range};

verus! {

pub const DOLLAR: u8 = 36;
pub const LBRACE: u8 = 123;
pub const RBRACE: u8 = 125;
pub const TILDE: u8 = 126;
pub const UNDERSCORE: u8 = 95;
pub const COLON: u8 = 58;
pub const DASH: u8 = 45;

/// Bytes allowed in a variable name: ASCII letters, digits and underscore.
pub open spec fn is_var_name_byte(b: u8) -> bool {
    (65 <= b <= 90) || (97 <= b <= 122) || (48 <= b <= 57) || b == UNDERSCORE
}

/// Index of the first occurrence of `b`, if any.
pub open spec fn find_byte(s: Seq<u8>, b: u8) -> Option<nat>
    decreases s.len(),
{
    if s.len() == 0 {
        None
    } else if s[0] == b {
        Some(0 as nat)
    } else {
        match find_byte(s.skip(1), b) {
            Some(j) => Some((j + 1) as nat),
            None => None,
        }
    }
}

/// Index of the first `:-` pair, if any.
pub open spec fn find_colon_dash(s: Seq<u8>) -> Option<nat>
    decreases s.len(),
{
    if s.len() < 2 {
        None
    } else if s[0] == COLON && s[1] == DASH {
        Some(0 as nat)
    } else {
        match find_colon_dash(s.skip(1)) {
            Some(j) => Some((j + 1) as nat),
            None => None,
        }
    }
}

/// Length of the leading run of variable-name bytes.
pub open spec fn var_run_len(s: Seq<u8>) -> nat
    decreases s.len(),
{
    if s.len() == 0 || !is_var_name_byte(s[0]) {
        0
    } else {
        (1 + var_run_len(s.skip(1))) as nat
    }
}

pub proof fn lemma_find_byte_props(s: Seq<u8>, b: u8)
    ensures
        match find_byte(s, b) {
            Some(j) => j < s.len() && s[j as int] == b && (forall|k: int| 0 <= k < j ==> s[k] != b),
            None => forall|k: int| 0 <= k < s.len() ==> s[k] != b,
        },
    decreases s.len(),
{
    if s.len() == 0 {
    } else if s[0] == b {
    } else {
        lemma_find_byte_props(s.skip(1), b);
        match find_byte(s.skip(1), b) {
            Some(j) => {
                assert(s[j + 1 as int] == s.skip(1)[j as int]);
                assert forall|k: int| 0 <= k < j + 1 implies s[k] != b by {
                    if k > 0 {
                        assert(s.skip(1)[k - 1] == s[k]);
                    }
                }
            },
            None => {
                assert forall|k: int| 0 <= k < s.len() implies s[k] != b by {
                    if k > 0 {
                        assert(s.skip(1)[k - 1] == s[k]);
                    }
                }
            },
        }
    }
}

pub proof fn lemma_find_byte_char(s: Seq<u8>, b: u8, j: int)
    requires
        0 <= j < s.len(),
        s[j] == b,
        forall|k: int| 0 <= k < j ==> s[k] != b,
    ensures
        find_byte(s, b) == Some(j as nat),
    decreases s.len(),
{
    if j == 0 {
    } else {
        assert forall|k: int| 0 <= k < j - 1 implies s.skip(1)[k] != b by {
            assert(s.skip(1)[k] == s[k + 1]);
        }
        assert(s.skip(1)[j - 1] == s[j]);
        lemma_find_byte_char(s.skip(1), b, j - 1);
    }
}

pub proof fn lemma_find_byte_none(s: Seq<u8>, b: u8)
    requires
        forall|k: int| 0 <= k < s.len() ==> s[k] != b,
    ensures
        find_byte(s, b) is None,
    decreases s.len(),
{
    if s.len() == 0 {
    } else {
        assert forall|k: int| 0 <= k < s.len() - 1 implies s.skip(1)[k] != b by {
            assert(s.skip(1)[k] == s[k + 1]);
        }
        lemma_find_byte_none(s.skip(1), b);
    }
}

pub proof fn lemma_find_colon_dash_char(s: Seq<u8>, j: int)
    requires
        0 <= j,
        j + 2 <= s.len(),
        s[j] == COLON && s[j + 1] == DASH,
        forall|k: int| 0 <= k < j ==> !(#[trigger] s[k] == COLON && s[k + 1] == DASH),
    ensures
        find_colon_dash(s) == Some(j as nat),
    decreases s.len(),
{
    if j == 0 {
    } else {
        assert forall|k: int| 0 <= k < j - 1 implies !(#[trigger] s.skip(1)[k] == COLON && s.skip(1)[k + 1]
            == DASH) by {
            assert(s.skip(1)[k] == s[k + 1]);
            assert(s.skip(1)[k + 1] == s[k + 2]);
        }
        assert(s.skip(1)[j - 1] == s[j]);
        assert(s.skip(1)[j] == s[j + 1]);
        lemma_find_colon_dash_char(s.skip(1), j - 1);
    }
}

pub proof fn lemma_find_colon_dash_none(s: Seq<u8>)
    requires
        forall|k: int| 0 <= k && k + 2 <= s.len() ==> !(#[trigger] s[k] == COLON && s[k + 1] == DASH),
    ensures
        find_colon_dash(s) is None,
    decreases s.len(),
{
    if s.len() < 2 {
    } else {
        assert forall|k: int| 0 <= k && k + 2 <= s.len() - 1 implies !(#[trigger] s.skip(1)[k] == COLON
            && s.skip(1)[k + 1] == DASH) by {
            assert(s.skip(1)[k] == s[k + 1]);
            assert(s.skip(1)[k + 1] == s[k + 2]);
        }
        lemma_find_colon_dash_none(s.skip(1));
    }
}

pub proof fn lemma_var_run_len_char(s: Seq<u8>, n: int)
    requires
        0 <= n <= s.len(),
        forall|k: int| 0 <= k < n ==> is_var_name_byte(s[k]),
        n < s.len() ==> !is_var_name_byte(s[n]),
    ensures
        var_run_len(s) == n,
    decreases s.len(),
{
    if s.len() == 0 || !is_var_name_byte(s[0]) {
        assert(n == 0);
    } else {
        assert forall|k: int| 0 <= k < n - 1 implies is_var_name_byte(s.skip(1)[k]) by {
            assert(s.skip(1)[k] == s[k + 1]);
        }
        if n < s.len() {
            assert(s.skip(1)[n - 1] == s[n]);
        }
        lemma_var_run_len_char(s.skip(1), n - 1);
    }
}

pub proof fn lemma_var_run_len_bound(s: Seq<u8>)
    ensures
        var_run_len(s) <= s.len(),
    decreases s.len(),
{
    if s.len() == 0 || !is_var_name_byte(s[0]) {
    } else {
        lemma_var_run_len_bound(s.skip(1));
    }
}

/// What variable expansion makes of `s` under `vars`: the expanded bytes,
/// or the name of the undefined variable that stopped it.
pub open spec fn spec_env_expand(s: Seq<u8>, vars: Seq<(Vec<u8>, Vec<u8>)>) -> Result<
    Seq<u8>,
    Seq<u8>,
>
    decreases s.len(),
    via spec_env_expand_decreases
{
    if s.len() == 0 {
        Ok(Seq::empty())
    } else if s[0] != DOLLAR {
        match spec_env_expand(s.skip(1), vars) {
            Ok(r) => Ok(seq![s[0]] + r),
            Err(n) => Err(n),
        }
    } else if s.len() >= 2 && s[1] == LBRACE {
        match find_byte(s.skip(2), RBRACE) {
            None => match spec_env_expand(s.skip(2), vars) {
                Ok(r) => Ok(seq![DOLLAR, LBRACE] + r),
                Err(n) => Err(n),
            },
            Some(bl) => {
                let body = s.skip(2).take(bl as int);
                let after = s.skip(3 + bl as int);
                match find_colon_dash(body) {
                    Some(k) => if k != 0 {
                        let name = body.take(k as int);
                        let deflt = body.skip(k + 2 as int);
                        match spec_lookup(vars, name) {
                            Some(v) => match spec_env_expand(after, vars) {
                                Ok(r) => Ok(v + r),
                                Err(n) => Err(n),
                            },
                            None => match spec_env_expand(after, vars) {
                                Ok(r) => Ok(deflt + r),
                                Err(n) => Err(n),
                            },
                        }
                    } else {
                        match spec_lookup(vars, body) {
                            Some(v) => match spec_env_expand(after, vars) {
                                Ok(r) => Ok(v + r),
                                Err(n) => Err(n),
                            },
                            None => Err(body),
                        }
                    },
                    None => match spec_lookup(vars, body) {
                        Some(v) => match spec_env_expand(after, vars) {
                            Ok(r) => Ok(v + r),
                            Err(n) => Err(n),
                        },
                        None => Err(body),
                    },
                }
            },
        }
    } else if s.len() >= 2 && is_var_name_byte(s[1]) {
        let n = var_run_len(s.skip(1));
        let name = s.skip(1).take(n as int);
        match spec_lookup(vars, name) {
            Some(v) => match spec_env_expand(s.skip(1 + n as int), vars) {
                Ok(r) => Ok(v + r),
                Err(e) => Err(e),
            },
            None => Err(name),
        }
    } else if s.len() >= 2 && s[1] == DOLLAR {
        match spec_env_expand(s.skip(2), vars) {
            Ok(r) => Ok(seq![DOLLAR] + r),
            Err(n) => Err(n),
        }
    } else {
        match spec_env_expand(s.skip(1), vars) {
            Ok(r) => Ok(seq![DOLLAR] + r),
            Err(n) => Err(n),
        }
    }
}

#[via_fn]
proof fn spec_env_expand_decreases(s: Seq<u8>, vars: Seq<(Vec<u8>, Vec<u8>)>) {
    if s.len() >= 2 && s[0] == DOLLAR && s[1] == LBRACE {
        lemma_find_byte_props(s.skip(2), RBRACE);
    }
    if s.len() >= 2 && s[0] == DOLLAR && s[1] != LBRACE && is_var_name_byte(s[1]) {
        lemma_var_run_len_bound(s.skip(1));
    }
}

/// What tilde expansion makes of `s`: a leading `~` that is the whole path
/// or is followed by `/` becomes the home directory, when one is known.
pub open spec fn spec_tilde_expand(s: Seq<u8>, home: Option<Vec<u8>>) -> Seq<u8> {
    if s.len() > 0 && s[0] == TILDE && (s.len() == 1 || s[1] == SLASH) {
        match home {
            Some(h) => h@ + s.skip(1),
            None => s,
        }
    } else {
        s
    }
}

/// The full expansion: variables first, then the tilde — except that a
/// tilde produced by a variable at the start of the path stays literal.
pub open spec fn spec_expand(s: Seq<u8>, vars: Seq<(Vec<u8>, Vec<u8>)>, home: Option<Vec<u8>>)
    -> Result<Seq<u8>, Seq<u8>> {
    if find_byte(s, DOLLAR) is None {
        Ok(spec_tilde_expand(s, home))
    } else {
        match spec_env_expand(s, vars) {
            Err(n) => Err(n),
            Ok(e) => if !(s.len() > 0 && s[0] == TILDE) && e.len() > 0 && e[0] == TILDE {
                Ok(e)
            } else {
                Ok(spec_tilde_expand(e, home))
            },
        }
    }
}

/// Appends all of `src` to `out`.
pub fn push_all(out: &mut Vec<u8>, src: &Vec<u8>)
    ensures
        final(out)@ == old(out)@ + src@,
{
    let mut i: usize = 0;
    proof {
        assert(out@ =~= old(out)@ + src@.take(0));
    }
    while i < src.len()
        invariant
            i <= src@.len(),
            out@ == old(out)@ + src@.take(i as int),
        decreases src@.len() - i,
    {
        out.push(src[i]);
        i = i + 1;
        proof {
            assert(out@ =~= old(out)@ + src@.take(i as int));
        }
    }
    proof {
        assert(src@.take(src@.len() as int) =~= src@);
    }
}

fn is_name_byte(b: u8) -> (r: bool)
    ensures
        r == is_var_name_byte(b),
{
    (65 <= b && b <= 90) || (97 <= b && b <= 122) || (48 <= b && b <= 57) || b == UNDERSCORE
}

/// First occurrence of `b` at or after `start`.
fn find_byte_from(s: &Vec<u8>, start: usize, b: u8) -> (r: Option<usize>)
    requires
        start <= s@.len(),
    ensures
        match r {
            Some(j) => start <= j < s@.len() && find_byte(s@.skip(start as int), b) == Some(
                (j - start) as nat,
            ),
            None => find_byte(s@.skip(start as int), b) is None,
        },
{
    let mut j = start;
    while j < s.len()
        invariant
            start <= j <= s@.len(),
            forall|k: int| start <= k < j ==> s@[k] != b,
        decreases s@.len() - j,
    {
        if s[j] == b {
            proof {
                assert(s@.skip(start as int)[(j - start) as int] == b);
                assert forall|k: int| 0 <= k < j - start implies s@.skip(start as int)[k] != b by {
                    assert(s@.skip(start as int)[k] == s@[start + k]);
                }
                lemma_find_byte_char(s@.skip(start as int), b, (j - start) as int);
            }
            return Some(j);
        }
        j = j + 1;
    }
    proof {
        assert forall|k: int| 0 <= k < s@.skip(start as int).len() implies s@.skip(start as int)[k]
            != b by {
            assert(s@.skip(start as int)[k] == s@[start + k]);
        }
        lemma_find_byte_none(s@.skip(start as int), b);
    }
    None
}

/// First `:-` pair inside `s[lo..hi]`, as an absolute index.
fn find_colon_dash_in(s: &Vec<u8>, lo: usize, hi: usize) -> (r: Option<usize>)
    requires
        lo <= hi <= s@.len(),
    ensures
        match r {
            Some(k) => lo <= k && k + 2 <= hi && find_colon_dash(s@.subrange(lo as int, hi as int))
                == Some((k - lo) as nat),
            None => find_colon_dash(s@.subrange(lo as int, hi as int)) is None,
        },
{
    let ghost body = s@.subrange(lo as int, hi as int);
    if hi - lo < 2 {
        proof {
            lemma_find_colon_dash_none(body);
        }
        return None;
    }
    let mut k = lo;
    while k <= hi - 2
        invariant
            lo <= k,
            lo + 2 <= hi <= s@.len(),
            k <= hi,
            body == s@.subrange(lo as int, hi as int),
            forall|j: int| lo <= j && j + 2 <= k + 1 && j + 2 <= hi ==> !(#[trigger] s@[j] == COLON && s@[j
                + 1] == DASH),
        decreases hi - k,
    {
        if s[k] == COLON && s[k + 1] == DASH {
            proof {
                assert(body[(k - lo) as int] == s@[k as int]);
                assert(body[(k - lo) + 1] == s@[k + 1]);
                assert forall|j: int| 0 <= j < k - lo implies !(#[trigger] body[j] == COLON && body[j + 1]
                    == DASH) by {
                    assert(body[j] == s@[lo + j]);
                    assert(body[j + 1] == s@[lo + j + 1]);
                }
                lemma_find_colon_dash_char(body, (k - lo) as int);
            }
            return Some(k);
        }
        k = k + 1;
    }
    proof {
        assert forall|j: int| 0 <= j && j + 2 <= body.len() implies !(#[trigger] body[j] == COLON && body[j
            + 1] == DASH) by {
            assert(body[j] == s@[lo + j]);
            assert(body[j + 1] == s@[lo + j + 1]);
        }
        lemma_find_colon_dash_none(body);
    }
    None
}

/// Variable expansion of `s[i..]`, mirroring `spec_env_expand` byte by byte.
fn env_expand_at(s: &Vec<u8>, i: usize, vars: &Vec<(Vec<u8>, Vec<u8>)>) -> (r: Result<
    Vec<u8>,
    LinkError,
>)
    requires
        i <= s@.len(),
    ensures
        match r {
            Ok(v) => spec_env_expand(s@.skip(i as int), vars@) == Ok::<Seq<u8>, Seq<u8>>(v@),
            Err(e) => e matches LinkError::ExpansionError { var } && spec_env_expand(
                s@.skip(i as int),
                vars@,
            ) == Err::<Seq<u8>, Seq<u8>>(var@),
        },
    decreases s@.len() - i,
{
    let ghost t = s@.skip(i as int);
    if i == s.len() {
        proof {
            assert(t =~= Seq::<u8>::empty());
        }
        return Ok(Vec::new());
    }
    proof {
        assert(t[0] == s@[i as int]);
        if i + 1 < s@.len() {
            assert(t[1] == s@[i + 1]);
        }
    }
    let c = s[i];
    if c != DOLLAR {
        match env_expand_at(s, i + 1, vars) {
            Ok(rest) => {
                let mut out: Vec<u8> = Vec::new();
                out.push(c);
                push_all(&mut out, &rest);
                proof {
                    assert(t.skip(1) =~= s@.skip(i + 1));
                    assert(out@ =~= seq![t[0]] + rest@);
                }
                Ok(out)
            },
            Err(e) => {
                proof {
                    assert(t.skip(1) =~= s@.skip(i + 1));
                }
                Err(e)
            },
        }
    } else if i + 1 < s.len() && s[i + 1] == LBRACE {
        proof {
            assert(t.skip(2) =~= s@.skip(i + 2));
        }
        match find_byte_from(s, i + 2, RBRACE) {
            None => {
                match env_expand_at(s, i + 2, vars) {
                    Ok(rest) => {
                        let mut out: Vec<u8> = Vec::new();
                        out.push(DOLLAR);
                        out.push(LBRACE);
                        push_all(&mut out, &rest);
                        proof {
                            assert(out@ =~= seq![DOLLAR, LBRACE] + rest@);
                        }
                        Ok(out)
                    },
                    Err(e) => Err(e),
                }
            },
            Some(close) => {
                let ghost bl = (close - (i + 2)) as nat;
                let ghost body = t.skip(2).take(bl as int);
                proof {
                    assert(body =~= s@.subrange(i + 2, close as int));
                    assert(t.skip(3 + bl as int) =~= s@.skip(close + 1));
                }
                // Where the name ends and whether a default follows.
                let split = find_colon_dash_in(s, i + 2, close);
                let (name_end, has_default) = match split {
                    Some(k) => if k > i + 2 {
                        (k, true)
                    } else {
                        (close, false)
                    },
                    None => (close, false),
                };
                let name = copy_range(s, i + 2, name_end);
                proof {
                    if has_default {
                        assert(name@ =~= body.take((name_end - (i + 2)) as int));
                    } else {
                        assert(name@ =~= body);
                    }
                }
                match lookup_var(vars, &name) {
                    Some(v) => {
                        let piece = copy_range(v, 0, v.len());
                        proof {
                            assert(piece@ =~= v@);
                        }
                        match env_expand_at(s, close + 1, vars) {
                            Ok(rest) => {
                                let mut out = piece;
                                push_all(&mut out, &rest);
                                proof {
                                    assert(out@ =~= v@ + rest@);
                                }
                                Ok(out)
                            },
                            Err(e) => Err(e),
                        }
                    },
                    None => {
                        if has_default {
                            let deflt = copy_range(s, name_end + 2, close);
                            proof {
                                assert(deflt@ =~= body.skip((name_end - (i + 2)) + 2));
                            }
                            match env_expand_at(s, close + 1, vars) {
                                Ok(rest) => {
                                    let mut out = deflt;
                                    push_all(&mut out, &rest);
                                    proof {
                                        assert(out@ =~= body.skip((name_end - (i + 2)) + 2)
                                            + rest@);
                                    }
                                    Ok(out)
                                },
                                Err(e) => Err(e),
                            }
                        } else {
                            Err(LinkError::ExpansionError { var: name })
                        }
                    },
                }
            },
        }
    } else if i + 1 < s.len() && is_name_byte(s[i + 1]) {
        // Scan the run of name bytes.
        let mut j = i + 1;
        while j < s.len() && is_name_byte(s[j])
            invariant
                i + 1 <= j <= s@.len(),
                forall|k: int| i + 1 <= k < j ==> is_var_name_byte(s@[k]),
            decreases s@.len() - j,
        {
            j = j + 1;
        }
        proof {
            assert(t.skip(1) =~= s@.skip(i + 1));
            assert forall|k: int| 0 <= k < j - (i + 1) implies is_var_name_byte(
                #[trigger] s@.skip(i + 1)[k],
            ) by {
                assert(s@.skip(i + 1)[k] == s@[i + 1 + k]);
            }
            if j < s@.len() {
                assert(s@.skip(i + 1)[(j - (i + 1)) as int] == s@[j as int]);
            }
            lemma_var_run_len_char(s@.skip(i + 1), (j - (i + 1)) as int);
            assert(var_run_len(t.skip(1)) == j - (i + 1));
        }
        let name = copy_range(s, i + 1, j);
        proof {
            let n = var_run_len(t.skip(1));
            assert(name@ =~= t.skip(1).take(n as int));
            assert(t.skip(1 + n as int) =~= s@.skip(j as int));
        }
        match lookup_var(vars, &name) {
            Some(v) => {
                let piece = copy_range(v, 0, v.len());
                proof {
                    assert(piece@ =~= v@);
                }
                match env_expand_at(s, j, vars) {
                    Ok(rest) => {
                        let mut out = piece;
                        push_all(&mut out, &rest);
                        proof {
                            assert(out@ =~= v@ + rest@);
                        }
                        Ok(out)
                    },
                    Err(e) => Err(e),
                }
            },
            None => Err(LinkError::ExpansionError { var: name }),
        }
    } else if i + 1 < s.len() && s[i + 1] == DOLLAR {
        proof {
            assert(t.skip(2) =~= s@.skip(i + 2));
        }
        match env_expand_at(s, i + 2, vars) {
            Ok(rest) => {
                let mut out: Vec<u8> = Vec::new();
                out.push(DOLLAR);
                push_all(&mut out, &rest);
                proof {
                    assert(out@ =~= seq![DOLLAR] + rest@);
                }
                Ok(out)
            },
            Err(e) => Err(e),
        }
    } else {
        proof {
            assert(t.skip(1) =~= s@.skip(i + 1));
        }
        match env_expand_at(s, i + 1, vars) {
            Ok(rest) => {
                let mut out: Vec<u8> = Vec::new();
                out.push(DOLLAR);
                push_all(&mut out, &rest);
                proof {
                    assert(out@ =~= seq![DOLLAR] + rest@);
                }
                Ok(out)
            },
            Err(e) => Err(e),
        }
    }
}

/// Tilde expansion on already variable-expanded bytes.
fn tilde_expand(s: &Vec<u8>, home: &Option<Vec<u8>>) -> (r: Vec<u8>)
    ensures
        r@ == spec_tilde_expand(s@, *home),
{
    if s.len() > 0 && s[0] == TILDE && (s.len() == 1 || s[1] == SLASH) {
        match home {
            Some(h) => {
                let mut out = copy_range(h, 0, h.len());
                let rest = copy_range(s, 1, s.len());
                proof {
                    assert(out@ =~= h@);
                    assert(rest@ =~= s@.skip(1));
                }
                push_all(&mut out, &rest);
                out
            },
            None => {
                let out = copy_range(s, 0, s.len());
                proof {
                    assert(out@ =~= s@);
                }
                out
            },
        }
    } else {
        let out = copy_range(s, 0, s.len());
        proof {
            assert(out@ =~= s@);
        }
        out
    }
}

/// The path to install the symlink at, with all variables and a leading
/// tilde expanded.
///
/// Fails with `ExpansionError`, naming the variable, exactly when the path
/// references a variable that `env` does not define (and no default is
/// given for it).
pub fn expand_link_file(link: &Vec<u8>, env: &Env) -> (r: Result<Vec<u8>, LinkError>)
    ensures
        match r {
            Ok(v) => spec_expand(link@, env.vars@, env.home) == Ok::<Seq<u8>, Seq<u8>>(v@),
            Err(e) => e matches LinkError::ExpansionError { var } && spec_expand(
                link@,
                env.vars@,
                env.home,
            ) == Err::<Seq<u8>, Seq<u8>>(var@),
        },
{
    match find_byte_from(link, 0, DOLLAR) {
        None => {
            proof {
                assert(link@.skip(0) =~= link@);
            }
            Ok(tilde_expand(link, &env.home))
        },
        Some(_) => {
            proof {
                assert(link@.skip(0) =~= link@);
            }
            match env_expand_at(link, 0, &env.vars) {
                Ok(e) => {
                    if !(link.len() > 0 && link[0] == TILDE) && e.len() > 0 && e[0] == TILDE {
                        Ok(e)
                    } else {
                        Ok(tilde_expand(&e, &env.home))
                    }
                },
                Err(er) => Err(er),
            }
        },
    }
}

} // verus!
