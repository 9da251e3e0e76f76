//! `${name}` variable substitution.
//!
//! An occurrence is `${` followed by one or more non-`}` characters and a
//! closing `}`. Every occurrence in the text is replaced by the environment's
//! value for the enclosed name, scanning left to right without rescanning
//! replaced text. A missing name does not stop the scan — the remaining
//! occurrences are still replaced, so that every error can be seen — but the
//! whole substitution then fails, reporting the last missing name the scan
//! met.

use vstd::prelude::*;

use crate::vars::Environment;

verus! {

/// Index of the first `}` at or after `k` in `t`; `t.len()` if there is none.
pub open spec fn close_from(t: Seq<char>, k: int) -> int
    decreases t.len() - k,
    when 0 <= k <= t.len()
{
    if k >= t.len() {
        t.len() as int
    } else if t[k] == '}' {
        k
    } else {
        close_from(t, k + 1)
    }
}

pub proof fn lemma_close_from(t: Seq<char>, k: int)
    requires
        0 <= k <= t.len(),
    ensures
        k <= close_from(t, k) <= t.len(),
        close_from(t, k) < t.len() ==> t[close_from(t, k)] == '}',
        forall|m: int| k <= m < close_from(t, k) ==> t[m] != '}',
    decreases t.len() - k,
{
    if k < t.len() && t[k] != '}' {
        lemma_close_from(t, k + 1);
    }
}

/// `close_from` is the only index with these properties, which an
/// executable search establishes.
pub proof fn lemma_close_from_is(t: Seq<char>, k: int, j: int)
    requires
        0 <= k <= j <= t.len(),
        forall|m: int| k <= m < j ==> t[m] != '}',
        j < t.len() ==> t[j] == '}',
    ensures
        close_from(t, k) == j,
    decreases j - k,
{
    if k < j {
        lemma_close_from_is(t, k + 1, j);
    }
}

/// A `${name}` occurrence begins at position `i` of `t`.
pub open spec fn match_at(t: Seq<char>, i: int) -> bool {
    &&& 0 <= i
    &&& i + 1 < t.len()
    &&& t[i] == '$'
    &&& t[i + 1] == '{'
    &&& close_from(t, i + 2) < t.len()
    &&& close_from(t, i + 2) > i + 2
}

/// The name enclosed by the occurrence beginning at `i`.
pub open spec fn name_at(t: Seq<char>, i: int) -> Seq<char> {
    t.subrange(i + 2, close_from(t, i + 2))
}

/// What the text a failed lookup leaves behind looks like.
pub open spec fn missing_marker() -> Seq<char> {
    "#VAR-MISSING#"@
}

/// The outcome of scanning `t` from some position on: the rewritten text,
/// the names of the occurrences met in order, and the last missing name.
pub ghost struct Scan {
    pub out: Seq<char>,
    pub names: Seq<Seq<char>>,
    pub missing: Option<Seq<char>>,
}

/// The substitution scan itself, from position `i` of `t` to the end.
pub open spec fn scan(t: Seq<char>, env: Map<Seq<char>, Seq<char>>, i: int) -> Scan
    decreases t.len() - i,
    when 0 <= i <= t.len()
    via scan_decreases
{
    if i >= t.len() {
        (Scan { out: Seq::empty(), names: Seq::empty(), missing: None })
    } else if match_at(t, i) {
        let name = name_at(t, i);
        let rest = scan(t, env, close_from(t, i + 2) + 1);
        if env.contains_key(name) {
            (Scan {
                out: env[name] + rest.out,
                names: seq![name] + rest.names,
                missing: rest.missing,
            })
        } else {
            (Scan {
                out: missing_marker() + rest.out,
                names: seq![name] + rest.names,
                missing: if rest.missing is Some {
                    rest.missing
                } else {
                    Some(name)
                },
            })
        }
    } else {
        let rest = scan(t, env, i + 1);
        (Scan { out: seq![t[i]] + rest.out, names: rest.names, missing: rest.missing })
    }
}

#[via_fn]
proof fn scan_decreases(t: Seq<char>, env: Map<Seq<char>, Seq<char>>, i: int) {
    if 0 <= i <= t.len() && i < t.len() && match_at(t, i) {
        lemma_close_from(t, i + 2);
    }
}

/// A failed substitution: the last name the scan could not resolve.
#[derive(Debug)]
pub struct SubstError {
    pub name: String,
}

impl SubstError {
    pub fn message(&self) -> (r: String)
        ensures
            r@ == "unknown variable: "@ + self.name@,
    {
        let mut m = "unknown variable: ".to_owned();
        m.append(self.name.as_str());
        m
    }
}

/// Finds the first `}` at or after `start`.
fn find_close(msg: &str, n: usize, start: usize) -> (r: usize)
    requires
        n == msg@.len(),
        start <= n,
    ensures
        r == close_from(msg@, start as int),
{
    let mut j: usize = start;
    while j < n
        invariant
            start <= j <= n,
            n == msg@.len(),
            close_from(msg@, start as int) == close_from(msg@, j as int),
        decreases n - j,
    {
        if msg.get_char(j) == '}' {
            return j;
        }
        j = j + 1;
    }
    j
}

/// Replaces every `${name}` occurrence in `msg` by the environment's value
/// for `name`. If any name is missing the call fails after finishing the
/// scan, reporting the last missing name.
pub fn substitute(msg: &str, env: &Environment) -> (r: Result<String, SubstError>)
    ensures
        match r {
            Ok(out) => out@ == scan(msg@, env@, 0).out && scan(msg@, env@, 0).missing is None,
            Err(e) => scan(msg@, env@, 0).missing == Some(e.name@),
        },
{
    let n = msg.unicode_len();
    let mut out = String::new();
    let mut missing: Option<String> = None;
    let mut i: usize = 0;
    while i < n
        invariant
            i <= n,
            n == msg@.len(),
            scan(msg@, env@, 0).out == out@ + scan(msg@, env@, i as int).out,
            scan(msg@, env@, 0).missing == (if scan(msg@, env@, i as int).missing is Some {
                scan(msg@, env@, i as int).missing
            } else {
                match missing {
                    Some(name) => Some(name@),
                    None => None,
                }
            }),
        decreases n - i,
    {
        let ghost pre_out = out@;
        let c = msg.get_char(i);
        let mut matched: bool = false;
        if c == '$' && i + 1 < n {
            if msg.get_char(i + 1) == '{' {
                let j = find_close(msg, n, i + 2);
                if j < n && j > i + 2 {
                    // a `${name}` occurrence
                    assert(match_at(msg@, i as int));
                    let name = msg.substring_char(i + 2, j).to_owned();
                    assert(name@ == name_at(msg@, i as int));
                    match env.get(&name) {
                        Some(v) => {
                            out.append(v.as_str());
                            proof {
                                assert(pre_out + (env@[name@] + scan(msg@, env@, j + 1).out) =~= (
                                pre_out + env@[name@]) + scan(msg@, env@, j + 1).out);
                            }
                        },
                        None => {
                            out.append("#VAR-MISSING#");
                            missing = Some(name);
                            proof {
                                assert(pre_out + (missing_marker() + scan(
                                    msg@,
                                    env@,
                                    j + 1,
                                ).out) =~= (pre_out + missing_marker()) + scan(
                                    msg@,
                                    env@,
                                    j + 1,
                                ).out);
                            }
                        },
                    }
                    matched = true;
                    i = j + 1;
                } else {
                    assert(!match_at(msg@, i as int));
                }
            } else {
                assert(!match_at(msg@, i as int));
            }
        } else {
            assert(!match_at(msg@, i as int));
        }
        if !matched {
            out.append(msg.substring_char(i, i + 1));
            proof {
                assert(msg@.subrange(i as int, i + 1) =~= seq![msg@[i as int]]);
                assert(pre_out + (seq![msg@[i as int]] + scan(msg@, env@, i + 1).out) =~= (pre_out
                    + seq![msg@[i as int]]) + scan(msg@, env@, i + 1).out);
            }
            i = i + 1;
        }
    }
    proof {
        assert(out@ + scan(msg@, env@, n as int).out =~= out@);
    }
    match missing {
        None => Ok(out),
        Some(name) => Err(SubstError { name }),
    }
}

/// No character of `v` is one of the three delimiter characters.
pub open spec fn no_delims(v: Seq<char>) -> bool {
    forall|m: int| 0 <= m < v.len() ==> v[m] != '$' && v[m] != '{' && v[m] != '}'
}

/// Every bound value is nonempty and free of delimiter characters, so a
/// replacement can never splice a new occurrence together with its
/// surroundings.
pub open spec fn env_values_safe(env: Map<Seq<char>, Seq<char>>) -> bool {
    forall|n: Seq<char>| #[trigger] env.contains_key(n) ==> env[n].len() > 0 && no_delims(env[n])
}

proof fn lemma_close_concat(x: Seq<char>, y: Seq<char>, k: int)
    requires
        x.len() <= k <= x.len() + y.len(),
    ensures
        close_from(x + y, k) == x.len() + close_from(y, k - x.len()),
    decreases x.len() + y.len() - k,
{
    let t = x + y;
    if k < t.len() && t[k] != '}' {
        lemma_close_concat(x, y, k + 1);
    }
}

proof fn lemma_match_concat(x: Seq<char>, y: Seq<char>, p: int)
    requires
        p >= x.len(),
    ensures
        match_at(x + y, p) == match_at(y, p - x.len()),
{
    let t = x + y;
    if p + 1 < t.len() {
        lemma_close_concat(x, y, p + 2);
    }
}

proof fn lemma_close_from_none_later(t: Seq<char>, k: int, m: int)
    requires
        0 <= k <= m <= t.len(),
        close_from(t, k) == t.len(),
    ensures
        close_from(t, m) == t.len(),
{
    lemma_close_from(t, k);
    lemma_close_from(t, m);
    if close_from(t, m) < t.len() {
        assert(t[close_from(t, m)] == '}');
        assert(false);
    }
}

/// A region with no occurrence is copied verbatim.
proof fn lemma_scan_literal(t: Seq<char>, env: Map<Seq<char>, Seq<char>>, k: int)
    requires
        0 <= k <= t.len(),
        forall|m: int| k <= m < t.len() ==> !match_at(t, m),
    ensures
        scan(t, env, k).out == t.subrange(k, t.len() as int),
    decreases t.len() - k,
{
    if k >= t.len() {
        assert(scan(t, env, k).out =~= t.subrange(k, t.len() as int));
    } else {
        lemma_scan_literal(t, env, k + 1);
        assert(scan(t, env, k).out =~= t.subrange(k, t.len() as int));
    }
}

/// When every referenced name is bound, the scan records no missing name.
proof fn lemma_all_present_succeeds(t: Seq<char>, env: Map<Seq<char>, Seq<char>>, i: int)
    requires
        0 <= i <= t.len(),
        forall|k: int|
            0 <= k < scan(t, env, i).names.len() ==> env.contains_key(
                #[trigger] scan(t, env, i).names[k],
            ),
    ensures
        scan(t, env, i).missing is None,
    decreases t.len() - i,
{
    if i >= t.len() {
    } else if match_at(t, i) {
        lemma_close_from(t, i + 2);
        let j = close_from(t, i + 2);
        let rest = scan(t, env, j + 1);
        assert(scan(t, env, i).names[0] == name_at(t, i));
        assert forall|k: int| 0 <= k < rest.names.len() implies env.contains_key(
            #[trigger] rest.names[k],
        ) by {
            assert(scan(t, env, i).names[k + 1] == rest.names[k]);
        }
        lemma_all_present_succeeds(t, env, j + 1);
    } else {
        assert forall|k: int| 0 <= k < scan(t, env, i + 1).names.len() implies env.contains_key(
            #[trigger] scan(t, env, i + 1).names[k],
        ) by {
            assert(scan(t, env, i + 1).names[k] == scan(t, env, i).names[k]);
        }
        lemma_all_present_succeeds(t, env, i + 1);
    }
}

/// The heart of the totality law: with every referenced name bound and every
/// value safe, the rewritten text holds no occurrence at any position.
proof fn lemma_scan_out_clean(t: Seq<char>, env: Map<Seq<char>, Seq<char>>, i: int)
    requires
        0 <= i <= t.len(),
        env_values_safe(env),
        forall|k: int|
            0 <= k < scan(t, env, i).names.len() ==> env.contains_key(
                #[trigger] scan(t, env, i).names[k],
            ),
    ensures
        forall|p: int| !(#[trigger] match_at(scan(t, env, i).out, p)),
    decreases t.len() - i,
{
    let s = scan(t, env, i);
    if i >= t.len() {
        assert(forall|p: int| !(#[trigger] match_at(s.out, p)));
    } else if match_at(t, i) {
        lemma_close_from(t, i + 2);
        let j = close_from(t, i + 2);
        let name = name_at(t, i);
        let rest = scan(t, env, j + 1);
        assert(s.names[0] == name);
        assert(env.contains_key(name));
        let v = env[name];
        assert forall|k: int| 0 <= k < rest.names.len() implies env.contains_key(
            #[trigger] rest.names[k],
        ) by {
            assert(s.names[k + 1] == rest.names[k]);
        }
        lemma_scan_out_clean(t, env, j + 1);
        assert(s.out == v + rest.out);
        assert forall|p: int| !(#[trigger] match_at(s.out, p)) by {
            if 0 <= p < v.len() {
                if match_at(s.out, p) {
                    assert(s.out[p] == v[p]);
                    assert(false);
                }
            } else if p >= v.len() {
                lemma_match_concat(v, rest.out, p);
            }
        }
    } else {
        let rest = scan(t, env, i + 1);
        assert forall|k: int| 0 <= k < scan(t, env, i + 1).names.len() implies env.contains_key(
            #[trigger] scan(t, env, i + 1).names[k],
        ) by {
            assert(scan(t, env, i + 1).names[k] == scan(t, env, i).names[k]);
        }
        lemma_scan_out_clean(t, env, i + 1);
        assert(s.out == seq![t[i]] + rest.out);
        assert forall|p: int| !(#[trigger] match_at(s.out, p)) by {
            if p >= 1 {
                lemma_match_concat(seq![t[i]], rest.out, p);
            } else if p == 0 {
                lemma_literal_head_no_match(t, env, i);
            }
        }
    }
}

/// In the literal step of the scan — no occurrence begins at `i` in `t` —
/// no occurrence can begin at the corresponding position of the output
/// either.
proof fn lemma_literal_head_no_match(t: Seq<char>, env: Map<Seq<char>, Seq<char>>, i: int)
    requires
        0 <= i < t.len(),
        !match_at(t, i),
        env_values_safe(env),
        forall|k: int|
            0 <= k < scan(t, env, i).names.len() ==> env.contains_key(
                #[trigger] scan(t, env, i).names[k],
            ),
    ensures
        !match_at(scan(t, env, i).out, 0),
{
    let s = scan(t, env, i);
    let rest = scan(t, env, i + 1);
    if match_at(s.out, 0) {
        assert(s.out == seq![t[i]] + rest.out);
        assert(s.out[0] == t[i]);
        assert(t[i] == '$');
        assert(s.out.len() > 1);
        assert(rest.out.len() > 0);
        assert(s.out[1] == rest.out[0]);
        if i + 1 >= t.len() {
            assert(false);
        } else if match_at(t, i + 1) {
            lemma_close_from(t, i + 3);
            let name = name_at(t, i + 1);
            assert(rest.names[0] == name);
            assert(scan(t, env, i).names[0] == rest.names[0]);
            assert(env.contains_key(name));
            let v = env[name];
            assert(rest.out == v + scan(t, env, close_from(t, i + 3) + 1).out);
            assert(rest.out[0] == v[0]);
            assert(v[0] != '{');
            assert(false);
        } else {
            assert(rest.out[0] == t[i + 1]);
            assert(t[i + 1] == '{');
            lemma_close_from(t, i + 2);
            let c = close_from(t, i + 2);
            if c < t.len() && c > i + 2 {
                assert(match_at(t, i));
                assert(false);
            } else if c < t.len() {
                // the text reads `${}`: the output repeats it, and an
                // occurrence needs a nonempty name before the first `}`
                assert(c == i + 2);
                assert(t[i + 2] == '}');
                assert(!match_at(t, i + 2));
                let rest2 = scan(t, env, i + 2);
                assert(rest2.out == seq![t[i + 2]] + scan(t, env, i + 3).out);
                assert(s.out[2] == '}');
                assert(close_from(s.out, 2) == 2) by {
                    lemma_close_from_is(s.out, 2, 2);
                }
                assert(false);
            } else {
                // no `}` anywhere after: the tail is copied verbatim and the
                // occurrence beginning at the output's `${` never closes
                assert(c == t.len());
                assert forall|m: int| i + 2 <= m < t.len() implies !match_at(t, m) by {
                    if m + 2 <= t.len() {
                        lemma_close_from_none_later(t, i + 2, m + 2);
                    }
                }
                lemma_scan_literal(t, env, i + 2);
                let tail = t.subrange(i + 2, t.len() as int);
                assert(scan(t, env, i + 2).out == tail);
                assert(rest.out == seq![t[i + 1]] + tail);
                lemma_close_from(s.out, 2);
                let cc = close_from(s.out, 2);
                if cc < s.out.len() {
                    assert(s.out[cc] == '}');
                    assert(s.out[cc] == tail[cc - 2]);
                    assert(tail[cc - 2] == t[i + cc]);
                    lemma_close_from(t, i + 2);
                    assert(false);
                }
                assert(false);
            }
        }
    }
}

/// LAW: an environment that binds every name the text references, with
/// every value nonempty and free of the delimiter characters `$`, `{` and
/// `}`, substitutes the text successfully, and the result holds no
/// `${name}` occurrence. (An empty value, or one holding a delimiter, can
/// splice a new occurrence together with the surrounding text, so such
/// environments are left out.)
pub proof fn lemma_substitution_total(t: Seq<char>, env: Map<Seq<char>, Seq<char>>)
    requires
        env_values_safe(env),
        forall|k: int|
            0 <= k < scan(t, env, 0).names.len() ==> env.contains_key(
                #[trigger] scan(t, env, 0).names[k],
            ),
    ensures
        scan(t, env, 0).missing is None,
        forall|p: int| !(#[trigger] match_at(scan(t, env, 0).out, p)),
{
    lemma_all_present_succeeds(t, env, 0);
    lemma_scan_out_clean(t, env, 0);
}

/// LAW (one half): a failed substitution reports a name that the text
/// references — one of the scanned occurrence names — and that the
/// environment does not bind.
pub proof fn lemma_missing_name_is_referenced(
    t: Seq<char>,
    env: Map<Seq<char>, Seq<char>>,
    i: int,
)
    requires
        0 <= i <= t.len(),
        scan(t, env, i).missing is Some,
    ensures
        scan(t, env, i).names.contains(scan(t, env, i).missing->Some_0),
        !env.contains_key(scan(t, env, i).missing->Some_0),
    decreases t.len() - i,
{
    let s = scan(t, env, i);
    if i >= t.len() {
    } else if match_at(t, i) {
        lemma_close_from(t, i + 2);
        let j = close_from(t, i + 2);
        let name = name_at(t, i);
        let rest = scan(t, env, j + 1);
        if rest.missing is Some {
            lemma_missing_name_is_referenced(t, env, j + 1);
            let k = choose|k: int|
                0 <= k < rest.names.len() && rest.names[k] == rest.missing->Some_0;
            assert(s.names[k + 1] == rest.missing->Some_0);
        } else {
            assert(s.names[0] == name);
        }
    } else {
        lemma_missing_name_is_referenced(t, env, i + 1);
    }
}

/// LAW (other half): a text that references a name the environment does not
/// bind never substitutes successfully.
pub proof fn lemma_missing_reference_fails(
    t: Seq<char>,
    env: Map<Seq<char>, Seq<char>>,
    i: int,
    k: int,
)
    requires
        0 <= i <= t.len(),
        0 <= k < scan(t, env, i).names.len(),
        !env.contains_key(scan(t, env, i).names[k]),
    ensures
        scan(t, env, i).missing is Some,
    decreases t.len() - i,
{
    let s = scan(t, env, i);
    if i >= t.len() {
    } else if match_at(t, i) {
        lemma_close_from(t, i + 2);
        let j = close_from(t, i + 2);
        let rest = scan(t, env, j + 1);
        if k == 0 {
            assert(s.names[0] == name_at(t, i));
        } else {
            assert(s.names[k] == rest.names[k - 1]);
            lemma_missing_reference_fails(t, env, j + 1, k - 1);
        }
    } else {
        lemma_missing_reference_fails(t, env, i + 1, k);
    }
}

} // verus!
