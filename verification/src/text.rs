//! Small verified text utilities: fixed-pattern replacement and decimal
//! formatting of integers.

use vstd::prelude::*;

verus! {

/// The views of a list of strings.
pub open spec fn string_views(v: Seq<String>) -> Seq<Seq<char>> {
    v.map_values(|s: String| s@)
}

/// The views of a list of key-value string pairs.
pub open spec fn pair_views(v: Seq<(String, String)>) -> Seq<(Seq<char>, Seq<char>)> {
    v.map_values(|p: (String, String)| (p.0@, p.1@))
}

/// The views of a list of rows of strings.
pub open spec fn row_views(v: Seq<Vec<String>>) -> Seq<Seq<Seq<char>>> {
    v.map_values(|r: Vec<String>| string_views(r@))
}

/// `pat` occurs in `t` beginning at position `i`.
pub open spec fn occurs_at(t: Seq<char>, pat: Seq<char>, i: int) -> bool {
    0 <= i && i + pat.len() <= t.len() && t.subrange(i, i + pat.len()) == pat
}

/// `t` from position `i` on, with every occurrence of `pat` replaced by
/// `rep`, scanning left to right without rescanning replaced text.
pub open spec fn replace_from(t: Seq<char>, pat: Seq<char>, rep: Seq<char>, i: int) -> Seq<char>
    decreases t.len() - i,
    when 0 <= i <= t.len() && pat.len() > 0
{
    if i >= t.len() {
        Seq::empty()
    } else if occurs_at(t, pat, i) {
        rep + replace_from(t, pat, rep, i + pat.len())
    } else {
        seq![t[i]] + replace_from(t, pat, rep, i + 1)
    }
}

/// Tests whether `pat` occurs in `t` at position `i`.
fn occurs_at_exec(t: &str, tn: usize, pat: &str, pn: usize, i: usize) -> (r: bool)
    requires
        tn == t@.len(),
        pn == pat@.len(),
        i <= tn,
    ensures
        r == occurs_at(t@, pat@, i as int),
{
    if pn > tn - i {
        proof {
            assert(!occurs_at(t@, pat@, i as int));
        }
        return false;
    }
    let mut k: usize = 0;
    while k < pn
        invariant
            0 <= k <= pn,
            i + pn <= tn,
            tn == t@.len(),
            pn == pat@.len(),
            forall|m: int| 0 <= m < k ==> t@[i + m] == pat@[m],
        decreases pn - k,
    {
        if t.get_char(i + k) != pat.get_char(k) {
            proof {
                assert(t@.subrange(i as int, i + pat@.len())[k as int] != pat@[k as int]);
            }
            return false;
        }
        k = k + 1;
    }
    proof {
        assert(t@.subrange(i as int, i + pat@.len()) =~= pat@);
    }
    true
}

/// Replaces every occurrence of `pat` in `t` by `rep`, left to right,
/// without rescanning replaced text.
pub fn replace_text(t: &str, pat: &str, rep: &str) -> (r: String)
    requires
        pat@.len() > 0,
    ensures
        r@ == replace_from(t@, pat@, rep@, 0),
{
    let tn = t.unicode_len();
    let pn = pat.unicode_len();
    let mut out = String::new();
    let mut i: usize = 0;
    while i < tn
        invariant
            0 <= i <= tn,
            tn == t@.len(),
            pn == pat@.len(),
            pn > 0,
            replace_from(t@, pat@, rep@, 0) == out@ + replace_from(t@, pat@, rep@, i as int),
        decreases tn - i,
    {
        let ghost pre = out@;
        if occurs_at_exec(t, tn, pat, pn, i) {
            out.append(rep);
            proof {
                assert(pre + (rep@ + replace_from(t@, pat@, rep@, i + pat@.len())) =~= (pre + rep@)
                    + replace_from(t@, pat@, rep@, i + pat@.len()));
            }
            i = i + pn;
        } else {
            out.append(t.substring_char(i, i + 1));
            proof {
                assert(t@.subrange(i as int, i + 1) =~= seq![t@[i as int]]);
                assert(pre + (seq![t@[i as int]] + replace_from(t@, pat@, rep@, i + 1)) =~= (pre
                    + seq![t@[i as int]]) + replace_from(t@, pat@, rep@, i + 1));
            }
            i = i + 1;
        }
    }
    proof {
        assert(out@ + replace_from(t@, pat@, rep@, tn as int) =~= out@);
    }
    out
}

/// The decimal digit character for `d`.
pub open spec fn dec_digit(d: int) -> char {
    if d == 0 {
        '0'
    } else if d == 1 {
        '1'
    } else if d == 2 {
        '2'
    } else if d == 3 {
        '3'
    } else if d == 4 {
        '4'
    } else if d == 5 {
        '5'
    } else if d == 6 {
        '6'
    } else if d == 7 {
        '7'
    } else if d == 8 {
        '8'
    } else {
        '9'
    }
}

/// The decimal representation of `n`, most significant digit first, with no
/// leading zero except for `n == 0` itself.
pub open spec fn dec_rep(n: int) -> Seq<char>
    decreases n,
    when n >= 0
{
    if n < 10 {
        seq![dec_digit(n)]
    } else {
        dec_rep(n / 10).push(dec_digit(n % 10))
    }
}

fn digit_str(d: u64) -> (r: &'static str)
    requires
        d < 10,
    ensures
        r@ == seq![dec_digit(d as int)],
{
    if d == 0 {
        proof {
            reveal_strlit("0");
            assert("0"@ =~= seq![dec_digit(0int)]);
        }
        "0"
    } else if d == 1 {
        proof {
            reveal_strlit("1");
            assert("1"@ =~= seq![dec_digit(1int)]);
        }
        "1"
    } else if d == 2 {
        proof {
            reveal_strlit("2");
            assert("2"@ =~= seq![dec_digit(2int)]);
        }
        "2"
    } else if d == 3 {
        proof {
            reveal_strlit("3");
            assert("3"@ =~= seq![dec_digit(3int)]);
        }
        "3"
    } else if d == 4 {
        proof {
            reveal_strlit("4");
            assert("4"@ =~= seq![dec_digit(4int)]);
        }
        "4"
    } else if d == 5 {
        proof {
            reveal_strlit("5");
            assert("5"@ =~= seq![dec_digit(5int)]);
        }
        "5"
    } else if d == 6 {
        proof {
            reveal_strlit("6");
            assert("6"@ =~= seq![dec_digit(6int)]);
        }
        "6"
    } else if d == 7 {
        proof {
            reveal_strlit("7");
            assert("7"@ =~= seq![dec_digit(7int)]);
        }
        "7"
    } else if d == 8 {
        proof {
            reveal_strlit("8");
            assert("8"@ =~= seq![dec_digit(8int)]);
        }
        "8"
    } else {
        proof {
            reveal_strlit("9");
            assert("9"@ =~= seq![dec_digit(9int)]);
        }
        "9"
    }
}

/// Formats `n` in decimal.
pub fn format_u64(n: u64) -> (r: String)
    ensures
        r@ == dec_rep(n as int),
    decreases n,
{
    if n < 10 {
        digit_str(n).to_owned()
    } else {
        let mut s = format_u64(n / 10);
        s.append(digit_str(n % 10));
        proof {
            assert(dec_rep((n / 10) as int) + seq![dec_digit((n % 10) as int)] =~= dec_rep(
                n as int,
            ));
        }
        s
    }
}

} // verus!
