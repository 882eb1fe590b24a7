//! Verified text utilities: character-exact string comparison, substring
//! search, non-overlapping textual replacement, placeholder expansion for
//! format override lines, and decimal rendering of unsigned integers.

use vstd::prelude::*;

verus! {

use vstd::string::*;

/// True exactly when `p` occurs in `t` starting at position `i`.
pub open spec fn match_at(t: Seq<char>, p: Seq<char>, i: int) -> bool {
    0 <= i && i + p.len() <= t.len() && t.subrange(i, i + p.len()) == p
}

/// True exactly when `p` occurs somewhere in `t`.
pub open spec fn contains_seq(t: Seq<char>, p: Seq<char>) -> bool {
    exists|i: int| match_at(t, p, i)
}

/// Character-exact equality of two string slices.
pub fn str_eq(a: &str, b: &str) -> (r: bool)
    ensures
        r == (a@ == b@),
{
    let alen = a.unicode_len();
    let blen = b.unicode_len();
    if alen != blen {
        return false;
    }
    let mut j: usize = 0;
    while j < alen
        invariant
            alen == a@.len(),
            alen == b@.len(),
            0 <= j <= alen,
            forall|k: int| 0 <= k < j ==> a@[k] == b@[k],
        decreases alen - j,
    {
        if a.get_char(j) != b.get_char(j) {
            return false;
        }
        j += 1;
    }
    proof {
        assert(a@ =~= b@);
    }
    true
}

/// Decides `match_at(t@, p@, i)`.
pub fn matches_at(t: &str, p: &str, i: usize) -> (r: bool)
    requires
        i <= t@.len(),
    ensures
        r == match_at(t@, p@, i as int),
{
    let tlen = t.unicode_len();
    let plen = p.unicode_len();
    if plen > tlen - i {
        return false;
    }
    let mut j: usize = 0;
    while j < plen
        invariant
            tlen == t@.len(),
            plen == p@.len(),
            i + plen <= tlen,
            0 <= j <= plen,
            forall|k: int| 0 <= k < j ==> t@[i + k] == p@[k],
        decreases plen - j,
    {
        if t.get_char(i + j) != p.get_char(j) {
            proof {
                if match_at(t@, p@, i as int) {
                    assert(t@.subrange(i as int, i + p@.len())[j as int] == p@[j as int]);
                }
            }
            return false;
        }
        j += 1;
    }
    proof {
        assert(t@.subrange(i as int, i + p@.len()) =~= p@);
    }
    true
}

/// Leftmost, non-overlapping replacement of `p` by `r` in `t`, scanning the
/// original text once from the left; an empty pattern leaves `t` unchanged.
pub open spec fn spec_replace(t: Seq<char>, p: Seq<char>, r: Seq<char>) -> Seq<char>
    decreases t.len(),
{
    if p.len() == 0 || t.len() == 0 {
        t
    } else if match_at(t, p, 0) {
        r + spec_replace(t.skip(p.len() as int), p, r)
    } else {
        seq![t[0]] + spec_replace(t.skip(1), p, r)
    }
}

/// A text without any occurrence of the pattern is returned unchanged.
pub proof fn lemma_replace_no_occurrence(t: Seq<char>, p: Seq<char>, r: Seq<char>)
    requires
        !contains_seq(t, p),
    ensures
        spec_replace(t, p, r) == t,
    decreases t.len(),
{
    if p.len() == 0 || t.len() == 0 {
    } else {
        assert(!match_at(t, p, 0));
        assert forall|i: int| !match_at(t.skip(1), p, i) by {
            if match_at(t.skip(1), p, i) {
                assert(t.subrange(i + 1, i + 1 + p.len()) =~= t.skip(1).subrange(i, i + p.len()));
                assert(match_at(t, p, i + 1));
            }
        }
        lemma_replace_no_occurrence(t.skip(1), p, r);
        assert(seq![t[0]] + t.skip(1) =~= t);
    }
}

/// Replaces every leftmost, non-overlapping occurrence of `p` in `t` by `r`.
pub fn replace_text(t: &str, p: &str, r: &str) -> (res: String)
    ensures
        res@ == spec_replace(t@, p@, r@),
{
    let tlen = t.unicode_len();
    let plen = p.unicode_len();
    if plen == 0 {
        return t.to_owned();
    }
    let mut res = String::new();
    let mut i: usize = 0;
    proof {
        assert(t@.skip(0) =~= t@);
        assert(res@ + spec_replace(t@, p@, r@) =~= spec_replace(t@, p@, r@));
    }
    while i < tlen
        invariant
            tlen == t@.len(),
            plen == p@.len(),
            plen > 0,
            0 <= i <= tlen,
            spec_replace(t@, p@, r@) == res@ + spec_replace(t@.skip(i as int), p@, r@),
        decreases tlen - i,
    {
        let ghost pre = res@;
        if matches_at(t, p, i) {
            res.append(r);
            proof {
                assert(t@.skip(i as int).subrange(0, p@.len() as int) =~= t@.subrange(
                    i as int,
                    i + p@.len(),
                ));
                assert(match_at(t@.skip(i as int), p@, 0));
                assert(t@.skip(i as int).skip(p@.len() as int) =~= t@.skip(i + p@.len()));
                assert(pre + (r@ + spec_replace(t@.skip(i + p@.len()), p@, r@)) =~= res@
                    + spec_replace(t@.skip(i + p@.len()), p@, r@));
            }
            i += plen;
        } else {
            let c = t.substring_char(i, i + 1);
            res.append(c);
            proof {
                if match_at(t@.skip(i as int), p@, 0) {
                    assert(t@.subrange(i as int, i + p@.len()) =~= t@.skip(i as int).subrange(
                        0,
                        p@.len() as int,
                    ));
                    assert(match_at(t@, p@, i as int));
                }
                assert(t@.skip(i as int).skip(1) =~= t@.skip(i as int + 1));
                assert(seq![t@.skip(i as int)[0]] =~= c@);
                assert(pre + (c@ + spec_replace(t@.skip(i as int + 1), p@, r@)) =~= res@
                    + spec_replace(t@.skip(i as int + 1), p@, r@));
            }
            i += 1;
        }
    }
    proof {
        assert(t@.skip(tlen as int) =~= Seq::<char>::empty());
        assert(res@ + spec_replace(Seq::<char>::empty(), p@, r@) =~= res@);
    }
    res
}

/// Expansion of a format override line: `{{` yields `{`, `}}` yields `}`,
/// `{}` yields the value text `v`; all other characters are copied.
pub open spec fn spec_fmt_expand(f: Seq<char>, v: Seq<char>) -> Seq<char>
    decreases f.len(),
{
    if f.len() == 0 {
        Seq::empty()
    } else if f.len() >= 2 && f[0] == '{' && f[1] == '{' {
        seq!['{'] + spec_fmt_expand(f.skip(2), v)
    } else if f.len() >= 2 && f[0] == '}' && f[1] == '}' {
        seq!['}'] + spec_fmt_expand(f.skip(2), v)
    } else if f.len() >= 2 && f[0] == '{' && f[1] == '}' {
        v + spec_fmt_expand(f.skip(2), v)
    } else {
        seq![f[0]] + spec_fmt_expand(f.skip(1), v)
    }
}

/// Number of `{}` value placeholders in a format override line, or `None`
/// when the line holds a stray `{` or `}` that is neither doubled nor part
/// of a placeholder.
pub open spec fn spec_fmt_holes(f: Seq<char>) -> Option<nat>
    decreases f.len(),
{
    if f.len() == 0 {
        Some(0nat)
    } else if f.len() >= 2 && f[0] == '{' && f[1] == '{' {
        spec_fmt_holes(f.skip(2))
    } else if f.len() >= 2 && f[0] == '}' && f[1] == '}' {
        spec_fmt_holes(f.skip(2))
    } else if f.len() >= 2 && f[0] == '{' && f[1] == '}' {
        match spec_fmt_holes(f.skip(2)) {
            Some(n) => Some((n + 1) as nat),
            None => None,
        }
    } else if f[0] == '{' || f[0] == '}' {
        None
    } else {
        spec_fmt_holes(f.skip(1))
    }
}

/// A format override line is usable when it holds exactly one `{}` value
/// placeholder and no stray brace.
pub open spec fn valid_fmt(f: Seq<char>) -> bool {
    spec_fmt_holes(f) == Some(1nat)
}

/// Counts the `{}` placeholders of a format override line; `None` on a
/// stray brace.
pub fn fmt_holes(f: &str) -> (r: Option<usize>)
    ensures
        match r {
            Some(n) => spec_fmt_holes(f@) == Some(n as nat),
            None => spec_fmt_holes(f@) is None,
        },
{
    let flen = f.unicode_len();
    let mut acc: usize = 0;
    let mut i: usize = 0;
    proof {
        assert(f@.skip(0) =~= f@);
    }
    while i < flen
        invariant
            flen == f@.len(),
            0 <= i <= flen,
            acc <= i,
            spec_fmt_holes(f@) == match spec_fmt_holes(f@.skip(i as int)) {
                Some(n) => Some((acc + n) as nat),
                None => None::<nat>,
            },
        decreases flen - i,
    {
        let c0 = f.get_char(i);
        let two = i + 1 < flen;
        let ghost rest = f@.skip(i as int);
        if two && c0 == '{' && f.get_char(i + 1) == '{' {
            proof {
                assert(rest.skip(2) =~= f@.skip(i as int + 2));
            }
            i += 2;
        } else if two && c0 == '}' && f.get_char(i + 1) == '}' {
            proof {
                assert(rest.skip(2) =~= f@.skip(i as int + 2));
            }
            i += 2;
        } else if two && c0 == '{' && f.get_char(i + 1) == '}' {
            proof {
                assert(rest.skip(2) =~= f@.skip(i as int + 2));
            }
            acc += 1;
            i += 2;
        } else if c0 == '{' || c0 == '}' {
            return None;
        } else {
            proof {
                assert(rest.skip(1) =~= f@.skip(i as int + 1));
            }
            i += 1;
        }
    }
    proof {
        assert(f@.skip(flen as int) =~= Seq::<char>::empty());
    }
    Some(acc)
}

/// Expands a format override line, substituting `v` for each `{}`.
pub fn fmt_expand(f: &str, v: &str) -> (res: String)
    ensures
        res@ == spec_fmt_expand(f@, v@),
{
    let flen = f.unicode_len();
    let mut res = String::new();
    let mut i: usize = 0;
    proof {
        assert(f@.skip(0) =~= f@);
        assert(res@ + spec_fmt_expand(f@, v@) =~= spec_fmt_expand(f@, v@));
    }
    while i < flen
        invariant
            flen == f@.len(),
            0 <= i <= flen,
            spec_fmt_expand(f@, v@) == res@ + spec_fmt_expand(f@.skip(i as int), v@),
        decreases flen - i,
    {
        let ghost pre = res@;
        let ghost rest = f@.skip(i as int);
        let c0 = f.get_char(i);
        let two = i + 1 < flen;
        if two && c0 == '{' && f.get_char(i + 1) == '{' {
            res.append("{");
            proof {
                assert(rest.skip(2) =~= f@.skip(i as int + 2));
                assert(seq!['{'] =~= "{"@) by {
                    reveal_strlit("{");
                }
                assert(pre + (seq!['{'] + spec_fmt_expand(f@.skip(i as int + 2), v@)) =~= res@
                    + spec_fmt_expand(f@.skip(i as int + 2), v@));
            }
            i += 2;
        } else if two && c0 == '}' && f.get_char(i + 1) == '}' {
            res.append("}");
            proof {
                assert(rest.skip(2) =~= f@.skip(i as int + 2));
                assert(seq!['}'] =~= "}"@) by {
                    reveal_strlit("}");
                }
                assert(pre + (seq!['}'] + spec_fmt_expand(f@.skip(i as int + 2), v@)) =~= res@
                    + spec_fmt_expand(f@.skip(i as int + 2), v@));
            }
            i += 2;
        } else if two && c0 == '{' && f.get_char(i + 1) == '}' {
            res.append(v);
            proof {
                assert(rest.skip(2) =~= f@.skip(i as int + 2));
                assert(pre + (v@ + spec_fmt_expand(f@.skip(i as int + 2), v@)) =~= res@
                    + spec_fmt_expand(f@.skip(i as int + 2), v@));
            }
            i += 2;
        } else {
            let c = f.substring_char(i, i + 1);
            res.append(c);
            proof {
                assert(rest.skip(1) =~= f@.skip(i as int + 1));
                assert(seq![rest[0]] =~= c@);
                assert(pre + (c@ + spec_fmt_expand(f@.skip(i as int + 1), v@)) =~= res@
                    + spec_fmt_expand(f@.skip(i as int + 1), v@));
            }
            i += 1;
        }
    }
    proof {
        assert(f@.skip(flen as int) =~= Seq::<char>::empty());
        assert(res@ + spec_fmt_expand(Seq::<char>::empty(), v@) =~= res@);
    }
    res
}

/// The decimal digit character for `d`.
pub open spec fn digit_char(d: int) -> char {
    if d == 0 {
        '0'
    } else if d == 1 {
        '1'
    } else if d == 2 {
        '2'
    } else if d == 3 {
        '3'
    } else if d == 4 {
        '4'
    } else if d == 5 {
        '5'
    } else if d == 6 {
        '6'
    } else if d == 7 {
        '7'
    } else if d == 8 {
        '8'
    } else {
        '9'
    }
}

/// Decimal rendering of `n`, most significant digit first, no leading zero
/// except for `n == 0` itself.
pub open spec fn spec_dec(n: nat) -> Seq<char>
    decreases n,
{
    if n < 10 {
        seq![digit_char(n as int)]
    } else {
        spec_dec(n / 10) + seq![digit_char((n % 10) as int)]
    }
}

fn digit_str(d: u64) -> (r: &'static str)
    requires
        d < 10,
    ensures
        r@ == seq![digit_char(d as int)],
{
    let r: &'static str = if d == 0 {
        proof {
            reveal_strlit("0");
        }
        "0"
    } else if d == 1 {
        proof {
            reveal_strlit("1");
        }
        "1"
    } else if d == 2 {
        proof {
            reveal_strlit("2");
        }
        "2"
    } else if d == 3 {
        proof {
            reveal_strlit("3");
        }
        "3"
    } else if d == 4 {
        proof {
            reveal_strlit("4");
        }
        "4"
    } else if d == 5 {
        proof {
            reveal_strlit("5");
        }
        "5"
    } else if d == 6 {
        proof {
            reveal_strlit("6");
        }
        "6"
    } else if d == 7 {
        proof {
            reveal_strlit("7");
        }
        "7"
    } else if d == 8 {
        proof {
            reveal_strlit("8");
        }
        "8"
    } else {
        proof {
            reveal_strlit("9");
        }
        "9"
    };
    proof {
        assert(r@ =~= seq![digit_char(d as int)]);
    }
    r
}

/// Renders `n` in decimal.
pub fn dec_u64(n: u64) -> (res: String)
    ensures
        res@ == spec_dec(n as nat),
    decreases n,
{
    if n < 10 {
        digit_str(n).to_owned()
    } else {
        let mut res = dec_u64(n / 10);
        res.append(digit_str(n % 10));
        proof {
            assert(res@ =~= spec_dec(n as nat));
        }
        res
    }
}

/// Renders `n` in decimal.
pub fn dec_usize(n: usize) -> (res: String)
    ensures
        res@ == spec_dec(n as nat),
{
    dec_u64(n as u64)
}

} // verus!
