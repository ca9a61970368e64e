//! The executable frame parser, proved equal to the grammar in `json`.

use vstd::prelude::*;

use crate::bytes::bytes_eq;
use crate::json::{
    clip_range, dec_val, is_digit_byte, jv, jv_members, jv_seq, lemma_jv_members, members_has_key,
    sp_chars, sp_digits_end, sp_elements, sp_frame, sp_member, sp_members, sp_number, sp_string,
    sp_value, sp_ws, unescape_byte, Json,
};

verus! {

/// First index at or after `i` without whitespace, as `sp_ws` gives it.
fn skip_ws(s: &Vec<u8>, i: usize) -> (r: usize)
    requires
        i <= s.len(),
    ensures
        r as int == sp_ws(s@, i as int),
        i <= r <= s.len(),
{
    let mut cur: usize = i;
    while cur < s.len() && (s[cur] == 32 || s[cur] == 9 || s[cur] == 10 || s[cur] == 13)
        invariant
            i <= cur <= s.len(),
            sp_ws(s@, i as int) == sp_ws(s@, cur as int),
        decreases s.len() - cur,
    {
        cur += 1;
    }
    cur
}

/// First index at or after `i` without a digit, as `sp_digits_end` gives it.
fn skip_digits(s: &Vec<u8>, i: usize) -> (r: usize)
    requires
        i <= s.len(),
    ensures
        r as int == sp_digits_end(s@, i as int),
        i <= r <= s.len(),
        forall|k: int| i <= k < r ==> is_digit_byte(s@[k]),
        r < s.len() ==> !is_digit_byte(s@[r as int]),
{
    let mut cur: usize = i;
    while cur < s.len() && 48 <= s[cur] && s[cur] <= 57
        invariant
            i <= cur <= s.len(),
            sp_digits_end(s@, i as int) == sp_digits_end(s@, cur as int),
            forall|k: int| i <= k < cur ==> is_digit_byte(s@[k]),
        decreases s.len() - cur,
    {
        cur += 1;
    }
    cur
}

/// Value of the digit run `s[i..j)`, or `None` when it exceeds `u64`.
fn dec_value_of(s: &Vec<u8>, i: usize, j: usize) -> (r: Option<u64>)
    requires
        i <= j <= s.len(),
        forall|k: int| i <= k < j ==> is_digit_byte(s@[k]),
    ensures
        match r {
            Some(v) => v as nat == dec_val(s@, i as int, j as int),
            None => dec_val(s@, i as int, j as int) > u64::MAX,
        },
{
    let mut cur: usize = i;
    let mut acc: u64 = 0;
    let mut big: bool = false;
    while cur < j
        invariant
            i <= cur <= j <= s.len(),
            forall|k: int| i <= k < j ==> is_digit_byte(s@[k]),
            !big ==> acc as nat == dec_val(s@, i as int, cur as int),
            big ==> dec_val(s@, i as int, cur as int) > u64::MAX,
        decreases j - cur,
    {
        let d: u64 = (s[cur] - 48) as u64;
        assert(d <= 9);
        let ghost prev = dec_val(s@, i as int, cur as int);
        assert(dec_val(s@, i as int, cur as int + 1) == prev * 10 + d);
        if big {
            assert(prev * 10 + d > u64::MAX) by (nonlinear_arith)
                requires
                    prev > u64::MAX,
                    d >= 0,
            ;
        } else {
            if acc <= (u64::MAX - d) / 10 {
                assert(acc * 10 + d <= u64::MAX) by (nonlinear_arith)
                    requires
                        acc <= (u64::MAX - d) / 10,
                        0 <= d <= 9,
                ;
                acc = acc * 10 + d;
            } else {
                assert(acc * 10 + d > u64::MAX) by (nonlinear_arith)
                    requires
                        acc > (u64::MAX - d) / 10,
                        0 <= d <= 9,
                ;
                big = true;
            }
        }
        cur += 1;
    }
    if big {
        None
    } else {
        Some(acc)
    }
}

/// The byte an escape stands for, as `unescape_byte` gives it.
fn unescape(c: u8) -> (r: Option<u8>)
    ensures
        r == unescape_byte(c),
{
    if c == 34 {
        Some(34)
    } else if c == 92 {
        Some(92)
    } else if c == 47 {
        Some(47)
    } else if c == 98 {
        Some(8)
    } else if c == 102 {
        Some(12)
    } else if c == 110 {
        Some(10)
    } else if c == 114 {
        Some(13)
    } else if c == 116 {
        Some(9)
    } else {
        None
    }
}

/// A string token at `i`, as `sp_string` gives it.
fn parse_string(s: &Vec<u8>, i: usize) -> (r: Option<(Vec<u8>, usize)>)
    requires
        i <= s.len(),
    ensures
        match r {
            Some(p) => sp_string(s@, i as int) == Some((p.0@, p.1 as int)) && i < p.1 <= s.len(),
            None => sp_string(s@, i as int) is None,
        },
{
    if i >= s.len() || s[i] != 34 {
        return None;
    }
    let mut cur: usize = i + 1;
    let mut acc: Vec<u8> = Vec::new();
    loop
        invariant
            i + 1 <= cur <= s.len(),
            sp_string(s@, i as int) == sp_chars(s@, cur as int, acc@),
        decreases s.len() - cur,
    {
        if cur >= s.len() {
            return None;
        }
        let c = s[cur];
        if c == 34 {
            return Some((acc, cur + 1));
        } else if c == 92 {
            if cur + 1 >= s.len() {
                return None;
            }
            match unescape(s[cur + 1]) {
                Some(b) => {
                    acc.push(b);
                    cur += 2;
                },
                None => {
                    return None;
                },
            }
        } else if c >= 32 {
            acc.push(c);
            cur += 1;
        } else {
            return None;
        }
    }
}

/// A number token at `i`, as `sp_number` gives it.
fn parse_number(s: &Vec<u8>, i: usize) -> (r: Option<(Json, usize)>)
    requires
        i <= s.len(),
    ensures
        match r {
            Some(p) => sp_number(s@, i as int) == Some((jv(p.0), p.1 as int)) && i < p.1 <= s.len(),
            None => sp_number(s@, i as int) is None,
        },
{
    if i >= s.len() {
        return None;
    }
    let neg = s[i] == 45;
    let i1: usize = if neg {
        i + 1
    } else {
        i
    };
    if i1 >= s.len() || s[i1] < 48 || s[i1] > 57 {
        return None;
    }
    let int_end = skip_digits(s, i1);
    assert(int_end > i1) by {
        assert(sp_digits_end(s@, i1 as int) == sp_digits_end(s@, i1 as int + 1));
    }
    if s[i1] == 48 && int_end != i1 + 1 {
        return None;
    }
    let frac_end: usize = if int_end < s.len() && s[int_end] == 46 {
        skip_digits(s, int_end + 1)
    } else {
        int_end
    };
    if frac_end > int_end && frac_end - int_end == 1 {
        return None;
    }
    if frac_end < s.len() && (s[frac_end] == 101 || s[frac_end] == 69) {
        let es: usize = if frac_end + 1 < s.len() && (s[frac_end + 1] == 43 || s[frac_end + 1]
            == 45) {
            frac_end + 2
        } else {
            frac_end + 1
        };
        let exp_end = skip_digits(s, es);
        if exp_end == es {
            return None;
        }
        return Some((Json::BigNum, exp_end));
    }
    if frac_end == int_end {
        match dec_value_of(s, i1, int_end) {
            Some(v) => {
                if !neg && v <= 0x7fff_ffff_ffff_ffff {
                    Some((Json::Int(v as i64), int_end))
                } else if neg && v <= 0x8000_0000_0000_0000 {
                    if v == 0x8000_0000_0000_0000 {
                        Some((Json::Int(i64::MIN), int_end))
                    } else {
                        Some((Json::Int(-(v as i64)), int_end))
                    }
                } else {
                    Some((Json::BigNum, int_end))
                }
            },
            None => Some((Json::BigNum, int_end)),
        }
    } else {
        Some((Json::BigNum, frac_end))
    }
}

/// Does the member list already bind this key?
fn members_have_key(ms: &Vec<(Vec<u8>, Json)>, key: &Vec<u8>) -> (r: bool)
    ensures
        r <==> members_has_key(jv_members(ms@), key@),
{
    proof {
        lemma_jv_members(ms@);
    }
    let mut n: usize = 0;
    while n < ms.len()
        invariant
            n <= ms.len(),
            jv_members(ms@).len() == ms@.len(),
            forall|k: int| 0 <= k < ms@.len() ==> jv_members(ms@)[k] == (ms@[k].0@, jv(ms@[k].1)),
            forall|k: int| 0 <= k < n ==> ms@[k].0@ != key@,
        decreases ms.len() - n,
    {
        if bytes_eq(&ms[n].0, key) {
            assert(jv_members(ms@)[n as int].0 == key@);
            return true;
        }
        n += 1;
    }
    false
}

/// A value at `i`, as `sp_value` gives it.
pub fn parse_value(s: &Vec<u8>, i: usize) -> (r: Option<(Json, usize)>)
    requires
        i <= s.len(),
    ensures
        match r {
            Some(p) => sp_value(s@, i as int) == Some((jv(p.0), p.1 as int)) && i < p.1 <= s.len(),
            None => sp_value(s@, i as int) is None,
        },
    decreases s.len() - i, 1int,
{
    if i >= s.len() {
        return None;
    }
    let c = s[i];
    if c == 123 {
        // '{'
        let k0 = skip_ws(s, i + 1);
        assert(k0 as int == clip_range(i as int + 1, s@.len() as int, sp_ws(s@, i as int + 1)));
        if k0 < s.len() && s[k0] == 125 {
            return Some((Json::Obj(Vec::new()), k0 + 1));
        }
        let mut cur: usize = k0;
        let mut members: Vec<(Vec<u8>, Json)> = Vec::new();
        loop
            invariant
                i + 1 <= cur <= s.len(),
                i < s.len(),
                s@[i as int] == 123,
                !(k0 < s.len() && s@[k0 as int] == 125),
                k0 as int == clip_range(i as int + 1, s@.len() as int, sp_ws(s@, i as int + 1)),
                sp_members(s@, k0 as int, Seq::empty()) == sp_members(
                    s@,
                    cur as int,
                    jv_members(members@),
                ),
            decreases s.len() - cur,
        {
            match parse_member(s, cur) {
                None => {
                    return None;
                },
                Some((kv, j)) => {
                    if members_have_key(&members, &kv.0) {
                        return None;
                    }
                    let ghost old_members = members@;
                    let ghost kv0 = kv.0@;
                    let ghost kv1 = jv(kv.1);
                    members.push(kv);
                    proof {
                        assert(members@.subrange(0, members@.len() - 1) =~= old_members);
                        assert(jv_members(members@) == jv_members(old_members).push((kv0, kv1)));
                    }
                    let k = skip_ws(s, j);
                    if k < s.len() && s[k] == 44 {
                        let next = skip_ws(s, k + 1);
                        assert(next as int == clip_range(
                            k as int + 1,
                            s@.len() as int,
                            sp_ws(s@, k as int + 1),
                        ));
                        assert(k as int == clip_range(
                            clip_range(cur as int + 1, s@.len() as int, j as int),
                            s@.len() as int,
                            sp_ws(s@, clip_range(cur as int + 1, s@.len() as int, j as int)),
                        ));
                        cur = next;
                    } else if k < s.len() && s[k] == 125 {
                        assert(k as int == clip_range(
                            clip_range(cur as int + 1, s@.len() as int, j as int),
                            s@.len() as int,
                            sp_ws(s@, clip_range(cur as int + 1, s@.len() as int, j as int)),
                        ));
                        return Some((Json::Obj(members), k + 1));
                    } else {
                        assert(k as int == clip_range(
                            clip_range(cur as int + 1, s@.len() as int, j as int),
                            s@.len() as int,
                            sp_ws(s@, clip_range(cur as int + 1, s@.len() as int, j as int)),
                        ));
                        return None;
                    }
                },
            }
        }
    } else if c == 91 {
        // '['
        let k0 = skip_ws(s, i + 1);
        assert(k0 as int == clip_range(i as int + 1, s@.len() as int, sp_ws(s@, i as int + 1)));
        if k0 < s.len() && s[k0] == 93 {
            return Some((Json::Arr(Vec::new()), k0 + 1));
        }
        let mut cur: usize = k0;
        let mut elts: Vec<Json> = Vec::new();
        loop
            invariant
                i + 1 <= cur <= s.len(),
                i < s.len(),
                s@[i as int] == 91,
                !(k0 < s.len() && s@[k0 as int] == 93),
                k0 as int == clip_range(i as int + 1, s@.len() as int, sp_ws(s@, i as int + 1)),
                sp_elements(s@, k0 as int, Seq::empty()) == sp_elements(
                    s@,
                    cur as int,
                    jv_seq(elts@),
                ),
            decreases s.len() - cur,
        {
            match parse_value(s, cur) {
                None => {
                    return None;
                },
                Some((v, j)) => {
                    let ghost old_elts = elts@;
                    let ghost v_view = jv(v);
                    elts.push(v);
                    proof {
                        assert(elts@.subrange(0, elts@.len() - 1) =~= old_elts);
                        assert(jv_seq(elts@) == jv_seq(old_elts).push(v_view));
                    }
                    let k = skip_ws(s, j);
                    if k < s.len() && s[k] == 44 {
                        let next = skip_ws(s, k + 1);
                        assert(next as int == clip_range(
                            k as int + 1,
                            s@.len() as int,
                            sp_ws(s@, k as int + 1),
                        ));
                        assert(k as int == clip_range(
                            clip_range(cur as int + 1, s@.len() as int, j as int),
                            s@.len() as int,
                            sp_ws(s@, clip_range(cur as int + 1, s@.len() as int, j as int)),
                        ));
                        cur = next;
                    } else if k < s.len() && s[k] == 93 {
                        assert(k as int == clip_range(
                            clip_range(cur as int + 1, s@.len() as int, j as int),
                            s@.len() as int,
                            sp_ws(s@, clip_range(cur as int + 1, s@.len() as int, j as int)),
                        ));
                        return Some((Json::Arr(elts), k + 1));
                    } else {
                        assert(k as int == clip_range(
                            clip_range(cur as int + 1, s@.len() as int, j as int),
                            s@.len() as int,
                            sp_ws(s@, clip_range(cur as int + 1, s@.len() as int, j as int)),
                        ));
                        return None;
                    }
                },
            }
        }
    } else if c == 34 {
        match parse_string(s, i) {
            Some((body, j)) => Some((Json::Str(body), j)),
            None => None,
        }
    } else if c == 45 || (48 <= c && c <= 57) {
        parse_number(s, i)
    } else if c == 116 {
        // "true"
        if s.len() - i >= 4 && s[i + 1] == 114 && s[i + 2] == 117 && s[i + 3] == 101 {
            Some((Json::Bool(true), i + 4))
        } else {
            None
        }
    } else if c == 102 {
        // "false"
        if s.len() - i >= 5 && s[i + 1] == 97 && s[i + 2] == 108 && s[i + 3] == 115 && s[i + 4]
            == 101 {
            Some((Json::Bool(false), i + 5))
        } else {
            None
        }
    } else if c == 110 {
        // "null"
        if s.len() - i >= 4 && s[i + 1] == 117 && s[i + 2] == 108 && s[i + 3] == 108 {
            Some((Json::Null, i + 4))
        } else {
            None
        }
    } else {
        None
    }
}

/// One `"key" : value` member at `i`, as `sp_member` gives it.
fn parse_member(s: &Vec<u8>, i: usize) -> (r: Option<((Vec<u8>, Json), usize)>)
    requires
        i <= s.len(),
    ensures
        match r {
            Some(p) => sp_member(s@, i as int) == Some((((p.0).0@, jv((p.0).1)), p.1 as int)) && i
                < p.1 <= s.len(),
            None => sp_member(s@, i as int) is None,
        },
    decreases s.len() - i, 2int,
{
    match parse_string(s, i) {
        None => None,
        Some((key, j)) => {
            assert(j as int == clip_range(i as int + 1, s@.len() as int, j as int));
            let k = skip_ws(s, j);
            assert(k as int == clip_range(j as int, s@.len() as int, sp_ws(s@, j as int)));
            if k < s.len() && s[k] == 58 {
                let v0 = skip_ws(s, k + 1);
                assert(v0 as int == clip_range(
                    k as int + 1,
                    s@.len() as int,
                    sp_ws(s@, k as int + 1),
                ));
                match parse_value(s, v0) {
                    Some((v, e)) => Some(((key, v), e)),
                    None => None,
                }
            } else {
                None
            }
        },
    }
}

/// One whole frame, as `sp_frame` gives it: a single value spanning the
/// text, whitespace aside.
pub fn parse_frame(s: &Vec<u8>) -> (r: Option<Json>)
    ensures
        match r {
            Some(v) => sp_frame(s@) == Some(jv(v)),
            None => sp_frame(s@) is None,
        },
{
    let start = skip_ws(s, 0);
    match parse_value(s, start) {
        Some((v, j)) => {
            let e = skip_ws(s, j);
            if e == s.len() {
                Some(v)
            } else {
                None
            }
        },
        None => None,
    }
}

} // verus!
