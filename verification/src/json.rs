//! A small JSON tree, the common ground of the two wire shapes.

use vstd::prelude::*;

verus! {

/// A parsed JSON value. Strings are the decoded bytes between the quotes;
/// a number is `Int` when it is an integer that fits `i64` and `BigNum`
/// otherwise (such a value can be skipped but not read). Object member
/// lists keep the keys in order of appearance and hold no duplicate key.
#[derive(Debug)]
pub enum Json {
    Null,
    Bool(bool),
    Int(i64),
    BigNum,
    Str(Vec<u8>),
    Arr(Vec<Json>),
    Obj(Vec<(Vec<u8>, Json)>),
}

/// Mathematical image of a `Json` tree.
pub enum JsonView {
    Null,
    Bool(bool),
    Int(int),
    BigNum,
    Str(Seq<u8>),
    Arr(Seq<JsonView>),
    Obj(Seq<(Seq<u8>, JsonView)>),
}

/// Deep view: the tree with every `Vec` replaced by its `Seq`.
pub open spec fn jv(j: Json) -> JsonView
    decreases j, 1int,
{
    match j {
        Json::Null => JsonView::Null,
        Json::Bool(b) => JsonView::Bool(b),
        Json::Int(n) => JsonView::Int(n as int),
        Json::BigNum => JsonView::BigNum,
        Json::Str(s) => JsonView::Str(s@),
        Json::Arr(elts) => JsonView::Arr(jv_seq(elts@)),
        Json::Obj(members) => JsonView::Obj(jv_members(members@)),
    }
}

/// Deep view of an array's element list.
pub open spec fn jv_seq(s: Seq<Json>) -> Seq<JsonView>
    decreases s, 0int,
{
    if s.len() == 0 {
        Seq::empty()
    } else {
        jv_seq(s.subrange(0, s.len() - 1)).push(jv(s[s.len() - 1]))
    }
}

/// Deep view of an object's member list.
pub open spec fn jv_members(s: Seq<(Vec<u8>, Json)>) -> Seq<(Seq<u8>, JsonView)>
    decreases s, 0int,
{
    if s.len() == 0 {
        Seq::empty()
    } else {
        jv_members(s.subrange(0, s.len() - 1)).push(
            (s[s.len() - 1].0@, jv(s[s.len() - 1].1)),
        )
    }
}

/// `jv_seq` is the elementwise image of `jv`.
pub proof fn lemma_jv_seq(s: Seq<Json>)
    ensures
        jv_seq(s).len() == s.len(),
        forall|i: int| 0 <= i < s.len() ==> jv_seq(s)[i] == jv(s[i]),
    decreases s.len(),
{
    if s.len() > 0 {
        lemma_jv_seq(s.subrange(0, s.len() - 1));
    }
}

/// `jv_members` is the elementwise image of the pair view.
pub proof fn lemma_jv_members(s: Seq<(Vec<u8>, Json)>)
    ensures
        jv_members(s).len() == s.len(),
        forall|i: int| 0 <= i < s.len() ==> jv_members(s)[i] == (s[i].0@, jv(s[i].1)),
    decreases s.len(),
{
    if s.len() > 0 {
        lemma_jv_members(s.subrange(0, s.len() - 1));
    }
}

// ---------------------------------------------------------------------------
// The grammar, as spec-level parsing functions over the frame's bytes.
//
// Every function takes the byte sequence and the index it starts reading at,
// and returns what it recognised together with the index just past it, or
// `None` when the text does not match. Lists are built through an
// accumulator so that an executable loop advances the same equation one
// member at a time.
//
// Positions handed to a recursive call go through `clip_range`, which never
// changes a position an honest sub-parse returns (those always move right)
// but makes progress evident to the termination checker.
// ---------------------------------------------------------------------------

/// Insignificant whitespace between tokens.
pub open spec fn is_ws_byte(c: u8) -> bool {
    c == 32 || c == 9 || c == 10 || c == 13
}

pub open spec fn is_digit_byte(c: u8) -> bool {
    48 <= c <= 57
}

/// The byte an escape sequence `\c` stands for, if `c` is a recognised
/// escape. The `\uXXXX` escapes are not part of this grammar: non-ASCII
/// text travels as raw bytes.
pub open spec fn unescape_byte(c: u8) -> Option<u8> {
    if c == 34 {
        Some(34u8)  // "
    } else if c == 92 {
        Some(92u8)  // backslash
    } else if c == 47 {
        Some(47u8)  // /
    } else if c == 98 {
        Some(8u8)  // \b
    } else if c == 102 {
        Some(12u8)  // \f
    } else if c == 110 {
        Some(10u8)  // \n
    } else if c == 114 {
        Some(13u8)  // \r
    } else if c == 116 {
        Some(9u8)  // \t
    } else {
        None
    }
}

/// `x`, clipped into `[lo, hi]`. Positions a recursive parse continues at
/// go through this; an honest sub-parse always returns a position already in
/// the range, so the clip only makes progress evident to the termination
/// checker.
pub open spec fn clip_range(lo: int, hi: int, x: int) -> int {
    if x < lo {
        lo
    } else if x > hi {
        hi
    } else {
        x
    }
}

/// First index at or after `i` that does not hold whitespace.
pub open spec fn sp_ws(s: Seq<u8>, i: int) -> int
    decreases s.len() - i,
{
    if 0 <= i < s.len() && is_ws_byte(s[i]) {
        sp_ws(s, i + 1)
    } else {
        i
    }
}

/// First index at or after `i` that does not hold a decimal digit.
pub open spec fn sp_digits_end(s: Seq<u8>, i: int) -> int
    decreases s.len() - i,
{
    if 0 <= i < s.len() && is_digit_byte(s[i]) {
        sp_digits_end(s, i + 1)
    } else {
        i
    }
}

/// Value of the digit run `s[i..j)`, most significant first.
pub open spec fn dec_val(s: Seq<u8>, i: int, j: int) -> nat
    decreases j - i,
{
    if i >= j {
        0
    } else {
        dec_val(s, i, j - 1) * 10 + (s[j - 1] - 48) as nat
    }
}

/// String body after the opening quote: `acc` holds the bytes decoded so
/// far; the result is the full decoded content and the index just past the
/// closing quote. Control bytes below 0x20 must be escaped; everything else
/// travels raw.
pub open spec fn sp_chars(s: Seq<u8>, i: int, acc: Seq<u8>) -> Option<(Seq<u8>, int)>
    decreases s.len() - i,
{
    if i < 0 || i >= s.len() {
        None
    } else if s[i] == 34 {
        Some((acc, i + 1))
    } else if s[i] == 92 {
        if i + 1 < s.len() {
            match unescape_byte(s[i + 1]) {
                Some(b) => sp_chars(s, i + 2, acc.push(b)),
                None => None,
            }
        } else {
            None
        }
    } else if s[i] >= 32 {
        sp_chars(s, i + 1, acc.push(s[i]))
    } else {
        None
    }
}

/// A string token at `i`: quote, body, quote.
pub open spec fn sp_string(s: Seq<u8>, i: int) -> Option<(Seq<u8>, int)> {
    if 0 <= i < s.len() && s[i] == 34 {
        sp_chars(s, i + 1, Seq::empty())
    } else {
        None
    }
}

/// A number token at `i`. An optional minus, an integer part without a
/// stray leading zero, an optional fraction and an optional exponent. The
/// value is `Int` exactly when the token has neither fraction nor exponent
/// and fits `i64`; any other well-formed number is carried as `BigNum`.
pub open spec fn sp_number(s: Seq<u8>, i: int) -> Option<(JsonView, int)> {
    if 0 <= i < s.len() {
        let neg = s[i] == 45;
        let i1 = if neg {
            i + 1
        } else {
            i
        };
        if i1 < s.len() && is_digit_byte(s[i1]) {
            let int_end = sp_digits_end(s, i1);
            if s[i1] == 48 && int_end != i1 + 1 {
                None
            } else {
                let frac_end = if int_end < s.len() && s[int_end] == 46 {
                    sp_digits_end(s, int_end + 1)
                } else {
                    int_end
                };
                if frac_end == int_end + 1 {
                    // a dot must be followed by at least one digit
                    None
                } else if frac_end < s.len() && (s[frac_end] == 101 || s[frac_end] == 69) {
                    // 'e' | 'E'
                    let es = if frac_end + 1 < s.len() && (s[frac_end + 1] == 43 || s[frac_end + 1]
                        == 45) {
                        frac_end + 2
                    } else {
                        frac_end + 1
                    };
                    let exp_end = sp_digits_end(s, es);
                    if exp_end == es {
                        // an exponent mark must be followed by digits
                        None
                    } else {
                        Some((JsonView::BigNum, exp_end))
                    }
                } else if frac_end == int_end {
                    let v = dec_val(s, i1, int_end);
                    if !neg && v <= 0x7fff_ffff_ffff_ffff {
                        Some((JsonView::Int(v as int), int_end))
                    } else if neg && v <= 0x8000_0000_0000_0000 {
                        Some((JsonView::Int(-(v as int)), int_end))
                    } else {
                        Some((JsonView::BigNum, int_end))
                    }
                } else {
                    Some((JsonView::BigNum, frac_end))
                }
            }
        } else {
            None
        }
    } else {
        None
    }
}

/// Does `ms` already bind key `k`?
pub open spec fn members_has_key(ms: Seq<(Seq<u8>, JsonView)>, k: Seq<u8>) -> bool {
    exists|n: int| 0 <= n < ms.len() && ms[n].0 == k
}

/// A value at `i`: object, array, string, number, or one of the three
/// keywords.
pub open spec fn sp_value(s: Seq<u8>, i: int) -> Option<(JsonView, int)>
    decreases s.len() - i, 1int,
{
    if i < 0 || i >= s.len() {
        None
    } else {
        let c = s[i];
        if c == 123 {
            // '{'
            let k = clip_range(i + 1, s.len() as int, sp_ws(s, i + 1));
            if k < s.len() && s[k] == 125 {
                Some((JsonView::Obj(Seq::empty()), k + 1))
            } else {
                match sp_members(s, k, Seq::empty()) {
                    Some((ms, j)) => Some((JsonView::Obj(ms), j)),
                    None => None,
                }
            }
        } else if c == 91 {
            // '['
            let k = clip_range(i + 1, s.len() as int, sp_ws(s, i + 1));
            if k < s.len() && s[k] == 93 {
                Some((JsonView::Arr(Seq::empty()), k + 1))
            } else {
                match sp_elements(s, k, Seq::empty()) {
                    Some((es, j)) => Some((JsonView::Arr(es), j)),
                    None => None,
                }
            }
        } else if c == 34 {
            match sp_string(s, i) {
                Some((body, j)) => Some((JsonView::Str(body), j)),
                None => None,
            }
        } else if c == 45 || is_digit_byte(c) {
            sp_number(s, i)
        } else if c == 116 {
            // 't'
            if i + 4 <= s.len() && s[i + 1] == 114 && s[i + 2] == 117 && s[i + 3] == 101 {
                Some((JsonView::Bool(true), i + 4))
            } else {
                None
            }
        } else if c == 102 {
            // 'f'
            if i + 5 <= s.len() && s[i + 1] == 97 && s[i + 2] == 108 && s[i + 3] == 115 && s[i + 4]
                == 101 {
                Some((JsonView::Bool(false), i + 5))
            } else {
                None
            }
        } else if c == 110 {
            // 'n'
            if i + 4 <= s.len() && s[i + 1] == 117 && s[i + 2] == 108 && s[i + 3] == 108 {
                Some((JsonView::Null, i + 4))
            } else {
                None
            }
        } else {
            None
        }
    }
}

/// One `"key" : value` member starting at `i`; the result's position is
/// just past the value.
pub open spec fn sp_member(s: Seq<u8>, i: int) -> Option<((Seq<u8>, JsonView), int)>
    decreases s.len() - i, 2int,
{
    match sp_string(s, i) {
        None => None,
        Some((key, j0)) => {
            let j = clip_range(i + 1, s.len() as int, j0);
            let k = clip_range(j, s.len() as int, sp_ws(s, j));
            if k < s.len() && s[k] == 58 {
                // ':'
                let v0 = clip_range(k + 1, s.len() as int, sp_ws(s, k + 1));
                match sp_value(s, v0) {
                    Some((v, e)) => Some(((key, v), e)),
                    None => None,
                }
            } else {
                None
            }
        },
    }
}

/// The members of an object from `i` up to and including the closing brace.
/// `acc` holds the members already read, in order; a key already bound in
/// `acc` makes the whole object ill-formed.
pub open spec fn sp_members(s: Seq<u8>, i: int, acc: Seq<(Seq<u8>, JsonView)>) -> Option<
    (Seq<(Seq<u8>, JsonView)>, int),
>
    decreases s.len() - i, 3int,
{
    match sp_member(s, i) {
        None => None,
        Some((kv, j0)) => {
            if members_has_key(acc, kv.0) {
                None
            } else {
                let acc2 = acc.push(kv);
                let j = clip_range(i + 1, s.len() as int, j0);
                let k = clip_range(j, s.len() as int, sp_ws(s, j));
                if k < s.len() && s[k] == 44 {
                    // ','
                    sp_members(s, clip_range(k + 1, s.len() as int, sp_ws(s, k + 1)), acc2)
                } else if k < s.len() && s[k] == 125 {
                    // '}'
                    Some((acc2, k + 1))
                } else {
                    None
                }
            }
        },
    }
}

/// The elements of an array from `i` up to and including the closing
/// bracket; `acc` holds the elements already read.
pub open spec fn sp_elements(s: Seq<u8>, i: int, acc: Seq<JsonView>) -> Option<
    (Seq<JsonView>, int),
>
    decreases s.len() - i, 2int,
{
    match sp_value(s, i) {
        None => None,
        Some((v, j0)) => {
            let acc2 = acc.push(v);
            let j = clip_range(i + 1, s.len() as int, j0);
            let k = clip_range(j, s.len() as int, sp_ws(s, j));
            if k < s.len() && s[k] == 44 {
                // ','
                sp_elements(s, clip_range(k + 1, s.len() as int, sp_ws(s, k + 1)), acc2)
            } else if k < s.len() && s[k] == 93 {
                // ']'
                Some((acc2, k + 1))
            } else {
                None
            }
        },
    }
}

/// A whole frame: one value, possibly surrounded by whitespace, spanning
/// the text exactly.
pub open spec fn sp_frame(s: Seq<u8>) -> Option<JsonView> {
    match sp_value(s, sp_ws(s, 0)) {
        Some((v, j)) => {
            if sp_ws(s, j) == s.len() {
                Some(v)
            } else {
                None
            }
        },
        None => None,
    }
}

} // verus!
