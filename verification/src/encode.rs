//! The JSON encoder for the outbound control frames of the tagged wire
//! shape: the subscribe and location messages and the ping echo.
//!
//! Encoding is partial: a tree carrying a number that could not be read
//! (`BigNum`), or a control byte this grammar has no escape for, has no
//! encoding and yields `None`. The frames the library builds never do.

use vstd::prelude::*;

use crate::bytes::{dec_of_int, i64_to_dec};
use crate::json::{jv, Json, JsonView};

verus! {

/// The encoding of one string byte: the named escapes, the quote and the
/// backslash escaped, other control bytes unencodable, everything else
/// itself.
pub open spec fn esc_byte(c: u8) -> Option<Seq<u8>> {
    if c == 34 {
        Some(seq![92u8, 34u8])
    } else if c == 92 {
        Some(seq![92u8, 92u8])
    } else if c == 8 {
        Some(seq![92u8, 98u8])
    } else if c == 12 {
        Some(seq![92u8, 102u8])
    } else if c == 10 {
        Some(seq![92u8, 110u8])
    } else if c == 13 {
        Some(seq![92u8, 114u8])
    } else if c == 9 {
        Some(seq![92u8, 116u8])
    } else if c < 32 {
        None
    } else {
        Some(seq![c])
    }
}

/// The encoded body of a string from byte `n` on, appended to `acc`.
pub open spec fn sp_enc_str_body(s: Seq<u8>, n: int, acc: Seq<u8>) -> Option<Seq<u8>>
    decreases s.len() - n,
{
    if n < 0 || n >= s.len() {
        Some(acc)
    } else {
        match esc_byte(s[n]) {
            Some(e) => sp_enc_str_body(s, n + 1, acc + e),
            None => None,
        }
    }
}

/// The encoding of a whole string token.
pub open spec fn sp_enc_str(s: Seq<u8>) -> Option<Seq<u8>> {
    match sp_enc_str_body(s, 0, Seq::empty()) {
        Some(b) => Some(seq![34u8] + b + seq![34u8]),
        None => None,
    }
}

/// The encoding of a value.
pub open spec fn sp_enc(v: JsonView) -> Option<Seq<u8>>
    decreases v, 0int,
{
    match v {
        JsonView::Null => Some(seq![110u8, 117u8, 108u8, 108u8]),
        JsonView::Bool(b) => if b {
            Some(seq![116u8, 114u8, 117u8, 101u8])
        } else {
            Some(seq![102u8, 97u8, 108u8, 115u8, 101u8])
        },
        JsonView::Int(n) => Some(dec_of_int(n)),
        JsonView::BigNum => None,
        JsonView::Str(s) => sp_enc_str(s),
        JsonView::Arr(es) => match sp_enc_list(es, 0, seq![91u8]) {
            Some(b) => Some(b + seq![93u8]),
            None => None,
        },
        JsonView::Obj(ms) => match sp_enc_members(ms, 0, seq![123u8]) {
            Some(b) => Some(b + seq![125u8]),
            None => None,
        },
    }
}

/// The encoded elements from `n` on appended to `acc`, comma-separated,
/// without the closing bracket.
pub open spec fn sp_enc_list(es: Seq<JsonView>, n: int, acc: Seq<u8>) -> Option<Seq<u8>>
    decreases es, es.len() - n, 1int,
{
    if n < 0 || n >= es.len() {
        Some(acc)
    } else {
        let sep: Seq<u8> = if n > 0 {
            seq![44u8]
        } else {
            Seq::empty()
        };
        match sp_enc(es[n]) {
            Some(e) => sp_enc_list(es, n + 1, acc + sep + e),
            None => None,
        }
    }
}

/// The encoded members from `n` on appended to `acc`, comma-separated,
/// without the closing brace.
pub open spec fn sp_enc_members(ms: Seq<(Seq<u8>, JsonView)>, n: int, acc: Seq<u8>) -> Option<
    Seq<u8>,
>
    decreases ms, ms.len() - n, 1int,
{
    if n < 0 || n >= ms.len() {
        Some(acc)
    } else {
        let sep: Seq<u8> = if n > 0 {
            seq![44u8]
        } else {
            Seq::empty()
        };
        match sp_enc_str(ms[n].0) {
            Some(k) => match sp_enc(ms[n].1) {
                Some(e) => sp_enc_members(ms, n + 1, acc + sep + k + seq![58u8] + e),
                None => None,
            },
            None => None,
        }
    }
}

/// Append the encoding of one string byte, as `esc_byte` gives it.
fn push_esc_byte(out: &mut Vec<u8>, c: u8) -> (ok: bool)
    ensures
        match esc_byte(c) {
            Some(e) => ok && final(out)@ == old(out)@ + e,
            None => !ok && final(out)@ == old(out)@,
        },
{
    let ghost before = out@;
    if c == 34 {
        out.push(92);
        out.push(34);
        assert(out@ =~= before + seq![92u8, 34u8]);
        true
    } else if c == 92 {
        out.push(92);
        out.push(92);
        assert(out@ =~= before + seq![92u8, 92u8]);
        true
    } else if c == 8 {
        out.push(92);
        out.push(98);
        assert(out@ =~= before + seq![92u8, 98u8]);
        true
    } else if c == 12 {
        out.push(92);
        out.push(102);
        assert(out@ =~= before + seq![92u8, 102u8]);
        true
    } else if c == 10 {
        out.push(92);
        out.push(110);
        assert(out@ =~= before + seq![92u8, 110u8]);
        true
    } else if c == 13 {
        out.push(92);
        out.push(114);
        assert(out@ =~= before + seq![92u8, 114u8]);
        true
    } else if c == 9 {
        out.push(92);
        out.push(116);
        assert(out@ =~= before + seq![92u8, 116u8]);
        true
    } else if c < 32 {
        false
    } else {
        out.push(c);
        assert(out@ =~= before + seq![c]);
        true
    }
}

/// Append the encoding of a whole string token, as `sp_enc_str` gives it.
fn push_enc_str(out: &mut Vec<u8>, s: &Vec<u8>) -> (ok: bool)
    ensures
        match sp_enc_str(s@) {
            Some(e) => ok && final(out)@ == old(out)@ + e,
            None => !ok,
        },
{
    let ghost start = out@;
    out.push(34);
    let mut n: usize = 0;
    let ghost opening = out@;
    while n < s.len()
        invariant
            n <= s.len(),
            opening == start + seq![34u8],
            exists|acc: Seq<u8>|
                out@ == opening + acc && sp_enc_str_body(s@, 0, Seq::empty())
                    == #[trigger] sp_enc_str_body(s@, n as int, acc),
        decreases s.len() - n,
    {
        let ghost acc = choose|acc: Seq<u8>|
            out@ == opening + acc && sp_enc_str_body(s@, 0, Seq::empty()) == sp_enc_str_body(
                s@,
                n as int,
                acc,
            );
        if !push_esc_byte(out, s[n]) {
            return false;
        }
        proof {
            let e = esc_byte(s@[n as int])->0;
            let acc2 = acc + e;
            assert(out@ =~= opening + acc2);
            assert(sp_enc_str_body(s@, 0, Seq::empty()) == sp_enc_str_body(s@, n + 1, acc2));
        }
        n += 1;
    }
    proof {
        let acc = choose|acc: Seq<u8>|
            out@ == opening + acc && sp_enc_str_body(s@, 0, Seq::empty()) == sp_enc_str_body(
                s@,
                n as int,
                acc,
            );
        assert(sp_enc_str_body(s@, n as int, acc) == Some(acc));
    }
    let ghost body = sp_enc_str_body(s@, 0, Seq::empty())->0;
    out.push(34);
    proof {
        assert(out@ =~= start + (seq![34u8] + body + seq![34u8]));
    }
    true
}

/// Append the encoding of a value, as `sp_enc` gives it. When the value
/// has no encoding, what was appended so far is unspecified and the caller
/// discards the buffer.
fn push_enc(out: &mut Vec<u8>, j: &Json) -> (ok: bool)
    ensures
        match sp_enc(jv(*j)) {
            Some(e) => ok && final(out)@ == old(out)@ + e,
            None => !ok,
        },
    decreases *j, 0int,
{
    let ghost start = out@;
    match j {
        Json::Null => {
            out.push(110);
            out.push(117);
            out.push(108);
            out.push(108);
            assert(out@ =~= start + seq![110u8, 117u8, 108u8, 108u8]);
            true
        },
        Json::Bool(b) => {
            if *b {
                out.push(116);
                out.push(114);
                out.push(117);
                out.push(101);
                assert(out@ =~= start + seq![116u8, 114u8, 117u8, 101u8]);
            } else {
                out.push(102);
                out.push(97);
                out.push(108);
                out.push(115);
                out.push(101);
                assert(out@ =~= start + seq![102u8, 97u8, 108u8, 115u8, 101u8]);
            }
            true
        },
        Json::Int(n) => {
            let digits = i64_to_dec(*n);
            let mut i: usize = 0;
            while i < digits.len()
                invariant
                    i <= digits.len(),
                    out@ =~= start + digits@.subrange(0, i as int),
                decreases digits.len() - i,
            {
                out.push(digits[i]);
                i += 1;
            }
            assert(out@ =~= start + digits@);
            true
        },
        Json::BigNum => false,
        Json::Str(s) => push_enc_str(out, s),
        Json::Arr(es) => {
            out.push(91);
            let mut n: usize = 0;
            let ghost esv = crate::json::jv_seq(es@);
            proof {
                crate::json::lemma_jv_seq(es@);
            }
            while n < es.len()
                invariant
                    n <= es.len(),
                    *j == Json::Arr(*es),
                    jv(*j) == JsonView::Arr(esv),
                    esv == crate::json::jv_seq(es@),
                    esv.len() == es@.len(),
                    forall|k: int| 0 <= k < es@.len() ==> esv[k] == jv(es@[k]),
                    exists|acc: Seq<u8>|
                        out@ == start + acc && sp_enc_list(esv, 0, seq![91u8])
                            == #[trigger] sp_enc_list(esv, n as int, acc),
                decreases es.len() - n,
            {
                let ghost acc = choose|acc: Seq<u8>|
                    out@ == start + acc && sp_enc_list(esv, 0, seq![91u8]) == sp_enc_list(
                        esv,
                        n as int,
                        acc,
                    );
                if n > 0 {
                    out.push(44);
                }
                if !push_enc(out, &es[n]) {
                    return false;
                }
                proof {
                    let e = sp_enc(esv[n as int])->0;
                    let sep: Seq<u8> = if n > 0 {
                        seq![44u8]
                    } else {
                        Seq::empty()
                    };
                    let acc2 = acc + sep + e;
                    assert(out@ =~= start + acc2);
                    assert(sp_enc_list(esv, 0, seq![91u8]) == sp_enc_list(esv, n + 1, acc2));
                }
                n += 1;
            }
            proof {
                let acc = choose|acc: Seq<u8>|
                    out@ == start + acc && sp_enc_list(esv, 0, seq![91u8]) == sp_enc_list(
                        esv,
                        n as int,
                        acc,
                    );
                assert(sp_enc_list(esv, n as int, acc) == Some(acc));
            }
            let ghost body = sp_enc_list(esv, 0, seq![91u8])->0;
            out.push(93);
            proof {
                assert(out@ =~= start + (body + seq![93u8]));
            }
            true
        },
        Json::Obj(ms) => {
            out.push(123);
            let mut n: usize = 0;
            let ghost msv = crate::json::jv_members(ms@);
            proof {
                crate::json::lemma_jv_members(ms@);
            }
            while n < ms.len()
                invariant
                    n <= ms.len(),
                    *j == Json::Obj(*ms),
                    jv(*j) == JsonView::Obj(msv),
                    msv == crate::json::jv_members(ms@),
                    msv.len() == ms@.len(),
                    forall|k: int|
                        0 <= k < ms@.len() ==> msv[k] == (ms@[k].0@, jv(ms@[k].1)),
                    exists|acc: Seq<u8>|
                        out@ == start + acc && sp_enc_members(msv, 0, seq![123u8])
                            == #[trigger] sp_enc_members(msv, n as int, acc),
                decreases ms.len() - n,
            {
                let ghost acc = choose|acc: Seq<u8>|
                    out@ == start + acc && sp_enc_members(msv, 0, seq![123u8]) == sp_enc_members(
                        msv,
                        n as int,
                        acc,
                    );
                if n > 0 {
                    out.push(44);
                }
                if !push_enc_str(out, &ms[n].0) {
                    return false;
                }
                out.push(58);
                if !push_enc(out, &ms[n].1) {
                    return false;
                }
                proof {
                    let k = sp_enc_str(msv[n as int].0)->0;
                    let e = sp_enc(msv[n as int].1)->0;
                    let sep: Seq<u8> = if n > 0 {
                        seq![44u8]
                    } else {
                        Seq::empty()
                    };
                    let acc2 = acc + sep + k + seq![58u8] + e;
                    assert(out@ =~= start + acc2);
                    assert(sp_enc_members(msv, 0, seq![123u8]) == sp_enc_members(msv, n + 1, acc2));
                }
                n += 1;
            }
            proof {
                let acc = choose|acc: Seq<u8>|
                    out@ == start + acc && sp_enc_members(msv, 0, seq![123u8]) == sp_enc_members(
                        msv,
                        n as int,
                        acc,
                    );
                assert(sp_enc_members(msv, n as int, acc) == Some(acc));
            }
            let ghost body = sp_enc_members(msv, 0, seq![123u8])->0;
            out.push(125);
            proof {
                assert(out@ =~= start + (body + seq![125u8]));
            }
            true
        },
    }
}

/// The encoding of a value, as `sp_enc` gives it: `None` exactly when the
/// tree carries a number that could not be read or a control byte this
/// grammar cannot escape.
pub fn encode_json(j: &Json) -> (r: Option<Vec<u8>>)
    ensures
        match r {
            Some(b) => sp_enc(jv(*j)) == Some(b@),
            None => sp_enc(jv(*j)) is None,
        },
{
    let mut out: Vec<u8> = Vec::new();
    if push_enc(&mut out, j) {
        Some(out)
    } else {
        None
    }
}

// --------------------------------------------------------------------------
// The outbound control frames of the tagged wire shape.
// --------------------------------------------------------------------------

/// "subscribe"
pub open spec fn tag_subscribe() -> Seq<u8> {
    seq![115u8, 117u8, 98u8, 115u8, 99u8, 114u8, 105u8, 98u8, 101u8]
}

/// "location"
pub open spec fn tag_location() -> Seq<u8> {
    seq![108u8, 111u8, 99u8, 97u8, 116u8, 105u8, 111u8, 110u8]
}

/// The subscribe message: an object tagged `subscribe` carrying the wanted
/// identifiers.
pub open spec fn subscribe_frame_view(ids: Seq<i64>) -> JsonView {
    JsonView::Obj(
        seq![
            (crate::decode::key_message(), JsonView::Str(tag_subscribe())),
            (tag_subscribe(), JsonView::Arr(ids.map_values(|i: i64| JsonView::Int(i as int)))),
        ],
    )
}

/// The location message: an object tagged `location` carrying the text.
pub open spec fn location_frame_view(loc: Seq<u8>) -> JsonView {
    JsonView::Obj(
        seq![
            (crate::decode::key_message(), JsonView::Str(tag_location())),
            (tag_location(), JsonView::Str(loc)),
        ],
    )
}

/// The ping reply: an object tagged `ping` echoing the received payload.
pub open spec fn ping_reply_view(data: JsonView) -> JsonView {
    JsonView::Obj(
        seq![
            (crate::decode::key_message(), JsonView::Str(crate::decode::tag_ping())),
            (crate::decode::key_data(), data),
        ],
    )
}

/// The encoded subscribe frame for these identifiers, as `sp_enc` of
/// `subscribe_frame_view` gives it. (Identifiers always encode; the
/// `Option` mirrors the encoder and is never `None` in practice.)
pub fn make_subscribe_frame(ids: &Vec<i64>) -> (r: Option<Vec<u8>>)
    ensures
        match r {
            Some(b) => sp_enc(subscribe_frame_view(ids@)) == Some(b@),
            None => sp_enc(subscribe_frame_view(ids@)) is None,
        },
{
    let message_key: Vec<u8> = vec![109u8, 101u8, 115u8, 115u8, 97u8, 103u8, 101u8];
    assert(message_key@ =~= crate::decode::key_message());
    let sub_a: Vec<u8> = vec![115u8, 117u8, 98u8, 115u8, 99u8, 114u8, 105u8, 98u8, 101u8];
    let sub_b: Vec<u8> = vec![115u8, 117u8, 98u8, 115u8, 99u8, 114u8, 105u8, 98u8, 101u8];
    let sub_c: Vec<u8> = vec![115u8, 117u8, 98u8, 115u8, 99u8, 114u8, 105u8, 98u8, 101u8];
    assert(sub_a@ =~= tag_subscribe());
    assert(sub_b@ =~= tag_subscribe());
    assert(sub_c@ =~= tag_subscribe());
    let mut elts: Vec<Json> = Vec::new();
    let mut n: usize = 0;
    while n < ids.len()
        invariant
            n <= ids.len(),
            elts@.len() == n as int,
            crate::json::jv_seq(elts@) =~= ids@.subrange(0, n as int).map_values(
                |i: i64| JsonView::Int(i as int),
            ),
        decreases ids.len() - n,
    {
        let ghost old_elts = elts@;
        let ghost prev = crate::json::jv_seq(elts@);
        elts.push(Json::Int(ids[n]));
        proof {
            crate::json::lemma_jv_seq(old_elts);
            crate::json::lemma_jv_seq(elts@);
            assert(crate::json::jv_seq(elts@) =~= prev.push(JsonView::Int(ids@[n as int] as int)));
            assert(crate::json::jv_seq(elts@) =~= ids@.subrange(0, n + 1).map_values(
                |i: i64| JsonView::Int(i as int),
            ));
        }
        n += 1;
    }
    proof {
        assert(ids@.subrange(0, ids@.len() as int) =~= ids@);
    }
    let ghost eltsv = elts@;
    let mut members: Vec<(Vec<u8>, Json)> = Vec::new();
    members.push((message_key, Json::Str(sub_a)));
    members.push((sub_b, Json::Arr(elts)));
    let frame = Json::Obj(members);
    proof {
        let msv = frame->Obj_0@;
        crate::json::lemma_jv_members(msv);
        assert(msv[1].1->Arr_0@ == eltsv);
        assert(jv(msv[1].1) == JsonView::Arr(crate::json::jv_seq(eltsv)));
        assert(crate::json::jv_members(msv) =~= seq![
            (crate::decode::key_message(), JsonView::Str(tag_subscribe())),
            (tag_subscribe(), JsonView::Arr(ids@.map_values(|i: i64| JsonView::Int(i as int)))),
        ]);
        assert(jv(frame) == subscribe_frame_view(ids@));
    }
    encode_json(&frame)
}

/// The encoded location frame for this text, as `sp_enc` of
/// `location_frame_view` gives it: `None` exactly when the text carries a
/// control byte this grammar cannot escape.
pub fn make_location_frame(loc: &Vec<u8>) -> (r: Option<Vec<u8>>)
    ensures
        match r {
            Some(b) => sp_enc(location_frame_view(loc@)) == Some(b@),
            None => sp_enc(location_frame_view(loc@)) is None,
        },
{
    let message_key: Vec<u8> = vec![109u8, 101u8, 115u8, 115u8, 97u8, 103u8, 101u8];
    assert(message_key@ =~= crate::decode::key_message());
    let loc_a: Vec<u8> = vec![108u8, 111u8, 99u8, 97u8, 116u8, 105u8, 111u8, 110u8];
    let loc_b: Vec<u8> = vec![108u8, 111u8, 99u8, 97u8, 116u8, 105u8, 111u8, 110u8];
    assert(loc_a@ =~= tag_location());
    assert(loc_b@ =~= tag_location());
    let mut members: Vec<(Vec<u8>, Json)> = Vec::new();
    members.push((message_key, Json::Str(loc_a)));
    members.push((loc_b, Json::Str(crate::bytes::copy_bytes(loc))));
    let frame = Json::Obj(members);
    proof {
        let msv = frame->Obj_0@;
        crate::json::lemma_jv_members(msv);
        assert(crate::json::jv_members(msv) =~= seq![
            (crate::decode::key_message(), JsonView::Str(tag_location())),
            (tag_location(), JsonView::Str(loc@)),
        ]);
        assert(jv(frame) == location_frame_view(loc@));
    }
    encode_json(&frame)
}

/// The encoded ping reply echoing `data`, as `sp_enc` of `ping_reply_view`
/// gives it: `None` exactly when the payload cannot be encoded.
pub fn make_ping_reply(data: Json) -> (r: Option<Vec<u8>>)
    ensures
        match r {
            Some(b) => sp_enc(ping_reply_view(jv(data))) == Some(b@),
            None => sp_enc(ping_reply_view(jv(data))) is None,
        },
{
    let message_key: Vec<u8> = vec![109u8, 101u8, 115u8, 115u8, 97u8, 103u8, 101u8];
    assert(message_key@ =~= crate::decode::key_message());
    let ping_tag: Vec<u8> = vec![112u8, 105u8, 110u8, 103u8];
    assert(ping_tag@ =~= crate::decode::tag_ping());
    let data_key: Vec<u8> = vec![100u8, 97u8, 116u8, 97u8];
    assert(data_key@ =~= crate::decode::key_data());
    let ghost dv = jv(data);
    let mut members: Vec<(Vec<u8>, Json)> = Vec::new();
    members.push((message_key, Json::Str(ping_tag)));
    members.push((data_key, data));
    let frame = Json::Obj(members);
    proof {
        let msv = frame->Obj_0@;
        crate::json::lemma_jv_members(msv);
        assert(crate::json::jv_members(msv) =~= seq![
            (crate::decode::key_message(), JsonView::Str(crate::decode::tag_ping())),
            (crate::decode::key_data(), dv),
        ]);
        assert(jv(frame) == ping_reply_view(dv));
    }
    encode_json(&frame)
}

} // verus!
