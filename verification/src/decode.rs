//! The feed decoder: a raw frame becomes one normalized store operation.
//!
//! A frame is attempted as a full snapshot first and, only when that shape
//! does not fit, as an incremental update; a frame that fits neither shape
//! is reported with both failures and must not tear the connection down.
//! Unknown object members are ignored, as the feed is free to add fields.

use vstd::prelude::*;

use crate::bytes::{bytes_eq, copy_bytes};
use crate::errors::{DecodeError, MessageParsingError, MessageParsingErrorView};
use crate::json::{jv, jv_members, jv_seq, lemma_jv_members, lemma_jv_seq, sp_frame, Json, JsonView};
use crate::model::{
    lobbies_view, FollowUpView, Lobby, LobbyView, Slot, SlotView,
    WebsocketMessageReceiveAllCurrentLobbies, WebsocketMessageReceiveFollowUp,
};
use crate::parse::parse_frame;

verus! {

// --------------------------------------------------------------------------
// The field names the two wire shapes use, as byte strings.
// --------------------------------------------------------------------------

/// "allcurrentlobbies"
pub open spec fn key_allcurrentlobbies() -> Seq<u8> {
    seq![97u8, 108u8, 108u8, 99u8, 117u8, 114u8, 114u8, 101u8, 110u8, 116u8, 108u8, 111u8, 98u8, 98u8, 105u8, 101u8, 115u8]
}

/// "updatedlobbies"
pub open spec fn key_updatedlobbies() -> Seq<u8> {
    seq![117u8, 112u8, 100u8, 97u8, 116u8, 101u8, 100u8, 108u8, 111u8, 98u8, 98u8, 105u8, 101u8, 115u8]
}

/// "deletedlobbies"
pub open spec fn key_deletedlobbies() -> Seq<u8> {
    seq![100u8, 101u8, 108u8, 101u8, 116u8, 101u8, 100u8, 108u8, 111u8, 98u8, 98u8, 105u8, 101u8, 115u8]
}

/// "maxplayers"
pub open spec fn key_maxplayers() -> Seq<u8> {
    seq![109u8, 97u8, 120u8, 112u8, 108u8, 97u8, 121u8, 101u8, 114u8, 115u8]
}

/// "relayserver_region"
pub open spec fn key_relayserver_region() -> Seq<u8> {
    seq![114u8, 101u8, 108u8, 97u8, 121u8, 115u8, 101u8, 114u8, 118u8, 101u8, 114u8, 95u8, 114u8, 101u8, 103u8, 105u8, 111u8, 110u8]
}

/// "lobbyid"
pub open spec fn key_lobbyid() -> Seq<u8> {
    seq![108u8, 111u8, 98u8, 98u8, 121u8, 105u8, 100u8]
}

/// "slotstaken"
pub open spec fn key_slotstaken() -> Seq<u8> {
    seq![115u8, 108u8, 111u8, 116u8, 115u8, 116u8, 97u8, 107u8, 101u8, 110u8]
}

/// "slotstotal"
pub open spec fn key_slotstotal() -> Seq<u8> {
    seq![115u8, 108u8, 111u8, 116u8, 115u8, 116u8, 111u8, 116u8, 97u8, 108u8]
}

/// "slot"
pub open spec fn key_slot() -> Seq<u8> {
    seq![115u8, 108u8, 111u8, 116u8]
}

/// "color"
pub open spec fn key_color() -> Seq<u8> {
    seq![99u8, 111u8, 108u8, 111u8, 114u8]
}

/// "team"
pub open spec fn key_team() -> Seq<u8> {
    seq![116u8, 101u8, 97u8, 109u8]
}

/// "civ"
pub open spec fn key_civ() -> Seq<u8> {
    seq![99u8, 105u8, 118u8]
}

/// "name"
pub open spec fn key_name() -> Seq<u8> {
    seq![110u8, 97u8, 109u8, 101u8]
}

/// "message"
pub open spec fn key_message() -> Seq<u8> {
    seq![109u8, 101u8, 115u8, 115u8, 97u8, 103u8, 101u8]
}

/// "data"
pub open spec fn key_data() -> Seq<u8> {
    seq![100u8, 97u8, 116u8, 97u8]
}

/// "ping"
pub open spec fn tag_ping() -> Seq<u8> {
    seq![112u8, 105u8, 110u8, 103u8]
}

/// "lobbies"
pub open spec fn tag_lobbies() -> Seq<u8> {
    seq![108u8, 111u8, 98u8, 98u8, 105u8, 101u8, 115u8]
}

// --------------------------------------------------------------------------
// Reading one field out of an object's member list.
// --------------------------------------------------------------------------

/// The value bound to `k` in the members from position `n` on, if any.
pub open spec fn obj_get_from(ms: Seq<(Seq<u8>, JsonView)>, k: Seq<u8>, n: int) -> Option<JsonView>
    decreases ms.len() - n,
{
    if n < 0 || n >= ms.len() {
        None
    } else if ms[n].0 == k {
        Some(ms[n].1)
    } else {
        obj_get_from(ms, k, n + 1)
    }
}

/// The value bound to `k`, if any.
pub open spec fn obj_get(ms: Seq<(Seq<u8>, JsonView)>, k: Seq<u8>) -> Option<JsonView> {
    obj_get_from(ms, k, 0)
}

/// Find the member bound to `key`, as `obj_get` gives it.
fn obj_find<'a>(ms: &'a Vec<(Vec<u8>, Json)>, key: &Vec<u8>) -> (r: Option<&'a Json>)
    ensures
        match r {
            Some(j) => obj_get(jv_members(ms@), key@) == Some(jv(*j)),
            None => obj_get(jv_members(ms@), key@) is None,
        },
{
    proof {
        lemma_jv_members(ms@);
    }
    let mut n: usize = 0;
    while n < ms.len()
        invariant
            n <= ms.len(),
            jv_members(ms@).len() == ms@.len(),
            forall|k: int| 0 <= k < ms@.len() ==> jv_members(ms@)[k] == (ms@[k].0@, jv(ms@[k].1)),
            obj_get(jv_members(ms@), key@) == obj_get_from(jv_members(ms@), key@, n as int),
        decreases ms.len() - n,
    {
        if bytes_eq(&ms[n].0, key) {
            return Some(&ms[n].1);
        }
        n += 1;
    }
    None
}

// --------------------------------------------------------------------------
// Typed extraction, one layer per record shape.
// --------------------------------------------------------------------------

/// A JSON string read as bytes.
pub open spec fn xv_bytes(v: JsonView) -> Option<Seq<u8>> {
    match v {
        JsonView::Str(s) => Some(s),
        _ => None,
    }
}

/// A JSON integer read as `i64`.
pub open spec fn xv_int(v: JsonView) -> Option<i64> {
    match v {
        JsonView::Int(n) => if i64::MIN <= n <= i64::MAX {
            Some(n as i64)
        } else {
            None
        },
        _ => None,
    }
}

/// An optional string field: absent or `null` both read as `None`, a
/// string reads as `Some`, anything else does not fit.
pub open spec fn xv_opt_bytes_field(ms: Seq<(Seq<u8>, JsonView)>, k: Seq<u8>) -> Option<
    Option<Seq<u8>>,
> {
    match obj_get(ms, k) {
        None => Some(None),
        Some(v) => match v {
            JsonView::Null => Some(None),
            JsonView::Str(s) => Some(Some(s)),
            _ => None,
        },
    }
}

/// One slot record.
pub open spec fn xv_slot(v: JsonView) -> Option<SlotView> {
    match v {
        JsonView::Obj(ms) => match (obj_get(ms, key_color()), obj_get(ms, key_civ())) {
            (Some(cv), Some(civv)) => match (
                xv_bytes(cv),
                xv_bytes(civv),
                xv_opt_bytes_field(ms, key_team()),
                xv_opt_bytes_field(ms, key_name()),
            ) {
                (Some(color), Some(civ), Some(team), Some(name)) => Some(
                    SlotView { color, team, civ, name },
                ),
                _ => None,
            },
            _ => None,
        },
        _ => None,
    }
}

/// The slot table of a lobby: every member must be a slot record; `acc`
/// holds the slots already read, keyed as the feed keyed them.
pub open spec fn xv_slots(
    ms: Seq<(Seq<u8>, JsonView)>,
    n: int,
    acc: Seq<(Seq<u8>, SlotView)>,
) -> Option<Seq<(Seq<u8>, SlotView)>>
    decreases ms.len() - n,
{
    if n < 0 || n > ms.len() {
        None
    } else if n == ms.len() {
        Some(acc)
    } else {
        match xv_slot(ms[n].1) {
            Some(sl) => xv_slots(ms, n + 1, acc.push((ms[n].0, sl))),
            None => None,
        }
    }
}

/// One lobby record.
pub open spec fn xv_lobby(v: JsonView) -> Option<LobbyView> {
    match v {
        JsonView::Obj(ms) => match (
            obj_get(ms, key_maxplayers()),
            obj_get(ms, key_relayserver_region()),
            obj_get(ms, key_lobbyid()),
            obj_get(ms, key_slotstaken()),
            obj_get(ms, key_slotstotal()),
            obj_get(ms, key_slot()),
        ) {
            (Some(mpv), Some(rgv), Some(idv), Some(stv), Some(tov), Some(slv)) => match (
                xv_int(mpv),
                xv_bytes(rgv),
                xv_int(idv),
                xv_int(stv),
                xv_int(tov),
            ) {
                (Some(mp), Some(rg), Some(id), Some(st), Some(to)) => match slv {
                    JsonView::Obj(sms) => match xv_slots(sms, 0, Seq::empty()) {
                        Some(slots) => Some(
                            LobbyView {
                                maxplayers: mp as int,
                                relayserver_region: rg,
                                lobbyid: id as int,
                                slotstaken: st as int,
                                slotstotal: to as int,
                                slot: slots,
                            },
                        ),
                        None => None,
                    },
                    _ => None,
                },
                _ => None,
            },
            _ => None,
        },
        _ => None,
    }
}

/// A lobby table: every member must be a lobby record, keyed by the feed's
/// identifier; `acc` holds the records already read.
pub open spec fn xv_lobbies(
    ms: Seq<(Seq<u8>, JsonView)>,
    n: int,
    acc: Seq<(Seq<u8>, LobbyView)>,
) -> Option<Seq<(Seq<u8>, LobbyView)>>
    decreases ms.len() - n,
{
    if n < 0 || n > ms.len() {
        None
    } else if n == ms.len() {
        Some(acc)
    } else {
        match xv_lobby(ms[n].1) {
            Some(lb) => xv_lobbies(ms, n + 1, acc.push((ms[n].0, lb))),
            None => None,
        }
    }
}

/// A full-snapshot message: an object whose `allcurrentlobbies` member is a
/// lobby table.
pub open spec fn xv_snapshot(v: JsonView) -> Option<Seq<(Seq<u8>, LobbyView)>> {
    match v {
        JsonView::Obj(ms) => match obj_get(ms, key_allcurrentlobbies()) {
            Some(tv) => match tv {
                JsonView::Obj(lms) => xv_lobbies(lms, 0, Seq::empty()),
                _ => None,
            },
            _ => None,
        },
        _ => None,
    }
}

/// The deleted identifiers of an incremental message: an array of integers.
pub open spec fn xv_ids(es: Seq<JsonView>, n: int, acc: Seq<i64>) -> Option<Seq<i64>>
    decreases es.len() - n,
{
    if n < 0 || n > es.len() {
        None
    } else if n == es.len() {
        Some(acc)
    } else {
        match xv_int(es[n]) {
            Some(id) => xv_ids(es, n + 1, acc.push(id)),
            None => None,
        }
    }
}

/// An incremental message: an object with a `deletedlobbies` array of
/// identifiers and an `updatedlobbies` lobby table.
pub open spec fn xv_followup(v: JsonView) -> Option<FollowUpView> {
    match v {
        JsonView::Obj(ms) => match (
            obj_get(ms, key_deletedlobbies()),
            obj_get(ms, key_updatedlobbies()),
        ) {
            (Some(dv), Some(uv)) => match (dv, uv) {
                (JsonView::Arr(des), JsonView::Obj(ums)) => match (
                    xv_ids(des, 0, Seq::empty()),
                    xv_lobbies(ums, 0, Seq::empty()),
                ) {
                    (Some(d), Some(u)) => Some(
                        FollowUpView { deletedlobbies: d, updatedlobbies: u },
                    ),
                    _ => None,
                },
                _ => None,
            },
            _ => None,
        },
        _ => None,
    }
}

// --------------------------------------------------------------------------
// The decoded operation and the decode itself.
// --------------------------------------------------------------------------

/// The normalized operation one frame stands for.
#[derive(Debug)]
pub enum FeedOp {
    /// Replace the whole store with these records.
    FullSnapshot(WebsocketMessageReceiveAllCurrentLobbies),
    /// Overwrite and delete the named records.
    Incremental(WebsocketMessageReceiveFollowUp),
    /// Neither shape fits: both failures, full snapshot's first.
    Unrecognized(MessageParsingError),
}

/// Mathematical image of a `FeedOp`.
pub enum FeedOpView {
    FullSnapshot(Seq<(Seq<u8>, LobbyView)>),
    Incremental(FollowUpView),
    Unrecognized(MessageParsingErrorView),
}

impl View for FeedOp {
    type V = FeedOpView;

    open spec fn view(&self) -> FeedOpView {
        match self {
            FeedOp::FullSnapshot(m) => FeedOpView::FullSnapshot(m@),
            FeedOp::Incremental(m) => FeedOpView::Incremental(m@),
            FeedOp::Unrecognized(e) => FeedOpView::Unrecognized(e@),
        }
    }
}

/// What decoding the frame `s` yields: the snapshot shape is attempted
/// first, the incremental shape only on its failure, and a frame fitting
/// neither is reported with both failures.
pub open spec fn sp_decode(s: Seq<u8>) -> FeedOpView {
    match sp_frame(s) {
        None => FeedOpView::Unrecognized(
            MessageParsingErrorView {
                message: s,
                error_parsing_all_messages: DecodeError::InvalidJson,
                error_parsing_followup_message: DecodeError::InvalidJson,
            },
        ),
        Some(v) => match xv_snapshot(v) {
            Some(tbl) => FeedOpView::FullSnapshot(tbl),
            None => match xv_followup(v) {
                Some(f) => FeedOpView::Incremental(f),
                None => FeedOpView::Unrecognized(
                    MessageParsingErrorView {
                        message: s,
                        error_parsing_all_messages: DecodeError::WrongShape,
                        error_parsing_followup_message: DecodeError::WrongShape,
                    },
                ),
            },
        },
    }
}

/// The tagged wire shape's operations: a `ping` must be echoed on the
/// write path and never mutates the store; a `lobbies` message is always a
/// full replacement list.
#[derive(Debug)]
pub enum TaggedOp {
    /// Echo this payload back in a ping reply.
    Ping(Json),
    /// Replace the whole store with these records.
    FullSnapshot(WebsocketMessageReceiveAllCurrentLobbies),
    /// The frame does not fit the tagged shape.
    Unrecognized(DecodeError),
}

/// Mathematical image of a `TaggedOp`.
pub enum TaggedOpView {
    Ping(JsonView),
    FullSnapshot(Seq<(Seq<u8>, LobbyView)>),
    Unrecognized(DecodeError),
}

impl View for TaggedOp {
    type V = TaggedOpView;

    open spec fn view(&self) -> TaggedOpView {
        match self {
            TaggedOp::Ping(d) => TaggedOpView::Ping(jv(*d)),
            TaggedOp::FullSnapshot(m) => TaggedOpView::FullSnapshot(m@),
            TaggedOp::Unrecognized(e) => TaggedOpView::Unrecognized(*e),
        }
    }
}

/// What decoding the frame `s` under the tagged wire shape yields: an
/// object whose `message` is `ping` hands its `data` back for the echo; one
/// whose `message` is `lobbies` carries a full replacement table in `data`;
/// anything else does not fit the shape.
pub open spec fn sp_decode_tagged(s: Seq<u8>) -> TaggedOpView {
    match sp_frame(s) {
        None => TaggedOpView::Unrecognized(DecodeError::InvalidJson),
        Some(v) => match v {
            JsonView::Obj(ms) => match obj_get(ms, key_message()) {
                Some(tagv) => match tagv {
                    JsonView::Str(tag) => if tag == tag_ping() {
                        match obj_get(ms, key_data()) {
                            Some(d) => TaggedOpView::Ping(d),
                            None => TaggedOpView::Unrecognized(DecodeError::WrongShape),
                        }
                    } else if tag == tag_lobbies() {
                        match obj_get(ms, key_data()) {
                            Some(dv) => match dv {
                                JsonView::Obj(lms) => match xv_lobbies(lms, 0, Seq::empty()) {
                                    Some(tbl) => TaggedOpView::FullSnapshot(tbl),
                                    None => TaggedOpView::Unrecognized(DecodeError::WrongShape),
                                },
                                _ => TaggedOpView::Unrecognized(DecodeError::WrongShape),
                            },
                            None => TaggedOpView::Unrecognized(DecodeError::WrongShape),
                        }
                    } else {
                        TaggedOpView::Unrecognized(DecodeError::WrongShape)
                    },
                    _ => TaggedOpView::Unrecognized(DecodeError::WrongShape),
                },
                None => TaggedOpView::Unrecognized(DecodeError::WrongShape),
            },
            _ => TaggedOpView::Unrecognized(DecodeError::WrongShape),
        },
    }
}

/// First position of `key` among the members, with the value `obj_get`
/// hands out standing there.
fn obj_find_index(ms: &Vec<(Vec<u8>, Json)>, key: &Vec<u8>) -> (r: Option<usize>)
    ensures
        match r {
            Some(i) => (i as int) < ms@.len() && ms@[i as int].0@ == key@ && obj_get(
                jv_members(ms@),
                key@,
            ) == Some(jv(ms@[i as int].1)),
            None => obj_get(jv_members(ms@), key@) is None,
        },
{
    proof {
        lemma_jv_members(ms@);
    }
    let mut n: usize = 0;
    while n < ms.len()
        invariant
            n <= ms.len(),
            jv_members(ms@).len() == ms@.len(),
            forall|k: int| 0 <= k < ms@.len() ==> jv_members(ms@)[k] == (ms@[k].0@, jv(ms@[k].1)),
            obj_get(jv_members(ms@), key@) == obj_get_from(jv_members(ms@), key@, n as int),
        decreases ms.len() - n,
    {
        if bytes_eq(&ms[n].0, key) {
            return Some(n);
        }
        n += 1;
    }
    None
}

/// Decode one raw frame under the tagged wire shape, exactly as
/// `sp_decode_tagged` states it.
pub fn decode_frame_tagged(frame: &Vec<u8>) -> (r: TaggedOp)
    ensures
        r@ == sp_decode_tagged(frame@),
{
    let message_key: Vec<u8> = vec![109u8, 101u8, 115u8, 115u8, 97u8, 103u8, 101u8];
    assert(message_key@ =~= key_message());
    let data_key: Vec<u8> = vec![100u8, 97u8, 116u8, 97u8];
    assert(data_key@ =~= key_data());
    let ping_tag: Vec<u8> = vec![112u8, 105u8, 110u8, 103u8];
    assert(ping_tag@ =~= tag_ping());
    let lobbies_tag: Vec<u8> = vec![108u8, 111u8, 98u8, 98u8, 105u8, 101u8, 115u8];
    assert(lobbies_tag@ =~= tag_lobbies());
    match parse_frame(frame) {
        None => TaggedOp::Unrecognized(DecodeError::InvalidJson),
        Some(v) => match v {
            Json::Obj(mut ms) => {
                let is_ping: bool;
                match obj_find(&ms, &message_key) {
                    Some(tj) => match tj {
                        Json::Str(tag) => {
                            if bytes_eq(tag, &ping_tag) {
                                is_ping = true;
                            } else if bytes_eq(tag, &lobbies_tag) {
                                is_ping = false;
                            } else {
                                return TaggedOp::Unrecognized(DecodeError::WrongShape);
                            }
                        },
                        _ => {
                            return TaggedOp::Unrecognized(DecodeError::WrongShape);
                        },
                    },
                    None => {
                        return TaggedOp::Unrecognized(DecodeError::WrongShape);
                    },
                }
                match obj_find_index(&ms, &data_key) {
                    Some(i) => {
                        if is_ping {
                            let pair = ms.remove(i);
                            TaggedOp::Ping(pair.1)
                        } else {
                            match &ms[i].1 {
                                Json::Obj(lms) => match extract_lobby_table(lms) {
                                    Some(tbl) => TaggedOp::FullSnapshot(
                                        WebsocketMessageReceiveAllCurrentLobbies {
                                            allcurrentlobbies: tbl,
                                        },
                                    ),
                                    None => TaggedOp::Unrecognized(DecodeError::WrongShape),
                                },
                                _ => TaggedOp::Unrecognized(DecodeError::WrongShape),
                            }
                        }
                    },
                    None => TaggedOp::Unrecognized(DecodeError::WrongShape),
                }
            },
            _ => TaggedOp::Unrecognized(DecodeError::WrongShape),
        },
    }
}

/// An exact copy of one byte-string key, for lookups.
fn key_vec(k: u8) -> (r: Vec<u8>)
    requires
        k < 13,
    ensures
        k == 0 ==> r@ == key_allcurrentlobbies(),
        k == 1 ==> r@ == key_updatedlobbies(),
        k == 2 ==> r@ == key_deletedlobbies(),
        k == 3 ==> r@ == key_maxplayers(),
        k == 4 ==> r@ == key_relayserver_region(),
        k == 5 ==> r@ == key_lobbyid(),
        k == 6 ==> r@ == key_slotstaken(),
        k == 7 ==> r@ == key_slotstotal(),
        k == 8 ==> r@ == key_slot(),
        k == 9 ==> r@ == key_color(),
        k == 10 ==> r@ == key_team(),
        k == 11 ==> r@ == key_civ(),
        k == 12 ==> r@ == key_name(),
{
    if k == 0 {
        let r = vec![97u8, 108u8, 108u8, 99u8, 117u8, 114u8, 114u8, 101u8, 110u8, 116u8, 108u8, 111u8, 98u8, 98u8, 105u8, 101u8, 115u8];
        assert(r@ =~= key_allcurrentlobbies());
        r
    } else if k == 1 {
        let r = vec![117u8, 112u8, 100u8, 97u8, 116u8, 101u8, 100u8, 108u8, 111u8, 98u8, 98u8, 105u8, 101u8, 115u8];
        assert(r@ =~= key_updatedlobbies());
        r
    } else if k == 2 {
        let r = vec![100u8, 101u8, 108u8, 101u8, 116u8, 101u8, 100u8, 108u8, 111u8, 98u8, 98u8, 105u8, 101u8, 115u8];
        assert(r@ =~= key_deletedlobbies());
        r
    } else if k == 3 {
        let r = vec![109u8, 97u8, 120u8, 112u8, 108u8, 97u8, 121u8, 101u8, 114u8, 115u8];
        assert(r@ =~= key_maxplayers());
        r
    } else if k == 4 {
        let r = vec![114u8, 101u8, 108u8, 97u8, 121u8, 115u8, 101u8, 114u8, 118u8, 101u8, 114u8, 95u8, 114u8, 101u8, 103u8, 105u8, 111u8, 110u8];
        assert(r@ =~= key_relayserver_region());
        r
    } else if k == 5 {
        let r = vec![108u8, 111u8, 98u8, 98u8, 121u8, 105u8, 100u8];
        assert(r@ =~= key_lobbyid());
        r
    } else if k == 6 {
        let r = vec![115u8, 108u8, 111u8, 116u8, 115u8, 116u8, 97u8, 107u8, 101u8, 110u8];
        assert(r@ =~= key_slotstaken());
        r
    } else if k == 7 {
        let r = vec![115u8, 108u8, 111u8, 116u8, 115u8, 116u8, 111u8, 116u8, 97u8, 108u8];
        assert(r@ =~= key_slotstotal());
        r
    } else if k == 8 {
        let r = vec![115u8, 108u8, 111u8, 116u8];
        assert(r@ =~= key_slot());
        r
    } else if k == 9 {
        let r = vec![99u8, 111u8, 108u8, 111u8, 114u8];
        assert(r@ =~= key_color());
        r
    } else if k == 10 {
        let r = vec![116u8, 101u8, 97u8, 109u8];
        assert(r@ =~= key_team());
        r
    } else if k == 11 {
        let r = vec![99u8, 105u8, 118u8];
        assert(r@ =~= key_civ());
        r
    } else {
        let r = vec![110u8, 97u8, 109u8, 101u8];
        assert(r@ =~= key_name());
        r
    }
}

/// An optional string field of `ms`, as `xv_opt_bytes_field` gives it.
fn extract_opt_bytes_field(ms: &Vec<(Vec<u8>, Json)>, key: &Vec<u8>) -> (r: Option<
    Option<Vec<u8>>,
>)
    ensures
        match r {
            Some(o) => xv_opt_bytes_field(jv_members(ms@), key@) == Some(
                crate::model::opt_bytes_view(o),
            ),
            None => xv_opt_bytes_field(jv_members(ms@), key@) is None,
        },
{
    match obj_find(ms, key) {
        None => Some(None),
        Some(j) => match j {
            Json::Null => Some(None),
            Json::Str(s) => Some(Some(copy_bytes(s))),
            _ => None,
        },
    }
}

/// One slot record, as `xv_slot` gives it.
fn extract_slot(j: &Json) -> (r: Option<Slot>)
    ensures
        match r {
            Some(sl) => xv_slot(jv(*j)) == Some(sl@),
            None => xv_slot(jv(*j)) is None,
        },
{
    match j {
        Json::Obj(ms) => {
            let color = match obj_find(ms, &key_vec(9)) {
                Some(cj) => match cj {
                    Json::Str(s) => copy_bytes(s),
                    _ => {
                        return None;
                    },
                },
                None => {
                    return None;
                },
            };
            let civ = match obj_find(ms, &key_vec(11)) {
                Some(cj) => match cj {
                    Json::Str(s) => copy_bytes(s),
                    _ => {
                        return None;
                    },
                },
                None => {
                    return None;
                },
            };
            let team = match extract_opt_bytes_field(ms, &key_vec(10)) {
                Some(t) => t,
                None => {
                    return None;
                },
            };
            let name = match extract_opt_bytes_field(ms, &key_vec(12)) {
                Some(t) => t,
                None => {
                    return None;
                },
            };
            Some(Slot { color, team, civ, name })
        },
        _ => None,
    }
}

/// The slot table of a lobby, as `xv_slots` gives it.
fn extract_slots(ms: &Vec<(Vec<u8>, Json)>) -> (r: Option<Vec<(Vec<u8>, Slot)>>)
    ensures
        match r {
            Some(sv) => xv_slots(jv_members(ms@), 0, Seq::empty()) == Some(
                sv@.map_values(|p: (Vec<u8>, Slot)| (p.0@, p.1@)),
            ),
            None => xv_slots(jv_members(ms@), 0, Seq::empty()) is None,
        },
{
    proof {
        lemma_jv_members(ms@);
    }
    let mut out: Vec<(Vec<u8>, Slot)> = Vec::new();
    assert(out@.map_values(|p: (Vec<u8>, Slot)| (p.0@, p.1@)) =~= Seq::<(Seq<u8>,
        SlotView,
    )>::empty());
    let mut n: usize = 0;
    while n < ms.len()
        invariant
            n <= ms.len(),
            jv_members(ms@).len() == ms@.len(),
            forall|k: int| 0 <= k < ms@.len() ==> jv_members(ms@)[k] == (ms@[k].0@, jv(ms@[k].1)),
            xv_slots(jv_members(ms@), 0, Seq::empty()) == xv_slots(
                jv_members(ms@),
                n as int,
                out@.map_values(|p: (Vec<u8>, Slot)| (p.0@, p.1@)),
            ),
        decreases ms.len() - n,
    {
        match extract_slot(&ms[n].1) {
            Some(sl) => {
                let ghost old_view = out@.map_values(|p: (Vec<u8>, Slot)| (p.0@, p.1@));
                let ghost slv = sl@;
                let key = copy_bytes(&ms[n].0);
                out.push((key, sl));
                proof {
                    assert(out@.map_values(|p: (Vec<u8>, Slot)| (p.0@, p.1@)) =~= old_view.push(
                        (ms@[n as int].0@, slv),
                    ));
                }
            },
            None => {
                return None;
            },
        }
        n += 1;
    }
    Some(out)
}

/// A JSON integer, as `xv_int` gives it.
fn extract_int(j: &Json) -> (r: Option<i64>)
    ensures
        match r {
            Some(n) => xv_int(jv(*j)) == Some(n),
            None => xv_int(jv(*j)) is None,
        },
{
    match j {
        Json::Int(n) => Some(*n),
        _ => None,
    }
}

/// One lobby record, as `xv_lobby` gives it.
fn extract_lobby(j: &Json) -> (r: Option<Lobby>)
    ensures
        match r {
            Some(lb) => xv_lobby(jv(*j)) == Some(lb@),
            None => xv_lobby(jv(*j)) is None,
        },
{
    match j {
        Json::Obj(ms) => {
            let maxplayers = match obj_find(ms, &key_vec(3)) {
                Some(v) => match extract_int(v) {
                    Some(n) => n,
                    None => {
                        return None;
                    },
                },
                None => {
                    return None;
                },
            };
            let relayserver_region = match obj_find(ms, &key_vec(4)) {
                Some(v) => match v {
                    Json::Str(s) => copy_bytes(s),
                    _ => {
                        return None;
                    },
                },
                None => {
                    return None;
                },
            };
            let lobbyid = match obj_find(ms, &key_vec(5)) {
                Some(v) => match extract_int(v) {
                    Some(n) => n,
                    None => {
                        return None;
                    },
                },
                None => {
                    return None;
                },
            };
            let slotstaken = match obj_find(ms, &key_vec(6)) {
                Some(v) => match extract_int(v) {
                    Some(n) => n,
                    None => {
                        return None;
                    },
                },
                None => {
                    return None;
                },
            };
            let slotstotal = match obj_find(ms, &key_vec(7)) {
                Some(v) => match extract_int(v) {
                    Some(n) => n,
                    None => {
                        return None;
                    },
                },
                None => {
                    return None;
                },
            };
            let slot = match obj_find(ms, &key_vec(8)) {
                Some(v) => match v {
                    Json::Obj(sms) => match extract_slots(sms) {
                        Some(sv) => sv,
                        None => {
                            return None;
                        },
                    },
                    _ => {
                        return None;
                    },
                },
                None => {
                    return None;
                },
            };
            Some(Lobby { maxplayers, relayserver_region, lobbyid, slotstaken, slotstotal, slot })
        },
        _ => None,
    }
}

/// A lobby table, as `xv_lobbies` gives it.
fn extract_lobby_table(ms: &Vec<(Vec<u8>, Json)>) -> (r: Option<Vec<(Vec<u8>, Lobby)>>)
    ensures
        match r {
            Some(lv) => xv_lobbies(jv_members(ms@), 0, Seq::empty()) == Some(lobbies_view(lv@)),
            None => xv_lobbies(jv_members(ms@), 0, Seq::empty()) is None,
        },
{
    proof {
        lemma_jv_members(ms@);
    }
    let mut out: Vec<(Vec<u8>, Lobby)> = Vec::new();
    assert(lobbies_view(out@) =~= Seq::<(Seq<u8>, LobbyView)>::empty());
    let mut n: usize = 0;
    while n < ms.len()
        invariant
            n <= ms.len(),
            jv_members(ms@).len() == ms@.len(),
            forall|k: int| 0 <= k < ms@.len() ==> jv_members(ms@)[k] == (ms@[k].0@, jv(ms@[k].1)),
            xv_lobbies(jv_members(ms@), 0, Seq::empty()) == xv_lobbies(
                jv_members(ms@),
                n as int,
                lobbies_view(out@),
            ),
        decreases ms.len() - n,
    {
        match extract_lobby(&ms[n].1) {
            Some(lb) => {
                let ghost old_view = lobbies_view(out@);
                let ghost lbv = lb@;
                let key = copy_bytes(&ms[n].0);
                out.push((key, lb));
                proof {
                    assert(lobbies_view(out@) =~= old_view.push((ms@[n as int].0@, lbv)));
                }
            },
            None => {
                return None;
            },
        }
        n += 1;
    }
    Some(out)
}

/// The identifiers of an array, as `xv_ids` gives it.
fn extract_ids(es: &Vec<Json>) -> (r: Option<Vec<i64>>)
    ensures
        match r {
            Some(ids) => xv_ids(jv_seq(es@), 0, Seq::empty()) == Some(ids@),
            None => xv_ids(jv_seq(es@), 0, Seq::empty()) is None,
        },
{
    proof {
        lemma_jv_seq(es@);
    }
    let mut out: Vec<i64> = Vec::new();
    assert(out@ =~= Seq::<i64>::empty());
    let mut n: usize = 0;
    while n < es.len()
        invariant
            n <= es.len(),
            jv_seq(es@).len() == es@.len(),
            forall|k: int| 0 <= k < es@.len() ==> jv_seq(es@)[k] == jv(es@[k]),
            xv_ids(jv_seq(es@), 0, Seq::empty()) == xv_ids(jv_seq(es@), n as int, out@),
        decreases es.len() - n,
    {
        match extract_int(&es[n]) {
            Some(id) => {
                out.push(id);
            },
            None => {
                return None;
            },
        }
        n += 1;
    }
    Some(out)
}

/// A full-snapshot message, as `xv_snapshot` gives it.
fn extract_snapshot(j: &Json) -> (r: Option<WebsocketMessageReceiveAllCurrentLobbies>)
    ensures
        match r {
            Some(m) => xv_snapshot(jv(*j)) == Some(m@),
            None => xv_snapshot(jv(*j)) is None,
        },
{
    match j {
        Json::Obj(ms) => match obj_find(ms, &key_vec(0)) {
            Some(tv) => match tv {
                Json::Obj(lms) => match extract_lobby_table(lms) {
                    Some(tbl) => Some(
                        WebsocketMessageReceiveAllCurrentLobbies { allcurrentlobbies: tbl },
                    ),
                    None => None,
                },
                _ => None,
            },
            None => None,
        },
        _ => None,
    }
}

/// An incremental message, as `xv_followup` gives it.
fn extract_followup(j: &Json) -> (r: Option<WebsocketMessageReceiveFollowUp>)
    ensures
        match r {
            Some(m) => xv_followup(jv(*j)) == Some(m@),
            None => xv_followup(jv(*j)) is None,
        },
{
    match j {
        Json::Obj(ms) => {
            let deleted = match obj_find(ms, &key_vec(2)) {
                Some(dv) => match dv {
                    Json::Arr(des) => des,
                    _ => {
                        return None;
                    },
                },
                None => {
                    return None;
                },
            };
            let updated = match obj_find(ms, &key_vec(1)) {
                Some(uv) => match uv {
                    Json::Obj(ums) => ums,
                    _ => {
                        return None;
                    },
                },
                None => {
                    return None;
                },
            };
            match extract_ids(deleted) {
                Some(ids) => match extract_lobby_table(updated) {
                    Some(tbl) => Some(
                        WebsocketMessageReceiveFollowUp {
                            deletedlobbies: ids,
                            updatedlobbies: tbl,
                        },
                    ),
                    None => None,
                },
                None => None,
            }
        },
        _ => None,
    }
}

/// Decode one raw frame into the operation it stands for, the snapshot
/// shape attempted first, exactly as `sp_decode` states it. A frame that
/// fits neither shape is returned as `Unrecognized`, never an abort: a bad
/// message must not tear the connection down.
pub fn decode_frame(frame: &Vec<u8>) -> (r: FeedOp)
    ensures
        r@ == sp_decode(frame@),
{
    match parse_frame(frame) {
        None => FeedOp::Unrecognized(
            MessageParsingError {
                message: copy_bytes(frame),
                error_parsing_all_messages: DecodeError::InvalidJson,
                error_parsing_followup_message: DecodeError::InvalidJson,
            },
        ),
        Some(v) => match extract_snapshot(&v) {
            Some(m) => FeedOp::FullSnapshot(m),
            None => match extract_followup(&v) {
                Some(m) => FeedOp::Incremental(m),
                None => FeedOp::Unrecognized(
                    MessageParsingError {
                        message: copy_bytes(frame),
                        error_parsing_all_messages: DecodeError::WrongShape,
                        error_parsing_followup_message: DecodeError::WrongShape,
                    },
                ),
            },
        },
    }
}

} // verus!
