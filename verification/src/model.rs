//! The lobby records the feed publishes, as the library holds them.
//!
//! Textual fields travel as byte strings; a record is replaced wholesale on
//! every sighting, never merged. The two wire message structs mirror the two
//! shapes the feed can send: a full replacement list and an incremental
//! update (upserts plus deletes).

use vstd::prelude::*;

verus! {

/// One seat of a lobby: its colour, team, civilisation and the name of the
/// player holding it (`None` when the feed sent no name).
#[derive(Debug, Clone)]
pub struct Slot {
    pub color: Vec<u8>,
    pub team: Option<Vec<u8>>,
    pub civ: Vec<u8>,
    pub name: Option<Vec<u8>>,
}

/// One lobby's current published state. Its `slot` table is an association
/// list keyed by the feed's slot labels.
#[derive(Debug, Clone)]
pub struct Lobby {
    pub maxplayers: i64,
    pub relayserver_region: Vec<u8>,
    pub lobbyid: i64,
    pub slotstaken: i64,
    pub slotstotal: i64,
    pub slot: Vec<(Vec<u8>, Slot)>,
}

/// A full-snapshot message: the complete set of lobbies now live, keyed by
/// the feed's lobby identifier.
#[derive(Debug, Clone)]
pub struct WebsocketMessageReceiveAllCurrentLobbies {
    pub allcurrentlobbies: Vec<(Vec<u8>, Lobby)>,
}

/// An incremental message: records to overwrite and identifiers to delete.
#[derive(Debug, Clone)]
pub struct WebsocketMessageReceiveFollowUp {
    pub deletedlobbies: Vec<i64>,
    pub updatedlobbies: Vec<(Vec<u8>, Lobby)>,
}

/// Mathematical image of a `Slot`.
pub struct SlotView {
    pub color: Seq<u8>,
    pub team: Option<Seq<u8>>,
    pub civ: Seq<u8>,
    pub name: Option<Seq<u8>>,
}

/// Mathematical image of a `Lobby`.
pub struct LobbyView {
    pub maxplayers: int,
    pub relayserver_region: Seq<u8>,
    pub lobbyid: int,
    pub slotstaken: int,
    pub slotstotal: int,
    pub slot: Seq<(Seq<u8>, SlotView)>,
}

pub open spec fn opt_bytes_view(o: Option<Vec<u8>>) -> Option<Seq<u8>> {
    match o {
        Some(v) => Some(v@),
        None => None,
    }
}

impl View for Slot {
    type V = SlotView;

    open spec fn view(&self) -> SlotView {
        SlotView {
            color: self.color@,
            team: opt_bytes_view(self.team),
            civ: self.civ@,
            name: opt_bytes_view(self.name),
        }
    }
}

impl View for Lobby {
    type V = LobbyView;

    open spec fn view(&self) -> LobbyView {
        LobbyView {
            maxplayers: self.maxplayers as int,
            relayserver_region: self.relayserver_region@,
            lobbyid: self.lobbyid as int,
            slotstaken: self.slotstaken as int,
            slotstotal: self.slotstotal as int,
            slot: self.slot@.map_values(|p: (Vec<u8>, Slot)| (p.0@, p.1@)),
        }
    }
}

/// The view of a lobby association list: a sequence of key / record pairs.
pub open spec fn lobbies_view(l: Seq<(Vec<u8>, Lobby)>) -> Seq<(Seq<u8>, LobbyView)> {
    l.map_values(|p: (Vec<u8>, Lobby)| (p.0@, p.1@))
}

impl View for WebsocketMessageReceiveAllCurrentLobbies {
    type V = Seq<(Seq<u8>, LobbyView)>;

    open spec fn view(&self) -> Seq<(Seq<u8>, LobbyView)> {
        lobbies_view(self.allcurrentlobbies@)
    }
}

/// Mathematical image of an incremental message.
pub struct FollowUpView {
    pub deletedlobbies: Seq<i64>,
    pub updatedlobbies: Seq<(Seq<u8>, LobbyView)>,
}

impl View for WebsocketMessageReceiveFollowUp {
    type V = FollowUpView;

    open spec fn view(&self) -> FollowUpView {
        FollowUpView {
            deletedlobbies: self.deletedlobbies@,
            updatedlobbies: lobbies_view(self.updatedlobbies@),
        }
    }
}

/// Value equality of two optional byte strings.
pub fn opt_bytes_equal(a: &Option<Vec<u8>>, b: &Option<Vec<u8>>) -> (r: bool)
    ensures
        r <==> opt_bytes_view(*a) == opt_bytes_view(*b),
{
    match (a, b) {
        (None, None) => true,
        (Some(x), Some(y)) => crate::bytes::bytes_eq(x, y),
        _ => false,
    }
}

/// Value equality of two slots.
pub fn slot_eq(a: &Slot, b: &Slot) -> (r: bool)
    ensures
        r <==> a@ == b@,
{
    crate::bytes::bytes_eq(&a.color, &b.color) && opt_bytes_equal(&a.team, &b.team)
        && crate::bytes::bytes_eq(&a.civ, &b.civ) && opt_bytes_equal(&a.name, &b.name)
}

/// Value equality of two lobby records, the comparison a record overwrite
/// is judged by.
pub fn lobby_eq(a: &Lobby, b: &Lobby) -> (r: bool)
    ensures
        r <==> a@ == b@,
{
    if a.maxplayers != b.maxplayers || a.lobbyid != b.lobbyid || a.slotstaken != b.slotstaken
        || a.slotstotal != b.slotstotal {
        return false;
    }
    if !crate::bytes::bytes_eq(&a.relayserver_region, &b.relayserver_region) {
        return false;
    }
    if a.slot.len() != b.slot.len() {
        assert(a@.slot.len() != b@.slot.len());
        return false;
    }
    let mut i: usize = 0;
    while i < a.slot.len()
        invariant
            i <= a.slot.len(),
            a.slot@.len() == b.slot@.len(),
            a@.slot.len() == a.slot@.len(),
            b@.slot.len() == b.slot@.len(),
            forall|j: int|
                0 <= j < a.slot@.len() ==> #[trigger] a@.slot[j] == (
                    a.slot@[j].0@,
                    a.slot@[j].1@,
                ),
            forall|j: int|
                0 <= j < b.slot@.len() ==> #[trigger] b@.slot[j] == (
                    b.slot@[j].0@,
                    b.slot@[j].1@,
                ),
            forall|j: int| 0 <= j < i ==> #[trigger] a@.slot[j] == b@.slot[j],
        decreases a.slot.len() - i,
    {
        if !crate::bytes::bytes_eq(&a.slot[i].0, &b.slot[i].0) {
            assert(a@.slot[i as int].0 != b@.slot[i as int].0);
            return false;
        }
        if !slot_eq(&a.slot[i].1, &b.slot[i].1) {
            assert(a@.slot[i as int].1 != b@.slot[i as int].1);
            return false;
        }
        i += 1;
    }
    assert(a@.slot =~= b@.slot);
    true
}

} // verus!
