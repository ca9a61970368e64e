//! The consumer side: validating a lobby id, rendering a record into its
//! watched state, and the decision step of a live watch loop.
//!
//! A watch loop waits on the first of four event sources — its cancellation
//! signal, its absolute deadline, a change notification, the mandatory
//! refresh tick — and hands the event together with a fresh store lookup to
//! `watch_step`, which alone decides what the loop renders next.

use vstd::prelude::*;

use crate::bytes::{bytes_eq, copy_bytes, dec_digits, dec_of_int, i64_to_dec, u64_to_dec};
use crate::json::{is_digit_byte, is_ws_byte};
use crate::model::{Lobby, LobbyView, SlotView};

verus! {

/// A watch session ends at latest this long (seconds) after it started,
/// whatever else happens: the platform allows replies for fifteen minutes.
pub const WATCH_DEADLINE_SECONDS: u64 = 840;

/// A live watch re-reads the store at least this often (seconds), even
/// without a change notification.
pub const REFRESH_TICK_SECONDS: u64 = 10;

/// How often a just-admitted watch polls for its record to appear, and how
/// long (seconds) it waits between polls.
pub const INITIAL_LOOKUP_ATTEMPTS: u64 = 10;

pub const INITIAL_LOOKUP_DELAY_SECONDS: u64 = 3;

// --------------------------------------------------------------------------
// Lobby id validation and the store key inside it.
// --------------------------------------------------------------------------

/// "aoe2de://0/"
pub open spec fn lobby_id_prefix() -> Seq<u8> {
    seq![97u8, 111u8, 101u8, 50u8, 100u8, 101u8, 58u8, 47u8, 47u8, 48u8, 47u8]
}

/// Is `s` a well-formed lobby id: the fixed prefix followed by at least one
/// decimal digit and nothing else?
pub open spec fn is_lobby_id(s: Seq<u8>) -> bool {
    &&& s.len() > lobby_id_prefix().len()
    &&& s.subrange(0, lobby_id_prefix().len() as int) == lobby_id_prefix()
    &&& forall|i: int| lobby_id_prefix().len() <= i < s.len() ==> is_digit_byte(#[trigger] s[i])
}

/// First index at or after `i` that holds no ASCII whitespace.
pub open spec fn sp_skip_ws_bytes(s: Seq<u8>, i: int) -> int
    decreases s.len() - i,
{
    if 0 <= i < s.len() && is_ws_byte(s[i]) {
        sp_skip_ws_bytes(s, i + 1)
    } else {
        i
    }
}

/// One past the last index below `i` that holds no ASCII whitespace.
pub open spec fn sp_trim_end(s: Seq<u8>, i: int) -> int
    decreases i + 1,
{
    if 0 < i <= s.len() && is_ws_byte(s[i - 1]) {
        sp_trim_end(s, i - 1)
    } else {
        i
    }
}

/// `s` with surrounding ASCII whitespace removed.
pub open spec fn trim_ascii(s: Seq<u8>) -> Seq<u8> {
    let a = sp_skip_ws_bytes(s, 0);
    let b = sp_trim_end(s, s.len() as int);
    if a < b {
        s.subrange(a, b)
    } else {
        Seq::empty()
    }
}

/// `s` with surrounding ASCII whitespace removed, as `trim_ascii` gives it.
pub fn trim_bytes(value: &Vec<u8>) -> (r: Vec<u8>)
    ensures
        r@ == trim_ascii(value@),
{
    let mut a: usize = 0;
    while a < value.len() && (value[a] == 32 || value[a] == 9 || value[a] == 10 || value[a] == 13)
        invariant
            a <= value.len(),
            sp_skip_ws_bytes(value@, 0) == sp_skip_ws_bytes(value@, a as int),
        decreases value.len() - a,
    {
        a += 1;
    }
    assert(a as int == sp_skip_ws_bytes(value@, 0));
    let mut b: usize = value.len();
    while b > 0 && (value[b - 1] == 32 || value[b - 1] == 9 || value[b - 1] == 10 || value[b - 1]
        == 13)
        invariant
            b <= value.len(),
            sp_trim_end(value@, value@.len() as int) == sp_trim_end(value@, b as int),
        decreases b,
    {
        b -= 1;
    }
    assert(b as int == sp_trim_end(value@, value@.len() as int));
    let mut out: Vec<u8> = Vec::new();
    if a >= b {
        assert(out@ =~= trim_ascii(value@));
        return out;
    }
    let mut i: usize = a;
    while i < b
        invariant
            a <= i <= b <= value.len(),
            out@ =~= value@.subrange(a as int, i as int),
        decreases b - i,
    {
        out.push(value[i]);
        i += 1;
    }
    assert(out@ =~= trim_ascii(value@));
    out
}

/// Validate a user-supplied lobby id: surrounding ASCII whitespace is
/// forgiven, then the text must be the fixed prefix followed by digits
/// only. The trimmed id comes back exactly when it is well-formed.
pub fn extract_lobby_id(value: &Vec<u8>) -> (r: Option<Vec<u8>>)
    ensures
        match r {
            Some(v) => v@ == trim_ascii(value@) && is_lobby_id(v@),
            None => !is_lobby_id(trim_ascii(value@)),
        },
{
    let trimmed = trim_bytes(value);
    let prefix: Vec<u8> = vec![97u8, 111u8, 101u8, 50u8, 100u8, 101u8, 58u8, 47u8, 47u8, 48u8, 47u8];
    assert(prefix@ =~= lobby_id_prefix());
    if trimmed.len() <= prefix.len() {
        return None;
    }
    let mut k: usize = 0;
    while k < prefix.len()
        invariant
            k <= prefix.len() < trimmed.len(),
            prefix@ == lobby_id_prefix(),
            trimmed@ == trim_ascii(value@),
            forall|j: int| 0 <= j < k ==> trimmed@[j] == lobby_id_prefix()[j],
        decreases prefix.len() - k,
    {
        if trimmed[k] != prefix[k] {
            assert(trimmed@.subrange(0, lobby_id_prefix().len() as int) != lobby_id_prefix());
            return None;
        }
        k += 1;
    }
    let mut d: usize = prefix.len();
    while d < trimmed.len()
        invariant
            prefix.len() <= d <= trimmed.len(),
            prefix@ == lobby_id_prefix(),
            trimmed@ == trim_ascii(value@),
            forall|j: int|
                lobby_id_prefix().len() <= j < d ==> is_digit_byte(#[trigger] trimmed@[j]),
        decreases trimmed.len() - d,
    {
        if trimmed[d] < 48 || trimmed[d] > 57 {
            return None;
        }
        d += 1;
    }
    assert(trimmed@.subrange(0, lobby_id_prefix().len() as int) =~= lobby_id_prefix());
    Some(trimmed)
}

/// The store key inside a lobby id: everything after the last slash, the
/// whole text when no slash occurs.
pub open spec fn after_last_slash(s: Seq<u8>) -> Seq<u8>
    decreases s.len(),
{
    if s.len() == 0 {
        Seq::empty()
    } else if s[s.len() - 1] == 47 {
        Seq::empty()
    } else {
        after_last_slash(s.subrange(0, s.len() - 1)).push(s[s.len() - 1])
    }
}

/// With no slash in `s[cut..]` and a slash (if anything) just before
/// `cut`, the suffix after the last slash is exactly `s[cut..]`.
proof fn lemma_after_last_slash(s: Seq<u8>, cut: int)
    requires
        0 <= cut <= s.len(),
        cut > 0 ==> s[cut - 1] == 47,
        forall|t: int| cut <= t < s.len() ==> s[t] != 47,
    ensures
        after_last_slash(s) == s.subrange(cut, s.len() as int),
    decreases s.len(),
{
    if s.len() == 0 {
        assert(after_last_slash(s) =~= s.subrange(cut, s.len() as int));
    } else if s[s.len() - 1] == 47 {
        assert(cut == s.len());
        assert(after_last_slash(s) =~= s.subrange(cut, s.len() as int));
    } else {
        let front = s.subrange(0, s.len() - 1);
        lemma_after_last_slash(front, cut);
        assert(after_last_slash(s) =~= s.subrange(cut, s.len() as int));
    }
}

// --------------------------------------------------------------------------
// Rendering a record into its watched state.
// --------------------------------------------------------------------------

/// "Unknown": what stands in for a seat whose player the feed left unnamed.
pub open spec fn name_unknown() -> Seq<u8> {
    seq![85u8, 110u8, 107u8, 110u8, 111u8, 119u8, 110u8]
}

/// "Open": an unoccupied seat, left out of the player list.
pub open spec fn name_open() -> Seq<u8> {
    seq![79u8, 112u8, 101u8, 110u8]
}

/// "Closed": a closed seat, left out of the player list.
pub open spec fn name_closed() -> Seq<u8> {
    seq![67u8, 108u8, 111u8, 115u8, 101u8, 100u8]
}

/// The names a lobby's slots contribute, in slot order: a named player as
/// is, an unnamed seat as "Unknown", open and closed seats not at all;
/// `acc` holds the names already collected.
pub open spec fn sel_names(
    slots: Seq<(Seq<u8>, SlotView)>,
    n: int,
    acc: Seq<Seq<u8>>,
) -> Seq<Seq<u8>>
    decreases slots.len() - n,
{
    if n < 0 || n >= slots.len() {
        acc
    } else {
        match slots[n].1.name {
            None => sel_names(slots, n + 1, acc.push(name_unknown())),
            Some(x) => if x == name_open() || x == name_closed() {
                sel_names(slots, n + 1, acc)
            } else {
                sel_names(slots, n + 1, acc.push(x))
            },
        }
    }
}

/// Bytewise lexicographic order, the order `sort` on strings uses.
pub open spec fn bytes_le(a: Seq<u8>, b: Seq<u8>) -> bool
    decreases a.len(),
{
    if a.len() == 0 {
        true
    } else if b.len() == 0 {
        false
    } else if a[0] < b[0] {
        true
    } else if a[0] > b[0] {
        false
    } else {
        bytes_le(a.subrange(1, a.len() as int), b.subrange(1, b.len() as int))
    }
}

/// `x` placed before the first element it precedes or equals.
pub open spec fn insert_sorted(x: Seq<u8>, s: Seq<Seq<u8>>) -> Seq<Seq<u8>>
    decreases s.len(),
{
    if s.len() == 0 {
        seq![x]
    } else if bytes_le(x, s[0]) {
        seq![x] + s
    } else {
        seq![s[0]] + insert_sorted(x, s.subrange(1, s.len() as int))
    }
}

/// Insertion sort of the names from `n` on into the sorted `acc`.
pub open spec fn sort_names_from(s: Seq<Seq<u8>>, n: int, acc: Seq<Seq<u8>>) -> Seq<Seq<u8>>
    decreases s.len() - n,
{
    if n < 0 || n >= s.len() {
        acc
    } else {
        sort_names_from(s, n + 1, insert_sorted(s[n], acc))
    }
}

/// The names sorted bytewise ascending.
pub open spec fn sort_names(s: Seq<Seq<u8>>) -> Seq<Seq<u8>> {
    sort_names_from(s, 0, Seq::empty())
}

/// The names from `n` on, each followed by a newline.
pub open spec fn join_names_from(s: Seq<Seq<u8>>, n: int) -> Seq<u8>
    decreases s.len() - n,
{
    if n < 0 || n >= s.len() {
        Seq::empty()
    } else {
        s[n] + seq![10u8] + join_names_from(s, n + 1)
    }
}

/// The rendered player list of a lobby: the contributed names, sorted, one
/// per line.
pub open spec fn players_text(slots: Seq<(Seq<u8>, SlotView)>) -> Seq<u8> {
    join_names_from(sort_names(sel_names(slots, 0, Seq::empty())), 0)
}

/// The view of a list of byte strings.
pub open spec fn names_view(s: Seq<Vec<u8>>) -> Seq<Seq<u8>> {
    s.map_values(|v: Vec<u8>| v@)
}

/// Bytewise lexicographic comparison, as `bytes_le` states it.
pub fn bytes_le_exec(a: &Vec<u8>, b: &Vec<u8>) -> (r: bool)
    ensures
        r == bytes_le(a@, b@),
{
    let mut i: usize = 0;
    assert(a@.subrange(0, a@.len() as int) =~= a@);
    assert(b@.subrange(0, b@.len() as int) =~= b@);
    while i < a.len() && i < b.len()
        invariant
            i <= a.len(),
            i <= b.len(),
            bytes_le(a@, b@) == bytes_le(
                a@.subrange(i as int, a@.len() as int),
                b@.subrange(i as int, b@.len() as int),
            ),
        decreases a.len() - i,
    {
        let ghost sa = a@.subrange(i as int, a@.len() as int);
        let ghost sb = b@.subrange(i as int, b@.len() as int);
        if a[i] < b[i] {
            return true;
        }
        if a[i] > b[i] {
            return false;
        }
        proof {
            assert(sa.subrange(1, sa.len() as int) =~= a@.subrange(i + 1, a@.len() as int));
            assert(sb.subrange(1, sb.len() as int) =~= b@.subrange(i + 1, b@.len() as int));
        }
        i += 1;
    }
    proof {
        let sa = a@.subrange(i as int, a@.len() as int);
        let sb = b@.subrange(i as int, b@.len() as int);
        if i >= a.len() {
            assert(sa.len() == 0);
        } else {
            assert(sb.len() == 0);
            assert(sa.len() > 0);
        }
    }
    a.len() - i == 0
}

/// `insert_sorted` splits at the first element `x` precedes or equals.
proof fn lemma_insert_sorted_at(x: Seq<u8>, t: Seq<Seq<u8>>, i: int)
    requires
        0 <= i <= t.len(),
        forall|j: int| 0 <= j < i ==> !bytes_le(x, #[trigger] t[j]),
        i < t.len() ==> bytes_le(x, t[i]),
    ensures
        insert_sorted(x, t) == t.subrange(0, i) + seq![x] + t.subrange(i, t.len() as int),
    decreases i,
{
    if i == 0 {
        if t.len() == 0 {
            assert(insert_sorted(x, t) =~= t.subrange(0, 0) + seq![x] + t.subrange(
                0,
                t.len() as int,
            ));
        } else {
            assert(insert_sorted(x, t) =~= t.subrange(0, 0) + seq![x] + t.subrange(
                0,
                t.len() as int,
            ));
        }
    } else {
        let rest = t.subrange(1, t.len() as int);
        lemma_insert_sorted_at(x, rest, i - 1);
        assert(insert_sorted(x, t) == seq![t[0]] + insert_sorted(x, rest));
        assert(seq![t[0]] + (rest.subrange(0, i - 1) + seq![x] + rest.subrange(
            i - 1,
            rest.len() as int,
        )) =~= t.subrange(0, i) + seq![x] + t.subrange(i, t.len() as int));
    }
}

/// `x` inserted into the sorted `s`, as `insert_sorted` gives it.
fn insert_sorted_exec(x: Vec<u8>, s: &Vec<Vec<u8>>) -> (r: Vec<Vec<u8>>)
    ensures
        names_view(r@) == insert_sorted(x@, names_view(s@)),
{
    assert(names_view(s@).len() == s@.len());
    assert(forall|j: int| 0 <= j < s@.len() ==> #[trigger] names_view(s@)[j] == s@[j]@);
    let mut out: Vec<Vec<u8>> = Vec::new();
    let mut i: usize = 0;
    while i < s.len() && !bytes_le_exec(&x, &s[i])
        invariant
            i <= s.len(),
            names_view(s@).len() == s@.len(),
            forall|j: int| 0 <= j < s@.len() ==> #[trigger] names_view(s@)[j] == s@[j]@,
            names_view(out@) =~= names_view(s@).subrange(0, i as int),
            forall|j: int| 0 <= j < i ==> !bytes_le(x@, #[trigger] names_view(s@)[j]),
        decreases s.len() - i,
    {
        let ghost prevn = names_view(out@);
        let c = copy_bytes(&s[i]);
        let ghost cv = c@;
        out.push(c);
        proof {
            assert(names_view(out@) =~= prevn.push(cv));
            assert(names_view(out@) =~= names_view(s@).subrange(0, i + 1));
        }
        i += 1;
    }
    let ghost cut: int = i as int;
    let ghost prefixn = names_view(out@);
    let ghost xv = x@;
    out.push(x);
    proof {
        assert(names_view(out@) =~= prefixn.push(xv));
        assert(names_view(s@).subrange(cut, cut) =~= Seq::<Seq<u8>>::empty());
        assert(names_view(out@) =~= names_view(s@).subrange(0, cut) + seq![xv] + names_view(
            s@,
        ).subrange(cut, cut));
    }
    let mut k: usize = i;
    while k < s.len()
        invariant
            0 <= cut <= k <= s.len(),
            names_view(s@).len() == s@.len(),
            forall|j: int| 0 <= j < s@.len() ==> #[trigger] names_view(s@)[j] == s@[j]@,
            names_view(out@) =~= names_view(s@).subrange(0, cut) + seq![xv] + names_view(
                s@,
            ).subrange(cut, k as int),
        decreases s.len() - k,
    {
        let ghost prevn2 = names_view(out@);
        let c2 = copy_bytes(&s[k]);
        let ghost cv2 = c2@;
        out.push(c2);
        proof {
            assert(names_view(out@) =~= prevn2.push(cv2));
            assert(names_view(s@).subrange(cut, k + 1) =~= names_view(s@).subrange(
                cut,
                k as int,
            ).push(names_view(s@)[k as int]));
            assert(names_view(out@) =~= names_view(s@).subrange(0, cut) + seq![xv] + names_view(
                s@,
            ).subrange(cut, k + 1));
        }
        k += 1;
    }
    proof {
        lemma_insert_sorted_at(xv, names_view(s@), cut);
    }
    out
}

/// The rendered player list, sorted one name per line: a named player as
/// is, an unnamed seat as "Unknown", open and closed seats left out.
pub fn format_players(lobby: &Lobby) -> (r: Vec<u8>)
    ensures
        r@ == players_text(lobby@.slot),
{
    let unknown: Vec<u8> = vec![85u8, 110u8, 107u8, 110u8, 111u8, 119u8, 110u8];
    let open_name: Vec<u8> = vec![79u8, 112u8, 101u8, 110u8];
    let closed_name: Vec<u8> = vec![67u8, 108u8, 111u8, 115u8, 101u8, 100u8];
    assert(unknown@ =~= name_unknown());
    assert(open_name@ =~= name_open());
    assert(closed_name@ =~= name_closed());

    // collect the contributed names, in slot order
    let mut names: Vec<Vec<u8>> = Vec::new();
    assert(names_view(names@) =~= Seq::<Seq<u8>>::empty());
    let mut n: usize = 0;
    while n < lobby.slot.len()
        invariant
            n <= lobby.slot.len(),
            unknown@ == name_unknown(),
            open_name@ == name_open(),
            closed_name@ == name_closed(),
            lobby@.slot.len() == lobby.slot@.len(),
            forall|j: int|
                0 <= j < lobby.slot@.len() ==> #[trigger] lobby@.slot[j] == (
                    lobby.slot@[j].0@,
                    lobby.slot@[j].1@,
                ),
            sel_names(lobby@.slot, 0, Seq::empty()) == sel_names(
                lobby@.slot,
                n as int,
                names_view(names@),
            ),
        decreases lobby.slot.len() - n,
    {
        let ghost old_names = names_view(names@);
        match &lobby.slot[n].1.name {
            None => {
                names.push(copy_bytes(&unknown));
                proof {
                    assert(names_view(names@) =~= old_names.push(name_unknown()));
                }
            },
            Some(nm) => {
                if bytes_eq(nm, &open_name) || bytes_eq(nm, &closed_name) {
                } else {
                    names.push(copy_bytes(nm));
                    proof {
                        assert(names_view(names@) =~= old_names.push(nm@));
                    }
                }
            },
        }
        n += 1;
    }
    let ghost collected = names_view(names@);

    // sort them
    let mut sorted: Vec<Vec<u8>> = Vec::new();
    assert(names_view(sorted@) =~= Seq::<Seq<u8>>::empty());
    let mut m: usize = 0;
    while m < names.len()
        invariant
            m <= names.len(),
            names_view(names@) == collected,
            sort_names(collected) == sort_names_from(collected, m as int, names_view(sorted@)),
        decreases names.len() - m,
    {
        sorted = insert_sorted_exec(copy_bytes(&names[m]), &sorted);
        m += 1;
    }

    // join them, one per line
    let mut outp: Vec<u8> = Vec::new();
    let mut j: usize = 0;
    while j < sorted.len()
        invariant
            j <= sorted.len(),
            names_view(sorted@) == sort_names(collected),
            join_names_from(sort_names(collected), 0) =~= outp@ + join_names_from(
                sort_names(collected),
                j as int,
            ),
        decreases sorted.len() - j,
    {
        let ghost before = outp@;
        let name = &sorted[j];
        let mut b: usize = 0;
        while b < name.len()
            invariant
                b <= name.len(),
                outp@ =~= before + name@.subrange(0, b as int),
            decreases name.len() - b,
        {
            outp.push(name[b]);
            b += 1;
        }
        outp.push(10);
        proof {
            assert(outp@ =~= before + (names_view(sorted@)[j as int] + seq![10u8]));
        }
        j += 1;
    }
    outp
}

/// The two colours a watched lobby renders with: green while seats remain,
/// red once it is full.
#[derive(Debug, Clone, Copy, PartialEq, Eq, Structural)]
pub enum LobbyColor {
    DarkGreen,
    Red,
}

/// The colour of a record: green while seats remain, red otherwise.
pub open spec fn color_of(l: LobbyView) -> LobbyColor {
    if l.slotstotal - l.slotstaken > 0 {
        LobbyColor::DarkGreen
    } else {
        LobbyColor::Red
    }
}

/// The colour of a record, as `color_of` gives it.
pub fn extract_colors(lobby: &Lobby) -> (r: LobbyColor)
    ensures
        r == color_of(lobby@),
{
    if lobby.slotstotal > lobby.slotstaken {
        LobbyColor::DarkGreen
    } else {
        LobbyColor::Red
    }
}

/// What a watch compares and renders: the value-equality snapshot of one
/// record. Two sightings with equal states render once.
#[derive(Debug)]
pub struct State {
    pub players: Vec<u8>,
    pub color: LobbyColor,
    pub slots_taken: i64,
    pub slots_total: i64,
    pub id: Vec<u8>,
}

/// Mathematical image of a `State`.
pub struct StateView {
    pub players: Seq<u8>,
    pub color: LobbyColor,
    pub slots_taken: int,
    pub slots_total: int,
    pub id: Seq<u8>,
}

impl View for State {
    type V = StateView;

    open spec fn view(&self) -> StateView {
        StateView {
            players: self.players@,
            color: self.color,
            slots_taken: self.slots_taken as int,
            slots_total: self.slots_total as int,
            id: self.id@,
        }
    }
}

/// The watched state of a record.
pub open spec fn state_of(l: LobbyView) -> StateView {
    StateView {
        players: players_text(l.slot),
        color: color_of(l),
        slots_taken: l.slotstaken,
        slots_total: l.slotstotal,
        id: dec_of_int(l.lobbyid),
    }
}

/// The watched state of a record, as `state_of` gives it.
pub fn extract_state(lobby: &Lobby) -> (r: State)
    ensures
        r@ == state_of(lobby@),
{
    State {
        players: format_players(lobby),
        color: extract_colors(lobby),
        slots_taken: lobby.slotstaken,
        slots_total: lobby.slotstotal,
        id: i64_to_dec(lobby.lobbyid),
    }
}

/// Value equality of two watched states.
pub fn state_eq(a: &State, b: &State) -> (r: bool)
    ensures
        r <==> a@ == b@,
{
    bytes_eq(&a.players, &b.players) && a.color == b.color && a.slots_taken == b.slots_taken
        && a.slots_total == b.slots_total && bytes_eq(&a.id, &b.id)
}

/// The footer text when seats remain ("+N") or the lobby is full
/// ("Lobby is full").
pub open spec fn remaining_slots_model(total: int, taken: int) -> Seq<u8> {
    if total - taken > 0 {
        seq![43u8] + dec_digits((total - taken) as nat)
    } else {
        seq![76u8, 111u8, 98u8, 98u8, 121u8, 32u8, 105u8, 115u8, 32u8, 102u8, 117u8, 108u8, 108u8]
    }
}

/// The remaining-seats footer, as `remaining_slots_model` gives it.
pub fn remaining_slots_text(slots_total: i64, slots_taken: i64) -> (r: Vec<u8>)
    ensures
        r@ == remaining_slots_model(slots_total as int, slots_taken as int),
{
    if slots_total > slots_taken {
        let diff: u64 = (slots_total as i128 - slots_taken as i128) as u64;
        assert(diff as nat == (slots_total as int - slots_taken as int) as nat);
        let digits = u64_to_dec(diff);
        let mut out: Vec<u8> = Vec::new();
        out.push(43);
        let mut i: usize = 0;
        while i < digits.len()
            invariant
                i <= digits.len(),
                out@ =~= seq![43u8] + digits@.subrange(0, i as int),
            decreases digits.len() - i,
        {
            out.push(digits[i]);
            i += 1;
        }
        assert(out@ =~= seq![43u8] + digits@);
        out
    } else {
        let out: Vec<u8> = vec![76u8, 111u8, 98u8, 98u8, 121u8, 32u8, 105u8, 115u8, 32u8, 102u8, 117u8, 108u8, 108u8];
        assert(out@ =~= remaining_slots_model(slots_total as int, slots_taken as int));
        out
    }
}

// --------------------------------------------------------------------------
// The watch loop's decision step.
// --------------------------------------------------------------------------

/// What woke a live watch: its cancellation signal, its absolute deadline,
/// a change notification, or the mandatory refresh tick.
#[derive(Debug, Clone, Copy, PartialEq, Eq, Structural)]
pub enum WatchEvent {
    Cancelled,
    DeadlineReached,
    ChangeNotified,
    RefreshTick,
}

/// What the loop does next. Only the first two end the session; a
/// notification never carries the change itself, so the two live outcomes
/// are decided from the fresh lookup alone.
#[derive(Debug)]
pub enum WatchDecision {
    /// Render the last state once more, marked no longer live, and stop.
    FinalNoLongerLive,
    /// The record is gone: render the terminal "no longer active" and stop.
    TerminalNoLongerActive,
    /// Nothing changed: loop with no side effect.
    KeepWaiting,
    /// The record changed: render this state and loop.
    RenderUpdate(State),
}

/// Mathematical image of a `WatchDecision`.
pub enum WatchDecisionView {
    FinalNoLongerLive,
    TerminalNoLongerActive,
    KeepWaiting,
    RenderUpdate(StateView),
}

impl View for WatchDecision {
    type V = WatchDecisionView;

    open spec fn view(&self) -> WatchDecisionView {
        match self {
            WatchDecision::FinalNoLongerLive => WatchDecisionView::FinalNoLongerLive,
            WatchDecision::TerminalNoLongerActive => WatchDecisionView::TerminalNoLongerActive,
            WatchDecision::KeepWaiting => WatchDecisionView::KeepWaiting,
            WatchDecision::RenderUpdate(s) => WatchDecisionView::RenderUpdate(s@),
        }
    }
}

/// The decision a watch loop takes on one wakeup: cancellation and
/// deadline end the session with a final render; otherwise the fresh
/// lookup decides — absent ends it as no longer active, an unchanged state
/// loops silently, a changed one is rendered.
pub open spec fn sp_watch_step(
    prev: StateView,
    event: WatchEvent,
    current: Option<LobbyView>,
) -> WatchDecisionView {
    match event {
        WatchEvent::Cancelled => WatchDecisionView::FinalNoLongerLive,
        WatchEvent::DeadlineReached => WatchDecisionView::FinalNoLongerLive,
        _ => match current {
            None => WatchDecisionView::TerminalNoLongerActive,
            Some(l) => if state_of(l) == prev {
                WatchDecisionView::KeepWaiting
            } else {
                WatchDecisionView::RenderUpdate(state_of(l))
            },
        },
    }
}

/// One wakeup of a live watch, as `sp_watch_step` decides it. `current`
/// is the fresh store lookup under the watched key.
pub fn watch_step(prev: &State, event: WatchEvent, current: Option<&Lobby>) -> (r: WatchDecision)
    ensures
        r@ == sp_watch_step(
            prev@,
            event,
            match current {
                Some(l) => Some(l@),
                None => None,
            },
        ),
{
    match event {
        WatchEvent::Cancelled => WatchDecision::FinalNoLongerLive,
        WatchEvent::DeadlineReached => WatchDecision::FinalNoLongerLive,
        _ => match current {
            None => WatchDecision::TerminalNoLongerActive,
            Some(l) => {
                let now_state = extract_state(l);
                if state_eq(&now_state, prev) {
                    WatchDecision::KeepWaiting
                } else {
                    WatchDecision::RenderUpdate(now_state)
                }
            },
        },
    }
}

/// Two consecutive sightings of an identical record yield exactly one
/// rendered update: once the first wakeup rendered the record's state, a
/// second wakeup that finds the same record keeps waiting and renders
/// nothing.
pub proof fn lemma_identical_record_renders_once(
    prev: StateView,
    e1: WatchEvent,
    e2: WatchEvent,
    l: LobbyView,
)
    requires
        e1 == WatchEvent::ChangeNotified || e1 == WatchEvent::RefreshTick,
        e2 == WatchEvent::ChangeNotified || e2 == WatchEvent::RefreshTick,
        sp_watch_step(prev, e1, Some(l)) == WatchDecisionView::RenderUpdate(state_of(l)),
    ensures
        sp_watch_step(state_of(l), e2, Some(l)) == WatchDecisionView::KeepWaiting,
{
}

/// The store key inside a lobby id, as `after_last_slash` gives it.
pub fn lobby_key_of_id(id: &Vec<u8>) -> (r: Vec<u8>)
    ensures
        r@ == after_last_slash(id@),
{
    let mut cut: usize = id.len();
    while cut > 0 && id[cut - 1] != 47
        invariant
            cut <= id.len(),
            forall|t: int| cut <= t < id@.len() ==> id@[t] != 47,
        decreases cut,
    {
        cut -= 1;
    }
    let mut out: Vec<u8> = Vec::new();
    let mut i: usize = cut;
    while i < id.len()
        invariant
            cut <= i <= id.len(),
            out@ =~= id@.subrange(cut as int, i as int),
        decreases id.len() - i,
    {
        out.push(id[i]);
        i += 1;
    }
    proof {
        lemma_after_last_slash(id@, cut as int);
        assert(out@ =~= id@.subrange(cut as int, id@.len() as int));
    }
    out
}

} // verus!
