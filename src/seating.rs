//! The ordered registry of seated players, kept in an `indexmap::IndexMap`
//! keyed by player id; insertion order is seating order.

use vstd::prelude::*;
use indexmap::IndexMap;
use crate::card::Card;
use crate::player::Player;
use crate::user::User;

verus! {

/// Identity of a player within one room.
pub type PlayerId = usize;

/// Declares `indexmap::IndexMap`, whose contents are seen only through
/// `seats_of`.
#[verifier::external_type_specification]
#[verifier::external_body]
#[verifier::reject_recursive_types(K)]
#[verifier::reject_recursive_types(V)]
#[verifier::reject_recursive_types(S)]
pub struct ExIndexMap<K, V, S>(IndexMap<K, V, S>);

/// The entries of a seating map, in order.
pub uninterp spec fn seats_of(m: IndexMap<PlayerId, Player>) -> Seq<(PlayerId, Player)>;

/// What the game logic sees of a seat: the player's id, hand and user.
pub type SeatView = (PlayerId, Seq<Card>, User);

pub open spec fn seat_view(e: (PlayerId, Player)) -> SeatView {
    (e.0, e.1.cards@, e.1.user)
}

/// The seats of a seating map, in order, as views.
pub open spec fn seat_views(m: IndexMap<PlayerId, Player>) -> Seq<SeatView> {
    seats_of(m).map_values(|e: (PlayerId, Player)| seat_view(e))
}

/// Whether no id occurs twice among `seats`.
pub open spec fn ids_unique(seats: Seq<SeatView>) -> bool {
    forall|a: int, b: int|
        0 <= a < seats.len() && 0 <= b < seats.len() && a != b ==> #[trigger] seats[a].0
            != #[trigger] seats[b].0
}

/// Whether `id` is seated.
pub open spec fn is_seated(seats: Seq<SeatView>, id: PlayerId) -> bool {
    exists|i: int| 0 <= i < seats.len() && (#[trigger] seats[i]).0 == id
}

/// The number of cards in all hands.
pub open spec fn hands_total(seats: Seq<SeatView>) -> nat
    decreases seats.len(),
{
    if seats.len() == 0 {
        0
    } else {
        hands_total(seats.drop_last()) + seats.last().1.len()
    }
}

pub proof fn lemma_hand_within_total(seats: Seq<SeatView>, i: int)
    requires
        0 <= i < seats.len(),
    ensures
        seats[i].1.len() <= hands_total(seats),
    decreases seats.len(),
{
    if i < seats.len() - 1 {
        lemma_hand_within_total(seats.drop_last(), i);
    }
}

pub proof fn lemma_hands_push(seats: Seq<SeatView>, e: SeatView)
    ensures
        hands_total(seats.push(e)) == hands_total(seats) + e.1.len(),
{
    assert(seats.push(e).drop_last() =~= seats);
}

pub proof fn lemma_hands_update(seats: Seq<SeatView>, i: int, e: SeatView)
    requires
        0 <= i < seats.len(),
    ensures
        hands_total(seats.update(i, e)) + seats[i].1.len() == hands_total(seats) + e.1.len(),
    decreases seats.len(),
{
    if i == seats.len() - 1 {
        assert(seats.update(i, e).drop_last() =~= seats.drop_last());
    } else {
        assert(seats.update(i, e).drop_last() =~= seats.drop_last().update(i, e));
        lemma_hands_update(seats.drop_last(), i, e);
    }
}

pub proof fn lemma_hands_remove(seats: Seq<SeatView>, i: int)
    requires
        0 <= i < seats.len(),
    ensures
        hands_total(seats.remove(i)) + seats[i].1.len() == hands_total(seats),
    decreases seats.len(),
{
    if i == seats.len() - 1 {
        assert(seats.remove(i) =~= seats.drop_last());
    } else {
        assert(seats.remove(i).drop_last() =~= seats.drop_last().remove(i));
        lemma_hands_remove(seats.drop_last(), i);
    }
}

/// Relies on `IndexMap::new`: the map starts empty.
#[verifier::external_body]
pub(crate) fn seats_new() -> (m: IndexMap<PlayerId, Player>)
    ensures
        seats_of(m) == Seq::<(PlayerId, Player)>::empty(),
{
    IndexMap::new()
}

/// Relies on `IndexMap::len`: the number of entries.
#[verifier::external_body]
pub(crate) fn seat_count(m: &IndexMap<PlayerId, Player>) -> (n: usize)
    ensures
        n == seats_of(*m).len(),
{
    m.len()
}

/// Relies on `IndexMap::insert`: a key not yet present goes last in order.
#[verifier::external_body]
pub(crate) fn seat_insert(m: &mut IndexMap<PlayerId, Player>, id: PlayerId, p: Player)
    requires
        !is_seated(seat_views(*old(m)), id),
    ensures
        seats_of(*final(m)) == seats_of(*old(m)).push((id, p)),
{
    m.insert(id, p);
}

/// Relies on `IndexMap::shift_remove`: the entry with the key leaves and
/// those after it keep their order; without one nothing changes.
#[verifier::external_body]
pub(crate) fn seat_remove(m: &mut IndexMap<PlayerId, Player>, id: PlayerId) -> (r: Option<Player>)
    requires
        ids_unique(seat_views(*old(m))),
    ensures
        forall|i: int|
            0 <= i < seats_of(*old(m)).len() && (#[trigger] seats_of(*old(m))[i]).0 == id ==> {
                &&& r == Some(seats_of(*old(m))[i].1)
                &&& seats_of(*final(m)) == seats_of(*old(m)).remove(i)
            },
        !is_seated(seat_views(*old(m)), id) ==> r is None && seats_of(*final(m)) == seats_of(
            *old(m),
        ),
{
    m.shift_remove(&id)
}

/// Relies on `IndexMap::get_index`: the entry at a position.
#[verifier::external_body]
pub(crate) fn seat_at(m: &IndexMap<PlayerId, Player>, i: usize) -> (r: Option<(&PlayerId, &Player)>)
    ensures
        i < seats_of(*m).len() ==> r == Some((&seats_of(*m)[i as int].0, &seats_of(*m)[i as int].1)),
        i >= seats_of(*m).len() ==> r is None,
{
    m.get_index(i)
}

/// Relies on `IndexMap`'s `IndexMut<usize>`: the value at a position, which
/// may be changed in place; it panics out of range.
#[verifier::external_body]
pub(crate) fn seat_at_mut(m: &mut IndexMap<PlayerId, Player>, i: usize) -> (r: &mut Player)
    requires
        i < seats_of(*old(m)).len(),
    ensures
        *r == seats_of(*old(m))[i as int].1,
        seats_of(*final(m)) == seats_of(*old(m)).update(
            i as int,
            (seats_of(*old(m))[i as int].0, *final(r)),
        ),
{
    &mut m[i]
}

/// Relies on `IndexMap::get`: the value stored under a key.
#[verifier::external_body]
pub(crate) fn seat_get(m: &IndexMap<PlayerId, Player>, id: PlayerId) -> (r: Option<&Player>)
    requires
        ids_unique(seat_views(*m)),
    ensures
        forall|i: int|
            0 <= i < seats_of(*m).len() && (#[trigger] seats_of(*m)[i]).0 == id ==> r == Some(
                &seats_of(*m)[i].1,
            ),
        !is_seated(seat_views(*m), id) ==> r is None,
{
    m.get(&id)
}

} // verus!
