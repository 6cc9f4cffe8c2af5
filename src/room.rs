//! The room: seated players, the lobby/playing latch, and the handling of
//! player commands against the game state, one command at a time.

use vstd::prelude::*;
use indexmap::IndexMap;
use uuid::Uuid;
use crate::card::{Card, CardKind, Color, NormalCardKind};
use crate::game::{
    after_dealing, dealt, direction_after, draw_effect, draw_outcome,
    lemma_turn_advanced_keeps_cards, playable_on, run_direction, run_draws, run_skips, skip_effect,
    turn_advanced, State, DECK_SIZE,
};
use crate::game_messages::{ChatMessage, GameState, PlayerInfo};
use crate::player::{hand_without, holds_playable, run_cards, valid_run, Player};
use crate::seating::{
    hands_total, ids_unique, is_seated, lemma_hand_within_total, lemma_hands_push,
    lemma_hands_remove, lemma_hands_update, seat_at, seat_at_mut, seat_count, seat_get, seat_insert,
    seat_remove, seat_views, seats_new, PlayerId, SeatView,
};
use crate::user::User;

verus! {

/// Declares `uuid::Uuid`, carried through as the room's id.
#[verifier::external_type_specification]
#[verifier::external_body]
pub struct ExUuid(Uuid);

/// Number of most recent discards each player is shown.
pub const MAX_CARD_HISTORY: usize = 8;

/// One game room: its name and capacity, whether the game has started, the
/// seated players in seating order, the next id to hand out, the room's id,
/// and how many cards have been played.
pub struct RoomActor {
    pub name: String,
    pub game_started: bool,
    pub players: IndexMap<PlayerId, Player>,
    pub max_players: usize,
    pub next_id: usize,
    pub id: Uuid,
    pub cards_played: usize,
}

/// What the directory is told about a room.
pub struct LobbyData {
    pub name: String,
    pub players: usize,
    pub max_players: usize,
    pub id: Uuid,
}

/// Why a player could not join.
#[derive(Clone, Copy, Debug, PartialEq, Eq, Structural)]
pub enum JoinError {
    AlreadyStarted,
    RoomFull,
}

impl JoinError {
    /// The reason shown to the client.
    pub fn reason(&self) -> (r: &'static str)
        ensures
            *self == JoinError::AlreadyStarted ==> r@ == "Already started"@,
            *self == JoinError::RoomFull ==> r@ == "Room is full"@,
    {
        proof {
            reveal_strlit("Already started");
            reveal_strlit("Room is full");
        }
        match self {
            JoinError::AlreadyStarted => "Already started",
            JoinError::RoomFull => "Room is full",
        }
    }
}

/// What a handled command asks to be broadcast to every seated player, in
/// order.
pub enum Notice {
    /// A chat line.
    Chat(ChatMessage),
    /// The announcement that a user joined, with the new number of players
    /// and the capacity.
    Joined { name: String, players: usize, max_players: usize },
    /// Each player's current view of the game.
    GameState,
}

/// Number of cards each player is dealt when the game starts.
pub const HAND_SIZE: usize = 7;

/// The chat line that starts the game.
pub open spec fn start_command() -> Seq<char> {
    "/start"@
}

/// Whether `c` has the Unicode White_Space property.
pub open spec fn is_white_space(c: char) -> bool {
    let u = c as u32;
    ||| 0x9 <= u <= 0xd
    ||| u == 0x20
    ||| u == 0x85
    ||| u == 0xa0
    ||| u == 0x1680
    ||| 0x2000 <= u <= 0x200a
    ||| u == 0x2028
    ||| u == 0x2029
    ||| u == 0x202f
    ||| u == 0x205f
    ||| u == 0x3000
}

/// `s` without its leading whitespace.
pub open spec fn trim_start_of(s: Seq<char>) -> Seq<char>
    decreases s.len(),
{
    if s.len() > 0 && is_white_space(s[0]) {
        trim_start_of(s.drop_first())
    } else {
        s
    }
}

/// `s` without its trailing whitespace.
pub open spec fn trim_end_of(s: Seq<char>) -> Seq<char>
    decreases s.len(),
{
    if s.len() > 0 && is_white_space(s.last()) {
        trim_end_of(s.drop_last())
    } else {
        s
    }
}

/// `s` without leading and trailing whitespace.
pub open spec fn trim_of(s: Seq<char>) -> Seq<char> {
    trim_end_of(trim_start_of(s))
}

/// Relies on `str::trim`: the text without its leading and trailing
/// whitespace, whitespace being the characters with the Unicode
/// White_Space property.
#[verifier::external_body]
fn trimmed(s: &str) -> (r: &str)
    ensures
        r@ == trim_of(s@),
{
    s.trim()
}

/// Whether an already trimmed chat line is the start command.
pub fn is_start_command(text: &str) -> (r: bool)
    ensures
        r == (text@ == start_command()),
{
    proof {
        reveal_strlit("/start");
    }
    let t = text.to_owned();
    let c = "/start".to_owned();
    t == c
}

/// The draw pile after dealing a hand to each of `k` players in turn.
pub open spec fn pile_after_deals(pile: Seq<Card>, k: nat) -> Seq<Card>
    decreases k,
{
    if k == 0 {
        pile
    } else {
        after_dealing(pile_after_deals(pile, (k - 1) as nat), HAND_SIZE as nat)
    }
}

/// Whether `c` is a number card.
pub open spec fn is_number(c: Card) -> bool {
    c.kind matches CardKind::Normal(NormalCardKind::Number(_))
}

/// The position of the last number card in `pile`, or -1 without one.
pub open spec fn last_number_index(pile: Seq<Card>) -> int
    decreases pile.len(),
{
    if pile.len() == 0 {
        -1
    } else if is_number(pile.last()) {
        pile.len() - 1
    } else {
        last_number_index(pile.drop_last())
    }
}

proof fn lemma_last_number_index_bounds(pile: Seq<Card>)
    ensures
        -1 <= last_number_index(pile) < pile.len(),
        last_number_index(pile) >= 0 ==> is_number(pile[last_number_index(pile)]),
    decreases pile.len(),
{
    if pile.len() > 0 && !is_number(pile.last()) {
        lemma_last_number_index_bounds(pile.drop_last());
    }
}

/// Computes `last_number_index`.
fn last_number_position(pile: &Vec<Card>) -> (r: Option<usize>)
    ensures
        match r {
            Some(j) => j == last_number_index(pile@),
            None => last_number_index(pile@) < 0,
        },
{
    let mut k: usize = pile.len();
    assert(pile@.take(k as int) =~= pile@);
    while k > 0
        invariant
            k <= pile@.len(),
            last_number_index(pile@) == last_number_index(pile@.take(k as int)),
        decreases k,
    {
        assert(pile@.take(k as int).drop_last() =~= pile@.take(k as int - 1));
        match pile[k - 1].kind {
            CardKind::Normal(NormalCardKind::Number(_)) => return Some(k - 1),
            _ => {},
        }
        k -= 1;
    }
    None
}

/// `room1` and `s1` are what starting the game makes of `room0` and `s0`:
/// each seated player, in seating order, is dealt a hand from the end of the
/// draw pile (as many cards as are left, if fewer); then the last number
/// card of the draw pile, if any, is taken out and opens the discard pile,
/// and the count of cards played becomes 1.
pub open spec fn game_opened(room0: RoomActor, s0: State, room1: RoomActor, s1: State) -> bool {
    let n = room0.seats().len();
    let pile0 = s0.unplayed_cards@;
    let rest = pile_after_deals(pile0, n);
    let j = last_number_index(rest);
    &&& room1.game_started
    &&& room1.seats().len() == n
    &&& forall|i: int|
        0 <= i < n ==> #[trigger] room1.seats()[i] == (
            room0.seats()[i].0,
            room0.seats()[i].1 + dealt(pile_after_deals(pile0, i as nat), HAND_SIZE as nat),
            room0.seats()[i].2,
        )
    &&& if j >= 0 {
        &&& s1.unplayed_cards@ == rest.remove(j)
        &&& s1.played_cards@ == s0.played_cards@.push(rest[j])
        &&& room1.cards_played == 1
    } else {
        &&& s1.unplayed_cards@ == rest
        &&& s1.played_cards@ == s0.played_cards@
        &&& room1.cards_played == room0.cards_played
    }
    &&& s1.turn_index == s0.turn_index
    &&& s1.turn_direction == s0.turn_direction
    &&& s1.skip_next == s0.skip_next
    &&& s1.give_next == s0.give_next
    &&& room1.name == room0.name
    &&& room1.max_players == room0.max_players
    &&& room1.next_id == room0.next_id
    &&& room1.id == room0.id
}

/// The most recent discards that players are shown, oldest first.
pub open spec fn recent(played: Seq<Card>) -> Seq<Card> {
    if played.len() > MAX_CARD_HISTORY {
        played.subrange(played.len() - MAX_CARD_HISTORY, played.len() as int)
    } else {
        played
    }
}

/// The cards of `v` from position `from` on.
fn copy_cards(v: &Vec<Card>, from: usize) -> (r: Vec<Card>)
    requires
        from <= v@.len(),
    ensures
        r@ == v@.subrange(from as int, v@.len() as int),
{
    let mut r: Vec<Card> = Vec::new();
    let mut k: usize = from;
    while k < v.len()
        invariant
            from <= k <= v@.len(),
            r@ == v@.subrange(from as int, k as int),
        decreases v@.len() - k,
    {
        r.push(v[k]);
        k += 1;
        assert(r@ =~= v@.subrange(from as int, k as int));
    }
    r
}

/// Whether `g` is what the player at seat `i` is shown of `room` and
/// `state`: every seat's user and hand size, but only the player's own hand.
pub open spec fn shows(g: GameState, room: RoomActor, state: State, i: int) -> bool {
    let seats = room.seats();
    &&& g.users@.len() == seats.len()
    &&& forall|j: int|
        0 <= j < seats.len() ==> (#[trigger] g.users@[j]).user == seats[j].2
            && g.users@[j].card_count == seats[j].1.len()
    &&& g.own_cards@ == seats[i].1
    &&& g.turn_index == state.turn_index
    &&& g.top_card == state.top()
    &&& g.self_index == i
    &&& g.direction == state.turn_direction
    &&& g.cards_played == room.cards_played
    &&& g.last_played_cards@ == recent(state.played_cards@)
}

/// `seats` with the hand at seat `t` replaced by `hand`.
pub open spec fn with_hand(seats: Seq<SeatView>, t: int, hand: Seq<Card>) -> Seq<SeatView> {
    seats.update(t, (seats[t].0, hand, seats[t].2))
}

/// `card` as played with `color` chosen: a special card takes the color,
/// any other card keeps its own.
pub open spec fn resolved(card: Card, color: Color) -> Card {
    if card.kind.is_special() {
        Card { color, ..card }
    } else {
        card
    }
}

/// A count that grows by `k`, stopping at `usize::MAX`.
pub open spec fn counted(count: usize, k: nat) -> usize {
    if count + k > usize::MAX {
        usize::MAX
    } else {
        (count + k) as usize
    }
}

/// The number of cards in the piles and in all hands.
pub open spec fn card_total(seats: Seq<SeatView>, state: State) -> nat {
    state.played_cards@.len() + state.unplayed_cards@.len() + hands_total(seats)
}

impl RoomActor {
    pub open spec fn seats(&self) -> Seq<SeatView> {
        seat_views(self.players)
    }

    /// The room and the game state agree: ids are unique and below
    /// `next_id`, the turn is at a seat (or at 0 when nobody is seated), no
    /// effect is pending between commands, and no card was made or lost.
    pub open spec fn consistent(&self, state: State) -> bool {
        &&& ids_unique(self.seats())
        &&& forall|i: int| 0 <= i < self.seats().len() ==> #[trigger] self.seats()[i].0 < self.next_id
        &&& state.turn_index < self.seats().len() || state.turn_index == 0
        &&& state.skip_next == 0
        &&& state.give_next == 0
        &&& card_total(self.seats(), state) == DECK_SIZE
    }

    /// Whether everything but the seats is as in `other`.
    pub open spec fn same_settings(&self, other: RoomActor) -> bool {
        &&& self.name == other.name
        &&& self.game_started == other.game_started
        &&& self.max_players == other.max_players
        &&& self.next_id == other.next_id
        &&& self.id == other.id
        &&& self.cards_played == other.cards_played
    }

    /// An empty room that has not started.
    pub fn new(name: String, max_players: usize, id: Uuid) -> (room: RoomActor)
        ensures
            room.name == name,
            room.max_players == max_players,
            room.id == id,
            !room.game_started,
            room.next_id == 0,
            room.cards_played == 0,
            room.seats().len() == 0,
    {
        let players = seats_new();
        proof {
            assert(seat_views(players).len() == 0);
        }
        RoomActor { name, game_started: false, players, max_players, next_id: 0, id, cards_played: 0 }
    }

    /// Whether the seat at turn is held by `id`.
    pub open spec fn has_turn(&self, state: State, id: PlayerId) -> bool {
        state.turn_index < self.seats().len() && self.seats()[state.turn_index as int].0 == id
    }

    /// The seat at turn, if `id` holds it.
    fn turn_seat(&self, state: &State, id: PlayerId) -> (r: Option<usize>)
        ensures
            r == (if self.has_turn(*state, id) {
                Some(state.turn_index)
            } else {
                None
            }),
    {
        match seat_at(&self.players, state.turn_index) {
            Some((k, _)) => if *k == id {
                Some(state.turn_index)
            } else {
                None
            },
            None => None,
        }
    }

    /// Seats a new player with an empty hand under the next id. Fails once
    /// the game has started, or when the room is at capacity.
    pub fn handle_join(&mut self, state: &State, user: User) -> (r: Result<(PlayerId, Vec<Notice>), JoinError>)
        requires
            old(self).consistent(*state),
            old(self).next_id < usize::MAX,
        ensures
            final(self).consistent(*state),
            old(self).game_started ==> r == Err::<(PlayerId, Vec<Notice>), JoinError>(JoinError::AlreadyStarted),
            !old(self).game_started && old(self).seats().len() >= old(self).max_players ==> r == Err::<(PlayerId, Vec<Notice>), JoinError>(JoinError::RoomFull),
            r is Err ==> *final(self) == *old(self),
            !old(self).game_started && old(self).seats().len() < old(self).max_players ==> {
                &&& r is Ok
                &&& r->Ok_0.0 == old(self).next_id
                &&& final(self).seats() == old(self).seats().push((old(self).next_id, Seq::empty(), user))
                &&& final(self).next_id == old(self).next_id + 1
                &&& final(self).name == old(self).name
                &&& final(self).game_started == old(self).game_started
                &&& final(self).max_players == old(self).max_players
                &&& final(self).id == old(self).id
                &&& final(self).cards_played == old(self).cards_played
                &&& r->Ok_0.1@.len() == 2
                &&& (r->Ok_0.1@[0] matches Notice::Joined { name, players, max_players }
                    && name@ == user.name@ && players == final(self).seats().len()
                    && max_players == old(self).max_players)
                &&& r->Ok_0.1@[1] is GameState
            },
    {
        if self.game_started {
            return Err(JoinError::AlreadyStarted);
        }
        if seat_count(&self.players) >= self.max_players {
            return Err(JoinError::RoomFull);
        }
        let id = self.next_id;
        let name = user.name.clone();
        let ghost seats0 = self.seats();
        let ghost u = user;
        proof {
            if is_seated(seats0, id) {
                let i = choose|i: int| 0 <= i < seats0.len() && (#[trigger] seats0[i]).0 == id;
                assert(seats0[i].0 < self.next_id);
            }
        }
        seat_insert(&mut self.players, id, Player::new(user));
        self.next_id = self.next_id + 1;
        proof {
            assert(self.seats() =~= seats0.push((id, Seq::empty(), u)));
            lemma_hands_push(seats0, (id, Seq::empty(), u));
        }
        let count = seat_count(&self.players);
        let mut notices: Vec<Notice> = Vec::new();
        notices.push(Notice::Joined { name, players: count, max_players: self.max_players });
        notices.push(Notice::GameState);
        Ok((id, notices))
    }

    /// Unseats `id`, if seated, and returns the hand to the draw pile. The
    /// turn wraps to seat 0 if it now points past the last seat.
    pub fn handle_leave(&mut self, state: &mut State, id: PlayerId)
        requires
            old(self).consistent(*old(state)),
        ensures
            final(self).consistent(*final(state)),
            final(self).same_settings(*old(self)),
            final(state).played_cards@ == old(state).played_cards@,
            final(state).turn_direction == old(state).turn_direction,
            forall|i: int|
                0 <= i < old(self).seats().len() && (#[trigger] old(self).seats()[i]).0 == id ==> {
                    &&& final(self).seats() == old(self).seats().remove(i)
                    &&& final(state).unplayed_cards@ == old(state).unplayed_cards@ + old(self).seats()[i].1
                    &&& final(state).turn_index == if old(state).turn_index < final(self).seats().len() {
                        old(state).turn_index
                    } else {
                        0
                    }
                },
            !is_seated(old(self).seats(), id) ==> final(self).seats() == old(self).seats() && *final(state) == *old(state),
    {
        let ghost seats0 = self.seats();
        let ghost pile0 = state.unplayed_cards@;
        match seat_remove(&mut self.players, id) {
            Some(p) => {
                let ghost i = choose|i: int| 0 <= i < seats0.len() && (#[trigger] seats0[i]).0 == id;
                proof {
                    assert(self.seats() =~= seats0.remove(i));
                    lemma_hands_remove(seats0, i);
                }
                let mut cards = p.cards;
                state.unplayed_cards.append(&mut cards);
                if state.turn_index >= seat_count(&self.players) {
                    state.turn_index = 0;
                }
                proof {
                    assert forall|k: int| 0 <= k < seats0.len() && (#[trigger] seats0[k]).0 == id implies k == i by {}
                    assert forall|a: int, b: int|
                        0 <= a < self.seats().len() && 0 <= b < self.seats().len() && a != b
                        implies #[trigger] self.seats()[a].0 != #[trigger] self.seats()[b].0 by {
                        let a0 = if a < i { a } else { a + 1 };
                        let b0 = if b < i { b } else { b + 1 };
                        assert(self.seats()[a] == seats0[a0]);
                        assert(self.seats()[b] == seats0[b0]);
                    }
                    assert forall|k: int| 0 <= k < self.seats().len() implies #[trigger] self.seats()[k].0 < self.next_id by {
                        let k0 = if k < i { k } else { k + 1 };
                        assert(self.seats()[k] == seats0[k0]);
                    }
                }
            },
            None => {},
        }
    }

    /// The hand at seat `t`.
    pub open spec fn hand(&self, t: int) -> Seq<Card> {
        self.seats()[t].1
    }

    /// Draws a card for `player_id`, if it is that player's turn, nothing in
    /// hand can be played and a card can be drawn; then passes the turn.
    pub fn handle_take_card(&mut self, player_id: PlayerId, state: &mut State) -> (notices: Vec<Notice>)
        requires
            old(self).consistent(*old(state)),
        ensures
            final(self).consistent(*final(state)),
            final(self).same_settings(*old(self)),
            ({
                let t = old(state).turn_index;
                let ok = old(self).has_turn(*old(state), player_id)
                    && !holds_playable(old(self).hand(t as int), old(state).top())
                    && old(state).can_draw();
                &&& !ok ==> final(self).seats() == old(self).seats() && *final(state) == *old(state)
                    && notices@.len() == 0
                &&& ok ==> {
                    &&& notices@.len() == 1
                    &&& notices@[0] is GameState
                    &&& exists|c: Card, pile: Seq<Card>| {
                        &&& draw_outcome(old(state).played_cards@, old(state).unplayed_cards@, c, final(state).played_cards@, pile)
                        &&& #[trigger] turn_advanced(pile, old(state).turn_direction, 0, 0, t as nat,
                            with_hand(old(self).seats(), t as int, old(self).hand(t as int).push(c)), *final(state), final(self).seats())
                    }
                }
            }),
    {
        let mut notices: Vec<Notice> = Vec::new();
        let t = match self.turn_seat(state, player_id) {
            Some(t) => t,
            None => return notices,
        };
        match seat_at(&self.players, t) {
            Some((_, p)) => if p.can_play_card(state) {
                return notices;
            },
            None => return notices,
        }
        if !(state.unplayed_cards.len() > 0 || state.played_cards.len() > 1) {
            return notices;
        }
        let ghost seats0 = self.seats();
        let ghost played0 = state.played_cards@;
        let ghost pile0 = state.unplayed_cards@;
        let card = state.draw_card();
        let ghost pile1 = state.unplayed_cards@;
        let p = seat_at_mut(&mut self.players, t);
        p.cards.push(card);
        let ghost mid = self.seats();
        proof {
            assert(mid =~= with_hand(seats0, t as int, seats0[t as int].1.push(card)));
            lemma_hands_update(seats0, t as int, mid[t as int]);
        }
        state.next_turn(self);
        proof {
            lemma_turn_advanced_keeps_cards(pile1, state.turn_direction, 0, 0, t as nat, mid, *state, self.seats());
            assert(ids_unique(self.seats()));
            assert(draw_outcome(played0, pile0, card, state.played_cards@, pile1));
            assert(turn_advanced(pile1, state.turn_direction, 0, 0, t as nat,
                with_hand(seats0, t as int, seats0[t as int].1.push(card)), *state, self.seats()));
        }
        notices.push(Notice::GameState);
        notices
    }

    /// Plays the card at `card_index` of `user_id`'s hand, with `new_color`
    /// as its color if it is special, provided it is that player's turn and
    /// the card may be played; then passes the turn.
    pub fn handle_play_card(&mut self, state: &mut State, user_id: PlayerId, card_index: usize, new_color: Color) -> (notices: Vec<Notice>)
        requires
            old(self).consistent(*old(state)),
        ensures
            final(self).consistent(*final(state)),
            ({
                let t = old(state).turn_index as int;
                let hand = old(self).hand(t);
                let card = resolved(hand[card_index as int], new_color);
                let ok = old(self).has_turn(*old(state), user_id) && card_index < hand.len()
                    && playable_on(card, old(state).top());
                &&& !ok ==> final(self).seats() == old(self).seats() && *final(state) == *old(state)
                    && final(self).same_settings(*old(self)) && notices@.len() == 0
                &&& ok ==> {
                    &&& notices@.len() == 1
                    &&& notices@[0] is GameState
                    &&& final(state).played_cards@ == old(state).played_cards@.push(card)
                    &&& turn_advanced(
                        old(state).unplayed_cards@,
                        direction_after(old(state).turn_direction, card.kind),
                        skip_effect(card.kind),
                        draw_effect(card.kind),
                        t as nat,
                        with_hand(old(self).seats(), t, hand.remove(card_index as int)),
                        *final(state),
                        final(self).seats(),
                    )
                    &&& final(self).cards_played == counted(old(self).cards_played, 1)
                    &&& final(self).name == old(self).name
                    &&& final(self).game_started == old(self).game_started
                    &&& final(self).max_players == old(self).max_players
                    &&& final(self).next_id == old(self).next_id
                    &&& final(self).id == old(self).id
                }
            }),
    {
        let mut notices: Vec<Notice> = Vec::new();
        let t = match self.turn_seat(state, user_id) {
            Some(t) => t,
            None => return notices,
        };
        let mut card = match seat_at(&self.players, t) {
            Some((_, p)) => if card_index < p.cards.len() {
                p.cards[card_index]
            } else {
                return notices;
            },
            None => return notices,
        };
        if card.kind.special() {
            card.color = new_color;
        }
        if !state.can_play(&card) {
            return notices;
        }
        let ghost seats0 = self.seats();
        let p = seat_at_mut(&mut self.players, t);
        p.cards.remove(card_index);
        let ghost mid = self.seats();
        proof {
            assert(mid =~= with_hand(seats0, t as int, seats0[t as int].1.remove(card_index as int)));
            lemma_hands_update(seats0, t as int, mid[t as int]);
        }
        let ghost pile = state.unplayed_cards@;
        state.place_card(card);
        state.next_turn(self);
        proof {
            lemma_turn_advanced_keeps_cards(pile, state.turn_direction, skip_effect(card.kind), draw_effect(card.kind), t as nat, mid, *state, self.seats());
            assert(ids_unique(self.seats()));
        }
        self.cards_played = self.cards_played.saturating_add(1);
        notices.push(Notice::GameState);
        notices
    }

    /// Plays the cards at `card_indeces` of `user_id`'s hand as one run, in
    /// that order, provided it is that player's turn and the run is valid;
    /// then passes the turn once.
    pub fn handle_play_cards(&mut self, user_id: PlayerId, state: &mut State, card_indeces: Vec<usize>) -> (notices: Vec<Notice>)
        requires
            old(self).consistent(*old(state)),
        ensures
            final(self).consistent(*final(state)),
            ({
                let t = old(state).turn_index;
                let hand = old(self).hand(t as int);
                let run = run_cards(hand, card_indeces@);
                let ok = old(self).has_turn(*old(state), user_id)
                    && valid_run(hand, card_indeces@, old(state).top());
                &&& !ok ==> final(self).seats() == old(self).seats() && *final(state) == *old(state)
                    && final(self).same_settings(*old(self)) && notices@.len() == 0
                &&& ok ==> {
                    &&& notices@.len() == 1
                    &&& notices@[0] is GameState
                    &&& final(state).played_cards@ == old(state).played_cards@ + run
                    &&& turn_advanced(
                        old(state).unplayed_cards@,
                        run_direction(old(state).turn_direction, run),
                        run_skips(run),
                        run_draws(run),
                        t as nat,
                        with_hand(old(self).seats(), t as int, hand_without(hand, card_indeces@)),
                        *final(state),
                        final(self).seats(),
                    )
                    &&& final(self).cards_played == counted(old(self).cards_played, card_indeces@.len())
                    &&& final(self).name == old(self).name
                    &&& final(self).game_started == old(self).game_started
                    &&& final(self).max_players == old(self).max_players
                    &&& final(self).next_id == old(self).next_id
                    &&& final(self).id == old(self).id
                }
            }),
    {
        let mut notices: Vec<Notice> = Vec::new();
        let t = match self.turn_seat(state, user_id) {
            Some(t) => t,
            None => return notices,
        };
        let (run, rest) = match seat_at(&self.players, t) {
            Some((_, p)) => {
                if !p.can_play_consecutive_cards(state, card_indeces.as_slice()) {
                    return notices;
                }
                (p.run_of(card_indeces.as_slice()), p.without(card_indeces.as_slice()))
            },
            None => return notices,
        };
        let ghost seats0 = self.seats();
        let ghost played0 = state.played_cards@;
        let ghost pile = state.unplayed_cards@;
        let ghost dir0 = state.turn_direction;
        let p = seat_at_mut(&mut self.players, t);
        p.cards = rest;
        let ghost mid = self.seats();
        proof {
            assert(mid =~= with_hand(seats0, t as int, hand_without(seats0[t as int].1, card_indeces@)));
            lemma_hands_update(seats0, t as int, mid[t as int]);
            lemma_hand_within_total(seats0, t as int);
            assert(run@.len() <= DECK_SIZE);
        }
        let mut j: usize = 0;
        while j < run.len()
            invariant
                j <= run@.len(),
                run@.len() <= DECK_SIZE,
                state.played_cards@ == played0 + run@.take(j as int),
                state.unplayed_cards@ == pile,
                state.turn_index == t,
                state.skip_next == run_skips(run@.take(j as int)),
                state.give_next == run_draws(run@.take(j as int)),
                state.turn_direction == run_direction(dir0, run@.take(j as int)),
                state.skip_next <= j,
                state.give_next <= 4 * j,
            decreases run@.len() - j,
        {
            let ghost before = run@.take(j as int);
            state.place_card(run[j]);
            j += 1;
            proof {
                assert(run@.take(j as int).drop_last() =~= before);
                assert(state.played_cards@ =~= played0 + run@.take(j as int));
            }
        }
        proof {
            assert(run@.take(j as int) =~= run@);
        }
        state.next_turn(self);
        proof {
            lemma_turn_advanced_keeps_cards(pile, state.turn_direction, run_skips(run@), run_draws(run@), t as nat, mid, *state, self.seats());
            assert(ids_unique(self.seats()));
        }
        self.cards_played = self.cards_played.saturating_add(card_indeces.len());
        notices.push(Notice::GameState);
        notices
    }

    /// Starts the game: deals every seated player a hand and opens the
    /// discard pile with a number card.
    pub fn start(&mut self, state: &mut State) -> (notices: Vec<Notice>)
        requires
            old(self).consistent(*old(state)),
        ensures
            final(self).consistent(*final(state)),
            game_opened(*old(self), *old(state), *final(self), *final(state)),
            notices@.len() == 1,
            notices@[0] is GameState,
    {
        let ghost seats0 = self.seats();
        let ghost pile0 = state.unplayed_cards@;
        let ghost room0 = *self;
        let ghost state0 = *state;
        let n = seat_count(&self.players);
        let mut i: usize = 0;
        while i < n
            invariant
                n == seats0.len(),
                i <= n,
                self.seats().len() == n,
                forall|k: int|
                    0 <= k < i ==> #[trigger] self.seats()[k] == (
                        seats0[k].0,
                        seats0[k].1 + dealt(pile_after_deals(pile0, k as nat), HAND_SIZE as nat),
                        seats0[k].2,
                    ),
                forall|k: int| i <= k < n ==> #[trigger] self.seats()[k] == seats0[k],
                state.unplayed_cards@ == pile_after_deals(pile0, i as nat),
                state.unplayed_cards@.len() + hands_total(self.seats()) == pile0.len() + hands_total(seats0),
                self.same_settings(room0),
                state.played_cards@ == state0.played_cards@,
                state.turn_index == state0.turn_index,
                state.turn_direction == state0.turn_direction,
                state.skip_next == state0.skip_next,
                state.give_next == state0.give_next,
            decreases n - i,
        {
            let len = state.unplayed_cards.len();
            let g = if HAND_SIZE < len {
                HAND_SIZE
            } else {
                len
            };
            let ghost pile = state.unplayed_cards@;
            let ghost seats1 = self.seats();
            let mut cards = state.unplayed_cards.split_off(len - g);
            assert(cards@ == dealt(pile, HAND_SIZE as nat));
            assert(state.unplayed_cards@ =~= after_dealing(pile, HAND_SIZE as nat));
            let p = seat_at_mut(&mut self.players, i);
            p.cards.append(&mut cards);
            proof {
                let e = (seats1[i as int].0, seats1[i as int].1 + dealt(pile, HAND_SIZE as nat), seats1[i as int].2);
                assert(self.seats() =~= seats1.update(i as int, e));
                lemma_hands_update(seats1, i as int, e);
            }
            i += 1;
        }
        self.game_started = true;
        let ghost rest = state.unplayed_cards@;
        let ghost seats1 = self.seats();
        proof {
            lemma_last_number_index_bounds(rest);
            assert forall|a: int, b: int|
                0 <= a < seats1.len() && 0 <= b < seats1.len() && a != b
                implies #[trigger] seats1[a].0 != #[trigger] seats1[b].0 by {
                assert(seats1[a].0 == seats0[a].0);
                assert(seats1[b].0 == seats0[b].0);
            }
            assert forall|k: int| 0 <= k < seats1.len() implies #[trigger] seats1[k].0 < self.next_id by {
                assert(seats1[k].0 == seats0[k].0);
            }
        }
        match last_number_position(&state.unplayed_cards) {
            Some(j) => {
                let c = state.unplayed_cards.remove(j);
                state.place_card(c);
                self.cards_played = 1;
            },
            None => {},
        }
        let mut notices: Vec<Notice> = Vec::new();
        notices.push(Notice::GameState);
        notices
    }

    /// Handles a chat line from `user_id`: from a seated player, before the
    /// game has started, the start command starts it; a seated player's line
    /// is then broadcast under that player's name.
    pub fn handle_send_message(&mut self, content: String, state: &mut State, user_id: PlayerId) -> (notices: Vec<Notice>)
        requires
            old(self).consistent(*old(state)),
        ensures
            final(self).consistent(*final(state)),
            ({
                let seated = is_seated(old(self).seats(), user_id);
                let go = seated && !old(self).game_started && trim_of(content@) == start_command();
                let chat = if go { 1int } else { 0int };
                &&& go ==> game_opened(*old(self), *old(state), *final(self), *final(state))
                    && notices@[0] is GameState
                &&& !go ==> final(self).seats() == old(self).seats() && *final(state) == *old(state)
                    && final(self).same_settings(*old(self))
                &&& seated ==> notices@.len() == chat + 1
                &&& !seated ==> notices@.len() == 0
                &&& forall|i: int|
                    0 <= i < old(self).seats().len() && (#[trigger] old(self).seats()[i]).0 == user_id
                        ==> (notices@[chat] matches Notice::Chat(m)
                        && m.content@ == content@ && m.user_name@ == old(self).seats()[i].2.name@)
            }),
    {
        let sender = match seat_get(&self.players, user_id) {
            Some(p) => Some(p.user.name.clone()),
            None => None,
        };
        let mut notices: Vec<Notice> = Vec::new();
        match sender {
            Some(user_name) => {
                if !self.game_started && is_start_command(trimmed(content.as_str())) {
                    notices = self.start(state);
                }
                notices.push(Notice::Chat(ChatMessage { content, user_name }));
            },
            None => {},
        }
        notices
    }

    /// What every player is shown of the seats.
    pub fn player_infos(&self) -> (r: Vec<PlayerInfo>)
        ensures
            r@.len() == self.seats().len(),
            forall|j: int|
                0 <= j < self.seats().len() ==> (#[trigger] r@[j]).user == self.seats()[j].2
                    && r@[j].card_count == self.seats()[j].1.len(),
    {
        let n = seat_count(&self.players);
        let mut r: Vec<PlayerInfo> = Vec::new();
        let mut j: usize = 0;
        while j < n
            invariant
                n == self.seats().len(),
                j <= n,
                r@.len() == j,
                forall|k: int|
                    0 <= k < j ==> (#[trigger] r@[k]).user == self.seats()[k].2
                        && r@[k].card_count == self.seats()[k].1.len(),
            decreases n - j,
        {
            match seat_at(&self.players, j) {
                Some((_, p)) => {
                    r.push(PlayerInfo { user: p.user.copied(), card_count: p.cards.len() });
                },
                None => {},
            }
            j += 1;
        }
        r
    }

    /// Each seated player's id and view of the game, in seating order.
    pub fn game_states(&self, state: &State) -> (r: Vec<(PlayerId, GameState)>)
        ensures
            r@.len() == self.seats().len(),
            forall|i: int|
                0 <= i < self.seats().len() ==> (#[trigger] r@[i]).0 == self.seats()[i].0
                    && shows(r@[i].1, *self, *state, i),
    {
        let n = seat_count(&self.players);
        let len = state.played_cards.len();
        let top_card = if len > 0 {
            Some(state.played_cards[len - 1])
        } else {
            None
        };
        let from = if len > MAX_CARD_HISTORY {
            len - MAX_CARD_HISTORY
        } else {
            0
        };
        let mut r: Vec<(PlayerId, GameState)> = Vec::new();
        let mut i: usize = 0;
        while i < n
            invariant
                n == self.seats().len(),
                i <= n,
                r@.len() == i,
                len == state.played_cards@.len(),
                top_card == state.top(),
                from == (if len > MAX_CARD_HISTORY { len - MAX_CARD_HISTORY } else { 0 }),
                forall|k: int|
                    0 <= k < i ==> (#[trigger] r@[k]).0 == self.seats()[k].0
                        && shows(r@[k].1, *self, *state, k),
            decreases n - i,
        {
            match seat_at(&self.players, i) {
                Some((id, p)) => {
                    let history = copy_cards(&state.played_cards, from);
                    proof {
                        assert(history@ =~= recent(state.played_cards@));
                    }
                    let g = GameState {
                        users: self.player_infos(),
                        direction: state.turn_direction,
                        own_cards: copy_cards(&p.cards, 0),
                        turn_index: state.turn_index,
                        top_card,
                        self_index: i,
                        cards_played: self.cards_played,
                        last_played_cards: history,
                    };
                    proof {
                        assert(g.own_cards@ =~= self.seats()[i as int].1);
                    }
                    r.push((*id, g));
                },
                None => {},
            }
            i += 1;
        }
        r
    }

    /// What the directory is told about this room.
    pub fn lobby_data(&self) -> (d: LobbyData)
        ensures
            d.name == self.name,
            d.players == self.seats().len(),
            d.max_players == self.max_players,
            d.id == self.id,
    {
        LobbyData {
            name: self.name.clone(),
            players: seat_count(&self.players),
            max_players: self.max_players,
            id: self.id,
        }
    }
}

/// A fresh game in an empty room is consistent.
pub proof fn lemma_fresh_room_consistent(room: RoomActor, state: State)
    requires
        room.seats().len() == 0,
        state.turn_index == 0,
        state.skip_next == 0,
        state.give_next == 0,
        state.played_cards@.len() + state.unplayed_cards@.len() == DECK_SIZE,
    ensures
        room.consistent(state),
{
}

} // verus!
