//! The turn state machine: draw and discard piles, turn order, and the
//! pending effects of played cards.

use vstd::prelude::*;
use vstd::arithmetic::div_mod::{lemma_add_mod_noop, lemma_fundamental_div_mod_converse, lemma_small_mod, lemma_sub_mod_noop};
use crate::card::{Card, CardKind, Color, NormalCardKind, SpecialCardKind};
use crate::room::RoomActor;
use crate::seating::{hands_total, lemma_hands_update, seat_at_mut, seat_count, SeatView};

verus! {

/// Number of cards of each color in a fresh deck.
pub const CARDS_PER_COLOR: u8 = 25;

/// Number of colored cards in a fresh deck: four colors.
pub const COLORED_CARDS: u8 = 100;

/// Number of cards in a fresh deck; it never changes for the life of a room.
pub const DECK_SIZE: u8 = 104;

#[derive(Clone, Copy, Debug, PartialEq, Eq, Structural)]
pub enum TurnDirection {
    Clockwise,
    CounterClockwise,
}

impl TurnDirection {
    pub open spec fn flipped(self) -> TurnDirection {
        match self {
            TurnDirection::Clockwise => TurnDirection::CounterClockwise,
            TurnDirection::CounterClockwise => TurnDirection::Clockwise,
        }
    }

    pub fn flip(&self) -> (r: Self)
        ensures
            r == self.flipped(),
    {
        match self {
            TurnDirection::Clockwise => TurnDirection::CounterClockwise,
            TurnDirection::CounterClockwise => TurnDirection::Clockwise,
        }
    }
}

/// Color of the `c`-th block of a fresh deck.
pub open spec fn deck_color(c: int) -> Color {
    if c == 0 {
        Color::Red
    } else if c == 1 {
        Color::Green
    } else if c == 2 {
        Color::Yellow
    } else {
        Color::Blue
    }
}

/// The `i`-th card of a fresh, unshuffled deck. It starts with a block of
/// 25 cards for each color: one zero, then twice the run 1..9, Block,
/// Reverse, PlusTwo. Then come two PlusFour and two ChangeColor, uncolored.
/// A card's id is its position.
pub open spec fn deck_card(i: int) -> Card {
    if i < COLORED_CARDS {
        let color = deck_color(i / 25);
        let r = i % 25;
        let k = (r - 1) % 12;
        let kind = if r == 0 {
            NormalCardKind::Number(0)
        } else if k < 9 {
            NormalCardKind::Number((k + 1) as u8)
        } else if k == 9 {
            NormalCardKind::Block
        } else if k == 10 {
            NormalCardKind::Reverse
        } else {
            NormalCardKind::PlusTwo
        };
        Card { color, kind: CardKind::Normal(kind), id: i as u8 }
    } else if i < COLORED_CARDS + 2 {
        Card {
            color: Color::Uncolored,
            kind: CardKind::Special(SpecialCardKind::PlusFour),
            id: i as u8,
        }
    } else {
        Card {
            color: Color::Uncolored,
            kind: CardKind::Special(SpecialCardKind::ChangeColor),
            id: i as u8,
        }
    }
}

/// The fresh deck, in its order before shuffling.
pub open spec fn initial_deck() -> Seq<Card> {
    Seq::new(DECK_SIZE as nat, |i: int| deck_card(i))
}

/// Computes `deck_card(i)`.
fn deck_card_at(i: u8) -> (c: Card)
    requires
        i < DECK_SIZE,
    ensures
        c == deck_card(i as int),
{
    if i >= COLORED_CARDS + 2 {
        return Card::change_color(i);
    }
    if i >= COLORED_CARDS {
        return Card::plus_four(i);
    }
    let block = i / CARDS_PER_COLOR;
    let r = i % CARDS_PER_COLOR;
    let color = if block == 0 {
        Color::Red
    } else if block == 1 {
        Color::Green
    } else if block == 2 {
        Color::Yellow
    } else {
        Color::Blue
    };
    if r == 0 {
        return Card::number(0, color, i);
    }
    let k = (r - 1) % 12;
    if k < 9 {
        Card::number(k + 1, color, i)
    } else if k == 9 {
        Card::block(color, i)
    } else if k == 10 {
        Card::reverse(color, i)
    } else {
        Card::plus_two(color, i)
    }
}

/// Builds the fresh deck in its fixed order.
pub fn build_initial_deck() -> (deck: Vec<Card>)
    ensures
        deck@ == initial_deck(),
{
    let mut deck: Vec<Card> = Vec::new();
    let mut i: u8 = 0;
    while i < DECK_SIZE
        invariant
            i <= DECK_SIZE,
            deck@ == Seq::new(i as nat, |j: int| deck_card(j)),
        decreases DECK_SIZE - i,
    {
        let c = deck_card_at(i);
        deck.push(c);
        i += 1;
        assert(deck@ =~= Seq::new(i as nat, |j: int| deck_card(j)));
    }
    deck
}


/// Relies on rand's `SliceRandom::shuffle` with the thread-local generator:
/// it only swaps elements, so the cards stay the same as a multiset.
#[verifier::external_body]
fn shuffle_cards(cards: &mut Vec<Card>)
    ensures
        final(cards)@.to_multiset() == old(cards)@.to_multiset(),
        final(cards)@.len() == old(cards)@.len(),
{
    rand::seq::SliceRandom::shuffle(cards.as_mut_slice(), &mut rand::thread_rng());
}

/// Whether `card` may be played on a discard pile whose top is `top`.
/// An uncolored card never is; on an empty pile anything else is; a special
/// card always is; a colored card is when it shares the top's color or kind
/// (for numbers, the value).
pub open spec fn playable_on(card: Card, top: Option<Card>) -> bool {
    card.color != Color::Uncolored && match top {
        None => true,
        Some(t) => card.kind.is_special() || card.color == t.color || card.kind == t.kind,
    }
}

/// Seats skipped by the next turn advance because of `kind`.
pub open spec fn skip_effect(kind: CardKind) -> nat {
    if kind == CardKind::Normal(NormalCardKind::Block) {
        1
    } else {
        0
    }
}

/// Cards the next player must draw because of `kind`.
pub open spec fn draw_effect(kind: CardKind) -> nat {
    if kind == CardKind::Normal(NormalCardKind::PlusTwo) {
        2
    } else if kind == CardKind::Special(SpecialCardKind::PlusFour) {
        4
    } else {
        0
    }
}

/// Turn direction after `kind` is played.
pub open spec fn direction_after(dir: TurnDirection, kind: CardKind) -> TurnDirection {
    if kind == CardKind::Normal(NormalCardKind::Reverse) {
        dir.flipped()
    } else {
        dir
    }
}

/// Seats skipped after the cards of `run` are placed in order.
pub open spec fn run_skips(run: Seq<Card>) -> nat
    decreases run.len(),
{
    if run.len() == 0 {
        0
    } else {
        run_skips(run.drop_last()) + skip_effect(run.last().kind)
    }
}

/// Cards to draw after the cards of `run` are placed in order.
pub open spec fn run_draws(run: Seq<Card>) -> nat
    decreases run.len(),
{
    if run.len() == 0 {
        0
    } else {
        run_draws(run.drop_last()) + draw_effect(run.last().kind)
    }
}

/// Direction of play after the cards of `run` are placed in order.
pub open spec fn run_direction(dir: TurnDirection, run: Seq<Card>) -> TurnDirection
    decreases run.len(),
{
    if run.len() == 0 {
        dir
    } else {
        direction_after(run_direction(dir, run.drop_last()), run.last().kind)
    }
}

/// The seat after `t` among `n` seats, one step in direction `dir`:
/// clockwise goes down and wraps from 0 to `n - 1`, counter-clockwise goes
/// up and wraps to 0. With no seats it is 0.
pub open spec fn step(t: nat, dir: TurnDirection, n: nat) -> nat {
    if n == 0 {
        0
    } else {
        match dir {
            TurnDirection::Clockwise => if t == 0 {
                (n - 1) as nat
            } else {
                (t - 1) as nat
            },
            TurnDirection::CounterClockwise => if t + 1 >= n {
                0
            } else {
                t + 1
            },
        }
    }
}

/// The seat `k` steps after `t`.
pub open spec fn advance(t: nat, dir: TurnDirection, n: nat, k: nat) -> nat
    decreases k,
{
    if k == 0 {
        t
    } else {
        step(advance(t, dir, n, (k - 1) as nat), dir, n)
    }
}

/// Computes `step(t, dir, n)`.
fn step_seat(t: usize, dir: TurnDirection, n: usize) -> (r: usize)
    ensures
        r == step(t as nat, dir, n as nat),
{
    if n == 0 {
        return 0;
    }
    match dir {
        TurnDirection::Clockwise => if t == 0 {
            n - 1
        } else {
            t - 1
        },
        TurnDirection::CounterClockwise => if t >= n - 1 {
            0
        } else {
            t + 1
        },
    }
}

/// From a seat `t < n`, `k` steps land `k` seats away in the direction of
/// play, counted modulo `n`.
pub proof fn lemma_advance_moves_k_seats(t: nat, dir: TurnDirection, n: nat, k: nat)
    requires
        t < n,
    ensures
        advance(t, dir, n, k) == match dir {
            TurnDirection::Clockwise => (t - k) % (n as int),
            TurnDirection::CounterClockwise => (t + k) as int % (n as int),
        },
    decreases k,
{
    let m = n as int;
    if k == 0 {
        lemma_small_mod(t, n);
    } else {
        lemma_advance_moves_k_seats(t, dir, n, (k - 1) as nat);
        let a = advance(t, dir, n, (k - 1) as nat) as int;
        match dir {
            TurnDirection::Clockwise => {
                assert(a == (t - (k - 1)) % m);
                lemma_sub_mod_noop(t - (k - 1), 1, m);
                if n == 1 {
                    assert(((t - k) % m) == 0) by {
                        lemma_fundamental_div_mod_converse(t - k, m, t - k, 0);
                    }
                } else {
                    lemma_small_mod(1, n);
                    if a == 0 {
                        lemma_fundamental_div_mod_converse(-1, m, -1, m - 1);
                    } else {
                        lemma_small_mod((a - 1) as nat, n);
                    }
                }
            },
            TurnDirection::CounterClockwise => {
                assert(a == (t + (k - 1)) as int % m);
                lemma_add_mod_noop((t + (k - 1)) as int, 1, m);
                if n == 1 {
                    assert(((t + k) as int % m) == 0) by {
                        lemma_fundamental_div_mod_converse((t + k) as int, m, (t + k) as int, 0);
                    }
                } else {
                    lemma_small_mod(1, n);
                    if a + 1 >= m {
                        lemma_fundamental_div_mod_converse(m, m, 1, 0);
                    } else {
                        lemma_small_mod((a + 1) as nat, n);
                    }
                }
            },
        }
    }
}

/// Two stacked Blocks make the turn advance skip two seats beyond the
/// normal one, in the direction of play, and both pending effects are
/// cleared afterwards whatever the number of seats.
pub proof fn lemma_two_blocks_skip_two_seats(
    first: CardKind,
    second: CardKind,
    pile: Seq<Card>,
    dir: TurnDirection,
    give: nat,
    t: nat,
    seats: Seq<SeatView>,
    after: State,
    seats_after: Seq<SeatView>,
)
    requires
        first == CardKind::Normal(NormalCardKind::Block),
        second == CardKind::Normal(NormalCardKind::Block),
        turn_advanced(pile, dir, skip_effect(first) + skip_effect(second), give, t, seats, after, seats_after),
    ensures
        after.skip_next == 0,
        after.give_next == 0,
        t < seats.len() ==> after.turn_index == match dir {
            TurnDirection::Clockwise => (t - 3) % (seats.len() as int),
            TurnDirection::CounterClockwise => (t + 3) as int % (seats.len() as int),
        },
{
    if t < seats.len() {
        lemma_advance_moves_k_seats(t, dir, seats.len(), 3);
    }
}

/// The cards dealt from the end of `pile` for a penalty of `give`: all the
/// pile holds, if that is fewer.
pub open spec fn dealt(pile: Seq<Card>, give: nat) -> Seq<Card> {
    if give < pile.len() {
        pile.subrange(pile.len() - give, pile.len() as int)
    } else {
        pile
    }
}

/// What is left of `pile` after dealing `dealt(pile, give)`.
pub open spec fn after_dealing(pile: Seq<Card>, give: nat) -> Seq<Card> {
    if give < pile.len() {
        pile.subrange(0, pile.len() - give)
    } else {
        Seq::empty()
    }
}

/// `after` is what the turn advance makes of a game whose draw pile is
/// `pile`, direction `dir`, pending effects `skip` and `give`, turn at `t`,
/// and whose seats are `seats`; `seats_after` are its seats afterwards. The
/// turn moves `skip + 1` seats; then, if `give` is positive and someone sits
/// there, that player takes `dealt(pile, give)` into hand. Both pending
/// effects are cleared in every case.
pub open spec fn turn_advanced(
    pile: Seq<Card>,
    dir: TurnDirection,
    skip: nat,
    give: nat,
    t: nat,
    seats: Seq<SeatView>,
    after: State,
    seats_after: Seq<SeatView>,
) -> bool {
    let n = seats.len();
    let t1 = advance(t, dir, n, skip + 1);
    &&& after.turn_index == t1
    &&& after.skip_next == 0
    &&& after.give_next == 0
    &&& after.turn_direction == dir
    &&& if give > 0 && t1 < n {
        &&& after.unplayed_cards@ == after_dealing(pile, give)
        &&& seats_after == seats.update(
            t1 as int,
            (seats[t1 as int].0, seats[t1 as int].1 + dealt(pile, give), seats[t1 as int].2),
        )
    } else {
        &&& after.unplayed_cards@ == pile
        &&& seats_after == seats
    }
}

/// From a seat in range, any number of steps stays in range; with no seats,
/// at least one step lands on 0.
pub proof fn lemma_advance_in_range(t: nat, dir: TurnDirection, n: nat, k: nat)
    requires
        t < n || (n == 0 && k > 0),
    ensures
        advance(t, dir, n, k) < n || (n == 0 && advance(t, dir, n, k) == 0),
    decreases k,
{
    if k > 0 && (n > 0 || k > 1) {
        lemma_advance_in_range(t, dir, n, (k - 1) as nat);
    }
}

/// The turn advance keeps the seats' ids and users, moves cards from the
/// draw pile into hands only, and leaves the turn on a seat (or at 0 when
/// nobody is seated).
pub proof fn lemma_turn_advanced_keeps_cards(
    pile: Seq<Card>,
    dir: TurnDirection,
    skip: nat,
    give: nat,
    t: nat,
    seats: Seq<SeatView>,
    after: State,
    seats_after: Seq<SeatView>,
)
    requires
        turn_advanced(pile, dir, skip, give, t, seats, after, seats_after),
        t < seats.len() || t == 0,
    ensures
        after.unplayed_cards@.len() + hands_total(seats_after) == pile.len() + hands_total(seats),
        seats_after.len() == seats.len(),
        forall|i: int| 0 <= i < seats.len() ==> (#[trigger] seats_after[i]).0 == seats[i].0 && seats_after[i].2 == seats[i].2,
        after.turn_index < seats.len() || after.turn_index == 0,
{
    let n = seats.len();
    let t1 = advance(t, dir, n, skip + 1);
    lemma_advance_in_range(t, dir, n, skip + 1);
    if give > 0 && t1 < n {
        let e = (seats[t1 as int].0, seats[t1 as int].1 + dealt(pile, give), seats[t1 as int].2);
        lemma_hands_update(seats, t1 as int, e);
    }
}

/// `card` is drawn from a game whose piles were `played` and `unplayed`,
/// leaving them `played1` and `unplayed1`: the top of the draw pile if it
/// has one; otherwise the discards but the top one are shuffled into the
/// draw pile and the card is drawn from there.
pub open spec fn draw_outcome(
    played: Seq<Card>,
    unplayed: Seq<Card>,
    card: Card,
    played1: Seq<Card>,
    unplayed1: Seq<Card>,
) -> bool {
    if unplayed.len() > 0 {
        &&& card == unplayed.last()
        &&& unplayed1 == unplayed.drop_last()
        &&& played1 == played
    } else {
        &&& played1 == seq![played.last()]
        &&& unplayed1.push(card).to_multiset() == played.drop_last().to_multiset()
        &&& unplayed1.len() + 2 == played.len()
    }
}

/// A draw takes exactly one card out of the piles: the rest stay in them.
pub proof fn lemma_draw_takes_one_card(
    played: Seq<Card>,
    unplayed: Seq<Card>,
    card: Card,
    played1: Seq<Card>,
    unplayed1: Seq<Card>,
)
    requires
        draw_outcome(played, unplayed, card, played1, unplayed1),
    ensures
        played1.len() + unplayed1.len() + 1 == played.len() + unplayed.len(),
        unplayed.len() == 0 ==> played1.len() == 1 && played1[0] == played.last(),
{
}

/// On a special top card, a colored card of another color is never
/// playable, and a special card with a chosen color always is.
pub proof fn lemma_special_top(card: Card, top: Card)
    requires
        top.kind.is_special(),
        card.color != Color::Uncolored,
    ensures
        !card.kind.is_special() && card.color != top.color ==> !playable_on(card, Some(top)),
        card.kind.is_special() ==> playable_on(card, Some(top)),
{
}

/// The state of one game: the discard pile (`played_cards`, oldest first),
/// the draw pile (`unplayed_cards`, drawn from its end), the direction of
/// play, the seats to skip and the cards to deal at the next turn advance,
/// and the seat whose turn it is.
pub struct State {
    pub played_cards: Vec<Card>,
    pub unplayed_cards: Vec<Card>,
    pub turn_direction: TurnDirection,
    pub skip_next: usize,
    pub give_next: usize,
    pub turn_index: usize,
}

impl State {
    /// The top of the discard pile.
    pub open spec fn top(&self) -> Option<Card> {
        if self.played_cards@.len() > 0 {
            Some(self.played_cards@.last())
        } else {
            None
        }
    }

    /// Whether a card can be drawn: the draw pile holds one, or the discard
    /// pile holds one besides its top.
    pub open spec fn can_draw(&self) -> bool {
        self.unplayed_cards@.len() > 0 || self.played_cards@.len() > 1
    }

    /// Pops the top card of the draw pile. When the draw pile is empty, every
    /// discarded card but the top one is shuffled into it first, and the top
    /// one stays alone on the discard pile.
    pub fn draw_card(&mut self) -> (card: Card)
        requires
            old(self).can_draw(),
        ensures
            draw_outcome(
                old(self).played_cards@,
                old(self).unplayed_cards@,
                card,
                final(self).played_cards@,
                final(self).unplayed_cards@,
            ),
            final(self).turn_direction == old(self).turn_direction,
            final(self).skip_next == old(self).skip_next,
            final(self).give_next == old(self).give_next,
            final(self).turn_index == old(self).turn_index,
    {
        if self.unplayed_cards.len() == 0 {
            let top = self.played_cards.pop().unwrap();
            std::mem::swap(&mut self.unplayed_cards, &mut self.played_cards);
            shuffle_cards(&mut self.unplayed_cards);
            self.played_cards = vec![top];
            let ghost shuffled = self.unplayed_cards@;
            let card = self.unplayed_cards.pop().unwrap();
            proof {
                assert(shuffled == self.unplayed_cards@.push(card));
                assert(self.played_cards@ =~= seq![top]);
            }
            card
        } else {
            self.unplayed_cards.pop().unwrap()
        }
    }

    /// Puts `card` on the discard pile and records its effect: a Block adds a
    /// seat to skip, a Reverse flips the direction, a PlusTwo or PlusFour adds
    /// two or four cards for the next player to draw. Effects accumulate.
    pub fn place_card(&mut self, card: Card)
        requires
            old(self).skip_next < usize::MAX,
            old(self).give_next <= usize::MAX - 4,
        ensures
            final(self).played_cards@ == old(self).played_cards@.push(card),
            final(self).unplayed_cards@ == old(self).unplayed_cards@,
            final(self).skip_next == old(self).skip_next + skip_effect(card.kind),
            final(self).give_next == old(self).give_next + draw_effect(card.kind),
            final(self).turn_direction == direction_after(old(self).turn_direction, card.kind),
            final(self).turn_index == old(self).turn_index,
    {
        match card.kind {
            CardKind::Normal(k) => match k {
                NormalCardKind::Block => self.skip_next = self.skip_next + 1,
                NormalCardKind::Reverse => self.turn_direction = self.turn_direction.flip(),
                NormalCardKind::PlusTwo => self.give_next = self.give_next + 2,
                NormalCardKind::Number(_) => {},
            },
            CardKind::Special(k) => match k {
                SpecialCardKind::PlusFour => self.give_next = self.give_next + 4,
                SpecialCardKind::ChangeColor => {},
            },
        }
        self.played_cards.push(card);
    }

    /// Whether `card` may be played now.
    pub fn can_play(&self, card: &Card) -> (r: bool)
        ensures
            r == playable_on(*card, self.top()),
    {
        if card.color == Color::Uncolored {
            return false;
        }
        let n = self.played_cards.len();
        if n == 0 {
            return true;
        }
        let top = &self.played_cards[n - 1];
        match card.kind {
            CardKind::Special(_) => true,
            CardKind::Normal(_) => card.color == top.color || card.kind == top.kind,
        }
    }

    /// Passes the turn: moves `skip_next + 1` seats in the direction of play,
    /// deals the pending draw penalty from the end of the draw pile to the
    /// player now at turn, and clears both pending effects.
    pub fn next_turn(&mut self, room: &mut RoomActor)
        ensures
            turn_advanced(
                old(self).unplayed_cards@,
                old(self).turn_direction,
                old(self).skip_next as nat,
                old(self).give_next as nat,
                old(self).turn_index as nat,
                old(room).seats(),
                *final(self),
                final(room).seats(),
            ),
            final(self).played_cards@ == old(self).played_cards@,
            final(room).same_settings(*old(room)),
    {
        let n = seat_count(&room.players);
        let ghost t0 = self.turn_index as nat;
        let dir = self.turn_direction;
        let skip = self.skip_next;
        let mut t = step_seat(self.turn_index, dir, n);
        assert(advance(t0, dir, n as nat, 0) == t0);
        let mut done: usize = 0;
        while done < skip
            invariant
                done <= skip,
                t == advance(t0, dir, n as nat, done as nat + 1),
            decreases skip - done,
        {
            t = step_seat(t, dir, n);
            done += 1;
        }
        self.turn_index = t;
        if self.give_next > 0 && t < n {
            let len = self.unplayed_cards.len();
            let g = if self.give_next < len {
                self.give_next
            } else {
                len
            };
            let ghost pile = self.unplayed_cards@;
            let ghost seats0 = room.seats();
            let mut cards = self.unplayed_cards.split_off(len - g);
            assert(cards@ == dealt(pile, self.give_next as nat));
            assert(self.unplayed_cards@ =~= after_dealing(pile, self.give_next as nat));
            let p = seat_at_mut(&mut room.players, t);
            p.cards.append(&mut cards);
            proof {
                assert(room.seats() =~= seats0.update(
                    t as int,
                    (seats0[t as int].0, seats0[t as int].1 + dealt(pile, self.give_next as nat), seats0[t as int].2),
                ));
            }
        }
        self.skip_next = 0;
        self.give_next = 0;
    }

    /// A fresh game: the whole deck in its fixed order on the draw pile, an
    /// empty discard pile, clockwise play from seat 0, nothing pending.
    pub fn new() -> (s: State)
        ensures
            s.unplayed_cards@ == initial_deck(),
            s.played_cards@.len() == 0,
            s.turn_direction == TurnDirection::Clockwise,
            s.skip_next == 0,
            s.give_next == 0,
            s.turn_index == 0,
    {
        State {
            played_cards: Vec::new(),
            unplayed_cards: build_initial_deck(),
            turn_direction: TurnDirection::Clockwise,
            skip_next: 0,
            give_next: 0,
            turn_index: 0,
        }
    }

    /// Shuffles the draw pile.
    pub fn shuffle_deck(&mut self)
        ensures
            final(self).unplayed_cards@.to_multiset() == old(self).unplayed_cards@.to_multiset(),
            final(self).unplayed_cards@.len() == old(self).unplayed_cards@.len(),
            final(self).played_cards@ == old(self).played_cards@,
            final(self).turn_direction == old(self).turn_direction,
            final(self).skip_next == old(self).skip_next,
            final(self).give_next == old(self).give_next,
            final(self).turn_index == old(self).turn_index,
    {
        shuffle_cards(&mut self.unplayed_cards);
    }
}

impl Default for State {
    fn default() -> (s: State)
        ensures
            s.unplayed_cards@ == initial_deck(),
            s.played_cards@.len() == 0,
            s.turn_direction == TurnDirection::Clockwise,
            s.skip_next == 0,
            s.give_next == 0,
            s.turn_index == 0,
    {
        State::new()
    }
}

} // verus!
