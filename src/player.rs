//! A seated player's hand and what it allows.

use vstd::prelude::*;
use crate::card::{Card, CardKind};
use crate::game::{playable_on, State};
use crate::user::User;

verus! {

/// A player seated in a room: the cards in hand and who holds them.
pub struct Player {
    pub cards: Vec<Card>,
    pub user: User,
}

/// Whether `hand` holds a card that may be played on `top`.
pub open spec fn holds_playable(hand: Seq<Card>, top: Option<Card>) -> bool {
    exists|i: int| 0 <= i < hand.len() && playable_on(#[trigger] hand[i], top)
}

/// Whether `idx` is a valid run of cards to play from `hand` on `top`: it is
/// non-empty, has no repeated index, every index is in range, the first card
/// is playable, and each adjacent pair, in the given order, has exactly the
/// same kind, neither of them special.
pub open spec fn valid_run(hand: Seq<Card>, idx: Seq<usize>, top: Option<Card>) -> bool {
    &&& idx.len() > 0
    &&& idx.no_duplicates()
    &&& forall|j: int| 0 <= j < idx.len() ==> #[trigger] idx[j] < hand.len()
    &&& playable_on(hand[idx[0] as int], top)
    &&& forall|j: int| 0 <= j < idx.len() - 1 ==> #[trigger] links(hand, idx, j)
}

/// Whether the `j`-th and `j + 1`-th cards of the run `idx` have the same
/// kind, the first of them not special.
pub open spec fn links(hand: Seq<Card>, idx: Seq<usize>, j: int) -> bool {
    &&& !hand[idx[j] as int].kind.is_special()
    &&& hand[idx[j] as int].kind == hand[idx[j + 1] as int].kind
}

/// A run is refused when it is empty, repeats an index, has an index out of
/// range, or has a second card whose kind differs from the first one's.
pub proof fn lemma_invalid_runs_rejected(hand: Seq<Card>, idx: Seq<usize>, top: Option<Card>)
    ensures
        idx.len() == 0 ==> !valid_run(hand, idx, top),
        !idx.no_duplicates() ==> !valid_run(hand, idx, top),
        (exists|j: int| 0 <= j < idx.len() && #[trigger] idx[j] >= hand.len()) ==> !valid_run(hand, idx, top),
        idx.len() >= 2 && idx[0] < hand.len() && idx[1] < hand.len()
            && hand[idx[0] as int].kind != hand[idx[1] as int].kind ==> !valid_run(hand, idx, top),
{
    if idx.len() >= 2 && idx[0] < hand.len() && idx[1] < hand.len()
        && hand[idx[0] as int].kind != hand[idx[1] as int].kind {
        assert(!links(hand, idx, 0));
    }
}

/// The cards of a run, in the run's order.
pub open spec fn run_cards(hand: Seq<Card>, idx: Seq<usize>) -> Seq<Card> {
    Seq::new(idx.len(), |j: int| hand[idx[j] as int])
}

/// `hand` without the cards at the positions in `idx`, in their order.
pub open spec fn hand_without(hand: Seq<Card>, idx: Seq<usize>) -> Seq<Card>
    decreases hand.len(),
{
    if hand.len() == 0 {
        Seq::empty()
    } else {
        let rest = hand_without(hand.drop_last(), idx);
        if idx.contains((hand.len() - 1) as usize) {
            rest
        } else {
            rest.push(hand.last())
        }
    }
}

/// How many entries of `idx` are below `i`.
pub open spec fn count_below(idx: Seq<usize>, i: nat) -> nat
    decreases idx.len(),
{
    if idx.len() == 0 {
        0
    } else {
        count_below(idx.drop_last(), i) + if (idx.last() as nat) < i {
            1nat
        } else {
            0nat
        }
    }
}

proof fn lemma_count_below_step(idx: Seq<usize>, i: usize)
    requires
        idx.no_duplicates(),
    ensures
        count_below(idx, i as nat + 1) == count_below(idx, i as nat) + if idx.contains(i) {
            1nat
        } else {
            0nat
        },
    decreases idx.len(),
{
    if idx.len() > 0 {
        let d = idx.drop_last();
        assert(d.no_duplicates());
        lemma_count_below_step(d, i);
        if idx.last() == i {
            assert(!d.contains(i));
            assert(idx.contains(i)) by {
                assert(idx[idx.len() - 1] == i);
            }
        } else {
            assert(idx.contains(i) == d.contains(i)) by {
                if idx.contains(i) {
                    let k = choose|k: int| 0 <= k < idx.len() && idx[k] == i;
                    assert(d[k] == i);
                }
                if d.contains(i) {
                    let k = choose|k: int| 0 <= k < d.len() && d[k] == i;
                    assert(idx[k] == i);
                }
            }
        }
    }
}

proof fn lemma_count_below_zero(idx: Seq<usize>)
    ensures
        count_below(idx, 0) == 0,
    decreases idx.len(),
{
    if idx.len() > 0 {
        lemma_count_below_zero(idx.drop_last());
    }
}

proof fn lemma_count_below_all(idx: Seq<usize>, n: nat)
    requires
        forall|j: int| 0 <= j < idx.len() ==> #[trigger] idx[j] < n,
    ensures
        count_below(idx, n) == idx.len(),
    decreases idx.len(),
{
    if idx.len() > 0 {
        let d = idx.drop_last();
        assert forall|j: int| 0 <= j < d.len() implies #[trigger] d[j] < n by {
            assert(d[j] == idx[j]);
        }
        lemma_count_below_all(d, n);
    }
}

/// Whether `i` occurs in `idx`.
fn contains_index(idx: &[usize], i: usize) -> (r: bool)
    ensures
        r == idx@.contains(i),
{
    let mut k: usize = 0;
    while k < idx.len()
        invariant
            k <= idx@.len(),
            forall|j: int| 0 <= j < k ==> idx@[j] != i,
        decreases idx@.len() - k,
    {
        if idx[k] == i {
            return true;
        }
        k += 1;
    }
    false
}

/// The cards of `hand` whose positions are not in `idx`, in order.
fn remaining_cards(hand: &Vec<Card>, idx: &[usize]) -> (r: Vec<Card>)
    requires
        idx@.no_duplicates(),
        forall|j: int| 0 <= j < idx@.len() ==> #[trigger] idx@[j] < hand@.len(),
    ensures
        r@ == hand_without(hand@, idx@),
        r@.len() + idx@.len() == hand@.len(),
{
    let mut r: Vec<Card> = Vec::new();
    let mut i: usize = 0;
    proof {
        lemma_count_below_zero(idx@);
    }
    while i < hand.len()
        invariant
            i <= hand@.len(),
            idx@.no_duplicates(),
            r@ == hand_without(hand@.take(i as int), idx@),
            r@.len() + count_below(idx@, i as nat) == i,
        decreases hand@.len() - i,
    {
        proof {
            lemma_count_below_step(idx@, i);
            assert(hand@.take(i as int + 1).drop_last() =~= hand@.take(i as int));
        }
        if !contains_index(idx, i) {
            r.push(hand[i]);
        }
        i += 1;
    }
    proof {
        lemma_count_below_all(idx@, hand@.len());
        assert(hand@.take(i as int) =~= hand@);
    }
    r
}

impl Player {
    /// A player with an empty hand.
    pub fn new(user: User) -> (p: Player)
        ensures
            p.cards@ == Seq::<Card>::empty(),
            p.user == user,
    {
        let cards: Vec<Card> = Vec::new();
        Player { cards, user }
    }

    /// The cards at `idx`, in that order.
    pub fn run_of(&self, idx: &[usize]) -> (r: Vec<Card>)
        requires
            forall|j: int| 0 <= j < idx@.len() ==> #[trigger] idx@[j] < self.cards@.len(),
        ensures
            r@ == run_cards(self.cards@, idx@),
    {
        let mut r: Vec<Card> = Vec::new();
        let mut j: usize = 0;
        while j < idx.len()
            invariant
                j <= idx@.len(),
                forall|k: int| 0 <= k < idx@.len() ==> #[trigger] idx@[k] < self.cards@.len(),
                r@ =~= run_cards(self.cards@, idx@.take(j as int)),
            decreases idx@.len() - j,
        {
            r.push(self.cards[idx[j]]);
            j += 1;
            assert(r@ =~= run_cards(self.cards@, idx@.take(j as int)));
        }
        assert(idx@.take(j as int) =~= idx@);
        r
    }

    /// The hand without the cards at `idx`.
    pub fn without(&self, idx: &[usize]) -> (r: Vec<Card>)
        requires
            idx@.no_duplicates(),
            forall|j: int| 0 <= j < idx@.len() ==> #[trigger] idx@[j] < self.cards@.len(),
        ensures
            r@ == hand_without(self.cards@, idx@),
            r@.len() + idx@.len() == self.cards@.len(),
    {
        remaining_cards(&self.cards, idx)
    }

    /// Whether some card in hand may be played now.
    pub fn can_play_card(&self, state: &State) -> (r: bool)
        ensures
            r == holds_playable(self.cards@, state.top()),
    {
        let mut i: usize = 0;
        while i < self.cards.len()
            invariant
                i <= self.cards@.len(),
                forall|j: int| 0 <= j < i ==> !playable_on(#[trigger] self.cards@[j], state.top()),
            decreases self.cards@.len() - i,
        {
            if state.can_play(&self.cards[i]) {
                return true;
            }
            i += 1;
        }
        false
    }

    /// Whether the cards at `card_indeces`, in that order, may be played
    /// together as one run.
    pub fn can_play_consecutive_cards(&self, state: &State, card_indeces: &[usize]) -> (r: bool)
        ensures
            r == valid_run(self.cards@, card_indeces@, state.top()),
    {
        let n = card_indeces.len();
        if n == 0 {
            return false;
        }
        let hand_len = self.cards.len();
        let mut i: usize = 0;
        while i < n
            invariant
                n == card_indeces@.len(),
                hand_len == self.cards@.len(),
                i <= n,
                forall|j: int| 0 <= j < i ==> #[trigger] card_indeces@[j] < hand_len,
                forall|a: int, b: int| 0 <= a < b < i ==> card_indeces@[a] != card_indeces@[b],
            decreases n - i,
        {
            if card_indeces[i] >= hand_len {
                return false;
            }
            let mut j: usize = 0;
            while j < i
                invariant
                    n == card_indeces@.len(),
                    i < n,
                    j <= i,
                    forall|a: int| 0 <= a < j ==> card_indeces@[a] != card_indeces@[i as int],
                decreases i - j,
            {
                if card_indeces[j] == card_indeces[i] {
                    assert(!card_indeces@.no_duplicates());
                    return false;
                }
                j += 1;
            }
            i += 1;
        }
        if !state.can_play(&self.cards[card_indeces[0]]) {
            return false;
        }
        let mut k: usize = 0;
        while k + 1 < n
            invariant
                n == card_indeces@.len(),
                n > 0,
                k < n,
                forall|j: int| 0 <= j < n ==> #[trigger] card_indeces@[j] < hand_len,
                hand_len == self.cards@.len(),
                forall|j: int| 0 <= j < k ==> #[trigger] links(self.cards@, card_indeces@, j),
            decreases n - k,
        {
            let l = &self.cards[card_indeces[k]];
            let r = &self.cards[card_indeces[k + 1]];
            if l.kind.special() || l.kind != r.kind {
                assert(!links(self.cards@, card_indeces@, k as int));
                return false;
            }
            k += 1;
        }
        true
    }
}

} // verus!
