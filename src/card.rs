//! Cards: colors, kinds and identities.

use vstd::prelude::*;

verus! {

/// The color of a card. `Uncolored` marks an uncolored special card whose color
/// has not yet been chosen.
#[derive(Clone, Copy, Debug, PartialEq, Eq, Structural)]
pub enum Color {
    Red,
    Green,
    Blue,
    Yellow,
    Uncolored,
}

/// The kinds of colored cards.
#[derive(Clone, Copy, Debug, PartialEq, Eq, Structural)]
pub enum NormalCardKind {
    Number(u8),
    Reverse,
    PlusTwo,
    Block,
}

/// The kinds of uncolored cards.
#[derive(Clone, Copy, Debug, PartialEq, Eq, Structural)]
pub enum SpecialCardKind {
    PlusFour,
    ChangeColor,
}

#[derive(Clone, Copy, Debug, PartialEq, Eq, Structural)]
pub enum CardKind {
    Normal(NormalCardKind),
    Special(SpecialCardKind),
}

/// A card: its color, its kind, and an identity that tells equal-looking
/// cards apart.
#[derive(Clone, Copy, Debug, PartialEq, Eq, Structural)]
pub struct Card {
    pub color: Color,
    pub kind: CardKind,
    pub id: u8,
}

impl CardKind {
    pub open spec fn is_special(self) -> bool {
        self is Special
    }

    /// Whether this is a special kind; computed.
    pub fn special(&self) -> (r: bool)
        ensures
            r == self.is_special(),
    {
        match self {
            CardKind::Special(_) => true,
            CardKind::Normal(_) => false,
        }
    }
}

impl Card {
    pub fn number(num: u8, color: Color, id: u8) -> (r: Self)
        ensures
            r == (Card { color, kind: CardKind::Normal(NormalCardKind::Number(num)), id }),
    {
        Self { color, kind: CardKind::Normal(NormalCardKind::Number(num)), id }
    }

    pub fn reverse(color: Color, id: u8) -> (r: Self)
        ensures
            r == (Card { color, kind: CardKind::Normal(NormalCardKind::Reverse), id }),
    {
        Self { color, kind: CardKind::Normal(NormalCardKind::Reverse), id }
    }

    pub fn plus_two(color: Color, id: u8) -> (r: Self)
        ensures
            r == (Card { color, kind: CardKind::Normal(NormalCardKind::PlusTwo), id }),
    {
        Self { color, kind: CardKind::Normal(NormalCardKind::PlusTwo), id }
    }

    pub fn block(color: Color, id: u8) -> (r: Self)
        ensures
            r == (Card { color, kind: CardKind::Normal(NormalCardKind::Block), id }),
    {
        Self { color, kind: CardKind::Normal(NormalCardKind::Block), id }
    }

    pub fn plus_four(id: u8) -> (r: Self)
        ensures
            r == (Card { color: Color::Uncolored, kind: CardKind::Special(SpecialCardKind::PlusFour), id }),
    {
        Self { color: Color::Uncolored, kind: CardKind::Special(SpecialCardKind::PlusFour), id }
    }

    pub fn change_color(id: u8) -> (r: Self)
        ensures
            r == (Card {
                color: Color::Uncolored,
                kind: CardKind::Special(SpecialCardKind::ChangeColor),
                id,
            }),
    {
        Self { color: Color::Uncolored, kind: CardKind::Special(SpecialCardKind::ChangeColor), id }
    }
}

} // verus!
