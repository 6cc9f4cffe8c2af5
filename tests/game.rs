use uno_server::card::{Card, CardKind, Color, NormalCardKind, SpecialCardKind};
use uno_server::game::{build_initial_deck, State, TurnDirection};

#[test]
fn test_draw_card_unplayed_empty() {
    let mut state = State {
        played_cards: vec![
            Card::block(Color::Red, 0),
            Card::block(Color::Blue, 1),
            Card::block(Color::Yellow, 2),
        ],
        unplayed_cards: vec![],
        ..Default::default()
    };
    let drawn = state.draw_card();
    assert_eq!(state.played_cards, vec![Card::block(Color::Yellow, 2)]);
    assert!(state.unplayed_cards.len() == 1);
    assert!(matches!(drawn.color, Color::Red | Color::Blue))
}

#[test]
fn test_draw_card_unplayed_non_empty() {
    let mut state = State {
        played_cards: vec![
            Card::block(Color::Red, 0),
            Card::block(Color::Blue, 1),
            Card::block(Color::Yellow, 2),
        ],
        unplayed_cards: vec![Card::block(Color::Green, 3)],
        ..Default::default()
    };
    let drawn = state.draw_card();
    assert_eq!(
        state.played_cards,
        vec![
            Card::block(Color::Red, 0),
            Card::block(Color::Blue, 1),
            Card::block(Color::Yellow, 2)
        ]
    );
    assert!(state.unplayed_cards.is_empty());
    assert_eq!(drawn, Card::block(Color::Green, 3))
}

#[test]
fn refill_keeps_every_discard_but_the_top() {
    let played: Vec<Card> = (0..10).map(|i| Card::number(i % 10, Color::Red, i)).collect();
    let mut state = State { played_cards: played.clone(), unplayed_cards: vec![], ..Default::default() };
    let drawn = state.draw_card();
    assert_eq!(state.played_cards, vec![played[9]]);
    assert_eq!(state.unplayed_cards.len(), 8);
    let mut ids: Vec<u8> = state.unplayed_cards.iter().map(|c| c.id).collect();
    ids.push(drawn.id);
    ids.sort();
    assert_eq!(ids, (0..9).collect::<Vec<u8>>());
}

#[test]
fn fresh_deck_composition() {
    let deck = build_initial_deck();
    assert_eq!(deck.len(), 104);
    for (i, c) in deck.iter().enumerate() {
        assert_eq!(c.id as usize, i);
    }
    let plus_four = deck.iter().filter(|c| c.kind == CardKind::Special(SpecialCardKind::PlusFour)).count();
    let change = deck.iter().filter(|c| c.kind == CardKind::Special(SpecialCardKind::ChangeColor)).count();
    assert_eq!(plus_four, 2);
    assert_eq!(change, 2);
    assert!(deck.iter().filter(|c| c.kind.special()).all(|c| c.color == Color::Uncolored));
    for color in [Color::Red, Color::Green, Color::Blue, Color::Yellow] {
        let of_color: Vec<&Card> = deck.iter().filter(|c| c.color == color).collect();
        assert_eq!(of_color.len(), 25);
        let zeros = of_color.iter().filter(|c| c.kind == CardKind::Normal(NormalCardKind::Number(0))).count();
        assert_eq!(zeros, 1);
        for n in 1..=9u8 {
            let k = of_color.iter().filter(|c| c.kind == CardKind::Normal(NormalCardKind::Number(n))).count();
            assert_eq!(k, 2);
        }
        for kind in [NormalCardKind::Block, NormalCardKind::Reverse, NormalCardKind::PlusTwo] {
            let k = of_color.iter().filter(|c| c.kind == CardKind::Normal(kind)).count();
            assert_eq!(k, 2);
        }
    }
    assert_eq!(deck[0], Card::number(0, Color::Red, 0));
    assert_eq!(deck[1], Card::number(1, Color::Red, 1));
    assert_eq!(deck[10], Card::block(Color::Red, 10));
    assert_eq!(deck[12], Card::plus_two(Color::Red, 12));
    assert_eq!(deck[13], Card::number(1, Color::Red, 13));
    assert_eq!(deck[25], Card::number(0, Color::Green, 25));
    assert_eq!(deck[99], Card::plus_two(Color::Blue, 99));
    assert_eq!(deck[100], Card::plus_four(100));
    assert_eq!(deck[101], Card::plus_four(101));
    assert_eq!(deck[102], Card::change_color(102));
    assert_eq!(deck[103], Card::change_color(103));
}

#[test]
fn fresh_state() {
    let state = State::default();
    assert_eq!(state.unplayed_cards, build_initial_deck());
    assert!(state.played_cards.is_empty());
    assert_eq!(state.turn_direction, TurnDirection::Clockwise);
    assert_eq!(state.turn_index, 0);
    assert_eq!((state.skip_next, state.give_next), (0, 0));
}

#[test]
fn shuffling_keeps_the_cards() {
    let mut state = State::new();
    state.shuffle_deck();
    let mut ids: Vec<u8> = state.unplayed_cards.iter().map(|c| c.id).collect();
    ids.sort();
    assert_eq!(ids, (0..104).collect::<Vec<u8>>());
}

fn with_top(top: Card) -> State {
    State { played_cards: vec![top], ..Default::default() }
}

#[test]
fn can_play_number_rules() {
    let red_five = Card::number(5, Color::Red, 0);
    assert!(State::default().can_play(&red_five));
    assert!(with_top(Card::number(5, Color::Blue, 1)).can_play(&red_five));
    assert!(!with_top(Card::number(6, Color::Blue, 1)).can_play(&red_five));
    assert!(with_top(Card::number(6, Color::Red, 1)).can_play(&red_five));
}

#[test]
fn can_play_on_special_top() {
    let mut top = Card::plus_four(1);
    top.color = Color::Blue;
    let state = with_top(top);
    assert!(!state.can_play(&Card::number(5, Color::Red, 0)));
    assert!(!state.can_play(&Card::block(Color::Green, 0)));
    let mut change = Card::change_color(2);
    change.color = Color::Red;
    assert!(state.can_play(&change));
    let mut four = Card::plus_four(3);
    four.color = Color::Yellow;
    assert!(state.can_play(&four));
}

#[test]
fn can_play_kinds_and_uncolored() {
    let state = with_top(Card::reverse(Color::Blue, 1));
    assert!(state.can_play(&Card::reverse(Color::Red, 0)));
    assert!(!state.can_play(&Card::block(Color::Red, 0)));
    assert!(!state.can_play(&Card::number(1, Color::Red, 0)));
    assert!(!state.can_play(&Card::plus_four(0)));
    assert!(!State::default().can_play(&Card::change_color(0)));
}

#[test]
fn place_card_effects_stack() {
    let mut state = State::default();
    state.place_card(Card::block(Color::Red, 0));
    state.place_card(Card::block(Color::Blue, 1));
    assert_eq!(state.skip_next, 2);
    state.place_card(Card::plus_two(Color::Red, 2));
    state.place_card(Card::plus_four(3));
    assert_eq!(state.give_next, 6);
    state.place_card(Card::reverse(Color::Red, 4));
    assert_eq!(state.turn_direction, TurnDirection::CounterClockwise);
    state.place_card(Card::reverse(Color::Red, 5));
    assert_eq!(state.turn_direction, TurnDirection::Clockwise);
    state.place_card(Card::number(3, Color::Red, 6));
    state.place_card(Card::change_color(7));
    assert_eq!((state.skip_next, state.give_next), (2, 6));
    assert_eq!(state.played_cards.len(), 8);
    assert_eq!(state.played_cards[7], Card::change_color(7));
}
