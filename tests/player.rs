use uno_server::card::{Card, Color};
use uno_server::game::State;
use uno_server::player::Player;
use uno_server::user::User;

fn create_player(cards: Vec<Card>) -> Player {
    Player { cards, user: User::new_empty() }
}

#[test]
fn test_consec() {
    let player = create_player(vec![
        Card::number(1, Color::Red, 0),
        Card::number(1, Color::Green, 0),
        Card::number(1, Color::Yellow, 0),
        Card::reverse(Color::Blue, 0),
        Card::number(1, Color::Blue, 0),
    ]);
    let card_indeces = [1, 4, 2, 0];
    let state = State::default();
    assert!(player.can_play_consecutive_cards(&state, &card_indeces));
    assert!(!player.can_play_consecutive_cards(&state, &[3, 1, 2]));
    assert!(!player.can_play_consecutive_cards(&state, &[2, 1, 0, 2]));
}

#[test]
fn consecutive_runs_refused() {
    let player = create_player(vec![
        Card::number(1, Color::Red, 0),
        Card::reverse(Color::Red, 1),
        Card::number(2, Color::Red, 2),
        Card::plus_four(3),
        Card::plus_four(4),
    ]);
    let state = State::default();
    assert!(!player.can_play_consecutive_cards(&state, &[]));
    assert!(!player.can_play_consecutive_cards(&state, &[0, 0]));
    assert!(!player.can_play_consecutive_cards(&state, &[0, 5]));
    assert!(!player.can_play_consecutive_cards(&state, &[0, 1]));
    assert!(!player.can_play_consecutive_cards(&state, &[0, 2]));
    assert!(player.can_play_consecutive_cards(&state, &[2]));
    let top = State { played_cards: vec![Card::number(9, Color::Blue, 9)], ..Default::default() };
    assert!(!player.can_play_consecutive_cards(&top, &[0]));
}

#[test]
fn can_play_card_scans_the_hand() {
    let state = State { played_cards: vec![Card::number(9, Color::Blue, 9)], ..Default::default() };
    assert!(!create_player(vec![Card::number(1, Color::Red, 0), Card::plus_four(1)]).can_play_card(&state));
    assert!(create_player(vec![Card::number(1, Color::Red, 0), Card::number(9, Color::Green, 1)]).can_play_card(&state));
    assert!(!create_player(vec![]).can_play_card(&state));
}
