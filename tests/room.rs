use uno_server::card::{Card, CardKind, Color, NormalCardKind, SpecialCardKind};
use uno_server::game::{State, TurnDirection};
use uno_server::room::{is_start_command, JoinError, Notice, RoomActor};
use uno_server::user::User;
use uuid::Uuid;

fn user(name: &str) -> User {
    let mut u = User::new_empty();
    u.name = name.to_string();
    u
}

fn room_with(n: usize, capacity: usize, state: &State) -> RoomActor {
    let mut room = RoomActor::new("table".to_string(), capacity, Uuid::nil());
    let names = ["Ann", "Bob", "Cid", "Dee", "Eve", "Fay"];
    for name in names.iter().take(n) {
        assert!(room.handle_join(state, user(name)).is_ok());
    }
    room
}

fn hand_len(room: &RoomActor, seat: usize) -> usize {
    room.players.get_index(seat).unwrap().1.cards.len()
}

fn total(room: &RoomActor, state: &State) -> usize {
    state.played_cards.len()
        + state.unplayed_cards.len()
        + room.players.values().map(|p| p.cards.len()).sum::<usize>()
}

#[test]
fn join_assigns_ids_and_announces() {
    let state = State::new();
    let mut room = RoomActor::new("table".to_string(), 2, Uuid::nil());
    let (id, notices) = room.handle_join(&state, user("Ann")).unwrap();
    assert_eq!(id, 0);
    assert_eq!(notices.len(), 2);
    match &notices[0] {
        Notice::Joined { name, players, max_players } => {
            assert_eq!(name, "Ann");
            assert_eq!((*players, *max_players), (1, 2));
        }
        _ => panic!("expected a join announcement"),
    }
    assert!(matches!(notices[1], Notice::GameState));
    let (id, _) = room.handle_join(&state, user("Bob")).unwrap();
    assert_eq!(id, 1);
    let err = room.handle_join(&state, user("Cid")).err().unwrap();
    assert_eq!(err, JoinError::RoomFull);
    assert_eq!(err.reason(), "Room is full");
    assert_eq!(room.lobby_data().players, 2);
}

#[test]
fn join_refused_after_start() {
    let mut state = State::new();
    let mut room = room_with(1, 4, &state);
    room.handle_send_message("/start".to_string(), &mut state, 0);
    let err = room.handle_join(&state, user("Late")).err().unwrap();
    assert_eq!(err, JoinError::AlreadyStarted);
    assert_eq!(err.reason(), "Already started");
}

#[test]
fn start_deals_and_seeds_a_number() {
    let mut state = State::new();
    let mut room = room_with(3, 4, &state);
    let notices = room.handle_send_message("  /start \n".to_string(), &mut state, 1);
    assert!(room.game_started);
    assert_eq!(notices.len(), 2);
    assert!(matches!(notices[0], Notice::GameState));
    match &notices[1] {
        Notice::Chat(m) => {
            assert_eq!(m.content, "  /start \n");
            assert_eq!(m.user_name, "Bob");
        }
        _ => panic!("expected a chat line"),
    }
    for seat in 0..3 {
        assert_eq!(hand_len(&room, seat), 7);
    }
    // The unshuffled deck ends with Blue Block, Reverse, PlusTwo, then two
    // PlusFour and two ChangeColor: the first hand takes those seven cards.
    let first = &room.players.get_index(0).unwrap().1.cards;
    assert_eq!(first[0], Card::block(Color::Blue, 97));
    assert_eq!(first[6], Card::change_color(103));
    assert_eq!(state.played_cards.len(), 1);
    let top = state.played_cards[0];
    assert!(matches!(top.kind, CardKind::Normal(NormalCardKind::Number(_))));
    assert_eq!(room.cards_played, 1);
    assert_eq!(total(&room, &state), 104);

    let again = room.handle_send_message("/start".to_string(), &mut state, 0);
    assert_eq!(again.len(), 1);
    assert_eq!(state.played_cards.len(), 1);
    assert_eq!(total(&room, &state), 104);
}

#[test]
fn start_command_recognition() {
    assert!(is_start_command("/start"));
    assert!(!is_start_command(" /start"));
    assert!(!is_start_command("/stop"));
    let mut state = State::new();
    let mut room = room_with(1, 4, &state);
    let notices = room.handle_send_message("hello".to_string(), &mut state, 0);
    assert!(!room.game_started);
    assert_eq!(notices.len(), 1);
    let unknown = room.handle_send_message("hi".to_string(), &mut state, 7);
    assert!(unknown.is_empty());
    let stranger = room.handle_send_message("/start".to_string(), &mut state, 7);
    assert!(stranger.is_empty());
    assert!(!room.game_started);
    assert!(state.played_cards.is_empty());
}

#[test]
fn leave_returns_the_hand() {
    let mut state = State::new();
    let mut room = room_with(3, 4, &state);
    room.handle_send_message("/start".to_string(), &mut state, 0);
    state.turn_index = 2;
    let before = state.unplayed_cards.len();
    room.handle_leave(&mut state, 2);
    assert_eq!(room.players.len(), 2);
    assert_eq!(state.unplayed_cards.len(), before + 7);
    assert_eq!(state.turn_index, 0);
    assert_eq!(total(&room, &state), 104);
    room.handle_leave(&mut state, 9);
    assert_eq!(room.players.len(), 2);
}

fn set_hand(room: &mut RoomActor, seat: usize, cards: Vec<Card>, state: &mut State) {
    let old = std::mem::replace(&mut room.players[seat].cards, cards.clone());
    state.unplayed_cards.extend(old);
    state.unplayed_cards.retain(|c| !cards.iter().any(|d| d.id == c.id));
}

#[test]
fn block_skips_one_seat_clockwise() {
    let mut state = State::new();
    let mut room = room_with(3, 4, &state);
    let block = state.unplayed_cards[10];
    assert_eq!(block.kind, CardKind::Normal(NormalCardKind::Block));
    set_hand(&mut room, 0, vec![block], &mut state);
    assert_eq!(state.turn_index, 0);
    let notices = room.handle_play_card(&mut state, 0, 0, Color::Green);
    assert_eq!(notices.len(), 1);
    // Clockwise moves down from seat 0: seat 2 is passed over, seat 1 plays.
    assert_eq!(state.turn_index, 1);
    assert_eq!(state.skip_next, 0);
    assert_eq!(state.played_cards, vec![block]);
    assert_eq!(room.cards_played, 1);
}

#[test]
fn block_skips_one_seat_counter_clockwise() {
    let mut state = State::new();
    state.turn_direction = TurnDirection::CounterClockwise;
    let mut room = room_with(3, 4, &state);
    let block = state.unplayed_cards[10];
    set_hand(&mut room, 0, vec![block], &mut state);
    room.handle_play_card(&mut state, 0, 0, Color::Green);
    assert_eq!(state.turn_index, 2);
}

#[test]
fn two_blocks_skip_two_seats() {
    let mut state = State::default();
    let mut room = room_with(5, 5, &state);
    state.turn_index = 1;
    state.place_card(Card::block(Color::Red, 0));
    state.place_card(Card::block(Color::Red, 1));
    state.next_turn(&mut room);
    assert_eq!(state.turn_index, 3);
    assert_eq!((state.skip_next, state.give_next), (0, 0));

    let mut empty = RoomActor::new("empty".to_string(), 4, Uuid::nil());
    state.place_card(Card::block(Color::Red, 2));
    state.place_card(Card::block(Color::Red, 3));
    state.place_card(Card::plus_two(Color::Red, 4));
    state.next_turn(&mut empty);
    assert_eq!(state.turn_index, 0);
    assert_eq!((state.skip_next, state.give_next), (0, 0));
}

#[test]
fn plus_four_with_chosen_color() {
    let mut state = State::new();
    let mut room = room_with(3, 4, &state);
    let four = state.unplayed_cards[100];
    assert_eq!(four.kind, CardKind::Special(SpecialCardKind::PlusFour));
    set_hand(&mut room, 0, vec![four, Card::number(3, Color::Red, 0)], &mut state);
    let pile = state.unplayed_cards.clone();
    room.handle_play_card(&mut state, 0, 0, Color::Green);
    let top = *state.played_cards.last().unwrap();
    assert_eq!(top.color, Color::Green);
    assert_eq!(top.kind, CardKind::Special(SpecialCardKind::PlusFour));
    assert_eq!(state.turn_index, 2);
    let hand = &room.players.get_index(2).unwrap().1.cards;
    assert_eq!(hand.as_slice(), &pile[pile.len() - 4..]);
    assert_eq!(state.unplayed_cards.as_slice(), &pile[..pile.len() - 4]);
    assert_eq!(hand_len(&room, 0), 1);
    assert_eq!(total(&room, &state), 104);
}

#[test]
fn play_card_refusals() {
    let mut state = State::new();
    let mut room = room_with(2, 4, &state);
    set_hand(&mut room, 0, vec![Card::plus_four(100)], &mut state);
    assert!(room.handle_play_card(&mut state, 1, 0, Color::Red).is_empty());
    assert!(room.handle_play_card(&mut state, 0, 1, Color::Red).is_empty());
    assert!(room.handle_play_card(&mut state, 0, 0, Color::Uncolored).is_empty());
    assert_eq!(hand_len(&room, 0), 1);
    assert_eq!(state.turn_index, 0);
    assert!(state.played_cards.is_empty());
}

#[test]
fn play_cards_run() {
    let mut state = State::new();
    let mut room = room_with(3, 4, &state);
    let red_one = state.unplayed_cards[1];
    let blue_one = state.unplayed_cards[88];
    assert_eq!(blue_one, Card::number(1, Color::Blue, 88));
    let reverse = state.unplayed_cards[11];
    set_hand(&mut room, 0, vec![red_one, reverse, blue_one], &mut state);
    assert!(room.handle_play_cards(0, &mut state, vec![0, 1]).is_empty());
    assert!(room.handle_play_cards(0, &mut state, vec![0, 0]).is_empty());
    assert!(room.handle_play_cards(0, &mut state, vec![0, 3]).is_empty());
    assert!(room.handle_play_cards(0, &mut state, vec![]).is_empty());
    assert!(state.played_cards.is_empty());
    let notices = room.handle_play_cards(0, &mut state, vec![0, 2]);
    assert_eq!(notices.len(), 1);
    assert_eq!(state.played_cards, vec![red_one, blue_one]);
    assert_eq!(room.players.get_index(0).unwrap().1.cards, vec![reverse]);
    assert_eq!(state.turn_index, 2);
    assert_eq!(room.cards_played, 2);
    assert_eq!(total(&room, &state), 104);
}

#[test]
fn take_card_only_without_a_playable_card() {
    let mut state = State::new();
    let mut room = room_with(2, 4, &state);
    state.played_cards.push(state.unplayed_cards.remove(30));
    let top = state.played_cards[0];
    assert_eq!(top.color, Color::Green);
    set_hand(&mut room, 0, vec![Card::number(top_number(top), Color::Red, 200)], &mut state);
    assert!(room.handle_take_card(0, &mut state).is_empty());
    assert_eq!(hand_len(&room, 0), 1);

    set_hand(&mut room, 0, vec![Card::number((top_number(top) + 1) % 10, Color::Red, 202)], &mut state);
    assert!(room.handle_take_card(1, &mut state).is_empty());
    let drawn = *state.unplayed_cards.last().unwrap();
    let notices = room.handle_take_card(0, &mut state);
    assert_eq!(notices.len(), 1);
    assert_eq!(hand_len(&room, 0), 2);
    assert_eq!(room.players.get_index(0).unwrap().1.cards[1], drawn);
    assert_eq!(state.turn_index, 1);
}

fn top_number(c: Card) -> u8 {
    match c.kind {
        CardKind::Normal(NormalCardKind::Number(n)) => n,
        _ => panic!("not a number"),
    }
}

#[test]
fn views_show_own_hand_and_recent_history() {
    let mut state = State::new();
    let mut room = room_with(2, 4, &state);
    room.handle_send_message("/start".to_string(), &mut state, 0);
    for i in 0..10u8 {
        state.played_cards.push(Card::number(i % 10, Color::Red, 150 + i));
    }
    let views = room.game_states(&state);
    assert_eq!(views.len(), 2);
    for (seat, (id, g)) in views.iter().enumerate() {
        assert_eq!(*id, seat);
        assert_eq!(g.self_index, seat);
        assert_eq!(g.users.len(), 2);
        assert_eq!(g.users[1].user.name, "Bob");
        assert_eq!(g.users[0].card_count, 7);
        assert_eq!(g.own_cards, room.players.get_index(seat).unwrap().1.cards);
        assert_eq!(g.last_played_cards.len(), 8);
        assert_eq!(g.last_played_cards[7], Card::number(9, Color::Red, 159));
        assert_eq!(g.top_card, Some(Card::number(9, Color::Red, 159)));
        assert_eq!(g.cards_played, 1);
        assert_eq!(g.direction, TurnDirection::Clockwise);
    }
}
