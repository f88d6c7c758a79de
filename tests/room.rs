use skribbl_server::{
    parse_words, CommandMsg, Delivery, GameState, Line, Message, ServerError, ServerEvent,
    ServerState, ToClientMsg, ToServerMsg, ROUND_DURATION,
};

fn words(list: &[&str]) -> Option<Vec<String>> {
    Some(list.iter().map(|w| w.to_string()).collect())
}

fn chat(user: &str, text: &str) -> Message {
    Message::UserMsg { user: user.to_string(), text: text.to_string() }
}

fn join(s: &mut ServerState, name: &str) -> Vec<Delivery> {
    s.on_user_joined(name.to_string()).expect("join accepted")
}

/// The server-generated chat texts addressed to `to`.
fn system_texts(out: &[Delivery], to: &str) -> Vec<String> {
    out.iter()
        .filter(|d| d.to == to)
        .filter_map(|d| match &d.msg {
            ToClientMsg::NewMessage(Message::SystemMsg(t)) => Some(t.clone()),
            _ => None,
        })
        .collect()
}

fn has_chat(out: &[Delivery]) -> bool {
    out.iter().any(|d| matches!(&d.msg, ToClientMsg::NewMessage(Message::UserMsg { .. })))
}

fn game(s: &ServerState) -> &skribbl_server::SkribblState {
    s.game_state.skribbl_state().expect("scored game running")
}

fn drawer(s: &ServerState) -> String {
    let g = game(s);
    g.players[g.drawer].username.clone()
}

fn word(s: &ServerState) -> String {
    let g = game(s);
    g.words[g.word_index].clone()
}

fn score_of(s: &ServerState, name: &str) -> u64 {
    game(s).players.iter().find(|p| p.username == name).unwrap().score
}

/// A room with A and B in a scored game started at time 1000, A drawing "cat".
fn two_player_game() -> ServerState {
    let mut s = ServerState::new(GameState::FreeDraw, (800, 600), words(&["cat", "dog"]));
    join(&mut s, "A");
    join(&mut s, "B");
    s.on_new_message("A".to_string(), chat("A", "hello"), 1000);
    s
}

#[test]
fn end_to_end_game() {
    let mut s = ServerState::new(GameState::FreeDraw, (800, 600), words(&["cat", "dog"]));
    assert!(s.game_state.skribbl_state().is_none());
    join(&mut s, "A");
    join(&mut s, "B");
    let out = s.on_new_message("A".to_string(), chat("A", "hello"), 1000);
    let names: Vec<&str> = game(&s).players.iter().map(|p| p.username.as_str()).collect();
    assert_eq!(names, vec!["A", "B"]);
    assert_eq!(drawer(&s), "A");
    // state to A and B, then the chat text to both
    assert_eq!(out.len(), 4);
    assert!(matches!(&out[0].msg, ToClientMsg::SkribblStateChanged(_)));
    assert!(matches!(&out[1].msg, ToClientMsg::SkribblStateChanged(_)));
    assert!(has_chat(&out));

    s.on_to_srv_msg(
        "A".to_string(),
        ToServerMsg::NewLine(Line { from_x: 1, from_y: 2, to_x: 3, to_y: 4, color: 0, width: 2 }),
        1001,
    );
    assert_eq!(s.lines.len(), 1);

    let guess = word(&s).to_uppercase();
    let out = s.on_new_message("B".to_string(), chat("B", &guess), 1010);
    assert!(!has_chat(&out));
    let texts = system_texts(&out, "A");
    assert_eq!(texts, vec!["B guessed it!".to_string(), "The word was: \"cat\"".to_string()]);
    assert_eq!(score_of(&s, "B"), 100);
    assert_eq!(score_of(&s, "A"), 0);
    // one rotation: B draws the next word, canvas cleared
    assert_eq!(drawer(&s), "B");
    assert_eq!(word(&s), "dog");
    assert!(s.lines.is_empty());
    assert!(out.iter().any(|d| matches!(d.msg, ToClientMsg::ClearCanvas)));
}

#[test]
fn kick_drawer_selects_new_drawer() {
    let mut s = ServerState::new(GameState::FreeDraw, (800, 600), words(&["cat", "dog"]));
    join(&mut s, "A");
    join(&mut s, "B");
    join(&mut s, "C");
    s.on_new_message("A".to_string(), chat("A", "hi"), 50);
    s.on_tick(50 + ROUND_DURATION);
    assert_eq!(drawer(&s), "B");
    let out = s.on_to_srv_msg(
        "A".to_string(),
        ToServerMsg::CommandMsg(CommandMsg::KickPlayer("B".to_string())),
        200,
    );
    assert_eq!(s.sessions, vec!["A".to_string(), "C".to_string()]);
    assert!(game(&s).players.iter().all(|p| p.username != "B"));
    assert_eq!(drawer(&s), "C");
    assert_eq!(game(&s).round_start_time, 200);
    // the new state to A and C, then the cleared canvas to both
    assert_eq!(out.len(), 4);
    for d in &out[..2] {
        match &d.msg {
            ToClientMsg::SkribblStateChanged(v) => {
                assert_eq!(v.drawing_user.as_deref(), Some("C"));
            }
            other => panic!("unexpected {:?}", other),
        }
    }
    assert!(out[2..].iter().all(|d| matches!(d.msg, ToClientMsg::ClearCanvas)));
}

#[test]
fn registry_counts_joins_and_leaves() {
    let mut s = ServerState::new(GameState::FreeDraw, (10, 10), None);
    join(&mut s, "A");
    join(&mut s, "B");
    join(&mut s, "C");
    assert!(matches!(
        s.on_user_joined("B".to_string()),
        Err(ServerError::UserAlreadyJoined(n)) if n == "B"
    ));
    s.remove_player(&"B".to_string(), 0);
    s.remove_player(&"Z".to_string(), 0);
    s.remove_player(&"B".to_string(), 0);
    assert_eq!(s.sessions, vec!["A".to_string(), "C".to_string()]);
    join(&mut s, "B");
    assert_eq!(s.sessions.len(), 3);
}

#[test]
fn drawer_leaving_passes_turn() {
    let mut s = two_player_game();
    let line = Line { from_x: 5, from_y: 5, to_x: 6, to_y: 6, color: 1, width: 1 };
    s.on_to_srv_msg("A".to_string(), ToServerMsg::NewLine(line), 1040);
    let out = s.remove_player(&"A".to_string(), 1050);
    assert_eq!(drawer(&s), "B");
    assert_eq!(game(&s).round_start_time, 1050);
    assert!(s.lines.is_empty());
    assert_eq!(out.len(), 2);
    assert!(matches!(out[1].msg, ToClientMsg::ClearCanvas));
    match &out[0].msg {
        ToClientMsg::SkribblStateChanged(v) => {
            assert_eq!(v.drawing_user.as_deref(), Some("B"));
            assert_eq!(v.word.as_deref(), Some("dog"));
        }
        other => panic!("unexpected {:?}", other),
    }
}

#[test]
fn drawer_guess_is_plain_chat() {
    let mut s = two_player_game();
    let out = s.on_new_message("A".to_string(), chat("A", "cat"), 1001);
    assert_eq!(out.len(), 2);
    assert!(has_chat(&out));
    assert_eq!(score_of(&s, "A"), 0);
    assert_eq!(drawer(&s), "A");
}

#[test]
fn wrong_guess_is_plain_chat() {
    let mut s = two_player_game();
    let out = s.on_new_message("B".to_string(), chat("B", "cats"), 1001);
    assert!(has_chat(&out));
    assert_eq!(score_of(&s, "B"), 0);
}

#[test]
fn solved_player_guess_is_plain_chat() {
    let mut s = ServerState::new(GameState::FreeDraw, (10, 10), words(&["cat", "dog"]));
    join(&mut s, "A");
    join(&mut s, "B");
    join(&mut s, "C");
    s.on_new_message("A".to_string(), chat("A", "go"), 0);
    let out = s.on_new_message("B".to_string(), chat("B", "Cat"), 5);
    assert_eq!(system_texts(&out, "A"), vec!["B guessed it!".to_string()]);
    assert_eq!(game(&s).players[1].solved_rank, Some(1));
    let out = s.on_new_message("B".to_string(), chat("B", "cat"), 6);
    assert!(has_chat(&out));
    assert_eq!(score_of(&s, "B"), 100);
    assert_eq!(drawer(&s), "A");
}

#[test]
fn round_completion_does_not_refire() {
    let mut s = two_player_game();
    s.on_new_message("B".to_string(), chat("B", "cat"), 1010);
    assert_eq!(drawer(&s), "B");
    let out = s.on_new_message("B".to_string(), chat("B", "cat"), 1011);
    assert!(has_chat(&out));
    assert!(system_texts(&out, "A").is_empty());
    assert_eq!(drawer(&s), "B");
    assert_eq!(score_of(&s, "B"), 100);
}

#[test]
fn ticks_count_down_and_reset() {
    let mut s = two_player_game();
    let mut last = u32::MAX;
    for t in [1000u64, 1001, 1030, 1119] {
        let out = s.on_tick(t);
        assert_eq!(out.len(), 2);
        match out[0].msg {
            ToClientMsg::TimeChanged(r) => {
                assert!(r <= last);
                last = r;
            }
            ref other => panic!("unexpected {:?}", other),
        }
    }
    assert_eq!(last, 1);
    let out = s.on_tick(1120);
    match out.last().unwrap().msg {
        ToClientMsg::TimeChanged(r) => assert_eq!(r, 120),
        ref other => panic!("unexpected {:?}", other),
    }
    assert_eq!(
        system_texts(&out, "A"),
        vec!["The word was: \"cat\"".to_string()]
    );
}

#[test]
fn tick_rotates_once() {
    let mut s = two_player_game();
    s.on_tick(1120);
    assert_eq!(drawer(&s), "B");
    for t in [1120u64, 1121, 1200, 1239] {
        let out = s.on_tick(t);
        assert_eq!(out.len(), 2);
        assert_eq!(drawer(&s), "B");
        assert_eq!(game(&s).round_start_time, 1120);
    }
}

#[test]
fn word_only_shown_to_drawer() {
    let mut s = two_player_game();
    let out = s.on_user_joined("C".to_string()).unwrap();
    for d in &out {
        match &d.msg {
            ToClientMsg::SkribblStateChanged(v) => {
                assert_eq!(v.word.is_some(), d.to == "A");
            }
            ToClientMsg::InitialState(init) => {
                assert_eq!(d.to, "C");
                assert!(init.skribbl_state.as_ref().unwrap().word.is_none());
                assert_eq!(init.dimensions, (800, 600));
            }
            ToClientMsg::NewMessage(Message::SystemMsg(t)) => assert_eq!(t, "C joined"),
            other => panic!("unexpected {:?}", other),
        }
    }
    assert_eq!(out.len(), 5);
}

#[test]
fn non_drawer_leaving_keeps_turn() {
    let mut s = ServerState::new(GameState::FreeDraw, (10, 10), words(&["cat", "dog"]));
    join(&mut s, "A");
    join(&mut s, "B");
    join(&mut s, "C");
    s.on_new_message("C".to_string(), chat("C", "hi"), 10);
    let line = Line { from_x: 0, from_y: 0, to_x: 1, to_y: 1, color: 0, width: 1 };
    s.on_to_srv_msg("A".to_string(), ToServerMsg::NewLine(line), 11);
    let out = s.remove_player(&"B".to_string(), 12);
    assert_eq!(drawer(&s), "A");
    assert_eq!(word(&s), "cat");
    assert_eq!(game(&s).round_start_time, 10);
    assert_eq!(s.lines.len(), 1);
    assert_eq!(out.len(), 2);
}

#[test]
fn free_draw_without_words_stays() {
    let mut s = ServerState::new(GameState::FreeDraw, (10, 10), None);
    join(&mut s, "A");
    let out = s.on_new_message("A".to_string(), chat("A", "hello"), 0);
    assert!(s.game_state.skribbl_state().is_none());
    assert_eq!(out.len(), 1);
    assert!(s.on_tick(1000).is_empty());
}

#[test]
fn send_to_unknown_user_fails() {
    let mut s = ServerState::new(GameState::FreeDraw, (10, 10), None);
    join(&mut s, "A");
    assert!(matches!(
        s.send_to(&"Q".to_string(), ToClientMsg::ClearCanvas),
        Err(ServerError::UserNotFound(n)) if n == "Q"
    ));
    let d = s.send_to(&"A".to_string(), ToClientMsg::TimeChanged(3)).unwrap();
    assert_eq!(d.to, "A");
}

#[test]
fn clear_canvas_event() {
    let mut s = ServerState::new(GameState::FreeDraw, (10, 10), None);
    join(&mut s, "A");
    let line = Line { from_x: 0, from_y: 0, to_x: 1, to_y: 1, color: 7, width: 1 };
    s.handle_event(ServerEvent::ToServerMsg("A".to_string(), ToServerMsg::NewLine(line)), 0).unwrap();
    assert_eq!(s.lines, vec![line]);
    let out = s.handle_event(ServerEvent::ToServerMsg("A".to_string(), ToServerMsg::ClearCanvas), 0).unwrap();
    assert!(s.lines.is_empty());
    assert_eq!(out.len(), 1);
    s.handle_event(ServerEvent::UserLeft("A".to_string()), 0).unwrap();
    assert!(s.sessions.is_empty());
}

#[test]
fn word_file_parsing() {
    let text = "  cat \r\n\n dog\t\n\u{2003}big bird\u{2003}\n   \n";
    assert_eq!(parse_words(text), vec!["cat".to_string(), "dog".to_string(), "big bird".to_string()]);
    assert!(parse_words("").is_empty());
    assert_eq!(parse_words("x"), vec!["x".to_string()]);
}

#[test]
fn empty_word_list_stays_free_draw() {
    let mut s = ServerState::new(GameState::FreeDraw, (10, 10), Some(Vec::new()));
    join(&mut s, "A");
    s.on_new_message("A".to_string(), chat("A", "hello"), 0);
    assert!(s.game_state.skribbl_state().is_none());
}

/// A scored game of A and B on `list`, started at time 0, A drawing.
fn game_on(list: &[&str]) -> ServerState {
    let mut s = ServerState::new(GameState::FreeDraw, (10, 10), words(list));
    join(&mut s, "A");
    join(&mut s, "B");
    s.on_new_message("A".to_string(), chat("A", "go"), 0);
    s
}

#[test]
fn next_word_never_repeats_the_last() {
    let mut s = game_on(&["cat", "dog", "cat"]);
    let mut seen = vec![word(&s)];
    for round in 1..6u64 {
        s.on_tick(round * ROUND_DURATION);
        seen.push(word(&s));
    }
    assert_eq!(seen, vec!["cat", "dog", "cat", "dog", "cat", "dog"]);
    assert_eq!(game(&s).word_index, 1);
}

#[test]
fn next_word_skips_case_variants() {
    let mut s = game_on(&["cat", "CAT", "dog"]);
    s.on_tick(ROUND_DURATION);
    assert_eq!(word(&s), "dog");
    s.on_tick(2 * ROUND_DURATION);
    assert_eq!(word(&s), "cat");
}

#[test]
fn single_word_list_keeps_its_word() {
    let mut s = game_on(&["cat"]);
    s.on_tick(ROUND_DURATION);
    assert_eq!(word(&s), "cat");
    assert_eq!(drawer(&s), "B");
}

#[test]
fn solve_ranks_follow_earlier_solvers() {
    let mut s = ServerState::new(GameState::FreeDraw, (10, 10), words(&["cat", "dog"]));
    for name in ["A", "B", "C", "D", "E"] {
        join(&mut s, name);
    }
    s.on_new_message("A".to_string(), chat("A", "go"), 0);
    s.on_new_message("B".to_string(), chat("B", "cat"), 1);
    s.on_new_message("C".to_string(), chat("C", "cat"), 2);
    s.remove_player(&"B".to_string(), 3);
    s.on_new_message("D".to_string(), chat("D", "CAT"), 4);
    let ranks: Vec<Option<usize>> = game(&s).players.iter().map(|p| p.solved_rank).collect();
    assert_eq!(ranks, vec![None, Some(2), Some(3), None]);
    assert_eq!(game(&s).solves, 3);
    assert_eq!(drawer(&s), "A");
}

#[test]
fn word_trimming_matches_std_white_space() {
    for u in 0u32..0x1_0000 {
        let c = match char::from_u32(u) {
            Some(c) if c != '\n' => c,
            _ => continue,
        };
        let text = format!("{c}x{c}");
        let expected = if c.is_whitespace() { "x".to_string() } else { text.clone() };
        assert_eq!(parse_words(&text), vec![expected], "char U+{:04X}", u);
    }
}
