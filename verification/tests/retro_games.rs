use zos_server::retro_games::RetroAIServices;

#[test]
fn game_list_in_catalogue_order() {
    let s = RetroAIServices::new();
    assert_eq!(
        s.get_game_list(),
        vec![
            "tradewars2035: TradeWars 2035 (2 credits/turn)".to_string(),
            "lord2035: Legend of the Red Dragon 2035 (1 credits/turn)".to_string(),
            "ai_lounge: AI Chat Lounge (1 credits/turn)".to_string(),
            "quantum_puzzle: Quantum Puzzle Palace (2 credits/turn)".to_string(),
        ]
    );
}

#[test]
fn unknown_game_is_refused() {
    let mut s = RetroAIServices::new();
    assert_eq!(s.start_game_at("user1234", "pong", 5), Err("Game not found".to_string()));
}

#[test]
fn starting_tradewars_greets_with_the_space_trader() {
    let mut s = RetroAIServices::new();
    let r = s.start_game_at("user1234", "tradewars2035", 1700000000).unwrap();
    assert_eq!(
        r,
        "Session: session_user1234_1700000000\nCommander Zephyr: Welcome aboard, Captain! Ready for another trading run?\n\nAvailable commands: [\"move\", \"trade\", \"attack\", \"scan\"]"
    );
    let sess = s.get_session("session_user1234_1700000000").unwrap();
    assert_eq!(sess.turns_taken, 0);
    assert_eq!(sess.started_at, 1700000000);
    assert_eq!(sess.ai_companion, Some("space_trader_ai".to_string()));
}

#[test]
fn a_game_without_a_known_personality_says_welcome() {
    let mut s = RetroAIServices::new();
    let r = s.start_game_at("u", "lord2035", -3).unwrap();
    assert!(r.starts_with("Session: session_u_-3\nWelcome to the game!\n\nAvailable commands: "));
}

#[test]
fn moving_sets_the_sector_and_counts_the_turn() {
    let mut s = RetroAIServices::new();
    s.start_game_at("user1234", "tradewars2035", 10).unwrap();
    let sid = "session_user1234_10";
    let r = s.execute_command_at(sid, "move", "7", 20).unwrap();
    assert_eq!(r, "Moved to sector 7\n\nCommander Zephyr: That's interesting! Tell me more.");
    let sess = s.get_session(sid).unwrap();
    assert_eq!(sess.turns_taken, 1);
    assert_eq!(sess.credits_spent, 1);
    assert_eq!(sess.last_action, 20);
}

#[test]
fn a_bad_sector_is_refused_and_counts_nothing() {
    let mut s = RetroAIServices::new();
    s.start_game_at("user1234", "tradewars2035", 10).unwrap();
    let sid = "session_user1234_10";
    assert_eq!(s.execute_command_at(sid, "move", "north", 11), Err("Invalid sector number".to_string()));
    assert_eq!(s.get_session(sid).unwrap().turns_taken, 0);
}

#[test]
fn trigger_words_pick_the_response() {
    let mut s = RetroAIServices::new();
    s.start_game_at("user1234", "tradewars2035", 10).unwrap();
    let r = s.execute_command_at("session_user1234_10", "trade", "Big PROFIT", 11).unwrap();
    assert_eq!(
        r,
        "Trading post: Ore: 100cr, Food: 50cr, Equipment: 200cr\n\nCommander Zephyr: Excellent choice, Captain! The profit margins look promising."
    );
}

#[test]
fn lounge_talk_matches_lowercased_input() {
    let mut s = RetroAIServices::new();
    s.start_game_at("user1234", "ai_lounge", 1).unwrap();
    let r = s.execute_command_at("session_user1234_1", "talk", "This is AWESOME", 2).unwrap();
    assert_eq!(r, "You say: 'This is AWESOME'\n\nCindy ValleySpeak: OMG, that's like, totally awesome!");
    let r = s.execute_command_at("session_user1234_1", "compliment", "", 3).unwrap();
    assert!(r.starts_with("Your compliment makes them smile! Friendship increased.\n"));
    assert_eq!(s.get_session("session_user1234_1").unwrap().credits_spent, 2);
}

#[test]
fn puzzle_answer_and_errors() {
    let mut s = RetroAIServices::new();
    s.start_game_at("user1234", "quantum_puzzle", 1).unwrap();
    let sid = "session_user1234_1";
    let r = s.execute_command_at(sid, "solve", "42", 2).unwrap();
    assert!(r.starts_with("Correct! The answer to life, universe, and everything!\n"));
    assert_eq!(s.execute_command_at(sid, "dance", "", 3), Err("Invalid command".to_string()));
    assert_eq!(s.execute_command_at("nope", "solve", "", 3), Err("Session not found".to_string()));
}

#[test]
fn forest_fights_run_out() {
    let mut s = RetroAIServices::new();
    s.start_game_at("user1234", "lord2035", 1).unwrap();
    let sid = "session_user1234_1";
    for _ in 0..10 {
        let r = s.execute_command_at(sid, "forest", "", 2).unwrap();
        assert_eq!(r, "You encounter a forest monster! *FIGHT* You win! +10 exp, +5 gold\n");
    }
    let r = s.execute_command_at(sid, "forest", "", 2).unwrap();
    assert_eq!(r, "You're too tired to fight more today.\n");
}

#[test]
fn no_high_scores_yet() {
    let s = RetroAIServices::new();
    assert!(s.get_high_scores("tradewars2035").is_empty());
}

#[test]
fn game_calls_refuse_before_the_clock() {
    let mut s = RetroAIServices::new();
    assert_eq!(s.start_game("user1234", "pong"), Err("Game not found".to_string()));
    assert_eq!(s.execute_command("nope", "scan", ""), Err("Session not found".to_string()));
    s.start_game_at("user1234", "tradewars2035", 1700000000).unwrap();
    let sid = "session_user1234_1700000000";
    assert_eq!(s.execute_command(sid, "dance", ""), Err("Invalid command".to_string()));
    assert_eq!(s.execute_command(sid, "move", "north"), Err("Invalid sector number".to_string()));
    assert!(s.execute_command(sid, "move", "7").unwrap().starts_with("Moved to sector 7"));
}
