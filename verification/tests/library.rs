//! Scenarios and exact values for the game library.

use shared::ai::{ai_tick, personality_for, AiPersonality};
use shared::autotest::{capture_file, AutoTestMoment, AutoTestState};
use shared::constants::{NUM_FOOD, NUM_SNAKES};
use shared::flow::{
    countdown_label, countdown_phase, countdown_sound, direction_from_keys, handle_input, next_state, reveal_next, start_direction,
    CountdownSound, DirectionKeys, FlowEvent, REVEAL_FADE_MS,
};
use shared::fmt::{carnage_text, clock_text, debug_json, hud_text, leaderboard_row, leaderboard_rows, ranking_row};
use shared::game::{ArenaBounds, Direction, Food, GameState, GridPos, MatchState, Snake, SnakeId};
use shared::grid::{cell_shade, has_shrunk, spawn_shade, CellShade};
use shared::menu::{
    cursor_text, name_entry_input, save_match_to_leaderboard, save_name_script, LeaderboardData,
    LeaderboardEntry, NameKey, PlayerName,
};
use shared::ranking::{game_over_summary, rank_order, RankingEntry};
use shared::rng::SimpleRng;
use shared::shrink::{arena_shrink, shrink_frame, shrink_warning};
use shared::spawn::{spawn_match, spawn_positions};
use shared::spectate::{camera_focus, show_spectating, spectate_target};
use shared::text::{
    crush_message, display_name, get_snake_color_name, kill_message, rank_label, spectating_message, state_str,
    winner_text,
};
use shared::tick::{game_tick, Death};
use shared::wav::samples_to_wav;

fn pos(x: i32, y: i32) -> GridPos {
    GridPos::new(x, y)
}

fn ids(n: u32) -> Vec<SnakeId> {
    (0..n).map(SnakeId).collect()
}

// ---------------------------------------------------------------------------
// Grid, snake, arena
// ---------------------------------------------------------------------------

#[test]
fn grid_pos_distance_and_bounds() {
    assert_eq!(pos(1, 2).distance(pos(4, -2)), 7);
    assert_eq!(pos(0, 0).distance(pos(0, 0)), 0);
    assert!(pos(1, 1).in_bounds());
    assert!(pos(38, 38).in_bounds());
    assert!(!pos(0, 5).in_bounds());
    assert!(!pos(5, 39).in_bounds());
}

#[test]
fn direction_opposite_and_delta() {
    assert_eq!(Direction::Up.opposite(), Direction::Down);
    assert_eq!(Direction::Left.opposite(), Direction::Right);
    assert_eq!(Direction::Up.delta(), (0, 1));
    assert_eq!(Direction::Down.delta(), (0, -1));
    assert_eq!(Direction::Left.delta(), (-1, 0));
    assert_eq!(Direction::Right.delta(), (1, 0));
    assert_eq!(Direction::ALL, [Direction::Up, Direction::Down, Direction::Left, Direction::Right]);
}

#[test]
fn new_snake_trails_behind_its_head() {
    let s = Snake::new(10, 10, Direction::Right);
    let cells: Vec<GridPos> = s.segments.iter().copied().collect();
    assert_eq!(cells, vec![pos(10, 10), pos(9, 10), pos(8, 10), pos(7, 10), pos(6, 10)]);
    assert_eq!(s.head(), pos(10, 10));
    assert!(s.alive);
    assert_eq!((s.score, s.kills, s.grow_pending), (0, 0, 0));
    let up = Snake::new(5, 5, Direction::Up);
    assert_eq!(up.segments[4], pos(5, 1));
}

#[test]
fn step_moves_one_cell_and_grows_when_pending() {
    let mut s = Snake::new(10, 10, Direction::Right);
    assert_eq!(s.step(), pos(11, 10));
    assert_eq!(s.segments.len(), 5);
    assert_eq!(s.segments[4], pos(7, 10));
    s.grow_pending = 2;
    s.step();
    assert_eq!(s.segments.len(), 6);
    assert_eq!(s.grow_pending, 1);
    s.step();
    assert_eq!(s.segments.len(), 7);
    assert_eq!(s.grow_pending, 0);
    s.step();
    assert_eq!(s.segments.len(), 7);
}

#[test]
fn collisions_of_a_snake() {
    let s = Snake::new(10, 10, Direction::Right);
    assert!(s.occupies(pos(10, 10)));
    assert!(!s.body_collision(pos(10, 10)));
    assert!(s.body_collision(pos(8, 10)));
    assert!(!s.occupies(pos(11, 10)));
    assert!(!s.self_collision());
}

#[test]
fn arena_shrink_laws_on_values() {
    let b = ArenaBounds::default();
    assert_eq!((b.min_x, b.min_y, b.max_x, b.max_y), (1, 1, 39, 39));
    assert!(b.contains(pos(1, 1)));
    assert!(!b.contains(pos(39, 1)));
    assert_eq!(b.wall_distance(pos(1, 20)), 0);
    assert_eq!(b.wall_distance(pos(20, 20)), 18);
    let mut s = b;
    s.shrink();
    assert_eq!((s.min_x, s.min_y, s.max_x, s.max_y), (2, 2, 38, 38));
    assert!(!s.contains(pos(1, 20)));
    let mut small = ArenaBounds { min_x: 10, min_y: 10, max_x: 16, max_y: 20 };
    assert!(!small.can_shrink());
    small.shrink();
    assert_eq!((small.min_x, small.max_x), (10, 16));
}

// ---------------------------------------------------------------------------
// Random numbers
// ---------------------------------------------------------------------------

#[test]
fn rng_is_deterministic_with_known_values() {
    let mut r = SimpleRng::from_seed(0);
    assert_eq!(r.next_u32(), 167951807);
    assert_eq!(r.next_u32(), 218396424);
    let mut a = SimpleRng::from_seed(42);
    let mut b = SimpleRng::from_seed(42);
    assert_eq!(a.range(2, 38), 12);
    assert_eq!(b.range(2, 38), 12);
    for _ in 0..100 {
        let v = a.range(-5, 5);
        assert!((-5..5).contains(&v));
    }
}

// ---------------------------------------------------------------------------
// A game tick
// ---------------------------------------------------------------------------

#[test]
fn tick_head_on_collision_kills_both() {
    let mut snakes = vec![Snake::new(15, 20, Direction::Right), Snake::new(17, 20, Direction::Left)];
    let mut ms = MatchState { alive_count: 2, total_snakes: 2 };
    let mut rng = SimpleRng::from_seed(1);
    let out = game_tick(&mut snakes, &ids(2), &vec![], &ArenaBounds::default(), &mut ms, &mut rng);
    assert!(!snakes[0].alive && !snakes[1].alive);
    assert_eq!(
        out.deaths,
        vec![Death { victim: 0, killer: None }, Death { victim: 1, killer: None }]
    );
    assert_eq!(ms.alive_count, 0);
    assert!(out.game_over);
    assert_eq!(snakes[0].kills + snakes[1].kills, 0);
}

#[test]
fn tick_body_hit_credits_the_body_owner() {
    // B runs right along y = 12; A climbs into B's body.
    let mut a = Snake::new(12, 11, Direction::Up);
    a.next_direction = Direction::Up;
    let b = Snake::new(14, 12, Direction::Right);
    let mut snakes = vec![a, b];
    let mut ms = MatchState { alive_count: 2, total_snakes: 2 };
    let mut rng = SimpleRng::from_seed(1);
    let out = game_tick(&mut snakes, &vec![SnakeId(0), SnakeId(7)], &vec![], &ArenaBounds::default(), &mut ms, &mut rng);
    assert_eq!(out.deaths, vec![Death { victim: 0, killer: Some(SnakeId(7)) }]);
    assert!(!snakes[0].alive);
    assert!(snakes[1].alive);
    assert_eq!(snakes[1].kills, 1);
    assert_eq!(snakes[1].head(), pos(15, 12));
    assert_eq!(ms.alive_count, 1);
    assert!(out.game_over);
}

#[test]
fn tick_food_feeds_and_refills() {
    let mut snakes = vec![Snake::new(10, 10, Direction::Right), Snake::new(20, 20, Direction::Up)];
    let foods = vec![Food::new(11, 10), Food::new(30, 30)];
    let mut ms = MatchState { alive_count: 2, total_snakes: 2 };
    let mut rng = SimpleRng::from_seed(9);
    let bounds = ArenaBounds::default();
    let out = game_tick(&mut snakes, &ids(2), &foods, &bounds, &mut ms, &mut rng);
    assert!(out.deaths.is_empty());
    assert_eq!(out.eaten, vec![true, false]);
    assert_eq!(snakes[0].score, 1);
    assert_eq!(snakes[0].grow_pending, 2);
    assert_eq!(snakes[1].score, 0);
    assert_eq!(out.spawned.len(), NUM_FOOD - 1);
    for f in &out.spawned {
        assert!(f.pos.x >= bounds.min_x + 1 && f.pos.x < bounds.max_x - 1);
        assert!(f.pos.y >= bounds.min_y + 1 && f.pos.y < bounds.max_y - 1);
    }
    assert!(!out.game_over);
    assert_eq!(ms.alive_count, 2);
}

#[test]
fn tick_leaving_the_arena_kills_without_credit_and_dead_stay_put() {
    let bounds = ArenaBounds::default();
    let mut leaving = Snake::new(38, 20, Direction::Right);
    leaving.next_direction = Direction::Right;
    let mut dead = Snake::new(20, 30, Direction::Down);
    dead.alive = false;
    let frozen: Vec<GridPos> = dead.segments.iter().copied().collect();
    let mut snakes = vec![leaving, dead, Snake::new(5, 5, Direction::Up), Snake::new(30, 5, Direction::Up)];
    let mut ms = MatchState { alive_count: 3, total_snakes: 4 };
    let mut rng = SimpleRng::from_seed(3);
    let out = game_tick(&mut snakes, &ids(4), &vec![], &bounds, &mut ms, &mut rng);
    assert_eq!(out.deaths, vec![Death { victim: 0, killer: None }]);
    let after: Vec<GridPos> = snakes[1].segments.iter().copied().collect();
    assert_eq!(after, frozen);
    assert!(!snakes[1].alive);
    assert_eq!(ms.alive_count, 2);
    assert!(!out.game_over);
    for s in &snakes {
        if s.alive {
            assert!(bounds.contains(s.head()));
        }
    }
}

#[test]
fn arena_shrink_crushes_and_clears_the_edge() {
    let mut bounds = ArenaBounds::default();
    let mut snakes = vec![Snake::new(38, 20, Direction::Up), Snake::new(20, 20, Direction::Up)];
    let foods = vec![Food::new(1, 1), Food::new(20, 5)];
    let out = arena_shrink(&mut bounds, &mut snakes, &foods);
    assert!(out.shrunk);
    assert_eq!(out.crushed, vec![0]);
    assert_eq!(out.food_removed, vec![true, false]);
    assert!(!snakes[0].alive && snakes[1].alive);
    assert_eq!(bounds.max_x, 38);

    let mut tiny = ArenaBounds { min_x: 17, min_y: 17, max_x: 23, max_y: 23 };
    let mut some = vec![Snake::new(20, 20, Direction::Up)];
    let out = arena_shrink(&mut tiny, &mut some, &foods);
    assert!(!out.shrunk);
    assert!(out.crushed.is_empty());
    assert_eq!(tiny, ArenaBounds { min_x: 17, min_y: 17, max_x: 23, max_y: 23 });
}

// ---------------------------------------------------------------------------
// AI
// ---------------------------------------------------------------------------

#[test]
fn personalities_cycle() {
    assert_eq!(personality_for(0), AiPersonality::Hungry);
    assert_eq!(personality_for(1), AiPersonality::Cautious);
    assert_eq!(personality_for(2), AiPersonality::Aggressive);
    assert_eq!(personality_for(9), AiPersonality::Hungry);
}

#[test]
fn ai_turns_away_from_the_wall() {
    let mut ais = vec![Snake::new(1, 20, Direction::Left)];
    ai_tick(&mut ais, &vec![SnakeId(3)], &vec![], &vec![], &vec![], &ArenaBounds::default());
    assert_eq!(ais[0].next_direction, Direction::Up);
}

#[test]
fn hungry_ai_heads_for_food() {
    let mut ais = vec![Snake::new(20, 20, Direction::Right)];
    let foods = vec![Food::new(20, 25)];
    ai_tick(&mut ais, &vec![SnakeId(3)], &vec![], &vec![], &foods, &ArenaBounds::default());
    assert_eq!(ais[0].next_direction, Direction::Up);
}

#[test]
fn ai_avoids_another_snake() {
    // A wall of another snake right above the AI's head: up is blocked.
    let other = Snake::new(24, 21, Direction::Right);
    let mut ais = vec![Snake::new(20, 20, Direction::Right)];
    let foods = vec![Food::new(20, 25)];
    ai_tick(&mut ais, &vec![SnakeId(3)], &vec![other], &vec![SnakeId(0)], &foods, &ArenaBounds::default());
    assert_ne!(ais[0].next_direction, Direction::Up);
    assert_ne!(ais[0].next_direction, Direction::Left);
}

// ---------------------------------------------------------------------------
// Rankings and leaderboard
// ---------------------------------------------------------------------------

fn snake_with(alive: bool, score: u32, kills: u32) -> Snake {
    let mut s = Snake::new(10, 10, Direction::Right);
    s.alive = alive;
    s.score = score;
    s.kills = kills;
    s
}

#[test]
fn rankings_alive_then_score_then_kills_stable() {
    let snakes = vec![
        snake_with(false, 5, 0),
        snake_with(true, 1, 0),
        snake_with(false, 5, 2),
        snake_with(false, 5, 0),
        snake_with(true, 3, 1),
    ];
    assert_eq!(rank_order(&snakes), vec![4, 1, 2, 0, 3]);
}

#[test]
fn game_over_summary_names_the_winner() {
    let snakes = vec![snake_with(false, 2, 1), snake_with(true, 1, 2), snake_with(false, 4, 0)];
    let s = game_over_summary(&snakes, &ids(3));
    assert!(!s.player_won);
    assert!(s.player_lost);
    assert_eq!(s.winner_text, "Cheems wins! much skill! so impress!");
    assert_eq!(s.total_kills, 3);
    let names: Vec<&str> = s.rankings.iter().map(|r| r.name.as_str()).collect();
    assert_eq!(names, vec!["Cheems", "Bonk", "You"]);
    assert!(s.rankings[2].is_player);

    let won = game_over_summary(&vec![snake_with(true, 0, 0), snake_with(false, 9, 9)], &ids(2));
    assert!(won.player_won);
    assert_eq!(won.winner_text, "VICTORY! very win! so champion! wow!");
    let draw = game_over_summary(&vec![snake_with(false, 0, 0)], &ids(1));
    assert_eq!(draw.winner_text, "wow such draw! no survivors! very dead!");
}

fn entry(n: u32) -> LeaderboardEntry {
    LeaderboardEntry {
        winner_name: format!("w{}", n),
        winner_id: Some(n),
        total_kills: 0,
        match_number: n,
        player_rank: 1,
        player_score: 0,
        player_kills: 0,
    }
}

#[test]
fn leaderboard_keeps_the_last_twenty() {
    let mut board = LeaderboardData::default();
    for n in 1..=21 {
        board.add_entry(entry(n));
    }
    assert_eq!(board.match_counter, 21);
    assert_eq!(board.entries.len(), 20);
    assert_eq!(board.entries[0].match_number, 2);
    assert_eq!(board.entries[19].match_number, 21);
}

#[test]
fn save_match_records_winner_rank_and_player_stats() {
    let mut board = LeaderboardData::default();
    let snakes = vec![snake_with(false, 4, 1), snake_with(true, 2, 3), snake_with(false, 6, 0)];
    let player = PlayerName { name: "  Ada ".to_string() };
    save_match_to_leaderboard(&mut board, &snakes, &ids(3), &player);
    let e = &board.entries[0];
    assert_eq!(e.winner_name, "Cheems");
    assert_eq!(e.winner_id, Some(1));
    assert_eq!(e.total_kills, 4);
    assert_eq!(e.match_number, 1);
    assert_eq!(e.player_rank, 3);
    assert_eq!((e.player_score, e.player_kills), (4, 1));

    let mut board = LeaderboardData::default();
    let snakes = vec![snake_with(true, 0, 0)];
    save_match_to_leaderboard(&mut board, &snakes, &ids(1), &player);
    assert_eq!(board.entries[0].winner_name, "Ada");
    assert_eq!(board.entries[0].player_rank, 1);

    let mut board = LeaderboardData::default();
    save_match_to_leaderboard(&mut board, &vec![snake_with(false, 0, 0)], &vec![SnakeId(5)], &player);
    assert_eq!(board.entries[0].winner_name, "Draw");
    assert_eq!(board.entries[0].winner_id, None);
    assert_eq!(board.entries[0].player_rank, 0);
}

// ---------------------------------------------------------------------------
// Text
// ---------------------------------------------------------------------------

#[test]
fn names_and_messages() {
    assert_eq!(get_snake_color_name(0), "Doge");
    assert_eq!(get_snake_color_name(9), "Cheems");
    assert_eq!(get_snake_color_name(7), "Woofer");
    assert_eq!(display_name(0), "You");
    assert_eq!(display_name(8), "Doge");
    assert_eq!(kill_message(3, Some(0)), "Shibe bonked by You! wow");
    assert_eq!(kill_message(0, None), "You ded! much rip!");
    assert_eq!(crush_message(4), "Floof crushed! such squish!");
    assert_eq!(winner_text(Some(6)), "Snoot wins! much skill! so impress!");
    assert_eq!(spectating_message(Some(5)), "spectating Bork doge");
    assert_eq!(spectating_message(None), "spectating");
    assert_eq!(rank_label(0), "1st");
    assert_eq!(rank_label(9), "10th");
    assert_eq!(rank_label(10), "??");
    assert_eq!(state_str(GameState::NameEntry), "NameEntry");
}

#[test]
fn formatted_lines() {
    assert_eq!(clock_text(125), "2:05");
    assert_eq!(clock_text(0), "0:00");
    assert_eq!(clock_text(3600), "60:00");
    assert_eq!(hud_text(7, 10, 3, 1), "alive: 7/10   score: 3   kills: 1");
    let row = RankingEntry {
        name: "You".to_string(),
        snake_id: 0,
        score: 12,
        kills: 2,
        alive: true,
        is_player: true,
    };
    assert_eq!(ranking_row(0, &row), "1st [W]  You  <- YOU   12 noms   2 bonks *");
    let other = RankingEntry { name: "Bonk".to_string(), snake_id: 2, score: 0, kills: 0, alive: false, is_player: false };
    assert_eq!(ranking_row(3, &other), "4th  Bonk   0 noms   0 bonks");
    assert_eq!(carnage_text(9), "total bonks: 9   much carnage");
    let e = LeaderboardEntry {
        winner_name: "Cheems".to_string(),
        winner_id: Some(1),
        total_kills: 6,
        match_number: 3,
        player_rank: 2,
        player_score: 5,
        player_kills: 1,
    };
    assert_eq!(leaderboard_row(&e), format!(" {:>2}   {:<16} #{} ({} pts, {} kills)   {} bonks", 3, "Cheems", 2, 5, 1, 6));
    let bounds = ArenaBounds { min_x: -3, min_y: 1, max_x: 39, max_y: 39 };
    assert_eq!(
        debug_json(GameState::Playing, 4, 10, 2, 1, 77, &bounds),
        "{\"loaded\":true,\"gameState\":\"Playing\",\"aliveCount\":4,\"totalSnakes\":10,\"playerScore\":2,\"playerKills\":1,\"tick\":77,\"arenaBounds\":{\"min_x\":-3,\"min_y\":1,\"max_x\":39,\"max_y\":39}}"
    );
}

#[test]
fn leaderboard_rows_newest_first() {
    let mut board = LeaderboardData::default();
    for n in 1..=12 {
        board.add_entry(entry(n));
    }
    let rows = leaderboard_rows(&board);
    assert_eq!(rows.len(), 10);
    assert!(rows[0].starts_with(" 12   w12"));
    assert!(rows[9].starts_with("  3   w3 "));
}

#[test]
fn player_name_display_and_entry() {
    assert_eq!(PlayerName { name: "  Bob ".to_string() }.display(), "Bob");
    assert_eq!(PlayerName { name: "   ".to_string() }.display(), "Player");
    assert_eq!(PlayerName::default().display(), "Player");

    let mut p = PlayerName::default();
    let r = name_entry_input(&mut p, &vec![NameKey::Text("a!b".to_string()), NameKey::Other]);
    assert!(r.changed && !r.confirmed);
    assert_eq!(p.name, "ab");
    let r = name_entry_input(&mut p, &vec![NameKey::Backspace, NameKey::Text("é_ .-".to_string())]);
    assert!(r.changed);
    assert_eq!(p.name, "aé_ .-");
    assert_eq!(cursor_text(&p), "aé_ .-_");

    let mut long = PlayerName { name: "abcdefghijklmnop".to_string() };
    let r = name_entry_input(&mut long, &vec![NameKey::Text("q".to_string())]);
    assert!(!r.changed);
    assert_eq!(long.name, "abcdefghijklmnop");

    let mut q = PlayerName { name: "  zed ".to_string() };
    let r = name_entry_input(&mut q, &vec![NameKey::Enter, NameKey::Text("x".to_string())]);
    assert!(r.confirmed);
    assert_eq!(q.name, "zed");
    let mut blank = PlayerName { name: " ".to_string() };
    blank.confirm();
    assert_eq!(blank.name, "Player");

    let mut empty = PlayerName::default();
    let r = name_entry_input(&mut empty, &vec![NameKey::Backspace]);
    assert!(!r.changed);
    assert_eq!(cursor_text(&empty), "_");
    // At most 16 characters, whatever one key press types.
    let mut fresh = PlayerName::default();
    let r = name_entry_input(&mut fresh, &vec![NameKey::Text("abcdefghijklmnopq".to_string())]);
    assert!(r.changed);
    assert_eq!(fresh.name, "abcdefghijklmnop");
    let mut wide = PlayerName { name: "ééééééééééééééé".to_string() };
    let r = name_entry_input(&mut wide, &vec![NameKey::Text("éé".to_string())]);
    assert!(r.changed);
    assert_eq!(wide.name.chars().count(), 16);
    assert_eq!(PlayerName { name: "\u{3000}Rex\u{a0}".to_string() }.display(), "Rex");
}

#[test]
fn storage_script_escapes_quotes_and_backslashes() {
    let name = "O'Re\\x".to_string();
    assert_eq!(
        save_name_script(&name),
        "window.localStorage.setItem('dogebread_player_name', 'O\\'Re\\\\x')"
    );
}

// ---------------------------------------------------------------------------
// Sound, screens, input
// ---------------------------------------------------------------------------

#[test]
fn wav_bytes() {
    let bytes = samples_to_wav(&[1, -2]);
    assert_eq!(bytes.len(), 48);
    assert_eq!(&bytes[0..4], b"RIFF");
    assert_eq!(&bytes[4..8], &40u32.to_le_bytes());
    assert_eq!(&bytes[8..16], b"WAVEfmt ");
    assert_eq!(&bytes[24..28], &22050u32.to_le_bytes());
    assert_eq!(&bytes[28..32], &44100u32.to_le_bytes());
    assert_eq!(&bytes[36..40], b"data");
    assert_eq!(&bytes[40..44], &4u32.to_le_bytes());
    assert_eq!(&bytes[44..48], &[1, 0, 0xFE, 0xFF]);
}

#[test]
fn screens_follow_the_flow() {
    assert_eq!(next_state(GameState::Home, FlowEvent::PlayPressed), Some(GameState::NameEntry));
    assert_eq!(next_state(GameState::Home, FlowEvent::LeaderboardPressed), Some(GameState::Leaderboard));
    assert_eq!(next_state(GameState::NameEntry, FlowEvent::NameConfirmed), Some(GameState::WaitingToStart));
    assert_eq!(next_state(GameState::WaitingToStart, FlowEvent::StartPressed), Some(GameState::Countdown));
    assert_eq!(next_state(GameState::Countdown, FlowEvent::CountdownFinished), Some(GameState::Playing));
    assert_eq!(next_state(GameState::Playing, FlowEvent::MatchOver), Some(GameState::GameOver));
    assert_eq!(next_state(GameState::GameOver, FlowEvent::HomePressed), Some(GameState::Home));
    assert_eq!(next_state(GameState::GameOver, FlowEvent::RestartPressed), Some(GameState::WaitingToStart));
    assert_eq!(next_state(GameState::Playing, FlowEvent::RestartPressed), None);
    assert_eq!(GameState::default(), GameState::WaitingToStart);
}

#[test]
fn keys_to_directions() {
    let none = DirectionKeys { up: false, down: false, left: false, right: false };
    let down_left = DirectionKeys { up: false, down: true, left: true, right: false };
    assert_eq!(direction_from_keys(none), None);
    assert_eq!(direction_from_keys(down_left), Some(Direction::Down));
    assert_eq!(start_direction(true, down_left, false), Some(Direction::Right));
    assert_eq!(start_direction(false, none, true), Some(Direction::Right));
    assert_eq!(start_direction(false, none, false), None);

    let mut s = Snake::new(10, 10, Direction::Right);
    handle_input(&mut s, DirectionKeys { up: true, down: false, left: false, right: false });
    assert_eq!(s.next_direction, Direction::Up);
    handle_input(&mut s, DirectionKeys { up: false, down: false, left: true, right: false });
    assert_eq!(s.next_direction, Direction::Up);
    s.alive = false;
    handle_input(&mut s, DirectionKeys { up: false, down: true, left: false, right: false });
    assert_eq!(s.next_direction, Direction::Up);
}

#[test]
fn countdown_phases() {
    assert_eq!(countdown_phase(0), 1);
    assert_eq!(countdown_phase(1999), 2);
    assert_eq!(countdown_phase(2000), 3);
    assert_eq!(countdown_phase(3400), 4);
    assert_eq!(countdown_label(1), "such 3");
    assert_eq!(countdown_label(4), "WOW GO!");
}

#[test]
fn shrink_frame_warns_then_shrinks() {
    let mut bounds = ArenaBounds::default();
    let mut snakes = vec![Snake::new(1, 10, Direction::Up), Snake::new(20, 20, Direction::Up)];
    let foods = vec![Food::new(38, 5), Food::new(10, 10)];
    let frame = shrink_frame(&mut bounds, &mut snakes, &foods, 10_500, 12_000, false, false);
    assert!(frame.warning);
    assert!(frame.warning_sound);
    let frame = shrink_frame(&mut bounds, &mut snakes, &foods, 10_600, 12_000, true, false);
    assert!(frame.warning && !frame.warning_sound);
    assert!(frame.outcome.is_none());
    assert_eq!(bounds, ArenaBounds::default());
    let frame = shrink_frame(&mut bounds, &mut snakes, &foods, 3, 12_000, true, true);
    assert!(!frame.warning && !frame.warning_sound);
    let out = frame.outcome.unwrap();
    assert!(out.shrunk);
    assert_eq!(out.crushed, vec![0]);
    assert_eq!(out.food_removed, vec![true, false]);
    assert_eq!(bounds.min_x, 2);
    assert!(!snakes[0].alive && snakes[1].alive);
}

#[test]
fn shrink_warning_in_the_last_two_seconds() {
    assert!(!shrink_warning(true, 9_999, 12_000));
    assert!(!shrink_warning(true, 10_000, 12_000));
    assert!(shrink_warning(true, 10_001, 12_000));
    assert!(!shrink_warning(false, 11_500, 12_000));
    assert!(shrink_warning(true, u32::MAX, 12_000));
}

#[test]
fn countdown_sounds_on_phase_changes() {
    assert_eq!(countdown_sound(0, 1), Some(CountdownSound::Beep));
    assert_eq!(countdown_sound(1, 1), None);
    assert_eq!(countdown_sound(2, 3), Some(CountdownSound::Beep));
    assert_eq!(countdown_sound(3, 4), Some(CountdownSound::Go));
    assert_eq!(countdown_sound(4, 4), None);
    assert_eq!(countdown_sound(4, 1), Some(CountdownSound::Beep));
}

#[test]
fn stored_name_fills_in_unless_blank() {
    let mut p = PlayerName { name: "old".to_string() };
    p.prefill(Some("Rex".to_string()));
    assert_eq!(p.name, "Rex");
    p.prefill(Some(" \t ".to_string()));
    assert_eq!(p.name, "Rex");
    p.prefill(None);
    assert_eq!(p.name, "Rex");
    p.prefill(Some(" Max ".to_string()));
    assert_eq!(p.name, " Max ");
}

#[test]
fn game_over_reveal_schedule() {
    assert_eq!(REVEAL_FADE_MS, 600);
    assert_eq!(reveal_next(0), Some((1, 1000)));
    assert_eq!(reveal_next(1), Some((2, 1000)));
    assert_eq!(reveal_next(2), Some((3, 1000)));
    assert_eq!(reveal_next(3), Some((4, 999_000)));
    assert_eq!(reveal_next(4), None);
}

#[test]
fn spectating_follows_the_last_best_scorer() {
    let others = vec![snake_with(true, 3, 0), snake_with(false, 9, 0), snake_with(true, 3, 0), snake_with(true, 1, 0)];
    assert_eq!(spectate_target(&others), Some(2));
    assert_eq!(spectate_target(&vec![snake_with(false, 1, 0)]), None);
    assert!(show_spectating(GameState::Playing, Some(false)));
    assert!(show_spectating(GameState::Playing, None));
    assert!(!show_spectating(GameState::Playing, Some(true)));
    assert!(!show_spectating(GameState::GameOver, Some(false)));
    let dead_player = snake_with(false, 0, 0);
    assert_eq!(camera_focus(GameState::Playing, Some(&dead_player), &others), Some(pos(10, 10)));
    let live_player = Snake::new(3, 4, Direction::Up);
    assert_eq!(camera_focus(GameState::Playing, Some(&live_player), &others), Some(pos(3, 4)));
    assert_eq!(camera_focus(GameState::Countdown, Some(&live_player), &others), None);
}

#[test]
fn grid_cells_are_shaded() {
    assert_eq!(spawn_shade(0, 5), CellShade::Wall);
    assert_eq!(spawn_shade(2, 2), CellShade::Floor(true));
    assert_eq!(spawn_shade(2, 3), CellShade::Floor(false));
    let b = ArenaBounds { min_x: 3, min_y: 3, max_x: 37, max_y: 37 };
    assert!(has_shrunk(&b));
    assert!(!has_shrunk(&ArenaBounds::default()));
    assert_eq!(cell_shade(pos(2, 10), &b, true, false), CellShade::Wall);
    assert_eq!(cell_shade(pos(3, 10), &b, true, false), CellShade::Danger);
    assert_eq!(cell_shade(pos(4, 10), &b, true, true), CellShade::DangerFlash);
    assert_eq!(cell_shade(pos(5, 10), &b, true, true), CellShade::Warn(false));
    assert_eq!(cell_shade(pos(6, 10), &b, true, false), CellShade::Floor(true));
}

#[test]
fn auto_test_takes_each_screenshot_once() {
    let mut st = AutoTestState::new(true);
    let bounds = ArenaBounds::default();
    let countdown = AutoTestMoment {
        state: GameState::Countdown,
        countdown: Some((true, false)),
        alive_count: 10,
        bounds,
        gameover_phase: None,
    };
    assert_eq!(st.observe(&countdown).captures, vec![1]);
    assert!(st.observe(&countdown).captures.is_empty());
    let play = AutoTestMoment { state: GameState::Playing, countdown: None, alive_count: 10, bounds, gameover_phase: None };
    assert_eq!(st.observe(&play).captures, vec![3]);
    let fewer = AutoTestMoment { alive_count: 3, ..play };
    assert_eq!(st.observe(&fewer).captures, vec![4, 6]);
    let over = AutoTestMoment {
        state: GameState::GameOver,
        countdown: None,
        alive_count: 1,
        bounds,
        gameover_phase: Some(4),
    };
    let done = st.observe(&over);
    assert_eq!(done.captures, vec![7, 8, 9]);
    assert!(done.finished);
    assert_eq!(capture_file(9), "09-gameover-complete.png");
    let mut off = AutoTestState::new(false);
    assert!(off.observe(&play).captures.is_empty());
}

#[test]
fn a_new_match() {
    let positions = spawn_positions();
    assert_eq!(positions.len(), 10);
    assert_eq!(positions[9], (26, 26, Direction::Left));
    let mut rng = SimpleRng::from_seed(42);
    let m = spawn_match(&mut rng);
    assert_eq!(m.snakes.len(), NUM_SNAKES as usize);
    assert_eq!(m.ids[3], SnakeId(3));
    assert_eq!(m.snakes[1].head(), pos(29, 10));
    assert_eq!(m.snakes[1].direction, Direction::Up);
    assert_eq!(m.foods.len(), NUM_FOOD);
    assert_eq!(m.foods[0].pos, pos(12, 16));
    assert_eq!(m.match_state, MatchState { alive_count: 10, total_snakes: 10 });
    let bounds = ArenaBounds::default();
    for s in &m.snakes {
        for c in s.segments.iter() {
            assert!(bounds.contains(*c));
        }
    }
    for f in &m.foods {
        assert!(f.pos.x >= 2 && f.pos.x < 38 && f.pos.y >= 2 && f.pos.y < 38);
    }
}
