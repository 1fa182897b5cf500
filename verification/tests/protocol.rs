use zorro::Color;
use zorro::Coordinate;
use zorro::File;
use zorro::Rank;
use zorro::Role;
use zorro::Square;
use zorro::State;
use zorro::Zorro;
use zorro::uci::handle_line;
use zorro::uci::process_line;
use zorro::uci::run_lines;

#[test]
fn d_fen_prints_fen() {
    let zorro = &mut Zorro::default();
    let mut sink: Vec<String> = Vec::new();
    handle_line(zorro, "uci", &mut sink).unwrap();
    handle_line(zorro, "position current moves b1c3", &mut sink).unwrap();
    let fen = zorro.board.fmt_fen(' ');
    let mut output: Vec<String> = Vec::new();
    handle_line(zorro, "d fen", &mut output).unwrap();
    assert_eq!(output, vec![fen]);
}

#[test]
fn stop_cmd_triggers_shutdown() {
    let mut out: Vec<String> = Vec::new();
    assert_eq!(
        handle_line(&mut Zorro::default(), "stop", &mut out).unwrap(),
        State::Shutdown
    );
}

#[test]
fn quit_cmd_triggers_shutdown() {
    let mut out: Vec<String> = Vec::new();
    assert_eq!(
        handle_line(&mut Zorro::default(), "quit", &mut out).unwrap(),
        State::Shutdown
    );
}

#[test]
fn readyok_always_follows_isready() {
    let zorro = &mut Zorro::default();
    let mut sink: Vec<String> = Vec::new();
    handle_line(zorro, "uci", &mut sink).unwrap();
    let mut output: Vec<String> = Vec::new();
    handle_line(zorro, "isready", &mut output).unwrap();
    assert_eq!(output, vec!["readyok"]);
}

#[test]
fn uci_identifies_and_terminates_with_uciok() {
    let zorro = &mut Zorro::default();
    let mut out: Vec<String> = Vec::new();
    handle_line(zorro, "uci", &mut out).unwrap();
    assert!(out[0].starts_with("id name"));
    assert!(out.iter().any(|l| l.starts_with("option name")));
    assert_eq!(out.last().unwrap(), "uciok");
}

#[test]
fn quit_stops_processing_further_lines() {
    let zorro = &mut Zorro::default();
    let mut out: Vec<String> = Vec::new();
    let lines = vec![
        String::from("isready"),
        String::from("quit"),
        String::from("isready"),
    ];
    let (state, consumed) = run_lines(zorro, &lines, &mut out);
    assert_eq!(state, State::Shutdown);
    assert_eq!(consumed, 2);
    assert_eq!(out, vec!["readyok"]);
}

#[test]
fn startpos_move_advances_pawn_and_flips_side() {
    let zorro = &mut Zorro::default();
    let mut out: Vec<String> = Vec::new();
    handle_line(zorro, "position startpos moves e2e4", &mut out).unwrap();
    let e2 = Square::at(File::new(4), Rank::new(1));
    let e4 = Square::at(File::new(4), Rank::new(3));
    assert!(zorro.board.piece_at(e2).is_none());
    let moved = zorro.board.piece_at(e4).unwrap();
    assert_eq!(moved.role, Role::Pawn);
    assert_eq!(moved.color, Color::White);
    assert_eq!(zorro.board.color_to_move, Color::Black);
}

#[test]
fn ucinewgame_clears_the_cache() {
    let zorro = &mut Zorro::default();
    let probe = zorro.board.duplicate();
    zorro.cache.insert(zorro.board.duplicate(), zorro::Evaluation {});
    assert!(zorro.cache.lookup(&probe).is_some());
    let mut out: Vec<String> = Vec::new();
    handle_line(zorro, "ucinewgame", &mut out).unwrap();
    assert!(zorro.cache.lookup(&probe).is_none());
    assert!(out.is_empty());
}

#[test]
fn unknown_command_emits_one_error_and_session_survives() {
    let zorro = &mut Zorro::default();
    let mut out: Vec<String> = Vec::new();
    let state = process_line(zorro, "foobar", &mut out);
    assert_eq!(state, State::Alive);
    assert_eq!(out, vec!["[ERROR] Unknown command 'foobar'"]);
    let mut out2: Vec<String> = Vec::new();
    let state2 = process_line(zorro, "isready", &mut out2);
    assert_eq!(state2, State::Alive);
    assert_eq!(out2, vec!["readyok"]);
}

#[test]
fn blank_line_is_ignored() {
    let zorro = &mut Zorro::default();
    let mut out: Vec<String> = Vec::new();
    assert_eq!(handle_line(zorro, "   \t ", &mut out).unwrap(), State::Alive);
    assert!(out.is_empty());
}

#[test]
fn debug_toggles_and_rejects_garbage() {
    let zorro = &mut Zorro::default();
    let mut out: Vec<String> = Vec::new();
    handle_line(zorro, "debug on", &mut out).unwrap();
    assert!(zorro.config.debug);
    handle_line(zorro, "debug off", &mut out).unwrap();
    assert!(!zorro.config.debug);
    let state = process_line(zorro, "debug banana", &mut out);
    assert_eq!(state, State::Alive);
    assert_eq!(out, vec!["[ERROR] Invalid command syntax"]);
}

#[test]
fn setoption_sets_known_and_ignores_unknown() {
    let zorro = &mut Zorro::default();
    let mut out: Vec<String> = Vec::new();
    handle_line(zorro, "setoption name ponder value true", &mut out).unwrap();
    assert!(zorro.config.ponder);
    handle_line(zorro, "setoption name multipv value 3", &mut out).unwrap();
    assert_eq!(zorro.config.show_n_best, 3);
    handle_line(zorro, "setoption name Unheard Of Option value 42", &mut out).unwrap();
    assert!(out.is_empty());
    let state = process_line(zorro, "setoption novalue", &mut out);
    assert_eq!(state, State::Alive);
    assert_eq!(out, vec!["[ERROR] Invalid command syntax"]);
}

#[test]
fn position_rejects_bad_forms() {
    let zorro = &mut Zorro::default();
    let mut out: Vec<String> = Vec::new();
    let state = process_line(zorro, "position sideways", &mut out);
    assert_eq!(state, State::Alive);
    assert_eq!(out, vec!["[ERROR] Invalid command syntax"]);
    let mut out2: Vec<String> = Vec::new();
    process_line(zorro, "position startpos moves zz9x", &mut out2);
    assert_eq!(out2, vec!["[ERROR] Invalid square string"]);
}

#[test]
fn position_fen_round_trips() {
    let zorro = &mut Zorro::default();
    let mut out: Vec<String> = Vec::new();
    let fen = "rnbqkbnr/pppppppp/8/8/8/8/PPPPPPPP/RNBQKBNR w - - 0 1";
    let line = format!("position fen {}", fen);
    handle_line(zorro, line.as_str(), &mut out).unwrap();
    assert_eq!(zorro.board.fmt_fen(' '), fen);
    process_line(zorro, "position fen only three fields", &mut out);
    assert_eq!(out, vec!["[ERROR] Invalid FEN string"]);
}

#[test]
fn startpos_fen_is_standard() {
    let zorro = &mut Zorro::default();
    assert_eq!(
        zorro.board.fmt_fen(' '),
        "rnbqkbnr/pppppppp/8/8/8/8/PPPPPPPP/RNBQKBNR w - - 0 1"
    );
}

#[test]
fn go_commits_time_controls_and_answers_bestmove() {
    let zorro = &mut Zorro::default();
    let mut out: Vec<String> = Vec::new();
    handle_line(zorro, "go wtime 1000 btime 2000 winc 10 depth 3", &mut out).unwrap();
    assert_eq!(zorro.white_tc.time_limit_ms, 1000);
    assert_eq!(zorro.black_tc.time_limit_ms, 2000);
    assert_eq!(zorro.white_tc.increment_ms, 10);
    assert_eq!(zorro.config.max_depth, Some(3));
    assert_eq!(out, vec!["bestmove a2a3"]);
}

#[test]
fn go_searchmoves_restricts_the_answer() {
    let zorro = &mut Zorro::default();
    let mut out: Vec<String> = Vec::new();
    handle_line(zorro, "go searchmoves e2e4 d2d4", &mut out).unwrap();
    assert_eq!(out, vec!["bestmove e2e4"]);
}

#[test]
fn go_unknown_flag_has_no_partial_effect() {
    let zorro = &mut Zorro::default();
    let mut out: Vec<String> = Vec::new();
    let state = process_line(zorro, "go wtime 5000 sideways", &mut out);
    assert_eq!(state, State::Alive);
    assert_eq!(out, vec!["[ERROR] Invalid command syntax"]);
    assert_eq!(zorro.white_tc.time_limit_ms, 0);
}

#[test]
fn go_infinite_floods_both_clocks() {
    let zorro = &mut Zorro::default();
    let mut out: Vec<String> = Vec::new();
    handle_line(zorro, "go infinite", &mut out).unwrap();
    assert_eq!(zorro.white_tc.time_limit_ms, u64::MAX);
    assert_eq!(zorro.black_tc.time_limit_ms, u64::MAX);
}

#[test]
fn perft_counts_opening_moves() {
    let zorro = &mut Zorro::default();
    let mut out: Vec<String> = Vec::new();
    handle_line(zorro, "perft", &mut out).unwrap();
    assert_eq!(out, vec!["20"]);
    let mut out2: Vec<String> = Vec::new();
    handle_line(zorro, "perft 2", &mut out2).unwrap();
    assert_eq!(out2, vec!["400"]);
    let mut out3: Vec<String> = Vec::new();
    handle_line(zorro, "go perft 2", &mut out3).unwrap();
    assert_eq!(out3, vec!["400"]);
}

#[test]
fn eval_reports_balanced_start() {
    let zorro = &mut Zorro::default();
    let mut out: Vec<String> = Vec::new();
    handle_line(zorro, "eval", &mut out).unwrap();
    assert_eq!(out, vec!["Total evaluation: 0 (white side)"]);
}

#[test]
fn gentables_prints_both_tables() {
    let zorro = &mut Zorro::default();
    let mut out: Vec<String> = Vec::new();
    handle_line(zorro, "gentables", &mut out).unwrap();
    assert_eq!(out.len(), 130);
    assert_eq!(out[0], "KING ATTACKS");
    assert_eq!(out[65], "KNIGHT ATTACKS");
    // a1's king attacks: a2, b1, b2.
    assert_eq!(out[1], "0x0000000000000302");
}

#[test]
fn magic_command_transforms_occupancy() {
    let zorro = &mut Zorro::default();
    let mut out: Vec<String> = Vec::new();
    handle_line(zorro, "magic a1 file 2", &mut out).unwrap();
    assert_eq!(out, vec!["0x1"]);
    let mut out2: Vec<String> = Vec::new();
    process_line(zorro, "magic", &mut out2);
    assert_eq!(out2, vec!["[ERROR] Invalid command syntax"]);
    let mut out3: Vec<String> = Vec::new();
    process_line(zorro, "magic zz file", &mut out3);
    assert_eq!(out3, vec!["[ERROR] Invalid square string"]);
}

#[test]
fn listmagics_prints_one_line_per_square() {
    let zorro = &mut Zorro::default();
    let mut out: Vec<String> = Vec::new();
    handle_line(zorro, "listmagics", &mut out).unwrap();
    assert_eq!(out.len(), 64);
    assert_eq!(out[0], "a1 mask 0x7e mul 0x1 shift 1");
}

#[test]
fn d_dumps_the_board() {
    let zorro = &mut Zorro::default();
    let mut out: Vec<String> = Vec::new();
    handle_line(zorro, "d", &mut out).unwrap();
    assert_eq!(out.len(), 8);
    assert_eq!(out[0], "rnbqkbnr");
    assert_eq!(out[1], "pppppppp");
    assert_eq!(out[2], "........");
    assert_eq!(out[7], "RNBQKBNR");
}

#[test]
fn d_time_reports_both_colors() {
    let zorro = &mut Zorro::default();
    let mut out: Vec<String> = Vec::new();
    handle_line(zorro, "go wtime 9000", &mut out).unwrap();
    out.clear();
    handle_line(zorro, "d time", &mut out).unwrap();
    assert_eq!(out.len(), 12);
    assert_eq!(out[1], "White:");
    assert_eq!(out[2], "Initial:   9s");
    assert_eq!(out[7], "Black:");
    assert_eq!(out[8], "Initial:   0s");
}

#[test]
fn run_lines_without_terminal_consumes_everything() {
    let zorro = &mut Zorro::default();
    let mut out: Vec<String> = Vec::new();
    let lines = vec![String::from("isready"), String::from("isready")];
    let (state, consumed) = run_lines(zorro, &lines, &mut out);
    assert_eq!(state, State::Alive);
    assert_eq!(consumed, 2);
    assert_eq!(out, vec!["readyok", "readyok"]);
}

#[test]
fn cleart_emits_clear_sequence() {
    let zorro = &mut Zorro::default();
    let mut out: Vec<String> = Vec::new();
    handle_line(zorro, "cleart", &mut out).unwrap();
    assert_eq!(out, vec!["\u{1b}[2J"]);
}

#[test]
fn position_fen_reports_bad_side_as_color_error() {
    let zorro = &mut Zorro::default();
    let mut out: Vec<String> = Vec::new();
    process_line(zorro, "position fen 8/8/8/8/8/8/8/8 x - - 0 1", &mut out);
    assert_eq!(out, vec!["[ERROR] Invalid color string"]);
    let mut out2: Vec<String> = Vec::new();
    handle_line(zorro, "position fen 8/8/8/8/8/8/8/8 b - - 3 9", &mut out2).unwrap();
    assert_eq!(zorro.board.color_to_move, Color::Black);
    assert_eq!(zorro.board.halfmove_clock, 3);
    assert_eq!(zorro.board.fullmove_number, 9);
    assert_eq!(zorro.board.fmt_fen(' '), "8/8/8/8/8/8/8/8 b - - 3 9");
}
