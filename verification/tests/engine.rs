use zorro::Board;
use zorro::Cache;
use zorro::Coordinate;
use zorro::Evaluation;
use zorro::File;
use zorro::Move;
use zorro::Rank;
use zorro::Square;
use zorro::strutil;

#[test]
fn cache_keeps_one_entry_per_position() {
    let mut cache = Cache::new();
    let board = Board::starting();
    assert!(cache.lookup(&board).is_none());
    cache.insert(board.duplicate(), Evaluation {});
    cache.insert(board.duplicate(), Evaluation {});
    assert!(cache.lookup(&board).is_some());
    let mut moved = board.duplicate();
    moved.do_move(Move {
        from: Square::at(File::new(4), Rank::new(1)),
        to: Square::at(File::new(4), Rank::new(3)),
    });
    assert!(cache.lookup(&moved).is_none());
    cache.clear();
    assert!(cache.lookup(&board).is_none());
}

#[test]
fn do_move_updates_clocks() {
    let mut board = Board::starting();
    assert_eq!(board.fullmove_number, 1);
    // A pawn move resets the halfmove clock.
    board.do_move(Move {
        from: Square::at(File::new(4), Rank::new(1)),
        to: Square::at(File::new(4), Rank::new(3)),
    });
    assert_eq!(board.halfmove_clock, 0);
    assert_eq!(board.fullmove_number, 1);
    // A knight move counts on; a completed Black move bumps the number.
    board.do_move(Move {
        from: Square::at(File::new(1), Rank::new(7)),
        to: Square::at(File::new(2), Rank::new(5)),
    });
    assert_eq!(board.halfmove_clock, 1);
    assert_eq!(board.fullmove_number, 2);
}

#[test]
fn move_tokens_parse_and_render() {
    let m = Move::parse(&String::from("e2e4")).unwrap();
    assert_eq!(m.from, Square::at(File::new(4), Rank::new(1)));
    assert_eq!(m.to, Square::at(File::new(4), Rank::new(3)));
    assert_eq!(m.name(), "e2e4");
    assert!(Move::parse(&String::from("e2")).is_err());
    assert!(Move::parse(&String::from("i9i9")).is_err());
    // A promotion suffix is tolerated and ignored.
    assert!(Move::parse(&String::from("e7e8q")).is_ok());
}

#[test]
fn square_names_round_trip() {
    for i in 0..64u8 {
        let sq = Square::new(i);
        let name = sq.name();
        assert_eq!(Square::parse(&name).unwrap(), sq);
    }
    assert_eq!(Square::new(0).name(), "a1");
    assert_eq!(Square::new(63).name(), "h8");
}

#[test]
fn tokenizer_splits_on_whitespace_runs() {
    assert_eq!(strutil::tokenize("  a \t bb  "), vec!["a", "bb"]);
    assert_eq!(strutil::tokenize(""), Vec::<String>::new());
    assert_eq!(strutil::tokenize(" \t "), Vec::<String>::new());
    assert_eq!(strutil::tokenize("one"), vec!["one"]);
}

#[test]
fn decimal_parsing_matches_std() {
    assert_eq!(strutil::parse_u64(&String::from("0")), Some(0));
    assert_eq!(
        strutil::parse_u64(&String::from("18446744073709551615")),
        Some(u64::MAX)
    );
    assert_eq!(strutil::parse_u64(&String::from("18446744073709551616")), None);
    assert_eq!(strutil::parse_u64(&String::from("")), None);
    assert_eq!(strutil::parse_u64(&String::from("12x")), None);
    assert_eq!(strutil::parse_i64(&String::from("-42")), Some(-42));
    assert_eq!(strutil::parse_i64(&String::from("+7")), Some(7));
    assert_eq!(strutil::parse_i64(&String::from("-9223372036854775808")), Some(i64::MIN));
    assert_eq!(strutil::parse_i64(&String::from("9223372036854775808")), None);
}

#[test]
fn decimal_and_hex_rendering() {
    assert_eq!(strutil::u64_to_string(0), "0");
    assert_eq!(strutil::u64_to_string(90125), "90125");
    assert_eq!(strutil::i64_to_string(-310), "-310");
    assert_eq!(strutil::i64_to_string(i64::MIN), "-9223372036854775808");
    assert_eq!(strutil::u64_to_hex16(0x1234), "0000000000001234");
    assert_eq!(strutil::u64_to_hex(0), "0");
    assert_eq!(strutil::u64_to_hex(0xdeadbeef), "deadbeef");
}

#[test]
fn magify_is_mask_multiply_shift() {
    let magics = zorro::Magic::by_file();
    assert_eq!(magics.len(), 64);
    // On square a1 the file mask covers b1..g1 (bits 1..=6).
    assert_eq!(magics[0].mask, 0x7e);
    assert_eq!(magics[0].magify(0xff), 0x3f);
    assert_eq!(magics[0].magify(0), 0);
    // On file h the mask sits in the top byte.
    assert_eq!(magics[63].mask, 0x7e00_0000_0000_0000);
}

#[test]
fn lichess_url_embeds_the_fen() {
    let board = Board::starting();
    assert_eq!(
        board.lichess_url(),
        "https://lichess.org/analysis/rnbqkbnr/pppppppp/8/8/8/8/PPPPPPPP/RNBQKBNR_w_-_-_0_1"
    );
}

#[test]
fn material_counts_both_sides() {
    let mut board = Board::starting();
    assert_eq!(zorro::movegen::material_score(&board), 0);
    // Removing Black's queen leaves White up 900.
    board.do_move(Move {
        from: Square::at(File::new(0), Rank::new(0)),
        to: Square::at(File::new(3), Rank::new(7)),
    });
    // The rook captured the queen: +900 for the queen, rook unchanged.
    assert_eq!(zorro::movegen::material_score(&board), 900);
}
