use zorro::Color;
use zorro::Coordinate;
use zorro::Piece;
use zorro::Role;
use zorro::Square;
use zorro::piece::king_attacks_from;
use zorro::piece::knight_attacks_from;

#[test]
fn color_from_char() {
    assert_eq!(Color::from_char('w'), Color::White);
    assert_eq!(Color::from_char('B'), Color::Black);
}

#[test]
fn char_from_color() {
    assert_eq!(Color::White.to_char(), 'w');
    assert_eq!(Color::Black.to_char(), 'b');
}

#[test]
fn not_black_is_white() {
    assert_eq!(Color::Black.opposite(), Color::White);
}

#[test]
fn piece_from_char() {
    assert_eq!(Piece::from_char('N'), Piece::new(Role::Knight, Color::White));
    assert_eq!(Piece::from_char('q'), Piece::new(Role::Queen, Color::Black));
}

#[test]
fn char_from_piece() {
    assert_eq!(Piece::new(Role::King, Color::White).to_char(), 'K');
    assert_eq!(Piece::new(Role::Pawn, Color::Black).to_char(), 'p');
}

#[test]
fn every_piece_round_trips_through_its_letter() {
    let roles = [Role::Pawn, Role::Knight, Role::Bishop, Role::Rook, Role::Queen, Role::King];
    let colors = [Color::White, Color::Black];
    for role in roles {
        for color in colors {
            let p = Piece::new(role, color);
            assert_eq!(Piece::from_char(p.to_char()), p);
        }
    }
}

#[test]
fn case_conversion_follows_color() {
    assert_eq!(Color::White.set_ascii_case('n'), 'N');
    assert_eq!(Color::Black.set_ascii_case('N'), 'n');
    assert_eq!(Color::White.set_ascii_case('7'), '7');
}

#[test]
fn knight_attacks_from_corner_and_center() {
    // a1: b3 (index 10) and c2 (index 17).
    let a1 = Square::new(0);
    assert_eq!(knight_attacks_from(a1), (1u64 << 10) | (1u64 << 17));
    // d4 (file 3, rank 3) attacks eight squares.
    let d4 = Square::at(zorro::File::new(3), zorro::Rank::new(3));
    assert_eq!(knight_attacks_from(d4).count_ones(), 8);
}

#[test]
fn king_attacks_from_corner_and_center() {
    // a1: a2 (1), b1 (8), b2 (9).
    let a1 = Square::new(0);
    assert_eq!(king_attacks_from(a1), (1u64 << 1) | (1u64 << 8) | (1u64 << 9));
    let d4 = Square::at(zorro::File::new(3), zorro::Rank::new(3));
    assert_eq!(king_attacks_from(d4).count_ones(), 8);
}

#[test]
fn role_attacks_matches_tables() {
    let sq = Square::new(27);
    assert_eq!(Role::Knight.attacks(sq), knight_attacks_from(sq));
    assert_eq!(Role::King.attacks(sq), king_attacks_from(sq));
}

#[test]
fn attack_tables_agree_with_per_square_generation() {
    let knights = zorro::tables::knight_attacks_table();
    let kings = zorro::tables::king_attacks_table();
    assert_eq!(knights.len(), 64);
    assert_eq!(kings.len(), 64);
    for i in 0..64u8 {
        let sq = Square::new(i);
        assert_eq!(knights[i as usize], knight_attacks_from(sq));
        assert_eq!(kings[i as usize], king_attacks_from(sq));
    }
}
