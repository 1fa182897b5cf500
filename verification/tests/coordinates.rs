use zorro::Coordinate;
use zorro::File;
use zorro::Rank;
use zorro::Square;
use zorro::ToBb;
use zorro::coordinates::BitBoardOps;

#[test]
fn file_boundaries() {
    assert_eq!(File::new_opt(8), None);
    assert_eq!(File::new_opt(-1), None);
    assert!(File::new_opt(0).is_some());
}

#[test]
fn rank_boundaries() {
    assert_eq!(Rank::new_opt(8), None);
    assert_eq!(Rank::new_opt(-1), None);
    assert!(Rank::new_opt(0).is_some());
}

#[test]
fn file_h_is_max() {
    assert_eq!(File::max(), File::new(7));
}

#[test]
fn rank_8_is_max() {
    assert_eq!(Rank::max(), Rank::new(7));
}

#[test]
fn rank_max_i_is_7() {
    assert_eq!(Rank::max().i(), 7);
}

#[test]
fn square_file_and_rank() {
    let square = Square::new(14);
    assert_eq!(square.file(), File::new(1));
    assert_eq!(square.rank(), Rank::new(6));
}

#[test]
fn square_at() {
    let file = File::new(3);
    let rank = Rank::max();
    let square = Square::at(file, rank);
    assert_eq!(square.file(), file);
    assert_eq!(square.rank(), rank);
}

#[test]
fn square_i() {
    let file = File::new(3);
    let rank = Rank::max();
    let square = Square::at(file, rank);
    assert_eq!(square.i(), 31);
}

#[test]
fn rank_new_rnd_i_is_in_range() {
    let rank = Rank::new_rnd();
    assert!(rank.i() < 8);
}

#[test]
fn every_file_index_round_trips() {
    for i in 0..8u8 {
        assert_eq!(File::new(i).i(), i as usize);
        assert_eq!(Rank::new(i).i(), i as usize);
        assert!(File::new_opt(i as i32).is_some());
    }
}

#[test]
fn square_at_round_trips_every_square() {
    for i in 0..64u8 {
        let s = Square::new(i);
        assert_eq!(Square::at(s.file(), s.rank()), s);
    }
}

#[test]
fn corner_squares_have_expected_indices() {
    assert_eq!(Square::at(File::new(0), Rank::new(0)).i(), 0);
    assert_eq!(Square::at(File::new(7), Rank::new(7)).i(), 63);
}

#[test]
fn walker_yields_ascending_and_restarts() {
    let mut seen = Vec::new();
    let mut it = File::iter();
    while let Some(f) = it.next() {
        seen.push(f.i());
    }
    assert_eq!(seen, vec![0, 1, 2, 3, 4, 5, 6, 7]);
    let mut it2 = File::iter();
    assert_eq!(it2.next().unwrap().i(), 0);
    let mut back = Rank::iter();
    assert_eq!(back.next_back().unwrap().i(), 7);
    assert_eq!(back.next_back().unwrap().i(), 6);
}

#[test]
fn bit_iteration_is_ascending_and_complete() {
    let bb: u64 = (1u64 << 3) | (1u64 << 17) | (1u64 << 63);
    let mut it = bb.squares();
    let mut seen = Vec::new();
    while let Some(sq) = it.next() {
        seen.push(sq.i());
    }
    assert_eq!(seen, vec![3, 17, 63]);
    assert_eq!(seen.len(), bb.count_ones() as usize);
}

#[test]
fn bit_iteration_of_empty_board_yields_nothing() {
    let mut it = 0u64.squares();
    assert!(it.next().is_none());
}

#[test]
fn bit_iteration_does_not_mutate_source() {
    let bb: u64 = 0x55;
    let mut it = bb.squares();
    it.next();
    it.next();
    assert_eq!(bb, 0x55);
}

#[test]
fn shifts_are_raw_bit_shifts() {
    let one: u64 = 1;
    assert_eq!(one.north(1), 2);
    assert_eq!(one.east(1), 1 << 8);
    assert_eq!((1u64 << 8).west(1), 1);
    assert_eq!((1u64 << 1).south(1), 1);
}

#[test]
fn coordinate_bitboards() {
    assert_eq!(File::new(0).to_bb(), 0xff);
    assert_eq!(File::new(1).to_bb(), 0xff00);
    assert_eq!(Rank::new(0).to_bb(), 0x0101_0101_0101_0101);
    assert_eq!(Square::new(10).to_bb(), 1 << 10);
}

#[test]
fn diagonals_contain_their_square() {
    for i in 0..64u8 {
        let s = Square::new(i);
        assert!(s.diagonal_a1h8() & s.to_bb() != 0);
        assert!(s.diagonal_h1a8() & s.to_bb() != 0);
    }
}

#[test]
fn main_diagonals_from_corners() {
    let a1 = Square::at(File::new(0), Rank::new(0));
    assert_eq!(a1.diagonal_a1h8(), 0x8040_2010_0804_0201);
    let h1 = Square::at(File::new(7), Rank::new(0));
    assert_eq!(h1.diagonal_h1a8(), 0x0102_0408_1020_4080);
}

#[test]
fn edge_shift_is_safe() {
    let h = File::new(7);
    assert_eq!(h.shift(1), None);
    assert_eq!(h.shift(-1), Some(File::new(6)));
    assert_eq!(Square::new(63).shift(1), None);
    assert_eq!(Square::new(0).shift(i32::MIN), None);
}
