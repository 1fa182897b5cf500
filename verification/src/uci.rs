//! The UCI protocol interpreter: a line-oriented command dispatcher over
//! one session, resilient to malformed input. Each handler takes the
//! session and the already-split argument tokens, appends its response
//! lines to an output buffer, and reports errors as values; nothing here
//! performs I/O and nothing here panics.

use vstd::prelude::*;
use crate::board::Board;
use crate::board::Move;
use crate::board::fen_clock_ok;
use crate::board::fen_fields_ok;
use crate::board::fen_parse;
use crate::board::fen_side_ok;
use crate::board::start_placement;
use crate::cache::Cache;
use crate::cache::Evaluation;
use crate::color::Color;
use crate::coordinates::Coordinate;
use crate::coordinates::Square;
use crate::errors::ChessError;
use crate::movegen::first_move_from;
use crate::movegen::material;
use crate::movegen::spec_apply;
use crate::movegen::clip;
use crate::movegen::spec_perft;
use crate::piece::Piece;
use crate::piece::king_bb;
use crate::piece::knight_bb;
use crate::strutil::dec_digits;
use crate::strutil::dec_digits_signed;
use crate::strutil::dec_value;
use crate::strutil::hex16;
use crate::strutil::hex_digits;
use crate::strutil::is_digits;
use crate::strutil::push_char;
use crate::strutil::streq;
use crate::strutil::tokens_of;
use crate::tables::Magic;
use crate::tables::king_attacks_table;
use crate::tables::knight_attacks_table;

verus! {

/// The interpreter's lifecycle: processing commands, or shut down.
#[derive(Copy, Clone, Debug, PartialEq, Eq, Structural)]
pub enum State {
    Alive,
    Shutdown,
}

/// What can go wrong handling one line. Only an output-write failure
/// (`Io`, raised by the I/O shell around the interpreter) is fatal.
#[derive(Debug)]
pub enum Error {
    Syntax,
    UnknownCommand(String),
    Chess(ChessError),
    Io,
    Other,
}

/// The one error line a failure renders as.
pub open spec fn error_message(e: Error) -> Seq<char> {
    match e {
        Error::Syntax => "[ERROR] Invalid command syntax"@,
        Error::UnknownCommand(s) => "[ERROR] Unknown command '"@ + s@ + "'"@,
        Error::Chess(ChessError::InvalidFen) => "[ERROR] Invalid FEN string"@,
        Error::Chess(ChessError::InvalidColor) => "[ERROR] Invalid color string"@,
        Error::Chess(ChessError::InvalidSquare) => "[ERROR] Invalid square string"@,
        Error::Io => "[ERROR] Fatal I/O condition"@,
        Error::Other => "[ERROR] An unspecified error has happened"@,
    }
}

impl Error {
    /// Render the error as its one marked line.
    pub fn message(&self) -> (s: String)
        ensures
            s@ == error_message(*self),
    {
        match self {
            Error::Syntax => String::from_str("[ERROR] Invalid command syntax"),
            Error::UnknownCommand(name) => {
                let s = String::from_str("[ERROR] Unknown command '");
                let s = s.concat(name.as_str());
                let s = s.concat("'");
                s
            },
            Error::Chess(ChessError::InvalidFen) => String::from_str("[ERROR] Invalid FEN string"),
            Error::Chess(ChessError::InvalidColor) => String::from_str(
                "[ERROR] Invalid color string",
            ),
            Error::Chess(ChessError::InvalidSquare) => String::from_str(
                "[ERROR] Invalid square string",
            ),
            Error::Io => String::from_str("[ERROR] Fatal I/O condition"),
            Error::Other => String::from_str("[ERROR] An unspecified error has happened"),
        }
    }
}

/// A per-color time control, in milliseconds.
#[derive(Copy, Clone, Debug, PartialEq, Eq, Structural)]
pub struct TimeControl {
    pub time_limit_ms: u64,
    pub increment_ms: u64,
    pub delay_ms: u64,
}

impl TimeControl {
    /// No time spent or granted yet.
    pub fn fresh() -> (r: TimeControl)
        ensures
            r == (TimeControl { time_limit_ms: 0u64, increment_ms: 0u64, delay_ms: 0u64 }),
    {
        TimeControl { time_limit_ms: 0, increment_ms: 0, delay_ms: 0 }
    }

    /// An unbounded time budget.
    pub fn infinite() -> (r: TimeControl)
        ensures
            r == (TimeControl { time_limit_ms: u64::MAX, increment_ms: 0u64, delay_ms: 0u64 }),
    {
        TimeControl { time_limit_ms: u64::MAX, increment_ms: 0, delay_ms: 0 }
    }

    /// The spec value of an unbounded budget.
    pub open spec fn spec_infinite() -> TimeControl {
        TimeControl { time_limit_ms: u64::MAX, increment_ms: 0u64, delay_ms: 0u64 }
    }
}

/// The session's configuration snapshot.
pub struct Config {
    pub debug: bool,
    pub ponder: bool,
    pub show_n_best: i64,
    pub opponent_elo: Option<u64>,
    pub restrict_search: Vec<Move>,
    pub moves_to_go: Option<u64>,
    pub max_depth: Option<u64>,
    pub max_nodes: Option<u64>,
}

impl Config {
    /// The default configuration.
    pub fn fresh() -> (r: Config)
        ensures
            !r.debug,
            !r.ponder,
            r.show_n_best == 1,
            r.opponent_elo is None,
            r.restrict_search@.len() == 0,
            r.moves_to_go is None,
            r.max_depth is None,
            r.max_nodes is None,
    {
        Config {
            debug: false,
            ponder: false,
            show_n_best: 1,
            opponent_elo: None,
            restrict_search: Vec::new(),
            moves_to_go: None,
            max_depth: None,
            max_nodes: None,
        }
    }
}

/// One engine session: the board, the position cache, the configuration,
/// the per-color time controls. Every command handler borrows it.
pub struct Zorro {
    pub board: Board,
    pub cache: Cache,
    pub config: Config,
    pub white_tc: TimeControl,
    pub black_tc: TimeControl,
}

impl Zorro {
    /// Session well-formedness: the board and cache invariants, and every
    /// stored restriction being a real move.
    pub open spec fn wf(self) -> bool {
        &&& self.board.wf()
        &&& self.cache.wf()
        &&& forall|i: int| 0 <= i < self.config.restrict_search@.len()
            ==> (#[trigger] self.config.restrict_search@[i]).wf()
    }

    /// A fresh session: starting position, empty cache, default settings.
    pub fn fresh() -> (z: Zorro)
        ensures
            z.wf(),
            z.board.placement() == start_placement(),
            z.board.color_to_move == Color::White,
            z.cache.view() == Map::<(Seq<Option<Piece>>, Color), Evaluation>::empty(),
            !z.config.debug,
    {
        Zorro {
            board: Board::starting(),
            cache: Cache::new(),
            config: Config::fresh(),
            white_tc: TimeControl::fresh(),
            black_tc: TimeControl::fresh(),
        }
    }
}

impl Default for Zorro {
    /// A fresh session.
    fn default() -> (z: Zorro)
        ensures
            z.wf(),
            z.board.placement() == start_placement(),
            z.board.color_to_move == Color::White,
            z.cache.view() == Map::<(Seq<Option<Piece>>, Color), Evaluation>::empty(),
            !z.config.debug,
    {
        Zorro::fresh()
    }
}

/// Whether two boards hold the same data.
pub open spec fn same_board(a: Board, b: Board) -> bool {
    &&& a.placement() == b.placement()
    &&& a.color_to_move == b.color_to_move
    &&& a.halfmove_clock == b.halfmove_clock
    &&& a.fullmove_number == b.fullmove_number
}

/// Whether two configurations hold the same data.
pub open spec fn same_config(a: Config, b: Config) -> bool {
    &&& a.debug == b.debug
    &&& a.ponder == b.ponder
    &&& a.show_n_best == b.show_n_best
    &&& a.opponent_elo == b.opponent_elo
    &&& a.restrict_search@ == b.restrict_search@
    &&& a.moves_to_go == b.moves_to_go
    &&& a.max_depth == b.max_depth
    &&& a.max_nodes == b.max_nodes
}

/// Whether two sessions hold the same state.
pub open spec fn same_session(a: Zorro, b: Zorro) -> bool {
    &&& same_board(a.board, b.board)
    &&& a.cache.view() == b.cache.view()
    &&& same_config(a.config, b.config)
    &&& a.white_tc == b.white_tc
    &&& a.black_tc == b.black_tc
}

/// Append one response line.
fn push_line(out: &mut Vec<String>, s: &str)
    ensures
        final(out).deep_view() == old(out).deep_view().push(s@),
{
    out.push(String::from_str(s));
    proof {
        assert(out.deep_view() =~~= old(out).deep_view().push(s@));
    }
}

/// Append one already-built response line.
fn push_line_string(out: &mut Vec<String>, s: String)
    ensures
        final(out).deep_view() == old(out).deep_view().push(s@),
{
    out.push(s);
    proof {
        assert(out.deep_view() =~~= old(out).deep_view().push(s@));
    }
}

/// The identity block the `uci` command answers with: name and author,
/// the configurable options with their types and ranges, and the fixed
/// `uciok` terminator.
pub open spec fn uci_lines() -> Seq<Seq<char>> {
    seq![
        "id name Zorro 0.1.0"@,
        "id author Filippo Costa"@,
        "option name Clear Hash type button"@,
        "option name Contempt type spin default 20 min -100 max 100"@,
        "option name Hash type spin default 64 min 0 max 131072"@,
        "option name Minimum Thinking Time type spin default 20 min 0 max 5000"@,
        "option name nodestime type spin default 0 min 0 max 10000"@,
        "option name Skill Level type spin default 20 min 0 max 20"@,
        "option name Slow Mover type spin default 84 min 10 max 1000"@,
        "option name Threads type spin default 1 min 1 max 512"@,
        "option name Move Overhead type spin default 30 min 0 max 60000"@,
        "uciok"@,
    ]
}

/// Answer `uci`: engine identity, the option list, then `uciok`.
pub fn uci(out: &mut Vec<String>) -> (r: Result<(), Error>)
    ensures
        r is Ok,
        final(out).deep_view() == old(out).deep_view() + uci_lines(),
{
    push_line(out, "id name Zorro 0.1.0");
    push_line(out, "id author Filippo Costa");
    push_line(out, "option name Clear Hash type button");
    push_line(out, "option name Contempt type spin default 20 min -100 max 100");
    push_line(out, "option name Hash type spin default 64 min 0 max 131072");
    push_line(out, "option name Minimum Thinking Time type spin default 20 min 0 max 5000");
    push_line(out, "option name nodestime type spin default 0 min 0 max 10000");
    push_line(out, "option name Skill Level type spin default 20 min 0 max 20");
    push_line(out, "option name Slow Mover type spin default 84 min 10 max 1000");
    push_line(out, "option name Threads type spin default 1 min 1 max 512");
    push_line(out, "option name Move Overhead type spin default 30 min 0 max 60000");
    push_line(out, "uciok");
    proof {
        assert(out.deep_view() =~~= old(out).deep_view() + uci_lines());
    }
    Ok(())
}

/// What `debug on|off` does: set the flag, touch nothing else; anything
/// else is a syntax error that changes nothing.
pub open spec fn set_debug_mode_spec(
    oz: Zorro,
    nz: Zorro,
    a: Seq<Seq<char>>,
    r: Result<(), Error>,
) -> bool {
    if a.len() >= 1 && a[0] == "on"@ {
        r is Ok && nz.config.debug && debug_only_change(oz, nz)
    } else if a.len() >= 1 && a[0] == "off"@ {
        r is Ok && !nz.config.debug && debug_only_change(oz, nz)
    } else {
        r is Err && r->Err_0 is Syntax && same_session(oz, nz)
    }
}

/// Answer `debug on|off`: set the verbose-mode flag; anything else is a
/// syntax error and changes nothing.
pub fn set_debug_mode(zorro: &mut Zorro, args: &Vec<String>) -> (r: Result<(), Error>)
    requires
        old(zorro).wf(),
    ensures
        final(zorro).wf(),
        set_debug_mode_spec(*old(zorro), *final(zorro), args.deep_view(), r),
{
    proof {
        reveal_strlit("on");
        reveal_strlit("off");
    }
    if args.len() >= 1 && streq(&args[0], "on") {
        zorro.config.debug = true;
        Ok(())
    } else if args.len() >= 1 && streq(&args[0], "off") {
        zorro.config.debug = false;
        Ok(())
    } else {
        Err(Error::Syntax)
    }
}

/// Everything of the session but the debug flag is unchanged.
pub open spec fn debug_only_change(a: Zorro, b: Zorro) -> bool {
    &&& same_board(a.board, b.board)
    &&& a.cache.view() == b.cache.view()
    &&& a.config.ponder == b.config.ponder
    &&& a.config.show_n_best == b.config.show_n_best
    &&& a.config.opponent_elo == b.config.opponent_elo
    &&& a.config.restrict_search@ == b.config.restrict_search@
    &&& a.config.moves_to_go == b.config.moves_to_go
    &&& a.config.max_depth == b.config.max_depth
    &&& a.config.max_nodes == b.config.max_nodes
    &&& a.white_tc == b.white_tc
    &&& a.black_tc == b.black_tc
}

/// The line the `eval` command answers with for a board: the material
/// balance and which side it favors.
pub open spec fn eval_line(p: Seq<Option<Piece>>) -> Seq<char> {
    "Total evaluation: "@ + dec_digits_signed(material(p)) + " ("@ + (if material(p) >= 0 {
        "white"@
    } else {
        "black"@
    }) + " side)"@
}

/// What `eval` does for a board with placement `p`: succeed and append
/// the one evaluation line.
pub open spec fn eval_spec(
    p: Seq<Option<Piece>>,
    oo: Seq<Seq<char>>,
    no: Seq<Seq<char>>,
    r: Result<(), Error>,
) -> bool {
    r is Ok && no == oo.push(eval_line(p))
}

/// Answer `eval`: the static material evaluation of the board.
pub fn eval(board: &Board, out: &mut Vec<String>) -> (r: Result<(), Error>)
    requires
        board.wf(),
    ensures
        eval_spec(board.placement(), old(out).deep_view(), final(out).deep_view(), r),
{
    let score = crate::movegen::material_score(board);
    let mut line = String::from_str("Total evaluation: ");
    let digits = crate::strutil::i64_to_string(score);
    let mut line = line.concat(digits.as_str());
    let mut line = line.concat(" (");
    let mut line = line.concat(if score >= 0 {
        "white"
    } else {
        "black"
    });
    let line = line.concat(" side)");
    proof {
        assert(line@ =~= eval_line(board.placement()));
    }
    push_line_string(out, line);
    Ok(())
}

/// One hexadecimal table line, as `gentables` prints it.
pub open spec fn hex_line(x: u64) -> Seq<char> {
    "0x"@ + hex16(x)
}

/// The full output of `gentables`: the king table, then the knight table.
pub open spec fn gen_tables_lines() -> Seq<Seq<char>> {
    seq!["KING ATTACKS"@] + Seq::new(64, |i: int| hex_line(king_bb(i / 8, i % 8))) + seq![
        "KNIGHT ATTACKS"@,
    ] + Seq::new(64, |i: int| hex_line(knight_bb(i / 8, i % 8)))
}

/// What `gentables` does: succeed and append both tables' lines.
pub open spec fn gen_tables_spec(oo: Seq<Seq<char>>, no: Seq<Seq<char>>, r: Result<(), Error>) -> bool {
    r is Ok && no == oo + gen_tables_lines()
}

/// Answer `gentables`: print both leaper attack tables, one bitboard per
/// line in fixed-width hexadecimal.
pub fn gen_tables(out: &mut Vec<String>) -> (r: Result<(), Error>)
    ensures
        gen_tables_spec(old(out).deep_view(), final(out).deep_view(), r),
{
    push_line(out, "KING ATTACKS");
    let kings = king_attacks_table();
    let mut i: usize = 0;
    while i < 64
        invariant
            i <= 64,
            kings@.len() == 64,
            forall|j: int| 0 <= j < 64 ==> kings@[j] == king_bb(j / 8, j % 8),
            out.deep_view() =~= old(out).deep_view().push("KING ATTACKS"@) + Seq::new(
                64,
                |j: int| hex_line(king_bb(j / 8, j % 8)),
            ).take(i as int),
        decreases 64 - i,
    {
        let line = String::from_str("0x");
        let h = crate::strutil::u64_to_hex16(kings[i]);
        let line = line.concat(h.as_str());
        push_line_string(out, line);
        proof {
            assert(out.deep_view() =~= old(out).deep_view().push("KING ATTACKS"@) + Seq::new(
                64,
                |j: int| hex_line(king_bb(j / 8, j % 8)),
            ).take(i + 1));
        }
        i = i + 1;
    }
    push_line(out, "KNIGHT ATTACKS");
    let knights = knight_attacks_table();
    let ghost mid = out.deep_view();
    let mut i: usize = 0;
    while i < 64
        invariant
            i <= 64,
            knights@.len() == 64,
            forall|j: int| 0 <= j < 64 ==> knights@[j] == knight_bb(j / 8, j % 8),
            out.deep_view() =~= mid + Seq::new(
                64,
                |j: int| hex_line(knight_bb(j / 8, j % 8)),
            ).take(i as int),
        decreases 64 - i,
    {
        let line = String::from_str("0x");
        let h = crate::strutil::u64_to_hex16(knights[i]);
        let line = line.concat(h.as_str());
        push_line_string(out, line);
        proof {
            assert(out.deep_view() =~= mid + Seq::new(
                64,
                |j: int| hex_line(knight_bb(j / 8, j % 8)),
            ).take(i + 1));
        }
        i = i + 1;
    }
    proof {
        assert(out.deep_view() =~= old(out).deep_view() + gen_tables_lines());
    }
    Ok(())
}

/// The name of square `i`, as two characters.
pub open spec fn square_name_at(i: int) -> Seq<char> {
    seq![(97 + i / 8) as char, (49 + i % 8) as char]
}

/// One line of `listmagics`: the square, then the transform's three
/// constants.
pub open spec fn magic_line(i: int) -> Seq<char> {
    square_name_at(i) + " mask 0x"@ + hex_digits(Magic::spec_file_mask(i) as nat) + " mul 0x"@
        + hex_digits(1) + " shift "@ + dec_digits((8 * (i / 8) + 1) as nat)
}

/// What `listmagics` does: succeed and append one line per square.
pub open spec fn list_magics_spec(oo: Seq<Seq<char>>, no: Seq<Seq<char>>, r: Result<(), Error>) -> bool {
    r is Ok && no == oo + Seq::new(64, |i: int| magic_line(i))
}

/// Answer `listmagics`: one line per square with its file-attack magic.
pub fn list_magics(out: &mut Vec<String>) -> (r: Result<(), Error>)
    ensures
        list_magics_spec(old(out).deep_view(), final(out).deep_view(), r),
{
    let magics = Magic::by_file();
    let mut i: usize = 0;
    while i < 64
        invariant
            i <= 64,
            magics@.len() == 64,
            forall|j: int| 0 <= j < 64 ==> (#[trigger] magics@[j]) == (Magic {
                mask: Magic::spec_file_mask(j),
                multiplier: 1u64,
                shift: (8 * (j / 8) + 1) as u32,
            }),
            out.deep_view() =~= old(out).deep_view() + Seq::new(64, |j: int| magic_line(j)).take(
                i as int,
            ),
        decreases 64 - i,
    {
        let m = magics[i];
        let sq = Square::new(i as u8);
        let line = sq.name();
        let line = line.concat(" mask 0x");
        let h = crate::strutil::u64_to_hex(m.mask);
        let line = line.concat(h.as_str());
        let line = line.concat(" mul 0x");
        let h2 = crate::strutil::u64_to_hex(m.multiplier);
        let line = line.concat(h2.as_str());
        let line = line.concat(" shift ");
        let d = crate::strutil::u64_to_string(m.shift as u64);
        let line = line.concat(d.as_str());
        proof {
            assert(line@ =~= magic_line(i as int));
        }
        push_line_string(out, line);
        proof {
            assert(out.deep_view() =~= old(out).deep_view() + Seq::new(
                64,
                |j: int| magic_line(j),
            ).take(i + 1));
        }
        i = i + 1;
    }
    proof {
        assert(Seq::new(64, |j: int| magic_line(j)).take(64) =~= Seq::new(
            64,
            |j: int| magic_line(j),
        ));
    }
    Ok(())
}

/// What `perft [depth]` does: the session is untouched; a malformed
/// depth is a syntax error, else the node count to the given depth
/// (default 1) is printed.
pub open spec fn perft_spec(
    oz: Zorro,
    nz: Zorro,
    a: Seq<Seq<char>>,
    oo: Seq<Seq<char>>,
    no: Seq<Seq<char>>,
    r: Result<(), Error>,
) -> bool {
    &&& same_session(oz, nz)
    &&& ({
        let p = oz.board.placement();
        let c = oz.board.color_to_move;
        if a.len() == 0 {
            r is Ok && no == oo.push(dec_digits(clip(spec_perft(p, c, 1))))
        } else if is_digits(a[0]) && dec_value(a[0]) <= u64::MAX {
            r is Ok && no == oo.push(dec_digits(clip(spec_perft(p, c, dec_value(a[0])))))
        } else {
            r is Err && r->Err_0 is Syntax && no == oo
        }
    })
}

/// Answer `perft [depth]`: count the pseudo-legal move tree to the given
/// depth (default 1) and print the node count.
pub fn perft(zorro: &mut Zorro, args: &Vec<String>, out: &mut Vec<String>) -> (r: Result<
    (),
    Error,
>)
    requires
        old(zorro).wf(),
    ensures
        final(zorro).wf(),
        perft_spec(
            *old(zorro),
            *final(zorro),
            args.deep_view(),
            old(out).deep_view(),
            final(out).deep_view(),
            r,
        ),
{
    let depth: u64 = if args.len() == 0 {
        1
    } else {
        match crate::strutil::parse_u64(&args[0]) {
            Some(d) => d,
            None => {
                return Err(Error::Syntax);
            },
        }
    };
    let count = crate::movegen::perft_count(&zorro.board, depth);
    let line = crate::strutil::u64_to_string(count);
    push_line_string(out, line);
    Ok(())
}

/// Relies on `webbrowser::open`: asks the system to open the URL in the
/// default browser; only whether the attempt succeeded is visible.
#[verifier::external_body]
fn open_in_browser(url: &str) -> bool {
    webbrowser::open(url).is_ok()
}

/// What `ucispec` does: print the protocol reference's address; only a
/// failed browser attempt is an error, and only a best-effort one.
pub open spec fn open_uci_docs_spec(oo: Seq<Seq<char>>, no: Seq<Seq<char>>, r: Result<(), Error>) -> bool {
    &&& no == oo.push("http://wbec-ridderkerk.nl/html/UCIProtocol.html"@)
    &&& r is Err ==> r->Err_0 is Other
}

/// Answer `ucispec`: print the protocol reference's address and open it
/// in a browser; a failed attempt is a best-effort error, never fatal.
pub fn open_uci_docs(out: &mut Vec<String>) -> (r: Result<(), Error>)
    ensures
        open_uci_docs_spec(old(out).deep_view(), final(out).deep_view(), r),
{
    let url = "http://wbec-ridderkerk.nl/html/UCIProtocol.html";
    push_line(out, url);
    if open_in_browser(url) {
        Ok(())
    } else {
        Err(Error::Other)
    }
}


/// The character a square shows in the board dump: its piece letter, or a
/// dot when empty.
pub open spec fn board_char(p: Seq<Option<Piece>>, i: int) -> char {
    match p[i] {
        Some(pc) => pc.spec_to_char(),
        None => '.',
    }
}

/// One rank of the board dump, files a to h.
pub open spec fn board_row(p: Seq<Option<Piece>>, r: int) -> Seq<char> {
    Seq::new(8, |f: int| board_char(p, f * 8 + r))
}

/// The eight lines of the board dump, rank 8 first.
pub open spec fn board_lines(p: Seq<Option<Piece>>) -> Seq<Seq<char>> {
    Seq::new(8, |k: int| board_row(p, 7 - k))
}

/// The whole seconds of a time budget.
pub open spec fn tc_secs(tc: TimeControl) -> nat {
    (tc.time_limit_ms / 1000) as nat
}

/// The lines `d time` prints for one color's time control.
pub open spec fn time_lines_for(header: Seq<char>, tc: TimeControl) -> Seq<Seq<char>> {
    seq![
        ""@,
        header,
        "Initial:   "@ + dec_digits(tc_secs(tc)) + "s"@,
        "Remaining: "@ + dec_digits(tc_secs(tc)) + "s"@,
        "Increment: "@ + dec_digits(tc_secs(tc)) + "s"@,
        "Delay:     "@ + dec_digits(tc_secs(tc)) + "s"@,
    ]
}

/// Append the four budget lines of one time control under its header.
fn push_time_lines(out: &mut Vec<String>, header: &str, tc: TimeControl)
    ensures
        final(out).deep_view() == old(out).deep_view() + time_lines_for(header@, tc),
{
    push_line(out, "");
    push_line(out, header);
    let secs = crate::strutil::u64_to_string(tc.time_limit_ms / 1000);
    let line = String::from_str("Initial:   ").concat(secs.as_str()).concat("s");
    push_line_string(out, line);
    let secs = crate::strutil::u64_to_string(tc.time_limit_ms / 1000);
    let line = String::from_str("Remaining: ").concat(secs.as_str()).concat("s");
    push_line_string(out, line);
    let secs = crate::strutil::u64_to_string(tc.time_limit_ms / 1000);
    let line = String::from_str("Increment: ").concat(secs.as_str()).concat("s");
    push_line_string(out, line);
    let secs = crate::strutil::u64_to_string(tc.time_limit_ms / 1000);
    let line = String::from_str("Delay:     ").concat(secs.as_str()).concat("s");
    push_line_string(out, line);
    proof {
        assert(out.deep_view() =~~= old(out).deep_view() + time_lines_for(header@, tc));
    }
}

/// What `d [fen|time|lichess]` does: dump the board, its FEN, the time
/// budgets, or the analysis address (whose browser attempt may fail as a
/// best-effort error); anything else is a syntax error.
pub open spec fn debug_engine_state_spec(
    z: Zorro,
    a: Seq<Seq<char>>,
    oo: Seq<Seq<char>>,
    no: Seq<Seq<char>>,
    r: Result<(), Error>,
) -> bool {
    let p = z.board.placement();
    if a.len() == 0 {
        r is Ok && no == oo + board_lines(p)
    } else if a[0] == "fen"@ {
        r is Ok && no == oo.push(z.board.spec_fen(' '))
    } else if a[0] == "time"@ {
        r is Ok && no == oo + time_lines_for("White:"@, z.white_tc) + time_lines_for(
            "Black:"@,
            z.black_tc,
        )
    } else if a[0] == "lichess"@ {
        (r is Ok || r->Err_0 is Other) && no == oo.push(
            "https://lichess.org/analysis/"@ + z.board.spec_fen('_'),
        )
    } else {
        r is Err && r->Err_0 is Syntax && no == oo
    }
}

/// Answer `d [fen|time|lichess]`: dump the board, its FEN, the time
/// controls, or the analysis address (opening it in a browser).
///
/// The time dump shows the stored time limit on all four budget lines;
/// increments and delays are tracked but not separately displayed here.
pub fn debug_engine_state(zorro: &Zorro, args: &Vec<String>, out: &mut Vec<String>) -> (r: Result<
    (),
    Error,
>)
    requires
        zorro.wf(),
    ensures
        debug_engine_state_spec(
            *zorro,
            args.deep_view(),
            old(out).deep_view(),
            final(out).deep_view(),
            r,
        ),
{
    proof {
        reveal_strlit("fen");
        reveal_strlit("time");
        reveal_strlit("lichess");
    }
    if args.len() == 0 {
        let ghost p = zorro.board.placement();
        let mut k: u8 = 0;
        while k < 8
            invariant
                zorro.wf(),
                k <= 8,
                p == zorro.board.placement(),
                out.deep_view() =~= old(out).deep_view() + board_lines(p).take(k as int),
            decreases 8 - k,
        {
            let r = 7 - k;
            let mut line = String::new();
            let mut f: u8 = 0;
            while f < 8
                invariant
                    zorro.wf(),
                    k < 8,
                    r == 7 - k,
                    f <= 8,
                    p == zorro.board.placement(),
                    line@ =~= board_row(p, r as int).take(f as int),
                decreases 8 - f,
            {
                let sq = Square::new(f * 8 + r);
                let c = match zorro.board.piece_at(sq) {
                    Some(pc) => pc.to_char(),
                    None => '.',
                };
                push_char(&mut line, c);
                proof {
                    assert(line@ =~= board_row(p, r as int).take(f as int + 1));
                }
                f = f + 1;
            }
            proof {
                assert(line@ =~= board_row(p, r as int));
            }
            push_line_string(out, line);
            proof {
                assert(out.deep_view() =~= old(out).deep_view() + board_lines(p).take(
                    k as int + 1,
                ));
            }
            k = k + 1;
        }
        proof {
            assert(board_lines(p).take(8) =~= board_lines(p));
        }
        Ok(())
    } else if streq(&args[0], "fen") {
        let fen = zorro.board.fmt_fen(' ');
        push_line_string(out, fen);
        Ok(())
    } else if streq(&args[0], "time") {
        push_time_lines(out, "White:", zorro.white_tc);
        push_time_lines(out, "Black:", zorro.black_tc);
        proof {
            assert(out.deep_view() =~~= old(out).deep_view() + time_lines_for(
                "White:"@,
                zorro.white_tc,
            ) + time_lines_for("Black:"@, zorro.black_tc));
        }
        Ok(())
    } else if streq(&args[0], "lichess") {
        let url = zorro.board.lichess_url();
        let ok = open_in_browser(url.as_str());
        push_line_string(out, url);
        if ok {
            Ok(())
        } else {
            Err(Error::Other)
        }
    } else {
        Err(Error::Syntax)
    }
}

/// The concatenation, with no separator, of the tokens `start..end`.
pub open spec fn concat_tokens(a: Seq<Seq<char>>, start: int, end: int) -> Seq<char>
    decreases end - start,
{
    if end <= start || end > a.len() {
        Seq::empty()
    } else {
        concat_tokens(a, start, end - 1) + a[end - 1]
    }
}

/// The first index at or after `i` whose token is "value", or the length.
pub open spec fn name_end(a: Seq<Seq<char>>, i: int) -> int
    decreases a.len() - i,
{
    if i < 0 || i >= a.len() {
        a.len() as int
    } else if a[i] == "value"@ {
        i
    } else {
        name_end(a, i + 1)
    }
}

/// The tokens `start..end` joined with single spaces.
pub open spec fn join_tokens(a: Seq<Seq<char>>, start: int, end: int) -> Seq<char>
    decreases end - start,
{
    if end <= start || end > a.len() {
        Seq::empty()
    } else if end == start + 1 {
        a[start]
    } else {
        join_tokens(a, start, end - 1) + seq![' '] + a[end - 1]
    }
}

/// Everything of the session but the configuration is unchanged.
pub open spec fn non_config_same(a: Zorro, b: Zorro) -> bool {
    &&& same_board(a.board, b.board)
    &&& a.cache.view() == b.cache.view()
    &&& a.white_tc == b.white_tc
    &&& a.black_tc == b.black_tc
}

/// What `setoption` does: the option name concatenates the pre-"value"
/// tokens, the value joins the rest with spaces; `ponder`, `multipv` and
/// `uci_opponent` take effect, unknown names are silently accepted, and
/// nothing but the configuration ever changes.
pub open spec fn set_option_spec(oz: Zorro, nz: Zorro, a: Seq<Seq<char>>, r: Result<(), Error>) -> bool {
    &&& non_config_same(oz, nz)
    &&& if a.len() == 0 || a[0] != "name"@ {
        r is Err && r->Err_0 is Syntax && same_config(oz.config, nz.config)
    } else {
        let ne = name_end(a, 1);
        let nm = concat_tokens(a, 1, ne);
        let val = join_tokens(a, ne + 1, a.len() as int);
        if nm == "ponder"@ {
            if val == "true"@ {
                r is Ok && nz.config.ponder && only_ponder_changed(oz.config, nz.config)
            } else if val == "false"@ {
                r is Ok && !nz.config.ponder && only_ponder_changed(oz.config, nz.config)
            } else {
                r is Err && r->Err_0 is Syntax && same_config(oz.config, nz.config)
            }
        } else if nm == "multipv"@ {
            if crate::strutil::signed_parse_ok(val) && -0x8000_0000_0000_0000
                <= crate::strutil::signed_value(val) < 0x8000_0000_0000_0000 {
                r is Ok && nz.config.show_n_best == crate::strutil::signed_value(val)
                    && only_show_n_best_changed(oz.config, nz.config)
            } else {
                r is Err && r->Err_0 is Syntax && same_config(oz.config, nz.config)
            }
        } else if nm == "uci_opponent"@ {
            let vt = tokens_of(val);
            let elo = if vt.len() >= 2 {
                vt[1]
            } else {
                "none"@
            };
            if is_digits(elo) && dec_value(elo) <= 65535 {
                r is Ok && nz.config.opponent_elo == Some(dec_value(elo) as u64)
                    && only_opponent_changed(oz.config, nz.config)
            } else {
                r is Err && r->Err_0 is Syntax && same_config(oz.config, nz.config)
            }
        } else {
            r is Ok && same_config(oz.config, nz.config)
        }
    }
}

/// Answer `setoption name <tokens> [value <tokens>]`: unknown option
/// names are accepted and silently ignored, for compatibility with
/// scripts written for other engines.
pub fn set_option(zorro: &mut Zorro, args: &Vec<String>) -> (r: Result<(), Error>)
    requires
        old(zorro).wf(),
    ensures
        final(zorro).wf(),
        set_option_spec(*old(zorro), *final(zorro), args.deep_view(), r)
{
    proof {
        reveal_strlit("name");
        reveal_strlit("value");
        reveal_strlit("ponder");
        reveal_strlit("true");
        reveal_strlit("false");
        reveal_strlit("multipv");
        reveal_strlit("uci_opponent");
        reveal_strlit("none");
        reveal_strlit(" ");
    }
    let ghost a = args.deep_view();
    if args.len() == 0 || !streq(&args[0], "name") {
        return Err(Error::Syntax);
    }
    let n = args.len();
    let mut name = String::new();
    let mut i: usize = 1;
    while i < n && !streq(&args[i], "value")
        invariant
            n == a.len(),
            a == args.deep_view(),
            1 <= i <= n,
            *zorro == *old(zorro),
            old(zorro).wf(),
            name@ == concat_tokens(a, 1, i as int),
            name_end(a, 1) == name_end(a, i as int),
        decreases n - i,
    {
        let next = name.concat(args[i].as_str());
        name = next;
        i = i + 1;
    }
    proof {
        assert(name_end(a, i as int) == i as int || name_end(a, i as int) == a.len());
        assert(name_end(a, 1) == i as int);
    }
    let ghost vs: int = i as int + 1;
    let mut value = String::new();
    if i < n {
        let vstart = i + 1;
        if vstart < n {
            let first = value.concat(args[vstart].as_str());
            value = first;
            let mut j: usize = vstart + 1;
            while j < n
                invariant
                    n == a.len(),
                    a == args.deep_view(),
                    vstart < n,
                    vstart + 1 <= j <= n,
                    *zorro == *old(zorro),
                    old(zorro).wf(),
                    value@ == join_tokens(a, vstart as int, j as int),
                decreases n - j,
            {
                let next = value.concat(" ").concat(args[j].as_str());
                proof {
                    reveal_strlit(" ");
                    assert(a[j as int] == args@[j as int]@);
                    assert(next@ =~= join_tokens(a, vstart as int, j as int + 1));
                }
                value = next;
                j = j + 1;
            }
        }
    }
    proof {
        assert(vs >= n ==> value@ =~= join_tokens(a, vs, n as int));
    }
    if streq(&name, "ponder") {
        match option_check(&value) {
            Ok(flag) => {
                zorro.config.ponder = flag;
                Ok(())
            },
            Err(e) => Err(e),
        }
    } else if streq(&name, "multipv") {
        match option_spin(&value) {
            Ok(v) => {
                zorro.config.show_n_best = v;
                Ok(())
            },
            Err(e) => Err(e),
        }
    } else if streq(&name, "uci_opponent") {
        let vt = crate::strutil::tokenize(value.as_str());
        let elo_tok = if vt.len() >= 2 {
            let t = vt[1].clone();
            t
        } else {
            String::from_str("none")
        };
        match crate::strutil::parse_u64(&elo_tok) {
            Some(v) => {
                if v <= 65535 {
                    zorro.config.opponent_elo = Some(v);
                    Ok(())
                } else {
                    Err(Error::Syntax)
                }
            },
            None => Err(Error::Syntax),
        }
    } else {
        Ok(())
    }
}

/// Read a boolean option value: "true" or "false", all else a syntax
/// error.
fn option_check(s: &String) -> (r: Result<bool, Error>)
    ensures
        s@ == "true"@ ==> r == Ok::<bool, Error>(true),
        s@ == "false"@ ==> r == Ok::<bool, Error>(false),
        !(s@ == "true"@ || s@ == "false"@) ==> r is Err && r->Err_0 is Syntax,
{
    proof {
        reveal_strlit("true");
        reveal_strlit("false");
        assert(("true"@).len() == 4);
        assert(("false"@).len() == 5);
    }
    if streq(s, "true") {
        Ok(true)
    } else if streq(s, "false") {
        Ok(false)
    } else {
        Err(Error::Syntax)
    }
}

/// Read a numeric option value; a malformed number is a syntax error.
fn option_spin(s: &String) -> (r: Result<i64, Error>)
    ensures
        crate::strutil::signed_parse_ok(s@) && -0x8000_0000_0000_0000
            <= crate::strutil::signed_value(s@) < 0x8000_0000_0000_0000 ==> r
            == Ok::<i64, Error>(crate::strutil::signed_value(s@) as i64),
        !(crate::strutil::signed_parse_ok(s@) && -0x8000_0000_0000_0000
            <= crate::strutil::signed_value(s@) < 0x8000_0000_0000_0000) ==> r is Err
            && r->Err_0 is Syntax,
{
    match crate::strutil::parse_i64(s) {
        Some(v) => Ok(v),
        None => Err(Error::Syntax),
    }
}

/// Only the ponder flag may differ.
pub open spec fn only_ponder_changed(a: Config, b: Config) -> bool {
    &&& a.debug == b.debug
    &&& a.show_n_best == b.show_n_best
    &&& a.opponent_elo == b.opponent_elo
    &&& a.restrict_search@ == b.restrict_search@
    &&& a.moves_to_go == b.moves_to_go
    &&& a.max_depth == b.max_depth
    &&& a.max_nodes == b.max_nodes
}

/// Only the multi-line count may differ.
pub open spec fn only_show_n_best_changed(a: Config, b: Config) -> bool {
    &&& a.debug == b.debug
    &&& a.ponder == b.ponder
    &&& a.opponent_elo == b.opponent_elo
    &&& a.restrict_search@ == b.restrict_search@
    &&& a.moves_to_go == b.moves_to_go
    &&& a.max_depth == b.max_depth
    &&& a.max_nodes == b.max_nodes
}

/// Only the recorded opponent rating may differ.
pub open spec fn only_opponent_changed(a: Config, b: Config) -> bool {
    &&& a.debug == b.debug
    &&& a.ponder == b.ponder
    &&& a.show_n_best == b.show_n_best
    &&& a.restrict_search@ == b.restrict_search@
    &&& a.moves_to_go == b.moves_to_go
    &&& a.max_depth == b.max_depth
    &&& a.max_nodes == b.max_nodes
}


/// A token vector's deep view has one entry per token.
proof fn lemma_deep_len(v: &Vec<String>)
    ensures
        v.deep_view().len() == v@.len(),
{
}

/// A token's deep view is its character sequence.
proof fn lemma_deep_index(v: &Vec<String>, k: int)
    requires
        0 <= k < v@.len(),
    ensures
        v.deep_view()[k] == v@[k]@,
{
}

/// The tokens of `tokens` from index `from` on, as an owned vector.
fn rest_tokens(tokens: &Vec<String>, from: usize) -> (r: Vec<String>)
    ensures
        r.deep_view() == tokens.deep_view().skip(
            if from <= tokens.deep_view().len() {
                from as int
            } else {
                tokens.deep_view().len() as int
            },
        ),
{
    let mut r: Vec<String> = Vec::new();
    let mut i: usize = from;
    if i > tokens.len() {
        i = tokens.len();
    }
    let ghost start = i as int;
    while i < tokens.len()
        invariant
            start <= i as int <= tokens@.len(),
            r@.len() == i as int - start,
            forall|k: int| 0 <= k < r@.len() ==> (#[trigger] r@[k])@ == tokens@[start + k]@,
        decreases tokens.len() - i,
    {
        let t = tokens[i].clone();
        r.push(t);
        i = i + 1;
    }
    proof {
        lemma_deep_len(tokens);
        lemma_deep_len(&r);
        assert forall|k: int| 0 <= k < r@.len() implies #[trigger] r.deep_view()[k]
            == tokens.deep_view()[start + k] by {
            lemma_deep_index(&r, k);
            lemma_deep_index(tokens, start + k);
        }
        assert(r.deep_view() =~= tokens.deep_view().skip(start));
    }
    r
}

/// The first index at or after `i` whose token is not "moves".
pub open spec fn skip_moves(a: Seq<Seq<char>>, i: int) -> int
    decreases a.len() - i,
{
    if 0 <= i < a.len() && a[i] == "moves"@ {
        skip_moves(a, i + 1)
    } else {
        i
    }
}

/// The board model (placement and side) after applying the move tokens
/// `i..` in order, or `None` at the first malformed token.
pub open spec fn apply_tokens(
    p: Seq<Option<Piece>>,
    c: Color,
    a: Seq<Seq<char>>,
    i: int,
) -> Option<(Seq<Option<Piece>>, Color)>
    decreases a.len() - i,
{
    if i < 0 || i >= a.len() {
        Some((p, c))
    } else if crate::board::move_chars_ok(a[i]) {
        apply_tokens(
            spec_apply(p, crate::coordinates::square_chars_idx(a[i], 0), crate::coordinates::square_chars_idx(a[i], 2)),
            c.spec_opposite(),
            a,
            i + 1,
        )
    } else {
        None
    }
}

/// What `position [startpos|fen <fields>|current] [moves <m>...]` does:
/// the session board is replaced by the named base (or kept), then every
/// token after the leading "moves" words is applied in order; a malformed
/// move stops there as a square error, and nothing else of the session
/// changes.
pub open spec fn position_spec(oz: Zorro, nz: Zorro, a: Seq<Seq<char>>, r: Result<(), Error>) -> bool {
    &&& same_session_frame(oz, nz)
    &&& if a.len() == 0 {
        r is Err && r->Err_0 is Syntax && same_board(oz.board, nz.board)
    } else if a[0] == "startpos"@ {
        let j = skip_moves(a, 1);
        match apply_tokens(start_placement(), Color::White, a, j) {
            Some(pc) => r is Ok && nz.board.placement() == pc.0 && nz.board.color_to_move
                == pc.1,
            None => r is Err && r->Err_0 == Error::Chess(ChessError::InvalidSquare),
        }
    } else if a[0] == "current"@ {
        let j = skip_moves(a, 1);
        match apply_tokens(oz.board.placement(), oz.board.color_to_move, a, j) {
            Some(pc) => r is Ok && nz.board.placement() == pc.0 && nz.board.color_to_move
                == pc.1,
            None => r is Err && r->Err_0 == Error::Chess(ChessError::InvalidSquare),
        }
    } else if a[0] == "fen"@ {
        if !fen_fields_ok(a, 1) {
            &&& r is Err
            &&& same_board(oz.board, nz.board)
            &&& !(7 <= a.len() && fen_parse(a[1]) is Some) ==> r->Err_0 == Error::Chess(
                ChessError::InvalidFen,
            )
            &&& 7 <= a.len() && fen_parse(a[1]) is Some && !fen_side_ok(a[2]) ==> r->Err_0
                == Error::Chess(ChessError::InvalidColor)
            &&& 7 <= a.len() && fen_parse(a[1]) is Some && fen_side_ok(a[2]) && !(fen_clock_ok(
                a[5],
            ) && fen_clock_ok(a[6])) ==> r->Err_0 == Error::Chess(ChessError::InvalidFen)
        } else {
            let q = fen_parse(a[1])->0;
            let cs = if a[2] == seq!['w'] {
                Color::White
            } else {
                Color::Black
            };
            let j = skip_moves(a, 7);
            match apply_tokens(q, cs, a, j) {
                Some(pc) => r is Ok && nz.board.placement() == pc.0 && nz.board.color_to_move
                    == pc.1,
                None => r is Err && r->Err_0 == Error::Chess(ChessError::InvalidSquare),
            }
        }
    } else {
        r is Err && r->Err_0 is Syntax && same_board(oz.board, nz.board)
    }
}

/// Answer `position [startpos|fen <fields>|current] [moves <m>...]`:
/// replace or keep the session board, then apply the move tokens.
pub fn position(zorro: &mut Zorro, args: &Vec<String>) -> (r: Result<(), Error>)
    requires
        old(zorro).wf(),
    ensures
        final(zorro).wf(),
        position_spec(*old(zorro), *final(zorro), args.deep_view(), r)
{
    proof {
        reveal_strlit("startpos");
        reveal_strlit("current");
        reveal_strlit("fen");
        reveal_strlit("moves");
    }
    let ghost a = args.deep_view();
    if args.len() == 0 {
        return Err(Error::Syntax);
    }
    proof {
        lemma_deep_len(args);
        assert(a[0] == args@[0]@);
    }
    let mut j: usize = 1;
    if streq(&args[0], "startpos") {
        zorro.board = Board::starting();
    } else if streq(&args[0], "current") {
    } else if streq(&args[0], "fen") {
        proof {
            assert forall|k: int| 0 <= k < a.len() implies #[trigger] a[k] == args@[k]@ by {
                lemma_deep_index(args, k);
            }
            assert(a =~= Seq::new(args@.len(), |k: int| args@[k]@));
        }
        match Board::from_fen(args, 1) {
            Ok(b) => {
                zorro.board = b;
                j = 7;
            },
            Err(e) => {
                return Err(Error::Chess(e));
            },
        }
    } else {
        return Err(Error::Syntax);
    }
    let ghost j_init: int = j as int;
    let ghost z_mid = *zorro;
    while j < args.len() && streq(&args[j], "moves")
        invariant
            a == args.deep_view(),
            a.len() == args@.len(),
            j_init <= j as int,
            j as int <= a.len() || j as int == j_init,
            *zorro == z_mid,
            zorro.wf(),
            same_session_frame(*old(zorro), *zorro),
            a.len() > 0,
            a[0] == "startpos"@ || a[0] == "current"@ || a[0] == "fen"@,
            a[0] == "startpos"@ ==> zorro.board.placement() == start_placement()
                && zorro.board.color_to_move == Color::White && j_init == 1,
            a[0] == "current"@ ==> same_board(old(zorro).board, zorro.board) && j_init == 1,
            a[0] == "fen"@ ==> fen_fields_ok(a, 1) && zorro.board.placement() == fen_parse(
                a[1],
            )->0 && (zorro.board.color_to_move == Color::White <==> a[2] == seq!['w'])
                && fen_side_ok(a[2]) && j_init == 7,
            skip_moves(a, j_init) == skip_moves(a, j as int),
        decreases a.len() - j as int,
    {
        proof {
            reveal_strlit("moves");
        }
        j = j + 1;
    }
    let ghost js = j as int;
    let ghost p0 = zorro.board.placement();
    let ghost c0 = zorro.board.color_to_move;
    proof {
        assert(js == skip_moves(a, j_init));
    }
    let ghost branch_start = a.len() > 0 && a[0] == "startpos"@ && p0 == start_placement() && c0
        == Color::White && js == skip_moves(a, 1);
    let ghost branch_cur = a.len() > 0 && a[0] == "current"@ && p0 == old(zorro).board.placement() && c0 == old(zorro).board.color_to_move && js == skip_moves(a, 1);
    let ghost branch_fen = a.len() > 0 && a[0] == "fen"@ && fen_fields_ok(a, 1) && p0
        == fen_parse(a[1])->0 && c0 == (if a[2] == seq!['w'] {
        Color::White
    } else {
        Color::Black
    }) && js == skip_moves(a, 7);
    while j < args.len()
        invariant
            a == args.deep_view(),
            a.len() == args@.len(),
            js <= j as int,
            j as int <= a.len() || j as int == js,
            zorro.wf(),
            same_session_frame(*old(zorro), *zorro),
            branch_start == (a.len() > 0 && a[0] == "startpos"@ && p0 == start_placement() && c0
                == Color::White && js == skip_moves(a, 1)),
            branch_cur == (a.len() > 0 && a[0] == "current"@ && p0 == old(zorro).board.placement() && c0 == old(zorro).board.color_to_move && js == skip_moves(a, 1)),
            branch_fen == (a.len() > 0 && a[0] == "fen"@ && fen_fields_ok(a, 1) && p0
                == fen_parse(a[1])->0 && c0 == (if a[2] == seq!['w'] {
                Color::White
            } else {
                Color::Black
            }) && js == skip_moves(a, 7)),
            a.len() > 0,
            a[0] == "startpos"@ || a[0] == "current"@ || a[0] == "fen"@,
            a[0] == "startpos"@ ==> branch_start,
            a[0] == "current"@ ==> branch_cur,
            a[0] == "fen"@ ==> branch_fen,
            apply_tokens(p0, c0, a, js) == apply_tokens(
                zorro.board.placement(),
                zorro.board.color_to_move,
                a,
                j as int,
            ),
        decreases a.len() - j as int,
    {
        proof {
            assert(a[j as int] == args@[j as int]@);
        }
        match Move::parse(&args[j]) {
            Ok(m) => {
                let ghost before = zorro.board.placement();
                zorro.board.do_move(m);
                proof {
                    assert(zorro.board.placement() == spec_apply(
                        before,
                        crate::coordinates::square_chars_idx(a[j as int], 0),
                        crate::coordinates::square_chars_idx(a[j as int], 2),
                    ));
                }
            },
            Err(_) => {
                return Err(Error::Chess(ChessError::InvalidSquare));
            },
        }
        j = j + 1;
    }
    Ok(())
}

/// The cache, configuration and time controls are untouched.
pub open spec fn same_session_frame(a: Zorro, b: Zorro) -> bool {
    &&& a.cache.view() == b.cache.view()
    &&& same_config(a.config, b.config)
    &&& a.white_tc == b.white_tc
    &&& a.black_tc == b.black_tc
}


/// The working state the `go` parser folds over: the configuration
/// overrides and the two time controls.
pub struct GoModel {
    pub restrict: Seq<Move>,
    pub mtg: Option<u64>,
    pub depth: Option<u64>,
    pub nodes: Option<u64>,
    pub ponder: bool,
    pub wtc: TimeControl,
    pub btc: TimeControl,
}

/// How parsing a `go` line ends: a full state to commit, a hand-off to
/// the perft subcommand, a syntax failure, or a malformed move token.
pub enum GoOutcome {
    Done(GoModel),
    Perft(int),
    FailSyntax,
    FailMove,
}

/// Whether the token after position `i` is a number.
pub open spec fn num_ok(a: Seq<Seq<char>>, i: int) -> bool {
    i + 1 < a.len() && is_digits(a[i + 1]) && dec_value(a[i + 1]) <= u64::MAX
}

/// That number.
pub open spec fn num_val(a: Seq<Seq<char>>, i: int) -> u64 {
    dec_value(a[i + 1]) as u64
}

/// The move a well-formed move token denotes.
pub open spec fn spec_move_of(s: Seq<char>) -> Move {
    Move {
        from: Square::spec_square(crate::coordinates::square_chars_idx(s, 0)),
        to: Square::spec_square(crate::coordinates::square_chars_idx(s, 2)),
    }
}

/// Parse every remaining token as a move and append it to `acc`; `None`
/// at the first malformed token.
pub open spec fn parse_moves_spec(a: Seq<Seq<char>>, j: int, acc: Seq<Move>) -> Option<Seq<Move>>
    decreases a.len() - j,
{
    if j < 0 || j >= a.len() {
        Some(acc)
    } else if crate::board::move_chars_ok(a[j]) {
        parse_moves_spec(a, j + 1, acc.push(spec_move_of(a[j])))
    } else {
        None
    }
}

/// The `go` argument fold: apply each override left to right over the
/// working state, with `searchmoves` consuming every remaining token and
/// `perft` handing the rest of the line to the perft subcommand.
pub open spec fn go_parse(a: Seq<Seq<char>>, i: int, stm: Color, m: GoModel) -> GoOutcome
    decreases a.len() - i,
{
    if i < 0 {
        GoOutcome::FailSyntax
    } else if i >= a.len() {
        GoOutcome::Done(m)
    } else {
        let t = a[i];
        if t == "searchmoves"@ {
            match parse_moves_spec(a, i + 1, m.restrict) {
                Some(rs) => GoOutcome::Done(
                    GoModel {
                        restrict: rs,
                        mtg: m.mtg,
                        depth: m.depth,
                        nodes: m.nodes,
                        ponder: m.ponder,
                        wtc: m.wtc,
                        btc: m.btc,
                    },
                ),
                None => GoOutcome::FailMove,
            }
        } else if t == "wtime"@ {
            if num_ok(a, i) {
                go_parse(
                    a,
                    i + 2,
                    stm,
                    GoModel {
                        restrict: m.restrict,
                        mtg: m.mtg,
                        depth: m.depth,
                        nodes: m.nodes,
                        ponder: m.ponder,
                        wtc: TimeControl {
                            time_limit_ms: num_val(a, i),
                            increment_ms: m.wtc.increment_ms,
                            delay_ms: m.wtc.delay_ms,
                        },
                        btc: m.btc,
                    },
                )
            } else {
                GoOutcome::FailSyntax
            }
        } else if t == "btime"@ {
            if num_ok(a, i) {
                go_parse(
                    a,
                    i + 2,
                    stm,
                    GoModel {
                        restrict: m.restrict,
                        mtg: m.mtg,
                        depth: m.depth,
                        nodes: m.nodes,
                        ponder: m.ponder,
                        wtc: m.wtc,
                        btc: TimeControl {
                            time_limit_ms: num_val(a, i),
                            increment_ms: m.btc.increment_ms,
                            delay_ms: m.btc.delay_ms,
                        },
                    },
                )
            } else {
                GoOutcome::FailSyntax
            }
        } else if t == "winc"@ {
            if num_ok(a, i) {
                go_parse(
                    a,
                    i + 2,
                    stm,
                    GoModel {
                        restrict: m.restrict,
                        mtg: m.mtg,
                        depth: m.depth,
                        nodes: m.nodes,
                        ponder: m.ponder,
                        wtc: TimeControl {
                            time_limit_ms: m.wtc.time_limit_ms,
                            increment_ms: num_val(a, i),
                            delay_ms: m.wtc.delay_ms,
                        },
                        btc: m.btc,
                    },
                )
            } else {
                GoOutcome::FailSyntax
            }
        } else if t == "binc"@ {
            if num_ok(a, i) {
                go_parse(
                    a,
                    i + 2,
                    stm,
                    GoModel {
                        restrict: m.restrict,
                        mtg: m.mtg,
                        depth: m.depth,
                        nodes: m.nodes,
                        ponder: m.ponder,
                        wtc: m.wtc,
                        btc: TimeControl {
                            time_limit_ms: m.btc.time_limit_ms,
                            increment_ms: num_val(a, i),
                            delay_ms: m.btc.delay_ms,
                        },
                    },
                )
            } else {
                GoOutcome::FailSyntax
            }
        } else if t == "movestogo"@ {
            if num_ok(a, i) {
                go_parse(
                    a,
                    i + 2,
                    stm,
                    GoModel {
                        restrict: m.restrict,
                        mtg: Some(num_val(a, i)),
                        depth: m.depth,
                        nodes: m.nodes,
                        ponder: m.ponder,
                        wtc: m.wtc,
                        btc: m.btc,
                    },
                )
            } else {
                GoOutcome::FailSyntax
            }
        } else if t == "depth"@ {
            if num_ok(a, i) {
                go_parse(
                    a,
                    i + 2,
                    stm,
                    GoModel {
                        restrict: m.restrict,
                        mtg: m.mtg,
                        depth: Some(num_val(a, i)),
                        nodes: m.nodes,
                        ponder: m.ponder,
                        wtc: m.wtc,
                        btc: m.btc,
                    },
                )
            } else {
                GoOutcome::FailSyntax
            }
        } else if t == "nodes"@ {
            if num_ok(a, i) {
                go_parse(
                    a,
                    i + 2,
                    stm,
                    GoModel {
                        restrict: m.restrict,
                        mtg: m.mtg,
                        depth: m.depth,
                        nodes: Some(num_val(a, i)),
                        ponder: m.ponder,
                        wtc: m.wtc,
                        btc: m.btc,
                    },
                )
            } else {
                GoOutcome::FailSyntax
            }
        } else if t == "mate"@ {
            go_parse(a, i + 1, stm, m)
        } else if t == "movetime"@ {
            if num_ok(a, i) {
                go_parse(
                    a,
                    i + 2,
                    stm,
                    GoModel {
                        restrict: m.restrict,
                        mtg: m.mtg,
                        depth: m.depth,
                        nodes: m.nodes,
                        ponder: m.ponder,
                        wtc: if stm == Color::White {
                            TimeControl {
                                time_limit_ms: num_val(a, i),
                                increment_ms: m.wtc.increment_ms,
                                delay_ms: 0u64,
                            }
                        } else {
                            m.wtc
                        },
                        btc: if stm == Color::Black {
                            TimeControl {
                                time_limit_ms: num_val(a, i),
                                increment_ms: m.btc.increment_ms,
                                delay_ms: 0u64,
                            }
                        } else {
                            m.btc
                        },
                    },
                )
            } else {
                GoOutcome::FailSyntax
            }
        } else if t == "infinite"@ {
            go_parse(
                a,
                i + 1,
                stm,
                GoModel {
                    restrict: m.restrict,
                    mtg: m.mtg,
                    depth: m.depth,
                    nodes: m.nodes,
                    ponder: m.ponder,
                    wtc: TimeControl::spec_infinite(),
                    btc: TimeControl::spec_infinite(),
                },
            )
        } else if t == "ponder"@ {
            go_parse(
                a,
                i + 1,
                stm,
                GoModel {
                    restrict: m.restrict,
                    mtg: m.mtg,
                    depth: m.depth,
                    nodes: m.nodes,
                    ponder: true,
                    wtc: m.wtc,
                    btc: m.btc,
                },
            )
        } else if t == "perft"@ {
            GoOutcome::Perft(i + 1)
        } else {
            GoOutcome::FailSyntax
        }
    }
}

/// The working state a session starts a `go` line with.
pub open spec fn go_init(z: Zorro) -> GoModel {
    GoModel {
        restrict: z.config.restrict_search@,
        mtg: z.config.moves_to_go,
        depth: z.config.max_depth,
        nodes: z.config.max_nodes,
        ponder: z.config.ponder,
        wtc: z.white_tc,
        btc: z.black_tc,
    }
}

/// The one line `go` answers with: the first restricted move if any were
/// given, else the first pseudo-legal move in candidate order, else the
/// null move.
pub open spec fn bestmove_line(restrict: Seq<Move>, p: Seq<Option<Piece>>, c: Color) -> Seq<
    char,
> {
    "bestmove "@ + (if restrict.len() > 0 {
        restrict[0].spec_name()
    } else {
        let i = first_move_from(p, c, 0);
        if i < 4096 {
            square_name_at(i / 64) + square_name_at(i % 64)
        } else {
            "0000"@
        }
    })
}

/// An independent copy of a move list.
fn dup_moves(v: &Vec<Move>) -> (r: Vec<Move>)
    ensures
        r@ == v@,
{
    let mut r: Vec<Move> = Vec::new();
    let mut i: usize = 0;
    while i < v.len()
        invariant
            i <= v@.len(),
            r@ =~= v@.take(i as int),
        decreases v.len() - i,
    {
        r.push(v[i]);
        i = i + 1;
    }
    proof {
        assert(r@ =~= v@);
    }
    r
}

/// What `go [flags...]` does: the overrides are applied left to right
/// over a snapshot; on any failure nothing at all changes; on success
/// the surviving snapshot is committed and exactly one `bestmove` line
/// answers; `go perft` behaves as the perft subcommand on the rest.
pub open spec fn go_spec(
    oz: Zorro,
    nz: Zorro,
    a: Seq<Seq<char>>,
    oo: Seq<Seq<char>>,
    no: Seq<Seq<char>>,
    r: Result<(), Error>,
) -> bool {
    let stm = oz.board.color_to_move;
    match go_parse(a, 0, stm, go_init(oz)) {
        GoOutcome::FailSyntax => r is Err && r->Err_0 is Syntax && same_session(oz, nz) && no
            == oo,
        GoOutcome::FailMove => r is Err && r->Err_0 == Error::Chess(ChessError::InvalidSquare)
            && same_session(oz, nz) && no == oo,
        GoOutcome::Perft(j) => same_session(oz, nz) && {
            let p = oz.board.placement();
            if j == a.len() {
                r is Ok && no == oo.push(dec_digits(clip(spec_perft(p, stm, 1))))
            } else if is_digits(a[j]) && dec_value(a[j]) <= u64::MAX {
                r is Ok && no == oo.push(dec_digits(clip(spec_perft(p, stm, dec_value(a[j])))))
            } else {
                r is Err && r->Err_0 is Syntax && no == oo
            }
        },
        GoOutcome::Done(m) => {
            &&& r is Ok
            &&& same_board(oz.board, nz.board)
            &&& nz.cache.view() == oz.cache.view()
            &&& nz.config.restrict_search@ == m.restrict
            &&& nz.config.moves_to_go == m.mtg
            &&& nz.config.max_depth == m.depth
            &&& nz.config.max_nodes == m.nodes
            &&& nz.config.ponder == m.ponder
            &&& nz.config.debug == oz.config.debug
            &&& nz.config.show_n_best == oz.config.show_n_best
            &&& nz.config.opponent_elo == oz.config.opponent_elo
            &&& nz.white_tc == m.wtc
            &&& nz.black_tc == m.btc
            &&& no == oo.push(bestmove_line(m.restrict, oz.board.placement(), stm))
        },
    }
}

/// Answer `go [flags...]`: snapshot the configuration and time controls,
/// apply the overrides left to right, and on success commit them and
/// emit exactly one `bestmove` line. An unrecognized flag or a malformed
/// number aborts the whole command with no partial effect; `go perft`
/// hands the rest of the line to the perft subcommand.
///
/// The search subsystem is an external collaborator; the move answered
/// is the first candidate the restriction or the movement layer offers.
pub fn go(zorro: &mut Zorro, args: &Vec<String>, out: &mut Vec<String>) -> (r: Result<(), Error>)
    requires
        old(zorro).wf(),
    ensures
        final(zorro).wf(),
        go_spec(
            *old(zorro),
            *final(zorro),
            args.deep_view(),
            old(out).deep_view(),
            final(out).deep_view(),
            r,
        )
{
    proof {
        lemma_deep_len(args);
    }
    let ghost a = args.deep_view();
    let ghost stm = zorro.board.color_to_move;
    let ghost init = go_init(*zorro);
    let stm_white = matches!(zorro.board.color_to_move, Color::White);
    let mut restrict = dup_moves(&zorro.config.restrict_search);
    let mut mtg = zorro.config.moves_to_go;
    let mut depth = zorro.config.max_depth;
    let mut nodes = zorro.config.max_nodes;
    let mut ponder = zorro.config.ponder;
    let mut wtc = zorro.white_tc;
    let mut btc = zorro.black_tc;
    let mut i: usize = 0;
    while i < args.len()
        invariant
            a == args.deep_view(),
            a.len() == args@.len(),
            *zorro == *old(zorro),
            old(zorro).wf(),
            stm == old(zorro).board.color_to_move,
            stm_white == (stm == Color::White),
            init == go_init(*old(zorro)),
            out.deep_view() == old(out).deep_view(),
            i <= a.len(),
            forall|k: int| 0 <= k < restrict@.len() ==> (#[trigger] restrict@[k]).wf(),
            go_parse(a, 0, stm, init) == go_parse(
                a,
                i as int,
                stm,
                GoModel {
                    restrict: restrict@,
                    mtg,
                    depth,
                    nodes,
                    ponder,
                    wtc,
                    btc,
                },
            ),
        decreases a.len() - i,
    {
        proof {
            reveal_strlit("searchmoves");
            reveal_strlit("wtime");
            reveal_strlit("btime");
            reveal_strlit("winc");
            reveal_strlit("binc");
            reveal_strlit("movestogo");
            reveal_strlit("depth");
            reveal_strlit("nodes");
            reveal_strlit("mate");
            reveal_strlit("movetime");
            reveal_strlit("infinite");
            reveal_strlit("ponder");
            reveal_strlit("perft");
            assert(a[i as int] == args@[i as int]@);
        }
        if streq(&args[i], "searchmoves") {
            let ghost i0 = i as int;
            let ghost r0 = restrict@;
            let mut j = i + 1;
            while j < args.len()
                invariant
                    a == args.deep_view(),
                    a.len() == args@.len(),
                    *zorro == *old(zorro),
                    old(zorro).wf(),
                    i0 + 1 <= j as int <= a.len(),
                    out.deep_view() == old(out).deep_view(),
                    stm == old(zorro).board.color_to_move,
                    init == go_init(*old(zorro)),
                    forall|k: int| 0 <= k < restrict@.len() ==> (#[trigger] restrict@[k]).wf(),
                    go_parse(a, 0, stm, init) == (match parse_moves_spec(
                        a,
                        j as int,
                        restrict@,
                    ) {
                        Some(rs) => GoOutcome::Done(
                            GoModel {
                                restrict: rs,
                                mtg,
                                depth,
                                nodes,
                                ponder,
                                wtc,
                                btc,
                            },
                        ),
                        None => GoOutcome::FailMove,
                    }),
                decreases a.len() - j,
            {
                proof {
                    assert(a[j as int] == args@[j as int]@);
                }
                match Move::parse(&args[j]) {
                    Ok(m) => {
                        proof {
                            Square::lemma_spec_square(
                                crate::coordinates::square_chars_idx(a[j as int], 0),
                            );
                            Square::lemma_spec_square(
                                crate::coordinates::square_chars_idx(a[j as int], 2),
                            );
                            Square::lemma_idx_injective(
                                m.from,
                                spec_move_of(a[j as int]).from,
                            );
                            Square::lemma_idx_injective(m.to, spec_move_of(a[j as int]).to);
                            assert(m == spec_move_of(a[j as int]));
                            assert(restrict@.push(m) =~= restrict@.push(
                                spec_move_of(a[j as int]),
                            ));
                        }
                        restrict.push(m);
                    },
                    Err(_) => {
                        return Err(Error::Chess(ChessError::InvalidSquare));
                    },
                }
                j = j + 1;
            }
            i = args.len();
        } else if streq(&args[i], "wtime") || streq(&args[i], "btime") || streq(&args[i], "winc")
            || streq(&args[i], "binc") || streq(&args[i], "movestogo") || streq(&args[i], "depth")
            || streq(&args[i], "nodes") || streq(&args[i], "movetime") {
            if i + 1 >= args.len() {
                return Err(Error::Syntax);
            }
            proof {
                assert(a[i as int + 1] == args@[i as int + 1]@);
            }
            let v = match crate::strutil::parse_u64(&args[i + 1]) {
                Some(v) => v,
                None => {
                    return Err(Error::Syntax);
                },
            };
            if streq(&args[i], "wtime") {
                wtc = TimeControl {
                    time_limit_ms: v,
                    increment_ms: wtc.increment_ms,
                    delay_ms: wtc.delay_ms,
                };
            } else if streq(&args[i], "btime") {
                btc = TimeControl {
                    time_limit_ms: v,
                    increment_ms: btc.increment_ms,
                    delay_ms: btc.delay_ms,
                };
            } else if streq(&args[i], "winc") {
                wtc = TimeControl {
                    time_limit_ms: wtc.time_limit_ms,
                    increment_ms: v,
                    delay_ms: wtc.delay_ms,
                };
            } else if streq(&args[i], "binc") {
                btc = TimeControl {
                    time_limit_ms: btc.time_limit_ms,
                    increment_ms: v,
                    delay_ms: btc.delay_ms,
                };
            } else if streq(&args[i], "movestogo") {
                mtg = Some(v);
            } else if streq(&args[i], "depth") {
                depth = Some(v);
            } else if streq(&args[i], "nodes") {
                nodes = Some(v);
            } else {
                if stm_white {
                    wtc = TimeControl {
                        time_limit_ms: v,
                        increment_ms: wtc.increment_ms,
                        delay_ms: 0,
                    };
                } else {
                    btc = TimeControl {
                        time_limit_ms: v,
                        increment_ms: btc.increment_ms,
                        delay_ms: 0,
                    };
                }
            }
            i = i + 2;
        } else if streq(&args[i], "mate") {
            i = i + 1;
        } else if streq(&args[i], "infinite") {
            wtc = TimeControl::infinite();
            btc = TimeControl::infinite();
            i = i + 1;
        } else if streq(&args[i], "ponder") {
            ponder = true;
            i = i + 1;
        } else if streq(&args[i], "perft") {
            let rest = rest_tokens(args, i + 1);
            proof {
                assert(rest.deep_view() =~= a.skip(i as int + 1));
                if rest.deep_view().len() > 0 {
                    assert(rest.deep_view()[0] == a[i as int + 1]);
                }
            }
            let res = perft(zorro, &rest, out);
            return res;
        } else {
            return Err(Error::Syntax);
        }
    }
    zorro.config.restrict_search = restrict;
    zorro.config.moves_to_go = mtg;
    zorro.config.max_depth = depth;
    zorro.config.max_nodes = nodes;
    zorro.config.ponder = ponder;
    zorro.white_tc = wtc;
    zorro.black_tc = btc;
    let name: String = if zorro.config.restrict_search.len() > 0 {
        zorro.config.restrict_search[0].name()
    } else {
        match crate::movegen::first_move(&zorro.board) {
            Some(m) => {
                proof {
                    let fi = first_move_from(
                        zorro.board.placement(),
                        zorro.board.color_to_move,
                        0,
                    );
                    Square::lemma_spec_square(fi / 64);
                    Square::lemma_spec_square(fi % 64);
                }
                m.name()
            },
            None => {
                proof {
                    reveal_strlit("0000");
                }
                String::from_str("0000")
            },
        }
    };
    let line = String::from_str("bestmove ").concat(name.as_str());
    proof {
        reveal_strlit("0000");
        assert(line@ =~= bestmove_line(
            restrict@,
            old(zorro).board.placement(),
            old(zorro).board.color_to_move,
        ));
    }
    push_line_string(out, line);
    Ok(())
}


/// The line `cleart` answers with: the ANSI clear-screen sequence.
pub open spec fn cleart_line() -> Seq<char> {
    seq![(27int) as char] + "[2J"@
}

/// Answer `cleart`: emit the terminal clear-screen control sequence.
pub fn clean_terminal_screen(out: &mut Vec<String>) -> (r: Result<(), Error>)
    ensures
        r is Ok,
        final(out).deep_view() == old(out).deep_view().push(cleart_line()),
{
    let mut line = String::new();
    push_char(&mut line, (27u8) as char);
    let line = line.concat("[2J");
    proof {
        assert(line@ =~= cleart_line());
    }
    push_line_string(out, line);
    Ok(())
}

/// The command words the dispatcher knows.
pub open spec fn known_command(c: Seq<char>) -> bool {
    ||| c == "cleart"@
    ||| c == "d"@
    ||| c == "debug"@
    ||| c == "eval"@
    ||| c == "gentables"@
    ||| c == "go"@
    ||| c == "isready"@
    ||| c == "listmagics"@
    ||| c == "magic"@
    ||| c == "perft"@
    ||| c == "position"@
    ||| c == "quit"@
    ||| c == "stop"@
    ||| c == "setoption"@
    ||| c == "uci"@
    ||| c == "ucispec"@
    ||| c == "ucinewgame"@
}

/// A line-handling result with its state stripped: what the dispatched
/// handler itself returned.
pub open spec fn unit_result(r: Result<State, Error>) -> Result<(), Error> {
    match r {
        Ok(_) => Ok(()),
        Err(e) => Err(e),
    }
}

/// Handle one command line: split it into tokens, dispatch on the first,
/// and let the handler append its response lines. A blank line does
/// nothing; `quit` and `stop` report the shutdown state; an unknown
/// command is an error naming it; every other recognized command leaves
/// the session alive, and none but `ucinewgame` touches the cache.
pub fn handle_line(zorro: &mut Zorro, line: &str, out: &mut Vec<String>) -> (r: Result<
    State,
    Error,
>)
    requires
        old(zorro).wf(),
    ensures
        final(zorro).wf(),
        ({
            let ts = tokens_of(line@);
            &&& ts.len() == 0 ==> r == Ok::<State, Error>(State::Alive) && same_session(
                *old(zorro),
                *final(zorro),
            ) && final(out).deep_view() == old(out).deep_view()
            &&& ts.len() > 0 ==> {
                let c = ts[0];
                &&& (c == "quit"@ || c == "stop"@) ==> r == Ok::<State, Error>(State::Shutdown)
                    && same_session(*old(zorro), *final(zorro)) && final(out).deep_view() == old(out).deep_view()
                &&& c == "isready"@ ==> r == Ok::<State, Error>(State::Alive) && same_session(
                    *old(zorro),
                    *final(zorro),
                ) && final(out).deep_view() == old(out).deep_view().push("readyok"@)
                &&& c == "uci"@ ==> r == Ok::<State, Error>(State::Alive) && same_session(
                    *old(zorro),
                    *final(zorro),
                ) && final(out).deep_view() == old(out).deep_view() + uci_lines()
                &&& c == "ucinewgame"@ ==> r == Ok::<State, Error>(State::Alive) && final(zorro).cache.view() == Map::<(Seq<Option<Piece>>, Color), Evaluation>::empty()
                    && same_board(old(zorro).board, final(zorro).board) && same_config(
                    old(zorro).config,
                    final(zorro).config,
                ) && final(zorro).white_tc == old(zorro).white_tc && final(zorro).black_tc == old(zorro).black_tc && final(out).deep_view() == old(out).deep_view()
                &&& c == "cleart"@ ==> r == Ok::<State, Error>(State::Alive) && same_session(
                    *old(zorro),
                    *final(zorro),
                ) && final(out).deep_view() == old(out).deep_view().push(cleart_line())
                &&& !known_command(c) ==> r is Err && (r->Err_0 matches Error::UnknownCommand(
                    name,
                ) && name@ == c) && same_session(*old(zorro), *final(zorro)) && final(out).deep_view() == old(out).deep_view()
                &&& c == "d"@ ==> debug_engine_state_spec(
                    *old(zorro),
                    ts.skip(1),
                    old(out).deep_view(),
                    final(out).deep_view(),
                    unit_result(r),
                ) && same_session(*old(zorro), *final(zorro))
                &&& c == "debug"@ ==> set_debug_mode_spec(
                    *old(zorro),
                    *final(zorro),
                    ts.skip(1),
                    unit_result(r),
                ) && final(out).deep_view() == old(out).deep_view()
                &&& c == "eval"@ ==> eval_spec(
                    old(zorro).board.placement(),
                    old(out).deep_view(),
                    final(out).deep_view(),
                    unit_result(r),
                ) && same_session(*old(zorro), *final(zorro))
                &&& c == "gentables"@ ==> gen_tables_spec(
                    old(out).deep_view(),
                    final(out).deep_view(),
                    unit_result(r),
                ) && same_session(*old(zorro), *final(zorro))
                &&& c == "go"@ ==> go_spec(
                    *old(zorro),
                    *final(zorro),
                    ts.skip(1),
                    old(out).deep_view(),
                    final(out).deep_view(),
                    unit_result(r),
                )
                &&& c == "listmagics"@ ==> list_magics_spec(
                    old(out).deep_view(),
                    final(out).deep_view(),
                    unit_result(r),
                ) && same_session(*old(zorro), *final(zorro))
                &&& c == "magic"@ ==> magic_spec(
                    ts.skip(1),
                    old(out).deep_view(),
                    final(out).deep_view(),
                    unit_result(r),
                ) && same_session(*old(zorro), *final(zorro))
                &&& c == "perft"@ ==> perft_spec(
                    *old(zorro),
                    *final(zorro),
                    ts.skip(1),
                    old(out).deep_view(),
                    final(out).deep_view(),
                    unit_result(r),
                )
                &&& c == "position"@ ==> position_spec(
                    *old(zorro),
                    *final(zorro),
                    ts.skip(1),
                    unit_result(r),
                ) && final(out).deep_view() == old(out).deep_view()
                &&& c == "setoption"@ ==> set_option_spec(
                    *old(zorro),
                    *final(zorro),
                    ts.skip(1),
                    unit_result(r),
                ) && final(out).deep_view() == old(out).deep_view()
                &&& c == "ucispec"@ ==> open_uci_docs_spec(
                    old(out).deep_view(),
                    final(out).deep_view(),
                    unit_result(r),
                ) && same_session(*old(zorro), *final(zorro))
                &&& r is Ok && !(c == "quit"@ || c == "stop"@) ==> r->Ok_0 == State::Alive
                &&& c != "ucinewgame"@ ==> final(zorro).cache.view() == old(zorro).cache.view()
            }
        }),
{
    proof {
        reveal_strlit("cleart");
        reveal_strlit("d");
        reveal_strlit("debug");
        reveal_strlit("eval");
        reveal_strlit("gentables");
        reveal_strlit("go");
        reveal_strlit("isready");
        reveal_strlit("listmagics");
        reveal_strlit("magic");
        reveal_strlit("perft");
        reveal_strlit("position");
        reveal_strlit("quit");
        reveal_strlit("stop");
        reveal_strlit("setoption");
        reveal_strlit("uci");
        reveal_strlit("ucispec");
        reveal_strlit("ucinewgame");
        assert(("cleart"@).len() == 6 && ("cleart"@)[0] == 'c');
        assert(("d"@).len() == 1 && ("d"@)[0] == 'd');
        assert(("debug"@).len() == 5 && ("debug"@)[0] == 'd');
        assert(("eval"@).len() == 4 && ("eval"@)[0] == 'e');
        assert(("gentables"@).len() == 9 && ("gentables"@)[0] == 'g');
        assert(("go"@).len() == 2 && ("go"@)[0] == 'g');
        assert(("isready"@).len() == 7 && ("isready"@)[0] == 'i');
        assert(("listmagics"@).len() == 10 && ("listmagics"@)[0] == 'l');
        assert(("magic"@).len() == 5 && ("magic"@)[0] == 'm');
        assert(("perft"@).len() == 5 && ("perft"@)[0] == 'p');
        assert(("position"@).len() == 8 && ("position"@)[0] == 'p');
        assert(("quit"@).len() == 4 && ("quit"@)[0] == 'q');
        assert(("stop"@).len() == 4 && ("stop"@)[0] == 's');
        assert(("setoption"@).len() == 9 && ("setoption"@)[0] == 's');
        assert(("uci"@).len() == 3 && ("uci"@)[0] == 'u');
        assert(("ucispec"@).len() == 7 && ("ucispec"@)[0] == 'u');
        assert(("ucinewgame"@).len() == 10 && ("ucinewgame"@)[0] == 'u');
    }
    let tokens = crate::strutil::tokenize(line);
    if tokens.len() == 0 {
        return Ok(State::Alive);
    }
    proof {
        lemma_deep_len(&tokens);
        lemma_deep_index(&tokens, 0);
    }
    let args = rest_tokens(&tokens, 1);
    proof {
        assert(args.deep_view() =~= tokens_of(line@).skip(1));
    }
    let cmd = &tokens[0];
    if streq(cmd, "quit") || streq(cmd, "stop") {
        return Ok(State::Shutdown);
    }
    let res: Result<(), Error> = if streq(cmd, "cleart") {
        clean_terminal_screen(out)
    } else if streq(cmd, "d") {
        debug_engine_state(zorro, &args, out)
    } else if streq(cmd, "debug") {
        set_debug_mode(zorro, &args)
    } else if streq(cmd, "eval") {
        eval(&zorro.board, out)
    } else if streq(cmd, "gentables") {
        gen_tables(out)
    } else if streq(cmd, "go") {
        go(zorro, &args, out)
    } else if streq(cmd, "isready") {
        push_line(out, "readyok");
        Ok(())
    } else if streq(cmd, "listmagics") {
        list_magics(out)
    } else if streq(cmd, "magic") {
        magic(&args, out)
    } else if streq(cmd, "perft") {
        perft(zorro, &args, out)
    } else if streq(cmd, "position") {
        position(zorro, &args)
    } else if streq(cmd, "setoption") {
        set_option(zorro, &args)
    } else if streq(cmd, "uci") {
        uci(out)
    } else if streq(cmd, "ucispec") {
        open_uci_docs(out)
    } else if streq(cmd, "ucinewgame") {
        zorro.cache.clear();
        Ok(())
    } else {
        let name = cmd.clone();
        return Err(Error::UnknownCommand(name));
    };
    match res {
        Ok(()) => Ok(State::Alive),
        Err(e) => Err(e),
    }
}

/// Process one line, rendering any failure as its one error line: no
/// input, however malformed, ends the session; only `quit` and `stop`
/// report the shutdown state.
pub fn process_line(zorro: &mut Zorro, line: &str, out: &mut Vec<String>) -> (st: State)
    requires
        old(zorro).wf(),
    ensures
        final(zorro).wf(),
        ({
            let ts = tokens_of(line@);
            &&& (st == State::Shutdown) <==> (ts.len() > 0 && (ts[0] == "quit"@ || ts[0]
                == "stop"@))
            &&& ts.len() > 0 && !known_command(ts[0]) ==> final(out).deep_view() == old(out).deep_view().push("[ERROR] Unknown command '"@ + ts[0] + "'"@) && same_session(
                *old(zorro),
                *final(zorro),
            )
            &&& ts.len() > 0 && ts[0] == "isready"@ ==> final(out).deep_view() == old(out).deep_view().push("readyok"@) && same_session(*old(zorro), *final(zorro))
            &&& ts.len() > 0 && ts[0] == "uci"@ ==> final(out).deep_view() == old(out).deep_view() + uci_lines() && same_session(*old(zorro), *final(zorro))
            &&& ts.len() > 0 && ts[0] == "ucinewgame"@ ==> final(zorro).cache.view() == Map::<
                (Seq<Option<Piece>>, Color),
                Evaluation,
            >::empty()
            &&& !(ts.len() > 0 && ts[0] == "ucinewgame"@) ==> final(zorro).cache.view() == old(zorro).cache.view()
            &&& ts.len() > 0 && ts[0] == "d"@ ==> same_session(*old(zorro), *final(zorro))
                && exists|rr: Result<(), Error>, mid: Seq<Seq<char>>|
                #[trigger] debug_engine_state_spec(
                    *old(zorro),
                    ts.skip(1),
                    old(out).deep_view(),
                    mid,
                    rr,
                ) && rendered(mid, final(out).deep_view(), rr)
            &&& ts.len() > 0 && ts[0] == "debug"@ ==> exists|rr: Result<(), Error>|
                #[trigger] set_debug_mode_spec(*old(zorro), *final(zorro), ts.skip(1), rr)
                    && rendered(old(out).deep_view(), final(out).deep_view(), rr)
            &&& ts.len() > 0 && ts[0] == "eval"@ ==> same_session(*old(zorro), *final(zorro))
                && exists|rr: Result<(), Error>, mid: Seq<Seq<char>>|
                #[trigger] eval_spec(old(zorro).board.placement(), old(out).deep_view(), mid, rr)
                    && rendered(mid, final(out).deep_view(), rr)
            &&& ts.len() > 0 && ts[0] == "gentables"@ ==> same_session(*old(zorro), *final(zorro))
                && exists|rr: Result<(), Error>, mid: Seq<Seq<char>>|
                #[trigger] gen_tables_spec(old(out).deep_view(), mid, rr) && rendered(
                    mid,
                    final(out).deep_view(),
                    rr,
                )
            &&& ts.len() > 0 && ts[0] == "go"@ ==> exists|rr: Result<(), Error>, mid: Seq<
                Seq<char>,
            >|
                #[trigger] go_spec(
                    *old(zorro),
                    *final(zorro),
                    ts.skip(1),
                    old(out).deep_view(),
                    mid,
                    rr,
                ) && rendered(mid, final(out).deep_view(), rr)
            &&& ts.len() > 0 && ts[0] == "listmagics"@ ==> same_session(*old(zorro), *final(zorro))
                && exists|rr: Result<(), Error>, mid: Seq<Seq<char>>|
                #[trigger] list_magics_spec(old(out).deep_view(), mid, rr) && rendered(
                    mid,
                    final(out).deep_view(),
                    rr,
                )
            &&& ts.len() > 0 && ts[0] == "magic"@ ==> same_session(*old(zorro), *final(zorro))
                && exists|rr: Result<(), Error>, mid: Seq<Seq<char>>|
                #[trigger] magic_spec(ts.skip(1), old(out).deep_view(), mid, rr) && rendered(
                    mid,
                    final(out).deep_view(),
                    rr,
                )
            &&& ts.len() > 0 && ts[0] == "perft"@ ==> exists|rr: Result<(), Error>, mid: Seq<
                Seq<char>,
            >|
                #[trigger] perft_spec(
                    *old(zorro),
                    *final(zorro),
                    ts.skip(1),
                    old(out).deep_view(),
                    mid,
                    rr,
                ) && rendered(mid, final(out).deep_view(), rr)
            &&& ts.len() > 0 && ts[0] == "position"@ ==> exists|rr: Result<(), Error>|
                #[trigger] position_spec(*old(zorro), *final(zorro), ts.skip(1), rr) && rendered(
                    old(out).deep_view(),
                    final(out).deep_view(),
                    rr,
                )
            &&& ts.len() > 0 && ts[0] == "setoption"@ ==> exists|rr: Result<(), Error>|
                #[trigger] set_option_spec(*old(zorro), *final(zorro), ts.skip(1), rr)
                    && rendered(old(out).deep_view(), final(out).deep_view(), rr)
            &&& ts.len() > 0 && ts[0] == "ucispec"@ ==> same_session(*old(zorro), *final(zorro))
                && exists|rr: Result<(), Error>, mid: Seq<Seq<char>>|
                #[trigger] open_uci_docs_spec(old(out).deep_view(), mid, rr) && rendered(
                    mid,
                    final(out).deep_view(),
                    rr,
                )
        }),
{
    match handle_line(zorro, line, out) {
        Ok(st) => st,
        Err(e) => {
            let ghost mid = out.deep_view();
            let msg = e.message();
            push_line_string(out, msg);
            proof {
                assert(out.deep_view() == mid.push(error_message(e)));
            }
            State::Alive
        },
    }
}

/// How a handler's output relates to the loop's: kept as is on success,
/// followed by the one rendered error line on failure.
pub open spec fn rendered(mid: Seq<Seq<char>>, no: Seq<Seq<char>>, rr: Result<(), Error>) -> bool {
    match rr {
        Ok(_) => no == mid,
        Err(e) => no == mid.push(error_message(e)),
    }
}

/// Whether a line's first token ends the session.
pub open spec fn is_terminal_line(l: Seq<char>) -> bool {
    tokens_of(l).len() > 0 && (tokens_of(l)[0] == "quit"@ || tokens_of(l)[0] == "stop"@)
}

/// The index of the first terminal line at or after `i`, or the length.
pub open spec fn first_terminal(ls: Seq<Seq<char>>, i: int) -> int
    decreases ls.len() - i,
{
    if i < 0 || i >= ls.len() {
        ls.len() as int
    } else if is_terminal_line(ls[i]) {
        i
    } else {
        first_terminal(ls, i + 1)
    }
}

/// Feed lines to the interpreter in order until one of them shuts the
/// session down; lines after the first terminal line are never processed.
/// Returns the final state and how many lines were consumed.
pub fn run_lines(zorro: &mut Zorro, lines: &Vec<String>, out: &mut Vec<String>) -> (r: (
    State,
    usize,
))
    requires
        old(zorro).wf(),
    ensures
        final(zorro).wf(),
        ({
            let ls = lines.deep_view();
            let ft = first_terminal(ls, 0);
            &&& ft < ls.len() ==> r.0 == State::Shutdown && r.1 == ft + 1
            &&& ft == ls.len() ==> r.0 == State::Alive && r.1 == ls.len()
        }),
{
    proof {
        lemma_deep_len(lines);
    }
    let ghost ls = lines.deep_view();
    let mut i: usize = 0;
    while i < lines.len()
        invariant
            ls == lines.deep_view(),
            ls.len() == lines@.len(),
            i <= ls.len(),
            zorro.wf(),
            first_terminal(ls, 0) == first_terminal(ls, i as int),
        decreases lines.len() - i,
    {
        proof {
            lemma_deep_index(lines, i as int);
        }
        let st = process_line(zorro, lines[i].as_str(), out);
        match st {
            State::Shutdown => {
                return (State::Shutdown, i + 1);
            },
            State::Alive => {},
        }
        i = i + 1;
    }
    (State::Alive, lines.len())
}

/// What `magic` does: a missing argument or occupancy is a syntax error,
/// a malformed square a square error; the file kind prints the transform
/// of the occupancy, the knight kind the table entry, any other kind
/// nothing.
pub open spec fn magic_spec(
    a: Seq<Seq<char>>,
    oo: Seq<Seq<char>>,
    no: Seq<Seq<char>>,
    r: Result<(), Error>,
) -> bool {
    if a.len() < 2 {
        r is Err && r->Err_0 is Syntax && no == oo
    } else if !crate::coordinates::square_chars_ok(a[0], 0) {
        r is Err && r->Err_0 == Error::Chess(ChessError::InvalidSquare) && no == oo
    } else if a.len() >= 3 && !(is_digits(a[2]) && dec_value(a[2]) <= u64::MAX) {
        r is Err && r->Err_0 is Syntax && no == oo
    } else {
        let sq = crate::coordinates::square_chars_idx(a[0], 0);
        let occ = if a.len() >= 3 {
            dec_value(a[2]) as u64
        } else {
            0u64
        };
        if a[1] == "file"@ {
            r is Ok && no == oo.push(
                "0x"@ + hex_digits(
                    (Magic {
                        mask: Magic::spec_file_mask(sq),
                        multiplier: 1u64,
                        shift: (8 * (sq / 8) + 1) as u32,
                    }).spec_magify(occ) as nat,
                ),
            )
        } else if a[1] == "knight"@ {
            r is Ok && no == oo.push("0x"@ + hex_digits(knight_bb(sq / 8, sq % 8) as nat))
        } else {
            r is Ok && no == oo
        }
    }
}

/// Answer `magic <square> <file|knight> [occupancy]`: apply the file
/// magic transform to the given occupancy, or look up the knight table;
/// any other kind is accepted and answers nothing.
pub fn magic(args: &Vec<String>, out: &mut Vec<String>) -> (r: Result<(), Error>)
    ensures
        magic_spec(args.deep_view(), old(out).deep_view(), final(out).deep_view(), r),
{
    proof {
        reveal_strlit("file");
        reveal_strlit("knight");
        lemma_deep_len(args);
    }
    let ghost a = args.deep_view();
    if args.len() < 2 {
        return Err(Error::Syntax);
    }
    proof {
        assert(a[0] == args@[0]@);
        assert(a[1] == args@[1]@);
    }
    let sq = match Square::parse(&args[0]) {
        Ok(sq) => sq,
        Err(_) => {
            return Err(Error::Chess(ChessError::InvalidSquare));
        },
    };
    let occ: u64 = if args.len() >= 3 {
        proof {
            assert(a[2] == args@[2]@);
        }
        match crate::strutil::parse_u64(&args[2]) {
            Some(v) => v,
            None => {
                return Err(Error::Syntax);
            },
        }
    } else {
        0
    };
    if streq(&args[1], "file") {
        let magics = Magic::by_file();
        let m = magics[sq.i()];
        let v = m.magify(occ);
        let line = String::from_str("0x");
        let h = crate::strutil::u64_to_hex(v);
        let line = line.concat(h.as_str());
        push_line_string(out, line);
        Ok(())
    } else if streq(&args[1], "knight") {
        let v = crate::piece::knight_attacks_from(sq);
        let line = String::from_str("0x");
        let h = crate::strutil::u64_to_hex(v);
        let line = line.concat(h.as_str());
        push_line_string(out, line);
        Ok(())
    } else {
        Ok(())
    }
}

} // verus!




