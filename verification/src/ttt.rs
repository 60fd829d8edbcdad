//! The tic-tac-toe game state machine: players, the 9-cell board, the
//! magic-square scoring rule, and the move transition.

use prettytable::format::FormatBuilder;
use prettytable::{Cell, Row, Table};
use vstd::prelude::*;

verus! {

/// The five states of a game: whose turn it is, who has won, or a draw.
#[derive(Debug, Clone, Copy, PartialEq, Eq, Structural)]
pub enum GameState {
    TurnPlayer1,
    TurnPlayer2,
    WinPlayer1,
    WinPlayer2,
    Draw,
}

/// Every way a command against the engine can be refused. All are returned
/// as values, never raised.
#[derive(Debug, Clone, PartialEq, Eq)]
pub enum GameError {
    InvalidPosition,
    CellOccupied,
    NotYourTurn,
    GameOver,
    AlreadyInGame(String),
    NotInGame,
}

/// A participant: a unique name, the marker drawn on the board, and the
/// running magic-square score.
#[derive(Debug)]
pub struct Player {
    pub name: String,
    pub piece: String,
    pub points: u8,
}

/// Mathematical image of a `Player`.
#[verifier::ext_equal]
pub ghost struct PlayerV {
    pub name: Seq<char>,
    pub piece: Seq<char>,
    pub points: int,
}

impl View for Player {
    type V = PlayerV;

    open spec fn view(&self) -> PlayerV {
        PlayerV { name: self.name@, piece: self.piece@, points: self.points as int }
    }
}

impl Player {
    pub fn new(name: String, piece: String) -> (p: Player)
        ensures
            p@.name == name@,
            p@.piece == piece@,
            p@.points == 0,
    {
        Player { name, piece, points: 0 }
    }
}

/// Two players are the same participant exactly when their names match.
impl PartialEq for Player {
    fn eq(&self, other: &Player) -> (r: bool) {
        self.name == other.name
    }
}

impl vstd::std_specs::cmp::PartialEqSpecImpl for Player {
    open spec fn obeys_eq_spec() -> bool {
        true
    }

    open spec fn eq_spec(&self, other: &Player) -> bool {
        self@.name == other@.name
    }
}

/// The magic-square weight of a board position: the 3x3 square
/// 8 1 6 / 3 5 7 / 4 9 2, in which every row, column and diagonal
/// sums to 15.
pub open spec fn weight(pos: int) -> int {
    if pos == 0 {
        8
    } else if pos == 1 {
        1
    } else if pos == 2 {
        6
    } else if pos == 3 {
        3
    } else if pos == 4 {
        5
    } else if pos == 5 {
        7
    } else if pos == 6 {
        4
    } else if pos == 7 {
        9
    } else {
        2
    }
}

/// The 8 winning lines of the 3x3 grid, as ordered triples of positions:
/// three rows, three columns and the two diagonals.
pub open spec fn winning_line(a: int, b: int, c: int) -> bool {
    ||| (a == 0 && b == 1 && c == 2)
    ||| (a == 3 && b == 4 && c == 5)
    ||| (a == 6 && b == 7 && c == 8)
    ||| (a == 0 && b == 3 && c == 6)
    ||| (a == 1 && b == 4 && c == 7)
    ||| (a == 2 && b == 5 && c == 8)
    ||| (a == 0 && b == 4 && c == 8)
    ||| (a == 2 && b == 4 && c == 6)
}

/// A game in progress: the two participants, the 9-cell board in row-major
/// order, the current state, and how many cells have been filled.
#[derive(Debug)]
pub struct TicTTGame {
    pub player1: Player,
    pub player2: Player,
    pub state: GameState,
    pub board: Vec<Option<String>>,
    pub total_moves: u8,
}

/// Mathematical image of a `TicTTGame`.
#[verifier::ext_equal]
pub ghost struct GameV {
    pub player1: PlayerV,
    pub player2: PlayerV,
    pub state: GameState,
    pub board: Seq<Option<Seq<char>>>,
    pub total_moves: int,
}

impl View for TicTTGame {
    type V = GameV;

    open spec fn view(&self) -> GameV {
        GameV {
            player1: self.player1@,
            player2: self.player2@,
            state: self.state,
            board: self.board.deep_view(),
            total_moves: self.total_moves as int,
        }
    }
}

impl DeepView for TicTTGame {
    type V = GameV;

    open spec fn deep_view(&self) -> GameV {
        self.view()
    }
}

/// How many cells of a board hold a mark.
pub open spec fn count_filled(b: Seq<Option<Seq<char>>>) -> int
    decreases b.len(),
{
    if b.len() == 0 {
        0
    } else {
        count_filled(b.drop_last()) + if b.last() is Some {
            1int
        } else {
            0int
        }
    }
}

/// The game accepts a move: it is somebody's turn.
pub open spec fn in_turn(g: GameV) -> bool {
    g.state == GameState::TurnPlayer1 || g.state == GameState::TurnPlayer2
}

/// The player whose turn it is. Meaningful only while `in_turn` holds.
pub open spec fn current(g: GameV) -> PlayerV {
    if g.state == GameState::TurnPlayer1 {
        g.player1
    } else {
        g.player2
    }
}

/// Well-formedness of a game: the board has 9 cells, the move counter
/// matches the number of marks, scores are bounded by what the filled cells
/// can have contributed, a win state holds exactly when the winner's score
/// is exactly 15, a draw only on a full board, and a playable game has an
/// empty cell left.
pub open spec fn game_wf(g: GameV) -> bool {
    &&& g.board.len() == 9
    &&& g.total_moves == count_filled(g.board)
    &&& 0 <= g.player1.points
    &&& 0 <= g.player2.points
    &&& g.player1.points + g.player2.points <= 9 * g.total_moves
    &&& (g.state == GameState::WinPlayer1 <==> g.player1.points == 15)
    &&& (g.state == GameState::WinPlayer2 <==> g.player2.points == 15)
    &&& (g.state == GameState::Draw ==> g.total_moves == 9)
    &&& (in_turn(g) ==> g.total_moves < 9)
}

proof fn lemma_count_filled_all_none(b: Seq<Option<Seq<char>>>)
    requires
        forall|i: int| 0 <= i < b.len() ==> b[i] is None,
    ensures
        count_filled(b) == 0,
    decreases b.len(),
{
    if b.len() > 0 {
        lemma_count_filled_all_none(b.drop_last());
    }
}

proof fn lemma_count_filled_update(b: Seq<Option<Seq<char>>>, i: int, v: Option<Seq<char>>)
    requires
        0 <= i < b.len(),
        b[i] is None,
        v is Some,
    ensures
        count_filled(b.update(i, v)) == count_filled(b) + 1,
    decreases b.len(),
{
    let b2 = b.update(i, v);
    if i == b.len() - 1 {
        assert(b2.drop_last() =~= b.drop_last());
    } else {
        assert(b2.drop_last() =~= b.drop_last().update(i, v));
        lemma_count_filled_update(b.drop_last(), i, v);
    }
}

/// The weighting is a magic square: an ordered triple of distinct positions
/// has weights summing to 15 exactly when it is one of the 8 winning lines.
/// Reaching a running score of exactly 15 therefore coincides with having
/// occupied a full row, column or diagonal.
pub proof fn lemma_magic_square()
    ensures
        forall|a: int, b: int, c: int|
            0 <= a < b && b < c && c <= 8 ==> (weight(a) + weight(b) + weight(c) == 15
                <==> winning_line(a, b, c)),
{
}

/// A decimal digit.
pub open spec fn is_digit(c: char) -> bool {
    48 <= c as u32 && c as u32 <= 57
}

/// Every character of the text is a decimal digit.
pub open spec fn all_digits(s: Seq<char>) -> bool {
    forall|i: int| 0 <= i < s.len() ==> is_digit(#[trigger] s[i])
}

/// The value of a text read as a decimal numeral.
pub open spec fn dec_val(s: Seq<char>) -> int
    decreases s.len(),
{
    if s.len() == 0 {
        0
    } else {
        dec_val(s.drop_last()) * 10 + (s.last() as u32 - 48)
    }
}

/// What a position text denotes: a board position 0 to 8, or nothing.
/// The text must be non-empty, all digits, and denote at most 8.
pub open spec fn pos_of(s: Seq<char>) -> Option<int> {
    if s.len() > 0 && all_digits(s) && dec_val(s) <= 8 {
        Some(dec_val(s))
    } else {
        None
    }
}

proof fn lemma_dec_val_nonneg(s: Seq<char>)
    requires
        all_digits(s),
    ensures
        dec_val(s) >= 0,
    decreases s.len(),
{
    if s.len() > 0 {
        assert(all_digits(s.drop_last())) by {
            assert(forall|i: int|
                0 <= i < s.len() - 1 ==> s.drop_last()[i] == #[trigger] s[i]);
        }
        lemma_dec_val_nonneg(s.drop_last());
    }
}

/// Read a position text. Returns the denoted position exactly when the
/// text denotes one.
fn parse_position(pos: &str) -> (r: Option<u8>)
    ensures
        match r {
            Some(p) => pos_of(pos@) == Some(p as int) && p <= 8,
            None => pos_of(pos@) is None,
        },
{
    let n = pos.unicode_len();
    if n == 0 {
        return None;
    }
    let mut i: usize = 0;
    let mut acc: u8 = 0;
    let mut too_big: bool = false;
    while i < n
        invariant
            i <= n,
            n == pos@.len(),
            all_digits(pos@.subrange(0, i as int)),
            !too_big ==> acc as int == dec_val(pos@.subrange(0, i as int)) && acc <= 8,
            too_big ==> dec_val(pos@.subrange(0, i as int)) > 8,
        decreases n - i,
    {
        let c = pos.get_char(i);
        let cv = c as u32;
        if cv < 48 || cv > 57 {
            proof {
                assert(!is_digit(pos@[i as int]));
            }
            return None;
        }
        let d = (cv - 48) as u8;
        proof {
            let pre = pos@.subrange(0, i as int);
            let pre2 = pos@.subrange(0, i as int + 1);
            assert(pre2.drop_last() =~= pre);
            assert(pre2.last() == pos@[i as int]);
            lemma_dec_val_nonneg(pre);
        }
        if too_big {
            // a longer numeral only grows: the value stays above 8
        } else {
            let v = acc * 10 + d;
            if v > 8 {
                too_big = true;
            } else {
                acc = v;
            }
        }
        i += 1;
    }
    proof {
        assert(pos@.subrange(0, n as int) =~= pos@);
    }
    if too_big {
        None
    } else {
        Some(acc)
    }
}

/// A board of 9 empty cells.
pub open spec fn empty_board() -> Seq<Option<Seq<char>>> {
    Seq::new(9, |i: int| None)
}

/// A game as `TicTTGame::new` builds it: the given participants with no
/// points yet, an empty board, no moves made, and one of the two players
/// to move. Which player starts is not pinned down: it is drawn at random.
pub open spec fn fresh_game(
    g: GameV,
    name1: Seq<char>,
    piece1: Seq<char>,
    name2: Seq<char>,
    piece2: Seq<char>,
) -> bool {
    &&& g.player1.name == name1
    &&& g.player1.piece == piece1
    &&& g.player1.points == 0
    &&& g.player2.name == name2
    &&& g.player2.piece == piece2
    &&& g.player2.points == 0
    &&& g.board =~= empty_board()
    &&& g.total_moves == 0
    &&& in_turn(g)
}

/// What a cell shows: the piece that marked it, or the placeholder glyph
/// on an empty cell.
pub open spec fn cell_token(c: Option<Seq<char>>) -> Seq<char> {
    match c {
        Some(p) => p,
        None => "\u{2B50}"@,
    }
}

/// The 9 display tokens of a board, row-major.
pub open spec fn tokens_of(b: Seq<Option<Seq<char>>>) -> Seq<Seq<char>> {
    Seq::new(b.len(), |i: int| cell_token(b[i]))
}

/// The text that the table renderer produces from 9 display tokens. It
/// depends on the tokens alone.
pub uninterp spec fn table_text(cells: Seq<Seq<char>>) -> Seq<char>;

/// Relies on prettytable (`Table`, `FormatBuilder`, `Row`, `Cell` and
/// `Table`'s `Display`): the added rows are rendered with the format that
/// was set, and the text depends on the cell strings alone.
#[verifier::external_body]
fn render_table(cells: &Vec<String>) -> (r: String)
    requires
        cells@.len() == 9,
    ensures
        r@ == table_text(cells.deep_view()),
{
    let mut table = Table::new();
    table.set_format(FormatBuilder::new().column_separator('|').padding(1, 1).build());
    table.add_row(Row::new(vec![Cell::new(&cells[0]), Cell::new(&cells[1]), Cell::new(&cells[2])]));
    table.add_row(Row::new(vec![Cell::new(&cells[3]), Cell::new(&cells[4]), Cell::new(&cells[5])]));
    table.add_row(Row::new(vec![Cell::new(&cells[6]), Cell::new(&cells[7]), Cell::new(&cells[8])]));
    format!("{}", table)
}

/// The first reason to refuse `PlaceMove`, checked in this order: the
/// position text must denote a cell, the cell must be empty, the mover must
/// be the player whose turn it is, and the game must not be over.
pub open spec fn move_err(g: GameV, mover: Seq<char>, pos_text: Seq<char>) -> Option<GameError> {
    match pos_of(pos_text) {
        None => Some(GameError::InvalidPosition),
        Some(p) => if g.board[p] is Some {
            Some(GameError::CellOccupied)
        } else if in_turn(g) && current(g).name != mover {
            Some(GameError::NotYourTurn)
        } else if !in_turn(g) {
            Some(GameError::GameOver)
        } else {
            None
        },
    }
}

/// A move on a game considered apart from its text form: it is somebody's
/// turn and the chosen cell is on the board and empty.
pub open spec fn move_ok(g: GameV, pos: int) -> bool {
    in_turn(g) && 0 <= pos < 9 && g.board[pos] is None
}

/// The state after the current player marks cell `pos`: the mover's score
/// grows by the weight of the cell, the cell takes the mover's piece, and
/// the state advances — a win exactly when the mover's score reaches
/// exactly 15, else a draw when the board is full, else the other player's
/// turn.
pub open spec fn after_move(g: GameV, pos: int) -> GameV {
    let w = weight(pos);
    if g.state == GameState::TurnPlayer1 {
        let np = g.player1.points + w;
        GameV {
            player1: PlayerV { name: g.player1.name, piece: g.player1.piece, points: np },
            player2: g.player2,
            state: if np == 15 {
                GameState::WinPlayer1
            } else if g.total_moves + 1 == 9 {
                GameState::Draw
            } else {
                GameState::TurnPlayer2
            },
            board: g.board.update(pos, Some(g.player1.piece)),
            total_moves: g.total_moves + 1,
        }
    } else {
        let np = g.player2.points + w;
        GameV {
            player1: g.player1,
            player2: PlayerV { name: g.player2.name, piece: g.player2.piece, points: np },
            state: if np == 15 {
                GameState::WinPlayer2
            } else if g.total_moves + 1 == 9 {
                GameState::Draw
            } else {
                GameState::TurnPlayer1
            },
            board: g.board.update(pos, Some(g.player2.piece)),
            total_moves: g.total_moves + 1,
        }
    }
}

/// A valid move preserves well-formedness, fills one more cell, keeps both
/// identities, and ends in a win state exactly when it completes a score of
/// exactly 15.
pub proof fn lemma_after_move_wf(g: GameV, pos: int)
    requires
        game_wf(g),
        move_ok(g, pos),
    ensures
        game_wf(after_move(g, pos)),
        after_move(g, pos).total_moves == g.total_moves + 1,
        after_move(g, pos).player1.name == g.player1.name,
        after_move(g, pos).player2.name == g.player2.name,
        after_move(g, pos).player1.piece == g.player1.piece,
        after_move(g, pos).player2.piece == g.player2.piece,
{
    let g2 = after_move(g, pos);
    lemma_count_filled_update(g.board, pos, Some(current(g).piece));
    assert(weight(pos) <= 9);
}

/// A win comes exactly on the move that completes a score of exactly 15,
/// never before and never for the player who did not move.
pub proof fn lemma_win_on_completing_move(g: GameV, pos: int)
    requires
        game_wf(g),
        move_ok(g, pos),
    ensures
        g.state == GameState::TurnPlayer1 ==> (after_move(g, pos).state == GameState::WinPlayer1
            <==> g.player1.points + weight(pos) == 15),
        g.state == GameState::TurnPlayer1 ==> after_move(g, pos).state != GameState::WinPlayer2,
        g.state == GameState::TurnPlayer2 ==> (after_move(g, pos).state == GameState::WinPlayer2
            <==> g.player2.points + weight(pos) == 15),
        g.state == GameState::TurnPlayer2 ==> after_move(g, pos).state != GameState::WinPlayer1,
{
}

/// An accepted `PlaceMove` is a valid move of the current player: the text
/// denotes an empty cell and the mover is the player to move.
pub proof fn lemma_move_accepted(g: GameV, mover: Seq<char>, pos_text: Seq<char>)
    requires
        game_wf(g),
        move_err(g, mover, pos_text) is None,
    ensures
        match pos_of(pos_text) {
            Some(p) => move_ok(g, p) && current(g).name == mover,
            None => false,
        },
{
    lemma_dec_val_nonneg(pos_text);
}

/// Two `PlaceMove` requests for the same cell never both succeed: once one
/// has gone through, the same request is refused, whoever repeats it — the
/// cell is taken now. The registry serialises requests that address the
/// same game, so the later of two racing requests runs against the
/// earlier's post-state and this lemma applies to it.
pub proof fn lemma_no_double_move(g: GameV, mover: Seq<char>, pos_text: Seq<char>)
    requires
        game_wf(g),
        move_err(g, mover, pos_text) is None,
    ensures
        forall|m2: Seq<char>, p: int|
            pos_of(pos_text) == Some(p) ==> move_err(after_move(g, p), m2, pos_text) is Some,
{
    assert forall|m2: Seq<char>, p: int|
        pos_of(pos_text) == Some(p) implies move_err(after_move(g, p), m2, pos_text) is Some by {
        lemma_dec_val_nonneg(pos_text);
        assert(after_move(g, p).board[p] is Some);
    }
}

/// A sequence of board positions played out from `g`: each position is a
/// valid move of the player whose turn it then is.
pub open spec fn valid_pos_seq(g: GameV, ps: Seq<int>) -> bool
    decreases ps.len(),
{
    ps.len() == 0 || (move_ok(g, ps[0]) && valid_pos_seq(after_move(g, ps[0]), ps.drop_first()))
}

/// The game after the positions in `ps` are played in order.
pub open spec fn apply_moves(g: GameV, ps: Seq<int>) -> GameV
    decreases ps.len(),
{
    if ps.len() == 0 {
        g
    } else {
        apply_moves(after_move(g, ps[0]), ps.drop_first())
    }
}

/// Valid play preserves well-formedness and fills one cell per move.
pub proof fn lemma_apply_moves_wf(g: GameV, ps: Seq<int>)
    requires
        game_wf(g),
        valid_pos_seq(g, ps),
    ensures
        game_wf(apply_moves(g, ps)),
        apply_moves(g, ps).total_moves == g.total_moves + ps.len(),
    decreases ps.len(),
{
    if ps.len() > 0 {
        lemma_after_move_wf(g, ps[0]);
        lemma_apply_moves_wf(after_move(g, ps[0]), ps.drop_first());
    }
}

/// Valid play restricts to every prefix: the first `k` positions are
/// themselves valid play.
pub proof fn lemma_valid_prefix(g: GameV, ps: Seq<int>, k: int)
    requires
        valid_pos_seq(g, ps),
        0 <= k <= ps.len(),
    ensures
        valid_pos_seq(g, ps.take(k)),
    decreases k,
{
    if k > 0 {
        let rest = ps.drop_first();
        lemma_valid_prefix(after_move(g, ps[0]), rest, k - 1);
        assert(ps.take(k).drop_first() =~= rest.take(k - 1));
    }
}

/// At every point of valid play, a player stands in their win state
/// exactly while their score is exactly 15: the win appears on the move
/// that completes a sum of 15 and not before.
pub proof fn lemma_win_exactly_when_fifteen(g: GameV, ps: Seq<int>, k: int)
    requires
        game_wf(g),
        valid_pos_seq(g, ps),
        0 <= k <= ps.len(),
    ensures
        apply_moves(g, ps.take(k)).state == GameState::WinPlayer1 <==> apply_moves(
            g,
            ps.take(k),
        ).player1.points == 15,
        apply_moves(g, ps.take(k)).state == GameState::WinPlayer2 <==> apply_moves(
            g,
            ps.take(k),
        ).player2.points == 15,
{
    lemma_valid_prefix(g, ps, k);
    lemma_apply_moves_wf(g, ps.take(k));
}

/// A full game of 9 valid moves in which neither score stands at exactly
/// 15 at the end yields a draw with all 9 cells filled. (A score of 15
/// earlier in the sequence is already impossible: a win is terminal, and
/// the moves after it could not have been valid.)
pub proof fn lemma_nine_moves_draw(g: GameV, ps: Seq<int>)
    requires
        game_wf(g),
        g.total_moves == 0,
        valid_pos_seq(g, ps),
        ps.len() == 9,
        apply_moves(g, ps).player1.points != 15,
        apply_moves(g, ps).player2.points != 15,
    ensures
        apply_moves(g, ps).state == GameState::Draw,
        apply_moves(g, ps).total_moves == 9,
{
    lemma_apply_moves_wf(g, ps);
}

/// Relies on `rand::random` to draw the starting mover. Nothing is assumed
/// of the outcome: every caller must be correct for both results.
pub assume_specification<T>[ rand::random::<T> ]() -> (r: T)
    where
        rand::distr::StandardUniform: rand::distr::Distribution<T>,
;

impl TicTTGame {
    /// Start a game between two fresh participants. The first mover is
    /// chosen at random.
    pub fn new(player1: Player, player2: Player) -> (g: TicTTGame)
        requires
            player1@.points == 0,
            player2@.points == 0,
        ensures
            game_wf(g@),
            fresh_game(g@, player1@.name, player1@.piece, player2@.name, player2@.piece),
    {
        let mut board: Vec<Option<String>> = Vec::new();
        let mut i: usize = 0;
        while i < 9
            invariant
                i <= 9,
                board.len() == i,
                forall|j: int| 0 <= j < i ==> board[j] is None,
            decreases 9 - i,
        {
            board.push(None);
            i += 1;
        }
        let g = TicTTGame {
            player1,
            player2,
            board,
            state: if rand::random::<bool>() {
                GameState::TurnPlayer1
            } else {
                GameState::TurnPlayer2
            },
            total_moves: 0,
        };
        proof {
            assert(g@.board =~= empty_board());
            lemma_count_filled_all_none(g@.board);
        }
        g
    }

    /// The magic-square weight of a board position, or `None` when the
    /// position is off the board.
    pub fn getms_value(location: u8) -> (r: Option<u8>)
        ensures
            location <= 8 ==> r == Some(weight(location as int) as u8),
            location > 8 ==> r is None,
    {
        match location {
            0 => Some(8),
            1 => Some(1),
            2 => Some(6),
            3 => Some(3),
            4 => Some(5),
            5 => Some(7),
            6 => Some(4),
            7 => Some(9),
            8 => Some(2),
            _ => None,
        }
    }

    /// Apply `PlaceMove` for `mover`. The checks run in order: the position
    /// text must denote a cell 0 to 8, the cell must be empty, the mover
    /// must be the player whose turn it is, the game must not be over. On
    /// success the cell takes the mover's piece, the mover's score grows by
    /// the cell's weight, and the resulting state is returned: a win
    /// exactly when that score is now exactly 15, else a draw on a full
    /// board, else the other player's turn. On error the game is left
    /// unchanged.
    pub fn update_board(&mut self, mover: &String, pos: &String) -> (r: Result<
        GameState,
        GameError,
    >)
        requires
            game_wf(old(self)@),
        ensures
            game_wf(final(self)@),
            match r {
                Ok(st) => {
                    &&& move_err(old(self)@, mover@, pos@) is None
                    &&& match pos_of(pos@) {
                        Some(p) => final(self)@ =~= after_move(old(self)@, p),
                        None => false,
                    }
                    &&& st == final(self)@.state
                },
                Err(e) => {
                    &&& move_err(old(self)@, mover@, pos@) == Some(e)
                    &&& final(self)@ =~= old(self)@
                },
            },
    {
        let position: usize = match parse_position(pos.as_str()) {
            Some(v) => v as usize,
            None => {
                return Err(GameError::InvalidPosition);
            },
        };
        if self.board[position].is_some() {
            return Err(GameError::CellOccupied);
        }
        let movable = match self.state {
            GameState::TurnPlayer1 | GameState::TurnPlayer2 => true,
            _ => false,
        };
        if movable {
            let cur_is_p1 = match self.state {
                GameState::TurnPlayer1 => true,
                _ => false,
            };
            let mover_is_current = if cur_is_p1 {
                self.player1.name == *mover
            } else {
                self.player2.name == *mover
            };
            if !mover_is_current {
                return Err(GameError::NotYourTurn);
            }
            let w = match Self::getms_value(position as u8) {
                Some(v) => v,
                None => 0,
            };
            self.total_moves = self.total_moves + 1;
            let piece: String;
            if cur_is_p1 {
                self.player1.points = self.player1.points + w;
                piece = self.player1.piece.clone();
            } else {
                self.player2.points = self.player2.points + w;
                piece = self.player2.piece.clone();
            }
            let next_state = if cur_is_p1 {
                if self.player1.points == 15 {
                    GameState::WinPlayer1
                } else if self.total_moves == 9 {
                    GameState::Draw
                } else {
                    GameState::TurnPlayer2
                }
            } else {
                if self.player2.points == 15 {
                    GameState::WinPlayer2
                } else if self.total_moves == 9 {
                    GameState::Draw
                } else {
                    GameState::TurnPlayer1
                }
            };
            self.state = next_state;
            let _vacated = self.board.remove(position);
            self.board.insert(position, Some(piece));
            proof {
                lemma_after_move_wf(old(self)@, position as int);
                assert(self.board@ =~= old(self).board@.update(
                    position as int,
                    Some(if cur_is_p1 {
                        old(self).player1.piece
                    } else {
                        old(self).player2.piece
                    }),
                ));
                assert(self@ =~= after_move(old(self)@, position as int));
            }
            Ok(next_state)
        } else {
            Err(GameError::GameOver)
        }
    }

    /// The board as 9 display tokens, row-major: the piece on a marked
    /// cell, the placeholder glyph on an empty one. A pure projection for
    /// display; no part of the state machine reads it.
    pub fn sanitized_board(&self) -> (r: Vec<String>)
        ensures
            r.deep_view() =~= tokens_of(self@.board),
    {
        let mut clean_board: Vec<String> = Vec::new();
        let mut i: usize = 0;
        let n = self.board.len();
        while i < n
            invariant
                i <= n,
                n == self.board.len(),
                clean_board.len() == i,
                forall|j: int| 0 <= j < i ==> (#[trigger] clean_board@[j])@ == cell_token(
                    self@.board[j],
                ),
            decreases n - i,
        {
            match &self.board[i] {
                Some(piece) => clean_board.push(piece.clone()),
                None => clean_board.push(String::from_str("\u{2B50}")),
            }
            i += 1;
        }
        proof {
            assert(clean_board.deep_view() =~= tokens_of(self@.board));
        }
        clean_board
    }

    /// The board laid out as a 3x3 text table, for the transport layer to
    /// show. Purely a function of the board's display tokens.
    pub fn as_table(&self) -> (r: String)
        requires
            self@.board.len() == 9,
        ensures
            r@ == table_text(tokens_of(self@.board)),
    {
        let clean_board = self.sanitized_board();
        proof {
            assert(clean_board@.len() == clean_board.deep_view().len());
        }
        render_table(&clean_board)
    }

    /// The player whose turn it is: player 1 exactly in `TurnPlayer1`,
    /// else player 2. Meaningful as "the mover" only while the game is
    /// movable.
    pub fn get_curr_player(&self) -> (p: &Player)
        ensures
            p@ == current(self@),
    {
        match &self.state {
            GameState::TurnPlayer1 => &self.player1,
            _ => &self.player2,
        }
    }

    /// Exclusive access to the player whose turn it is; everything else in
    /// the game stays as it was.
    pub fn get_curr_player_mut(&mut self) -> (p: &mut Player)
        ensures
            p@ == current(old(self)@),
            old(self)@.state == GameState::TurnPlayer1 ==> final(self)@ =~= (GameV {
                player1: final(p)@,
                ..old(self)@
            }),
            old(self)@.state != GameState::TurnPlayer1 ==> final(self)@ =~= (GameV {
                player2: final(p)@,
                ..old(self)@
            }),
    {
        match &self.state {
            GameState::TurnPlayer1 => &mut self.player1,
            _ => &mut self.player2,
        }
    }

    /// Whether the named player is one of this game's participants.
    pub fn player_is_in_game(player: &String, game: &TicTTGame) -> (r: bool)
        ensures
            r == has_player(game@, player@),
    {
        game.player1.name == *player || game.player2.name == *player
    }
}

/// The named player is a participant of the game.
pub open spec fn has_player(g: GameV, name: Seq<char>) -> bool {
    g.player1.name == name || g.player2.name == name
}

} // verus!
