use vstd::prelude::*;
use crate::base::{ChessError, Color, ErrorKind, Position};
use crate::base::a_move::{spec_parse_move, Move};
use crate::base::errors::chess_error;
use crate::base::position::spec_parse_position;
use crate::base::text::{decimal_digits, push_decimal, digit_char, digit_to_char, push_char, push_str, contains_char, push_chars, split_chars_on_space, split_on_space, trim, trim_chars, chars_of, lemma_split_nonempty};
use crate::figure::{spec_parse_figure_and_position, Figure, FigureAndPosition};
use crate::game::board::{board_text, count_where, of_color};
use crate::game::{initial_game, spec_play, stop_reason, verify_game_state, Game, GameModel, MoveResult, PlayOutcome};
use crate::game::game_state::{classic_model, config_ok, configured_model, GameState, GameStateModel};

verus! {

/// Plays the moves the tokens name one after the other: a token that names no move is a
/// format error, a move `do_move` cannot make an illegal move.
pub open spec fn play_move_tokens(g: GameStateModel, tokens: Seq<Seq<char>>) -> Result<GameStateModel, ErrorKind>
    decreases tokens.len(),
{
    if tokens.len() == 0 {
        Ok(g)
    } else {
        match spec_parse_move(tokens[0]) {
            None => Err(ErrorKind::IllegalFormat),
            Some(m) => if g.can_do_move(m) && !g.rook_on_king_target(m) {
                play_move_tokens(g.after(m), tokens.drop_first())
            } else {
                Err(ErrorKind::IllegalMove)
            },
        }
    }
}

/// Reads the tokens after the color: "E" and a position names the en-passant field (only one
/// may be given), every other token a figure and its field.
pub open spec fn read_figure_tokens(
    tokens: Seq<Seq<char>>,
    en_passant: Option<Position>,
    figs: Seq<FigureAndPosition>,
) -> Result<(Option<Position>, Seq<FigureAndPosition>), ErrorKind>
    decreases tokens.len(),
{
    if tokens.len() == 0 {
        Ok((en_passant, figs))
    } else {
        let token = tokens[0];
        if token.len() > 0 && token[0] == 'E' {
            match spec_parse_position(token.drop_first()) {
                None => Err(ErrorKind::IllegalFormat),
                Some(p) => if en_passant is Some {
                    Err(ErrorKind::IllegalConfig)
                } else {
                    read_figure_tokens(tokens.drop_first(), Some(p), figs)
                },
            }
        } else {
            match spec_parse_figure_and_position(token) {
                None => Err(ErrorKind::IllegalFormat),
                Some(fp) => read_figure_tokens(tokens.drop_first(), en_passant, figs.push(fp)),
            }
        }
    }
}

/// The color a first token names.
pub open spec fn spec_parse_color(token: Seq<char>) -> Option<Color> {
    if token == seq!['w', 'h', 'i', 't', 'e'] {
        Some(Color::White)
    } else if token == seq!['b', 'l', 'a', 'c', 'k'] {
        Some(Color::Black)
    } else {
        None
    }
}

/// The state a description names. Without white space around it, an empty description is the
/// classic start; one with a '-' lists moves played from the classic start, separated by single
/// spaces; any other description is "white" or "black", for the side to move, followed by the
/// figures with their fields and at most one en-passant field.
pub open spec fn spec_parse_game_state(desc: Seq<char>) -> Result<GameStateModel, ErrorKind> {
    let t = trim(desc);
    let tokens = split_on_space(t);
    if t.len() == 0 {
        Ok(classic_model())
    } else if t.contains('-') {
        play_move_tokens(classic_model(), tokens)
    } else {
        match spec_parse_color(tokens[0]) {
            None => Err(ErrorKind::IllegalConfig),
            Some(turn_by) => match read_figure_tokens(tokens.drop_first(), None, Seq::empty()) {
                Err(e) => Err(e),
                Ok((en_passant, figs)) => if config_ok(turn_by, en_passant, figs) {
                    Ok(configured_model(turn_by, en_passant, figs))
                } else {
                    Err(ErrorKind::IllegalConfig)
                },
            },
        }
    }
}

/// The characters as a `String`.
fn string_of(cs: &Vec<char>) -> (r: String)
    ensures
        r@ == cs@,
{
    let mut s = String::new();
    push_chars(&mut s, cs);
    s
}

fn game_by_moves_from_start(tokens: &Vec<Vec<char>>) -> (r: Result<GameState, ChessError>)
    ensures
        match r {
            Ok(gs) => gs.wf() && gs.kings_unique() && play_move_tokens(classic_model(), tokens@.map_values(
                |t: Vec<char>| t@,
            )) == Ok::<GameStateModel, ErrorKind>(gs.model()),
            Err(e) => play_move_tokens(classic_model(), tokens@.map_values(|t: Vec<char>| t@)) == Err::<GameStateModel, ErrorKind>(e.kind),
        },
{
    let ghost all = tokens@.map_values(|t: Vec<char>| t@);
    let mut game_state = GameState::classic();
    let mut i: usize = 0;
    assert(all.skip(0) =~= all);
    while i < tokens.len()
        invariant
            all == tokens@.map_values(|t: Vec<char>| t@),
            i <= tokens@.len(),
            game_state.wf(),
            game_state.kings_unique(),
            play_move_tokens(classic_model(), all) == play_move_tokens(game_state.model(), all.skip(i as int)),
        decreases tokens@.len() - i,
    {
        let ghost rest = all.skip(i as int);
        assert(rest[0] == tokens@[i as int]@);
        assert(rest.drop_first() =~= all.skip(i + 1));
        let a_move = match Move::parse_chars(&tokens[i]) {
            Some(m) => m,
            None => {
                let token = string_of(&tokens[i]);
                return Err(chess_error(ErrorKind::IllegalFormat, "illegal move code: ", token.as_str()));
            },
        };
        if !game_state.is_move_possible(a_move) || game_state.is_rook_on_king_target(a_move) {
            let token = string_of(&tokens[i]);
            return Err(chess_error(ErrorKind::IllegalMove, "the move can't be made: ", token.as_str()));
        }
        let (new_game_state, _) = game_state.do_move(a_move);
        game_state = new_game_state;
        i = i + 1;
    }
    assert(all.skip(i as int) =~= Seq::<Seq<char>>::empty());
    Ok(game_state)
}

fn game_by_figures_on_board(tokens: &Vec<Vec<char>>) -> (r: Result<GameState, ChessError>)
    requires
        tokens@.len() >= 1,
    ensures
        ({
            let all = tokens@.map_values(|t: Vec<char>| t@);
            let expected = match spec_parse_color(all[0]) {
                None => Err(ErrorKind::IllegalConfig),
                Some(turn_by) => match read_figure_tokens(all.drop_first(), None, Seq::empty()) {
                    Err(e) => Err(e),
                    Ok((en_passant, figs)) => if config_ok(turn_by, en_passant, figs) {
                        Ok(configured_model(turn_by, en_passant, figs))
                    } else {
                        Err(ErrorKind::IllegalConfig)
                    },
                },
            };
            match r {
                Ok(gs) => gs.wf() && gs.kings_unique() && expected == Ok::<GameStateModel, ErrorKind>(gs.model()),
                Err(e) => expected == Err::<GameStateModel, ErrorKind>(e.kind),
            }
        }),
{
    let ghost all = tokens@.map_values(|t: Vec<char>| t@);
    let first_token = &tokens[0];
    let turn_by = if first_token.len() == 5 && first_token[0] == 'w' && first_token[1] == 'h' && first_token[2] == 'i'
        && first_token[3] == 't' && first_token[4] == 'e' {
        assert(first_token@ =~= seq!['w', 'h', 'i', 't', 'e']);
        Color::White
    } else if first_token.len() == 5 && first_token[0] == 'b' && first_token[1] == 'l' && first_token[2] == 'a'
        && first_token[3] == 'c' && first_token[4] == 'k' {
        assert(first_token@ =~= seq!['b', 'l', 'a', 'c', 'k']);
        Color::Black
    } else {
        assert(spec_parse_color(all[0]) is None);
        let token = string_of(first_token);
        return Err(chess_error(
            ErrorKind::IllegalConfig,
            "the first token has to be either 'white' or 'black' but was ",
            token.as_str(),
        ));
    };
    let mut positioned_figures: Vec<FigureAndPosition> = Vec::new();
    let mut opt_en_passant_pos: Option<Position> = None;
    let mut i: usize = 1;
    assert(all.drop_first().skip(0) =~= all.drop_first());
    while i < tokens.len()
        invariant
            all == tokens@.map_values(|t: Vec<char>| t@),
            1 <= i <= tokens@.len(),
            spec_parse_color(all[0]) == Some(turn_by),
            forall|k: int| 0 <= k < positioned_figures@.len() ==> (#[trigger] positioned_figures@[k]).pos.wf(),
            opt_en_passant_pos matches Some(p) ==> p.wf(),
            read_figure_tokens(all.drop_first(), None, Seq::empty()) == read_figure_tokens(
                all.skip(i as int),
                opt_en_passant_pos,
                positioned_figures@,
            ),
        decreases tokens@.len() - i,
    {
        let ghost rest = all.skip(i as int);
        assert(rest[0] == tokens@[i as int]@);
        assert(rest.drop_first() =~= all.skip(i + 1));
        let token = &tokens[i];
        if token.len() > 0 && token[0] == 'E' {
            let mut pos_chars: Vec<char> = Vec::new();
            let mut k: usize = 1;
            while k < token.len()
                invariant
                    1 <= k <= token@.len(),
                    pos_chars@ == token@.subrange(1, k as int),
                decreases token@.len() - k,
            {
                pos_chars.push(token[k]);
                assert(pos_chars@ =~= token@.subrange(1, k + 1));
                k = k + 1;
            }
            assert(pos_chars@ =~= token@.drop_first());
            let en_passant_pos = match Position::parse_chars(&pos_chars) {
                Some(p) => p,
                None => {
                    let text = string_of(token);
                    return Err(chess_error(ErrorKind::IllegalFormat, "illegal en-passant token: ", text.as_str()));
                },
            };
            if opt_en_passant_pos.is_some() {
                let text = string_of(token);
                return Err(chess_error(
                    ErrorKind::IllegalConfig,
                    "there are two en-passant tokens present but only one is allowed: ",
                    text.as_str(),
                ));
            }
            opt_en_passant_pos = Some(en_passant_pos);
        } else {
            let figure_and_pos = match FigureAndPosition::parse_chars(token) {
                Some(fp) => fp,
                None => {
                    let text = string_of(token);
                    return Err(chess_error(
                        ErrorKind::IllegalFormat,
                        "expected a figure symbol followed by a position but found ",
                        text.as_str(),
                    ));
                },
            };
            positioned_figures.push(figure_and_pos);
        }
        i = i + 1;
    }
    assert(all.skip(i as int) =~= Seq::<Seq<char>>::empty());
    GameState::from_manual_config(turn_by, opt_en_passant_pos, positioned_figures)
}

impl GameState {
    /// Reads a game state from its description; see `spec_parse_game_state`.
    pub fn parse(desc: &str) -> (r: Result<GameState, ChessError>)
        ensures
            match r {
                Ok(gs) => gs.wf() && gs.kings_unique() && spec_parse_game_state(desc@) == Ok::<GameStateModel, ErrorKind>(gs.model()),
                Err(e) => spec_parse_game_state(desc@) == Err::<GameStateModel, ErrorKind>(e.kind),
            },
    {
        let cs = chars_of(desc);
        let trimmed_desc = trim_chars(&cs);
        if trimmed_desc.len() == 0 {
            return Ok(GameState::classic());
        }
        let tokens = split_chars_on_space(&trimmed_desc);
        proof {
            lemma_split_nonempty(trimmed_desc@);
        }
        assert(tokens@.map_values(|t: Vec<char>| t@) =~= split_on_space(trimmed_desc@));
        let desc_contains_moves = contains_char(&trimmed_desc, '-');
        if desc_contains_moves {
            game_by_moves_from_start(&tokens)
        } else {
            game_by_figures_on_board(&tokens)
        }
    }
}

impl std::str::FromStr for GameState {
    type Err = ChessError;

    fn from_str(desc: &str) -> (r: Result<GameState, ChessError>)
        ensures
            match r {
                Ok(gs) => gs.wf() && gs.kings_unique() && spec_parse_game_state(desc@) == Ok::<GameStateModel, ErrorKind>(gs.model()),
                Err(e) => spec_parse_game_state(desc@) == Err::<GameStateModel, ErrorKind>(e.kind),
            },
    {
        GameState::parse(desc)
    }
}


/// The digit for a run of empty fields, if the run is not empty.
pub open spec fn fen_run(run: nat) -> Seq<char> {
    if run > 0 {
        seq![digit_char(run)]
    } else {
        Seq::empty()
    }
}

/// A row in FEN from the given column on, after `run` empty fields: each figure by its letter,
/// each run of empty fields by its length.
pub open spec fn fen_row_from(cells: Seq<Option<Figure>>, row: int, column: int, run: nat) -> Seq<char>
    decreases 8 - column,
{
    if column >= 8 {
        fen_run(run)
    } else {
        match cells[row * 8 + column] {
            None => fen_row_from(cells, row, column + 1, run + 1),
            Some(f) => fen_run(run) + seq![f.spec_fen_char()] + fen_row_from(cells, row, column + 1, 0),
        }
    }
}

/// The rows from `row` down to the first, separated by '/'.
pub open spec fn fen_rows_from(cells: Seq<Option<Figure>>, row: int) -> Seq<char>
    decreases row,
{
    if row <= 0 {
        fen_row_from(cells, 0, 0, 0)
    } else {
        fen_row_from(cells, row, 0, 0) + seq!['/'] + fen_rows_from(cells, row - 1)
    }
}

/// The castling part of FEN: `K`, `Q`, `k`, `q` for the castlings still possible, or `-`.
pub open spec fn fen_castling(s: GameStateModel) -> Seq<char> {
    let c = (if s.white_king_side { seq!['K'] } else { Seq::empty() }) + (if s.white_queen_side {
        seq!['Q']
    } else {
        Seq::empty()
    }) + (if s.black_king_side { seq!['k'] } else { Seq::empty() }) + (if s.black_queen_side {
        seq!['q']
    } else {
        Seq::empty()
    });
    if c.len() == 0 {
        seq!['-']
    } else {
        c
    }
}

/// The first four parts of FEN: the board, the side to move, the castlings still possible and
/// the en-passant field.
pub open spec fn fen_part1to4(s: GameStateModel) -> Seq<char> {
    fen_rows_from(s.cells, 7) + seq![' ', s.turn_by.spec_fen_char(), ' '] + fen_castling(s) + seq![' '] + match s.en_passant {
        Some(p) => p.spec_code(),
        None => seq!['-'],
    }
}

fn push_fen_run(fen: &mut String, run: usize)
    requires
        run <= 8,
    ensures
        final(fen)@ == old(fen)@ + fen_run(run as nat),
{
    if run > 0 {
        push_char(fen, digit_to_char(run));
    }
    assert(final(fen)@ =~= old(fen)@ + fen_run(run as nat));
}

impl GameState {
    pub fn get_fen_part1to4(&self) -> (r: String)
        requires
            self.wf(),
        ensures
            r@ == fen_part1to4(self.model()),
    {
        let ghost cells = self.board@;
        proof {
            crate::game::board::lemma_board_len(self.board);
        }
        let mut fen = String::new();
        let mut row: i8 = 7;
        loop
            invariant_except_break
                fen@ + fen_rows_from(cells, row as int) == fen_rows_from(cells, 7),
            invariant
                0 <= row <= 7,
                cells == self.board@,
            ensures
                fen@ == fen_rows_from(cells, 7),
            decreases row,
        {
            let ghost before = fen@;
            let mut column: i8 = 0;
            let mut run: usize = 0;
            while column < 8
                invariant
                    0 <= row <= 7,
                    0 <= column <= 8,
                    run <= column,
                    cells == self.board@,
                    fen@ + fen_row_from(cells, row as int, column as int, run as nat) == before + fen_row_from(
                        cells,
                        row as int,
                        0,
                        0,
                    ),
                decreases 8 - column,
            {
                let ghost f0 = fen@;
                let ghost run0 = run;
                let pos = Position::new_unchecked(column, row);
                match self.board.get_figure(pos) {
                    None => {
                        run = run + 1;
                    },
                    Some(figure) => {
                        push_fen_run(&mut fen, run);
                        push_char(&mut fen, figure.get_fen_char());
                        run = 0;
                    },
                }
                assert(fen@ + fen_row_from(cells, row as int, column + 1, run as nat) =~= f0 + fen_row_from(
                    cells,
                    row as int,
                    column as int,
                    run0 as nat,
                ));
                column = column + 1;
            }
            push_fen_run(&mut fen, run);
            assert(fen@ =~= before + fen_row_from(cells, row as int, 0, 0));
            if row == 0 {
                break;
            }
            push_char(&mut fen, '/');
            assert(fen@ + fen_rows_from(cells, row - 1) =~= before + fen_rows_from(cells, row as int));
            row = row - 1;
        }
        push_char(&mut fen, ' ');
        push_char(&mut fen, self.turn_by.get_fen_char());
        push_char(&mut fen, ' ');
        let ghost before_castling = fen@;
        let mut has_castling = false;
        if self.is_white_king_side_castling_still_possible.get_value() {
            push_char(&mut fen, 'K');
            has_castling = true;
        }
        if self.is_white_queen_side_castling_still_possible.get_value() {
            push_char(&mut fen, 'Q');
            has_castling = true;
        }
        if self.is_black_king_side_castling_still_possible.get_value() {
            push_char(&mut fen, 'k');
            has_castling = true;
        }
        if self.is_black_queen_side_castling_still_possible.get_value() {
            push_char(&mut fen, 'q');
            has_castling = true;
        }
        if !has_castling {
            push_char(&mut fen, '-');
        }
        assert(fen@ =~= before_castling + fen_castling(self.model()));
        push_char(&mut fen, ' ');
        let ghost before_ep = fen@;
        match self.en_passant_intercept_pos {
            Some(pos) => {
                let code = pos.to_string();
                push_str(&mut fen, code.as_str());
            },
            None => push_char(&mut fen, '-'),
        }
        assert(fen@ =~= fen_part1to4(self.model()));
        fen
    }
}


/// Plays the moves the tokens name one after the other in the game: a token that names no move
/// is a format error, a move `do_move` cannot make an illegal move, and a move that stops the
/// game an error that names why.
pub open spec fn play_game_tokens(g: GameModel, tokens: Seq<Seq<char>>) -> Result<GameModel, ErrorKind>
    decreases tokens.len(),
{
    if tokens.len() == 0 {
        Ok(g)
    } else {
        match spec_parse_move(tokens[0]) {
            None => Err(ErrorKind::IllegalFormat),
            Some(m) => if !g.state.can_do_move(m) || g.state.rook_on_king_target(m) {
                Err(ErrorKind::IllegalMove)
            } else {
                match spec_play(g, m) {
                    PlayOutcome::Ongoing(next, _) => play_game_tokens(next, tokens.drop_first()),
                    PlayOutcome::Stopped(reason, _) => Err(ErrorKind::HighLevelErr(reason)),
                }
            },
        }
    }
}

/// The game a description names: like `spec_parse_game_state`, but moves are played as in a
/// game, and a state given by its figures must not give the side to move more than sixteen
/// figures and must not be over already.
pub open spec fn spec_parse_game(desc: Seq<char>) -> Result<GameModel, ErrorKind> {
    let t = trim(desc);
    if t.len() == 0 {
        Ok(initial_game(classic_model()))
    } else if t.contains('-') {
        play_game_tokens(initial_game(classic_model()), split_on_space(t))
    } else {
        match spec_parse_game_state(desc) {
            Err(e) => Err(e),
            Ok(s) => if count_where(s.cells, of_color(s.turn_by)) > 16 {
                Err(ErrorKind::IllegalConfig)
            } else {
                match stop_reason(s) {
                    Some(reason) => Err(ErrorKind::HighLevelErr(reason)),
                    None => Ok(initial_game(s)),
                }
            },
        }
    }
}

fn game_by_moves_from_start_played(tokens: &Vec<Vec<char>>) -> (r: Result<Game, ChessError>)
    ensures
        match r {
            Ok(game) => play_game_tokens(initial_game(classic_model()), tokens@.map_values(|t: Vec<char>| t@))
                == Ok::<GameModel, ErrorKind>(game.model()),
            Err(e) => play_game_tokens(initial_game(classic_model()), tokens@.map_values(|t: Vec<char>| t@))
                == Err::<GameModel, ErrorKind>(e.kind),
        },
{
    let ghost all = tokens@.map_values(|t: Vec<char>| t@);
    let mut game = Game::classic();
    let mut i: usize = 0;
    assert(all.skip(0) =~= all);
    proof {
        crate::game::board::lemma_classic_color_counts();
    }
    while i < tokens.len()
        invariant
            all == tokens@.map_values(|t: Vec<char>| t@),
            count_where(game.model().state.cells, of_color(Color::White)) <= 16,
            count_where(game.model().state.cells, of_color(Color::Black)) <= 16,
            i <= tokens@.len(),
            game.model().half_moves_played == i,
            play_game_tokens(initial_game(classic_model()), all) == play_game_tokens(game.model(), all.skip(i as int)),
        decreases tokens@.len() - i,
    {
        let ghost rest = all.skip(i as int);
        assert(rest[0] == tokens@[i as int]@);
        assert(rest.drop_first() =~= all.skip(i + 1));
        let a_move = match Move::parse_chars(&tokens[i]) {
            Some(m) => m,
            None => {
                let token = string_of(&tokens[i]);
                return Err(chess_error(ErrorKind::IllegalFormat, "illegal move code: ", token.as_str()));
            },
        };
        let state = game.get_game_state();
        if !state.is_move_possible(a_move) || state.is_rook_on_king_target(a_move) {
            let token = string_of(&tokens[i]);
            return Err(chess_error(ErrorKind::IllegalMove, "the move can't be made: ", token.as_str()));
        }
        proof {
            crate::game::game_state::lemma_color_count_after(*state, a_move, Color::White);
            crate::game::game_state::lemma_color_count_after(*state, a_move, Color::Black);
        }
        match game.play(a_move) {
            MoveResult::Ongoing(new_game, _) => {
                game = *new_game;
            },
            MoveResult::Stopped(reason, _) => {
                let token = string_of(&tokens[i]);
                return Err(chess_error(
                    ErrorKind::HighLevelErr(reason),
                    "the game has already ended after the move ",
                    token.as_str(),
                ));
            },
        }
        i = i + 1;
    }
    assert(all.skip(i as int) =~= Seq::<Seq<char>>::empty());
    Ok(game)
}

impl Game {
    /// Reads a game from its description; see `spec_parse_game`.
    pub fn parse(desc: &str) -> (r: Result<Game, ChessError>)
        ensures
            match r {
                Ok(game) => spec_parse_game(desc@) == Ok::<GameModel, ErrorKind>(game.model()),
                Err(e) => spec_parse_game(desc@) == Err::<GameModel, ErrorKind>(e.kind),
            },
    {
        let cs = chars_of(desc);
        let trimmed_desc = trim_chars(&cs);
        if trimmed_desc.len() == 0 {
            return Ok(Game::classic());
        }
        let desc_contains_moves = contains_char(&trimmed_desc, '-');
        if desc_contains_moves {
            let tokens = split_chars_on_space(&trimmed_desc);
            assert(tokens@.map_values(|t: Vec<char>| t@) =~= split_on_space(trimmed_desc@));
            game_by_moves_from_start_played(&tokens)
        } else {
            let game_state = GameState::parse(desc)?;
            if game_state.board.count_figures_of_color(game_state.turn_by) > 16 {
                return Err(chess_error(ErrorKind::IllegalConfig, "the side to move has more than sixteen figures: ", desc));
            }
            if let Err(stopped_reason) = verify_game_state(&game_state) {
                return Err(chess_error(
                    ErrorKind::HighLevelErr(stopped_reason),
                    "the game state failed to pass verification: ",
                    desc,
                ));
            }
            Ok(Game::from_state(game_state))
        }
    }

    /// The game in Forsyth-Edwards notation: the first four parts of the latest state, the half
    /// moves since the last capture or pawn move, and the number of the full move.
    pub fn get_fen(&self) -> (r: String)
        ensures
            r@ == fen_part1to4(self.model().state) + seq![' '] + decimal_digits(
                (self.model().histories.0.len() + self.model().histories.1.len() - 1) as nat,
            ) + seq![' '] + decimal_digits(self.model().half_moves_played / 2 + 1),
    {
        let state = self.get_game_state();
        let mut fen = state.get_fen_part1to4();
        push_char(&mut fen, ' ');
        let half_moves_without_progress = self.count_half_moves_without_progress();
        push_decimal(&mut fen, half_moves_without_progress);
        push_char(&mut fen, ' ');
        push_decimal(&mut fen, (self.half_moves_played / 2) + 1);
        fen
    }
}

impl std::str::FromStr for Game {
    type Err = ChessError;

    fn from_str(desc: &str) -> (r: Result<Game, ChessError>)
        ensures
            match r {
                Ok(game) => spec_parse_game(desc@) == Ok::<GameModel, ErrorKind>(game.model()),
                Err(e) => spec_parse_game(desc@) == Err::<GameModel, ErrorKind>(e.kind),
            },
    {
        Game::parse(desc)
    }
}


/// A game state as text: whose turn it is, then the board.
pub open spec fn game_state_text(s: GameStateModel) -> Seq<char> {
    s.turn_by.spec_name() + seq!['\'', 's', ' ', 't', 'u', 'r', 'n'] + board_text(s.cells) + seq!['\n']
}

impl GameState {
    pub fn to_string(&self) -> (r: String)
        ensures
            r@ == game_state_text(self.model()),
    {
        let mut text = self.turn_by.to_string();
        push_str(&mut text, "'s turn");
        let board_text = self.board.to_string();
        push_str(&mut text, board_text.as_str());
        push_char(&mut text, '\n');
        proof {
            reveal_strlit("'s turn");
        }
        assert(text@ =~= game_state_text(self.model()));
        text
    }
}

impl Game {
    /// The game as text: its latest state and a line break.
    pub fn to_string(&self) -> (r: String)
        ensures
            r@ == game_state_text(self.model().state) + seq!['\n'],
    {
        let mut text = self.get_game_state().to_string();
        push_char(&mut text, '\n');
        text
    }
}

} // verus!
