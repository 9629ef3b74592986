use vstd::prelude::*;
use crate::base::{ChessError, ErrorKind, Position};
use crate::base::a_move::{spec_parse_move, Move, Moves};
use crate::base::errors::chess_error;
use crate::base::text::{chars_of, contains_char, lemma_split_nonempty, push_chars, split_chars_on_space, split_on_space, trim, trim_chars};
use crate::figure::functions::check_search::spec_is_king_in_check;
use crate::figure::functions::checkmate::{attack_situation_ready, is_active_king_checkmate, spec_is_active_king_checkmate};
use crate::game::board::{count_where, of_color, spec_encode, spec_sufficient_material};
use crate::game::board_state::{history_of, histories_with, spec_add_board_state, BoardStates};
use crate::game::game_state::{classic_model, GameStateModel};
use crate::game::notation::spec_parse_game_state;

pub mod board;
pub mod board_state;
pub mod game_state;
pub mod match_state;
pub mod notation;
pub mod side_symmetry;
pub mod playable;

pub use board::{Board, FieldContent};
pub use board_state::BoardState;
pub use game_state::{GameState, MoveStats};

verus! {

/// Why a game came to an end.
#[derive(Debug, Copy, Clone, PartialEq, Eq, Structural, Hash)]
pub enum StoppedReason {
    KingInCheckAfterMove,
    InsufficientMaterial,
    ThreeTimesRepetition,
    NoChangeIn50Moves,
}

/// The board state a board is stored as in the histories.
pub open spec fn board_state_of(cells: Seq<Option<crate::figure::Figure>>) -> BoardState {
    BoardState::spec_from_numbers(spec_encode(cells))
}

/// Why a game that reached the state is over, if it is: the side to move could take the other
/// king, or neither side has the material left to give mate.
pub open spec fn stop_reason(s: GameStateModel) -> Option<StoppedReason> {
    if exists|k: int| 0 <= k < s.reachable_moves().len() && (#[trigger] s.reachable_moves()[k]).spec_to() == s.passive_king() {
        Some(StoppedReason::KingInCheckAfterMove)
    } else if !spec_sufficient_material(s.cells) {
        Some(StoppedReason::InsufficientMaterial)
    } else {
        None
    }
}

/// Whether the histories fit the side to move: its history is as long as the other's or one
/// longer, neither holds more than fifty states, not both hold fifty, and one is not empty.
pub open spec fn histories_fit(h: (Seq<BoardState>, Seq<BoardState>), turn_by: crate::base::Color) -> bool {
    let own = history_of(h, turn_by).len();
    let other = history_of(h, turn_by.spec_toggle()).len();
    &&& (own == other || own == other + 1)
    &&& h.0.len() <= 50
    &&& h.1.len() <= 50
    &&& !(h.0.len() == 50 && h.1.len() == 50)
    &&& h.0.len() + h.1.len() >= 1
}

/// What a game is: its latest state, the move that led there, the board states of each side
/// since the last capture or pawn move, and the number of half moves played.
pub struct GameModel {
    pub state: GameStateModel,
    pub latest_move: Option<Move>,
    pub histories: (Seq<BoardState>, Seq<BoardState>),
    pub half_moves_played: nat,
}

/// A game starting in the state.
pub open spec fn initial_game(s: GameStateModel) -> GameModel {
    GameModel {
        state: s,
        latest_move: None,
        histories: histories_with((Seq::empty(), Seq::empty()), board_state_of(s.cells), s.turn_by),
        half_moves_played: 0,
    }
}

/// What playing a move gives.
pub enum PlayOutcome {
    Ongoing(GameModel, MoveStats),
    Stopped(StoppedReason, GameStateModel),
}

/// Playing a move: the game stops when the new state is over (see `stop_reason`) or drawn by
/// its history (see `spec_add_board_state`); otherwise it goes on in the new state.
pub open spec fn spec_play(g: GameModel, m: Move) -> PlayOutcome {
    let s = g.state.after(m);
    let stats = g.state.move_stats(m);
    match stop_reason(s) {
        Some(reason) => PlayOutcome::Stopped(reason, s),
        None => match spec_add_board_state(g.histories, board_state_of(s.cells), s.turn_by, stats) {
            Err(reason) => PlayOutcome::Stopped(reason, s),
            Ok(h) => PlayOutcome::Ongoing(
                GameModel { state: s, latest_move: Some(m), histories: h, half_moves_played: g.half_moves_played + 1 },
                stats,
            ),
        },
    }
}

/// Every reachable move that can be made leaves the side then to move with at most sixteen
/// figures, so that its moves can be listed.
pub open spec fn moves_keep_sides_fitting(s: GameStateModel) -> bool {
    forall|k: int|
        0 <= k < s.reachable_moves().len() && s.can_do_move(#[trigger] s.reachable_moves()[k]) ==> count_where(
            s.cells_after(s.reachable_moves()[k]),
            of_color(s.turn_by.spec_toggle()),
        ) <= 16
}

/// A game: its latest state, the moves that can be reached there, and what a draw by
/// repetition or by the fifty move rule needs to know.
#[derive(Debug)]
pub struct Game {
    latest_state: GameState,
    latest_move: Option<Move>,
    reachable_moves: Moves,
    board_states: BoardStates,
    half_moves_played: usize,
}

/// What playing a move gave: the game goes on (with what the move did), or it stopped in the
/// given state.
#[derive(Debug)]
pub enum MoveResult {
    Ongoing(Box<Game>, MoveStats),
    Stopped(StoppedReason, Box<GameState>),
}

impl Game {
    #[verifier::type_invariant]
    closed spec fn inv(self) -> bool {
        &&& self.latest_state.wf()
        &&& self.latest_state.kings_unique()
        &&& self.latest_state.side_fits(self.latest_state.turn_by)
        &&& self.reachable_moves@ == self.latest_state.spec_reachable_moves()
        &&& histories_fit(self.board_states@, self.latest_state.turn_by)
    }

    pub closed spec fn model(self) -> GameModel {
        GameModel {
            state: self.latest_state.model(),
            latest_move: self.latest_move,
            histories: self.board_states@,
            half_moves_played: self.half_moves_played as nat,
        }
    }

    pub fn classic() -> (r: Game)
        ensures
            r.model() == initial_game(classic_model()),
    {
        let latest_state = GameState::classic();
        proof {
            crate::game::board::lemma_classic_color_counts();
        }
        Game::from_state(latest_state)
    }

    pub fn from_state(game_state: GameState) -> (r: Game)
        requires
            game_state.wf(),
            game_state.kings_unique(),
            game_state.side_fits(game_state.turn_by),
        ensures
            r.model() == initial_game(game_state.model()),
    {
        let reachable_moves = game_state.get_reachable_moves();
        Game::from_state_and_reachable_moves(game_state, reachable_moves)
    }

    fn from_state_and_reachable_moves(game_state: GameState, reachable_moves: Moves) -> (r: Game)
        requires
            game_state.wf(),
            game_state.kings_unique(),
            game_state.side_fits(game_state.turn_by),
            reachable_moves@ == game_state.spec_reachable_moves(),
        ensures
            r.model() == initial_game(game_state.model()),
    {
        let board_state = game_state.board.encode();
        let turn_by = game_state.turn_by;
        let board_states = BoardStates::new(board_state, turn_by);
        proof {
            crate::base::color::lemma_toggle_involution(turn_by);
        }
        Game { latest_state: game_state, latest_move: None, reachable_moves, board_states, half_moves_played: 0 }
    }

    /// Plays a move `do_move` can make (see `GameState::is_move_possible`), after which the side
    /// to move has at most sixteen figures.
    pub fn play(&self, a_move: Move) -> (r: MoveResult)
        requires
            self.model().state.can_do_move(a_move),
            !self.model().state.rook_on_king_target(a_move),
            count_where(self.model().state.cells_after(a_move), of_color(self.model().state.turn_by.spec_toggle())) <= 16,
            self.model().half_moves_played < usize::MAX,
        ensures
            match r {
                MoveResult::Ongoing(game, stats) => spec_play(self.model(), a_move) == PlayOutcome::Ongoing(game.model(), stats),
                MoveResult::Stopped(reason, state) => spec_play(self.model(), a_move) == PlayOutcome::Stopped(
                    reason,
                    state.model(),
                ) && state.wf() && state.kings_unique(),
            },
    {
        proof {
            use_type_invariant(self);
        }
        let (new_game_state, move_stats) = self.latest_state.do_move(a_move);
        let reachable_moves = match verify_game_state(&new_game_state) {
            Ok(moves) => moves,
            Err(stopped_reason) => {
                return MoveResult::Stopped(stopped_reason, Box::new(new_game_state));
            },
        };
        let new_board_state = new_game_state.board.encode();
        let new_turn_by = new_game_state.turn_by;
        let new_board_states = match self.board_states.add_board_state_and_check_for_draw(
            new_board_state,
            new_turn_by,
            move_stats,
        ) {
            Ok(board_states) => board_states,
            Err(stopped_reason) => {
                return MoveResult::Stopped(stopped_reason, Box::new(new_game_state));
            },
        };
        proof {
            crate::base::color::lemma_toggle_involution(self.latest_state.turn_by);
        }
        let new_game = Game {
            latest_state: new_game_state,
            latest_move: Some(a_move),
            reachable_moves,
            board_states: new_board_states,
            half_moves_played: self.half_moves_played + 1,
        };
        MoveResult::Ongoing(Box::new(new_game), move_stats)
    }

    /// Whether every reachable move that can be made leaves the side then to move with at most
    /// sixteen figures; see `moves_keep_sides_fitting`.
    pub fn moves_keep_sides_fitting(&self) -> (r: bool)
        ensures
            r == moves_keep_sides_fitting(self.model().state),
    {
        proof {
            use_type_invariant(self);
        }
        let state = &self.latest_state;
        let other = state.turn_by.toggle();
        let n = self.reachable_moves.len();
        let mut i: usize = 0;
        while i < n
            invariant
                n == self.reachable_moves@.len(),
                i <= n,
                state == &self.latest_state,
                state.wf(),
                other == state.turn_by.spec_toggle(),
                self.reachable_moves@ == state.model().reachable_moves(),
                forall|k: int|
                    0 <= k < i && state.model().can_do_move(#[trigger] state.model().reachable_moves()[k]) ==> count_where(
                        state.model().cells_after(state.model().reachable_moves()[k]),
                        of_color(other),
                    ) <= 16,
            decreases n - i,
        {
            let m = self.reachable_moves.get(i);
            if state.is_move_possible(m) {
                let (next, _) = state.do_move(m);
                if next.board.count_figures_of_color(other) > 16 {
                    return false;
                }
            }
            i = i + 1;
        }
        true
    }

    /// The move that led to the latest state, if any.
    pub fn get_latest_move(&self) -> (r: Option<Move>)
        ensures
            r == self.model().latest_move,
    {
        self.latest_move
    }

    /// The number of half moves played since the game started.
    pub fn get_half_moves_played(&self) -> (r: usize)
        ensures
            r == self.model().half_moves_played,
    {
        self.half_moves_played
    }

    pub fn get_reachable_moves(&self) -> (r: &Moves)
        ensures
            r@ == self.model().state.reachable_moves(),
    {
        proof {
            use_type_invariant(self);
        }
        &self.reachable_moves
    }

    pub fn get_game_state(&self) -> (r: &GameState)
        ensures
            r.model() == self.model().state,
            r.wf(),
            r.kings_unique(),
    {
        proof {
            use_type_invariant(self);
        }
        &self.latest_state
    }

    pub fn is_passive_king_pos(&self, reachable_field: Position) -> (r: bool)
        ensures
            r == (reachable_field == self.model().state.passive_king()),
    {
        reachable_field == self.latest_state.get_passive_king_pos()
    }

    /// The number of half moves since the last capture or pawn move.
    fn count_half_moves_without_progress(&self) -> (r: usize)
        ensures
            r == self.model().histories.0.len() + self.model().histories.1.len() - 1,
    {
        proof {
            use_type_invariant(self);
        }
        self.board_states.count_half_moves_without_progress()
    }

    /// Whether the king of the side to move is mate after the latest move; see
    /// `spec_is_active_king_checkmate`.
    pub fn is_active_king_checkmate(&self) -> (r: bool)
        requires
            self.model().latest_move is Some,
            attack_situation_ready(
                self.model().state.cells,
                self.model().state.turn_by,
                self.model().latest_move->0,
                self.model().state.turn_by,
            ),
        ensures
            r == spec_is_active_king_checkmate(
                self.model().state,
                self.model().state.active_king(),
                self.model().state.turn_by,
                self.model().latest_move->0,
            ),
    {
        proof {
            use_type_invariant(self);
        }
        let latest_move = match self.latest_move {
            Some(m) => m,
            None => Move::default(),
        };
        let king_pos = self.latest_state.get_active_king();
        is_active_king_checkmate(king_pos, self.latest_state.turn_by, &self.latest_state, latest_move)
    }

    pub fn is_active_king_in_check(&self) -> (r: bool)
        ensures
            r == spec_is_king_in_check(self.model().state.cells, self.model().state.active_king(), self.model().state.turn_by),
    {
        proof {
            use_type_invariant(self);
        }
        self.latest_state.is_active_king_in_check()
    }
}

impl Clone for Game {
    fn clone(&self) -> (r: Game)
        ensures
            r.model() == self.model(),
    {
        proof {
            use_type_invariant(self);
        }
        Game {
            latest_state: self.latest_state.clone(),
            latest_move: self.latest_move,
            reachable_moves: self.reachable_moves.clone(),
            board_states: self.board_states.clone(),
            half_moves_played: self.half_moves_played,
        }
    }
}

/// The moves the side to move can reach, unless the state is over (see `stop_reason`).
pub(crate) fn verify_game_state(game_state: &GameState) -> (r: Result<Moves, StoppedReason>)
    requires
        game_state.wf(),
        game_state.side_fits(game_state.turn_by),
    ensures
        match r {
            Ok(moves) => stop_reason(game_state.model()) is None && moves@ == game_state.spec_reachable_moves(),
            Err(reason) => stop_reason(game_state.model()) == Some(reason),
        },
{
    let passive_king_pos = game_state.get_passive_king_pos();
    let reachable_moves = game_state.get_reachable_moves();
    let n = reachable_moves.len();
    let mut i: usize = 0;
    while i < n
        invariant
            n == reachable_moves@.len(),
            i <= n,
            passive_king_pos == game_state.model().passive_king(),
            reachable_moves@ == game_state.model().reachable_moves(),
            forall|k: int| 0 <= k < i ==> (#[trigger] reachable_moves@[k]).spec_to() != passive_king_pos,
        decreases n - i,
    {
        if reachable_moves.get(i).to() == passive_king_pos {
            assert(reachable_moves@[i as int].spec_to() == passive_king_pos);
            return Err(StoppedReason::KingInCheckAfterMove);
        }
        i = i + 1;
    }
    if !game_state.board.contains_sufficient_material_to_continue() {
        return Err(StoppedReason::InsufficientMaterial);
    }
    Ok(reachable_moves)
}


/// A game goes on after a move only if the side that moved cannot lose its king on the next
/// move: no move the other side can reach ends on its king's field.
pub proof fn lemma_ongoing_game_king_safe(g: GameModel, m: Move)
    ensures
        spec_play(g, m) matches PlayOutcome::Ongoing(next, _) ==> forall|k: int|
            0 <= k < next.state.reachable_moves().len() ==> (#[trigger] next.state.reachable_moves()[k]).spec_to()
                != next.state.passive_king(),
{
}

} // verus!
