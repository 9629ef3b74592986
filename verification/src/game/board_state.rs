use vstd::prelude::*;
use crate::base::Color;
use crate::game::StoppedReason;
use crate::game::game_state::MoveStats;

verus! {

/// A board packed into four numbers: four bits per field, sixteen fields per number.
#[derive(Debug, Copy, Clone, PartialEq, Eq, Structural, Hash)]
pub struct BoardState {
    s0: u64,
    s1: u64,
    s2: u64,
    s3: u64,
}

impl BoardState {
    pub closed spec fn spec_state(self) -> Seq<u64> {
        seq![self.s0, self.s1, self.s2, self.s3]
    }

    /// The board state holding the four numbers.
    pub closed spec fn spec_from_numbers(state: Seq<u64>) -> BoardState {
        BoardState { s0: state[0], s1: state[1], s2: state[2], s3: state[3] }
    }

    pub fn new(state: [u64; 4]) -> (r: BoardState)
        ensures
            r.spec_state() == state@,
            r == BoardState::spec_from_numbers(state@),
    {
        let r = BoardState { s0: state[0], s1: state[1], s2: state[2], s3: state[3] };
        assert(r.spec_state() =~= state@);
        r
    }
}

impl Default for BoardState {
    fn default() -> (r: BoardState)
        ensures
            r.spec_state() == seq![0u64, 0u64, 0u64, 0u64],
    {
        BoardState { s0: 0, s1: 0, s2: 0, s3: 0 }
    }
}

/// Two board states are equal exactly when their numbers are.
pub proof fn lemma_board_state_eq(a: BoardState, b: BoardState)
    ensures
        (a.spec_state() == b.spec_state()) <==> (a == b),
{
    if a.spec_state() == b.spec_state() {
        assert(a.spec_state()[0] == b.spec_state()[0]);
        assert(a.spec_state()[1] == b.spec_state()[1]);
        assert(a.spec_state()[2] == b.spec_state()[2]);
        assert(a.spec_state()[3] == b.spec_state()[3]);
    }
}


/// The board states one side has seen since the last capture or pawn move, at most twenty kept
/// in place before they move to the heap.
#[verifier::external_body]
#[derive(Debug)]
pub struct OneSidedBoardStates {
    inner: tinyvec::TinyVec<[BoardState; 20]>,
}

/// The board states a `OneSidedBoardStates` holds, oldest first.
pub uninterp spec fn one_sided_content(states: OneSidedBoardStates) -> Seq<BoardState>;

impl View for OneSidedBoardStates {
    type V = Seq<BoardState>;

    open spec fn view(&self) -> Seq<BoardState> {
        one_sided_content(*self)
    }
}

/// `TinyVec::new`: a new, empty vec.
#[verifier::external_body]
fn states_new() -> (r: OneSidedBoardStates)
    ensures
        one_sided_content(r) == Seq::<BoardState>::empty(),
{
    OneSidedBoardStates { inner: tinyvec::TinyVec::new() }
}

/// `TinyVec::push`: places an element onto the end of the vec.
#[verifier::external_body]
fn states_push(states: &mut OneSidedBoardStates, s: BoardState)
    ensures
        one_sided_content(*final(states)) == one_sided_content(*old(states)).push(s),
{
    states.inner.push(s)
}

/// `TinyVec::len`: the number of elements.
#[verifier::external_body]
fn states_len(states: &OneSidedBoardStates) -> (r: usize)
    ensures
        r == one_sided_content(*states).len(),
{
    states.inner.len()
}

/// Indexing a `TinyVec` (through its slice): the element at `i`.
#[verifier::external_body]
fn states_index(states: &OneSidedBoardStates, i: usize) -> (r: BoardState)
    requires
        i < one_sided_content(*states).len(),
    ensures
        r == one_sided_content(*states)[i as int],
{
    states.inner[i]
}

/// `TinyVec::clone`: clones each element (a `BoardState` is copied as it is).
#[verifier::external_body]
fn states_clone(states: &OneSidedBoardStates) -> (r: OneSidedBoardStates)
    ensures
        one_sided_content(r) == one_sided_content(*states),
{
    OneSidedBoardStates { inner: states.inner.clone() }
}

impl Clone for OneSidedBoardStates {
    fn clone(&self) -> (r: OneSidedBoardStates)
        ensures
            r@ == self@,
    {
        states_clone(self)
    }
}

/// How often `s` occurs in `states`.
pub open spec fn occurrences(states: Seq<BoardState>, s: BoardState) -> nat
    decreases states.len(),
{
    if states.len() == 0 {
        0
    } else {
        occurrences(states.drop_last(), s) + if states.last() == s {
            1nat
        } else {
            0nat
        }
    }
}

/// Whether adding `s` to `states` repeats a board state for the third time: the list holds at
/// least four states and `s` twice already.
pub open spec fn is_third_repetition(states: Seq<BoardState>, s: BoardState) -> bool {
    states.len() >= 4 && occurrences(states, s) == 2
}

/// The board states seen by each side since the last capture or pawn move.
#[derive(Debug)]
pub struct BoardStates {
    white_board_states_history: OneSidedBoardStates,
    black_board_states_history: OneSidedBoardStates,
}

impl View for BoardStates {
    type V = (Seq<BoardState>, Seq<BoardState>);

    /// The white and the black history.
    closed spec fn view(&self) -> (Seq<BoardState>, Seq<BoardState>) {
        (self.white_board_states_history@, self.black_board_states_history@)
    }
}

/// The histories with `s` added to the one of `color`.
pub open spec fn histories_with(h: (Seq<BoardState>, Seq<BoardState>), s: BoardState, color: Color) -> (Seq<BoardState>, Seq<BoardState>) {
    match color {
        Color::White => (h.0.push(s), h.1),
        Color::Black => (h.0, h.1.push(s)),
    }
}

/// The history of one side.
pub open spec fn history_of(h: (Seq<BoardState>, Seq<BoardState>), color: Color) -> Seq<BoardState> {
    match color {
        Color::White => h.0,
        Color::Black => h.1,
    }
}

/// What adding a board state gives: a capture or a pawn move starts both histories anew with
/// just the new state; otherwise the state is added to the history of the side to move, and the
/// game is drawn when that repeats a state for the third time, or when both histories reach
/// fifty states.
pub open spec fn spec_add_board_state(
    h: (Seq<BoardState>, Seq<BoardState>),
    s: BoardState,
    turn_by: Color,
    move_stats: MoveStats,
) -> Result<(Seq<BoardState>, Seq<BoardState>), StoppedReason> {
    let reset = move_stats.did_move_pawn || move_stats.did_catch_figure;
    let next = if reset {
        histories_with((Seq::empty(), Seq::empty()), s, turn_by)
    } else {
        histories_with(h, s, turn_by)
    };
    if !reset && is_third_repetition(history_of(h, turn_by), s) {
        Err(StoppedReason::ThreeTimesRepetition)
    } else if next.0.len() == 50 && next.1.len() == 50 {
        Err(StoppedReason::NoChangeIn50Moves)
    } else {
        Ok(next)
    }
}

/// How often a board state occurs in a history is how often the history's multiset of states
/// holds it.
proof fn lemma_occurrences_count(states: Seq<BoardState>, s: BoardState)
    ensures
        occurrences(states, s) == states.to_multiset().count(s),
    decreases states.len(),
{
    broadcast use vstd::seq_lib::group_to_multiset_ensures;
    if states.len() == 0 {
        assert(states.to_multiset().len() == 0);
        assert(states.to_multiset() =~= vstd::multiset::Multiset::empty());
    } else {
        lemma_occurrences_count(states.drop_last(), s);
        assert(states =~= states.drop_last().push(states.last()));
    }
}

/// A game is drawn by repetition exactly when the move neither takes a figure nor moves a pawn,
/// the side to move has seen at least four board states since, and the new board state is one
/// it has already seen exactly twice: the new one is its third occurrence.
pub proof fn lemma_repetition_is_third_occurrence(
    h: (Seq<BoardState>, Seq<BoardState>),
    s: BoardState,
    turn_by: Color,
    move_stats: MoveStats,
)
    ensures
        spec_add_board_state(h, s, turn_by, move_stats) == Err::<(Seq<BoardState>, Seq<BoardState>), StoppedReason>(
            StoppedReason::ThreeTimesRepetition,
        ) <==> {
            &&& !move_stats.did_move_pawn
            &&& !move_stats.did_catch_figure
            &&& history_of(h, turn_by).len() >= 4
            &&& history_of(h, turn_by).to_multiset().count(s) == 2
        },
        spec_add_board_state(h, s, turn_by, move_stats) == Err::<(Seq<BoardState>, Seq<BoardState>), StoppedReason>(
            StoppedReason::ThreeTimesRepetition,
        ) ==> history_of(h, turn_by).push(s).to_multiset().count(s) == 3,
{
    broadcast use vstd::seq_lib::group_to_multiset_ensures;
    lemma_occurrences_count(history_of(h, turn_by), s);
}

/// A capture or a pawn move ends no game: it starts both histories anew, holding just the new
/// board state, in the history of the side to move.
pub proof fn lemma_progress_restarts_histories(
    h: (Seq<BoardState>, Seq<BoardState>),
    s: BoardState,
    turn_by: Color,
    move_stats: MoveStats,
)
    requires
        move_stats.did_move_pawn || move_stats.did_catch_figure,
    ensures
        spec_add_board_state(h, s, turn_by, move_stats) matches Ok(next) && history_of(next, turn_by) == seq![s]
            && history_of(next, turn_by.spec_toggle()).len() == 0,
{
    assert(Seq::<BoardState>::empty().push(s) =~= seq![s]);
}

/// Without a capture or pawn move the new board state goes to the end of the history of the
/// side to move, the other history stays as it was, and, unless the state repeats for the third
/// time, the game is drawn exactly when both histories then hold fifty states.
pub proof fn lemma_quiet_move_extends_history(
    h: (Seq<BoardState>, Seq<BoardState>),
    s: BoardState,
    turn_by: Color,
    move_stats: MoveStats,
)
    requires
        !move_stats.did_move_pawn,
        !move_stats.did_catch_figure,
        !is_third_repetition(history_of(h, turn_by), s),
    ensures
        ({
            let mine = history_of(h, turn_by).push(s);
            let theirs = history_of(h, turn_by.spec_toggle());
            &&& (spec_add_board_state(h, s, turn_by, move_stats) == Err::<(Seq<BoardState>, Seq<BoardState>), StoppedReason>(
                StoppedReason::NoChangeIn50Moves,
            )) == (mine.len() == 50 && theirs.len() == 50)
            &&& (spec_add_board_state(h, s, turn_by, move_stats) matches Ok(next) ==> history_of(next, turn_by) == mine
                && history_of(next, turn_by.spec_toggle()) == theirs)
        }),
{
}

impl Clone for BoardStates {
    fn clone(&self) -> (r: BoardStates)
        ensures
            r@ == self@,
    {
        BoardStates {
            white_board_states_history: self.white_board_states_history.clone(),
            black_board_states_history: self.black_board_states_history.clone(),
        }
    }
}

/// Adds `board_state` to `board_states`; tells whether that repeats a board state for the third
/// time.
fn push_onto_list_and_checks_if_three_fold_repetition(board_state: BoardState, board_states: &mut OneSidedBoardStates) -> (r: bool)
    ensures
        final(board_states)@ == old(board_states)@.push(board_state),
        r == is_third_repetition(old(board_states)@, board_state),
{
    let n = states_len(board_states);
    let is_three_fold_repetition: bool = if n < 4 {
        false
    } else {
        let mut occurrence_of_board_state: usize = 1;
        let mut i: usize = 0;
        while i < n
            invariant
                n == board_states@.len(),
                i <= n,
                occurrence_of_board_state == (if 1 + occurrences(board_states@.subrange(0, i as int), board_state)
                    < 4 {
                    1 + occurrences(board_states@.subrange(0, i as int), board_state)
                } else {
                    4
                }),
            decreases n - i,
        {
            assert(board_states@.subrange(0, i + 1).drop_last() =~= board_states@.subrange(0, i as int));
            // more than three occurrences count as four: only whether there are three matters
            if states_index(board_states, i) == board_state && occurrence_of_board_state < 4 {
                occurrence_of_board_state = occurrence_of_board_state + 1;
            }
            i = i + 1;
        }
        assert(board_states@.subrange(0, n as int) =~= board_states@);
        occurrence_of_board_state == 3
    };
    states_push(board_states, board_state);
    is_three_fold_repetition
}

impl BoardStates {
    /// The histories at the start of a game: the current state in the history of the side to move.
    pub fn new(current_board_state: BoardState, turn_by: Color) -> (r: BoardStates)
        ensures
            r@ == histories_with((Seq::empty(), Seq::empty()), current_board_state, turn_by),
    {
        let mut past_white_board_states = states_new();
        let mut past_black_board_states = states_new();
        match turn_by {
            Color::White => states_push(&mut past_white_board_states, current_board_state),
            Color::Black => states_push(&mut past_black_board_states, current_board_state),
        }
        BoardStates {
            white_board_states_history: past_white_board_states,
            black_board_states_history: past_black_board_states,
        }
    }

    pub fn add_board_state_and_check_for_draw(&self, new_board_state: BoardState, turn_by: Color, move_stats: MoveStats) -> (r: Result<BoardStates, StoppedReason>)
        ensures
            match r {
                Ok(bs) => spec_add_board_state(self@, new_board_state, turn_by, move_stats) == Ok::<
                    (Seq<BoardState>, Seq<BoardState>),
                    StoppedReason,
                >(bs@),
                Err(reason) => spec_add_board_state(self@, new_board_state, turn_by, move_stats) == Err::<
                    (Seq<BoardState>, Seq<BoardState>),
                    StoppedReason,
                >(reason),
            },
    {
        let mut new_white_board_states: OneSidedBoardStates;
        let mut new_black_board_states: OneSidedBoardStates;
        if move_stats.did_move_pawn || move_stats.did_catch_figure {
            new_white_board_states = states_new();
            new_black_board_states = states_new();
            match turn_by {
                Color::White => states_push(&mut new_white_board_states, new_board_state),
                Color::Black => states_push(&mut new_black_board_states, new_board_state),
            }
        } else {
            new_white_board_states = self.white_board_states_history.clone();
            new_black_board_states = self.black_board_states_history.clone();
            let is_three_fold_repetition = match turn_by {
                Color::White => push_onto_list_and_checks_if_three_fold_repetition(
                    new_board_state,
                    &mut new_white_board_states,
                ),
                Color::Black => push_onto_list_and_checks_if_three_fold_repetition(
                    new_board_state,
                    &mut new_black_board_states,
                ),
            };
            if is_three_fold_repetition {
                return Err(StoppedReason::ThreeTimesRepetition);
            }
        }
        if states_len(&new_white_board_states) == 50 && states_len(&new_black_board_states) == 50 {
            Err(StoppedReason::NoChangeIn50Moves)
        } else {
            Ok(
                BoardStates {
                    white_board_states_history: new_white_board_states,
                    black_board_states_history: new_black_board_states,
                },
            )
        }
    }

    /// The number of half moves since the last capture or pawn move.
    pub fn count_half_moves_without_progress(&self) -> (r: usize)
        requires
            1 <= self@.0.len() + self@.1.len() <= usize::MAX,
        ensures
            r == self@.0.len() + self@.1.len() - 1,
    {
        states_len(&self.white_board_states_history) + states_len(&self.black_board_states_history) - 1
    }
}

} // verus!
