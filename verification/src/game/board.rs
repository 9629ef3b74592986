use vstd::prelude::*;
use crate::base::{Color, Direction, Position};
use crate::figure::{Figure, FigureType};
use crate::game::board_state::BoardState;

verus! {

/// How many cells of `s` satisfy `f`.
pub open spec fn count_where(s: Seq<Option<Figure>>, f: spec_fn(Option<Figure>) -> bool) -> nat
    decreases s.len(),
{
    if s.len() == 0 {
        0
    } else {
        count_where(s.drop_last(), f) + (if f(s.last()) { 1nat } else { 0nat })
    }
}

pub open spec fn occupied() -> spec_fn(Option<Figure>) -> bool {
    |o: Option<Figure>| o is Some
}

pub open spec fn of_color(color: Color) -> spec_fn(Option<Figure>) -> bool {
    |o: Option<Figure>| o matches Some(f) && f.color == color
}

pub open spec fn of_kind(fig_type: FigureType, color: Color) -> spec_fn(Option<Figure>) -> bool {
    |o: Option<Figure>| o == Some(Figure { fig_type, color })
}

pub open spec fn of_type(fig_type: FigureType) -> spec_fn(Option<Figure>) -> bool {
    |o: Option<Figure>| o matches Some(f) && f.fig_type == fig_type
}

/// The number of figures standing on the cells.
pub open spec fn count_figures(s: Seq<Option<Figure>>) -> nat {
    count_where(s, occupied())
}

/// Replacing one cell changes a count by what the old and the new cell contribute.
pub proof fn lemma_count_update(s: Seq<Option<Figure>>, i: int, x: Option<Figure>, f: spec_fn(Option<Figure>) -> bool)
    requires
        0 <= i < s.len(),
    ensures
        count_where(s.update(i, x), f) + (if f(s[i]) { 1int } else { 0int }) == count_where(s, f) + (if f(x) { 1int } else { 0int }),
    decreases s.len(),
{
    if i == s.len() - 1 {
        assert(s.update(i, x).drop_last() =~= s.drop_last());
    } else {
        lemma_count_update(s.drop_last(), i, x, f);
        assert(s.update(i, x).drop_last() =~= s.drop_last().update(i, x));
    }
}

/// A count is at most the number of cells.
pub proof fn lemma_count_bound(s: Seq<Option<Figure>>, f: spec_fn(Option<Figure>) -> bool)
    ensures
        count_where(s, f) <= s.len(),
    decreases s.len(),
{
    if s.len() > 0 {
        lemma_count_bound(s.drop_last(), f);
    }
}

/// Counts add up over concatenation.
pub proof fn lemma_count_concat(a: Seq<Option<Figure>>, b: Seq<Option<Figure>>, f: spec_fn(Option<Figure>) -> bool)
    ensures
        count_where(a + b, f) == count_where(a, f) + count_where(b, f),
    decreases b.len(),
{
    if b.len() == 0 {
        assert(a + b =~= a);
    } else {
        lemma_count_concat(a, b.drop_last(), f);
        assert((a + b).drop_last() =~= a + b.drop_last());
    }
}

/// A positive count means some cell satisfies the predicate, and a zero count that none does.
pub proof fn lemma_count_positive(s: Seq<Option<Figure>>, f: spec_fn(Option<Figure>) -> bool)
    ensures
        count_where(s, f) > 0 <==> exists|i: int| 0 <= i < s.len() && f(#[trigger] s[i]),
    decreases s.len(),
{
    if s.len() > 0 {
        lemma_count_positive(s.drop_last(), f);
        if f(s.last()) {
            assert(f(s[s.len() - 1]));
        }
        if count_where(s.drop_last(), f) > 0 {
            let i = choose|i: int| 0 <= i < s.drop_last().len() && f(#[trigger] s.drop_last()[i]);
            assert(f(s[i]));
        }
        assert forall|i: int| 0 <= i < s.len() && f(#[trigger] s[i]) implies count_where(s, f) > 0 by {
            if i < s.len() - 1 {
                assert(s.drop_last()[i] == s[i]);
            }
        }
    }
}

/// The piece standing on each field at the start of a classic game.
pub open spec fn back_rank_type(column: int) -> FigureType {
    if column == 0 || column == 7 {
        FigureType::Rook
    } else if column == 1 || column == 6 {
        FigureType::Knight
    } else if column == 2 || column == 5 {
        FigureType::Bishop
    } else if column == 3 {
        FigureType::Queen
    } else {
        FigureType::King
    }
}

pub open spec fn classic_cell(i: int) -> Option<Figure> {
    let row = i / 8;
    let column = i % 8;
    if row == 0 {
        Some(Figure { fig_type: back_rank_type(column), color: Color::White })
    } else if row == 1 {
        Some(Figure { fig_type: FigureType::Pawn, color: Color::White })
    } else if row == 6 {
        Some(Figure { fig_type: FigureType::Pawn, color: Color::Black })
    } else if row == 7 {
        Some(Figure { fig_type: back_rank_type(column), color: Color::Black })
    } else {
        None
    }
}

pub open spec fn spec_classic_cells() -> Seq<Option<Figure>> {
    Seq::new(64, |i: int| classic_cell(i))
}

/// What stands on a field, seen from one side.
#[derive(Debug, Copy, Clone, PartialEq, Eq, Structural)]
pub enum FieldContent {
    Empty,
    OwnFigure,
    OpponentFigure,
}

pub open spec fn spec_content_type(cell: Option<Figure>, color: Color) -> FieldContent {
    match cell {
        Some(f) => if f.color == color {
            FieldContent::OwnFigure
        } else {
            FieldContent::OpponentFigure
        },
        None => FieldContent::Empty,
    }
}

/// The 64 fields of a chess board, indexed by `Position::index`.
#[derive(Debug)]
pub struct Board {
    state: [Option<Figure>; 64],
    number_of_figures: isize,
}

impl View for Board {
    type V = Seq<Option<Figure>>;

    closed spec fn view(&self) -> Seq<Option<Figure>> {
        self.state@
    }
}

/// A board has 64 fields.
pub proof fn lemma_board_len(b: Board)
    ensures
        b@.len() == 64,
{
}

impl Board {
    #[verifier::type_invariant]
    closed spec fn inv(self) -> bool {
        self.number_of_figures == count_figures(self.state@)
    }

    pub fn classic() -> (r: Board)
        ensures
            r@ == spec_classic_cells(),
    {
        let wr = Some(Figure { fig_type: FigureType::Rook, color: Color::White });
        let wn = Some(Figure { fig_type: FigureType::Knight, color: Color::White });
        let wb = Some(Figure { fig_type: FigureType::Bishop, color: Color::White });
        let wq = Some(Figure { fig_type: FigureType::Queen, color: Color::White });
        let wk = Some(Figure { fig_type: FigureType::King, color: Color::White });
        let wp = Some(Figure { fig_type: FigureType::Pawn, color: Color::White });
        let br = Some(Figure { fig_type: FigureType::Rook, color: Color::Black });
        let bn = Some(Figure { fig_type: FigureType::Knight, color: Color::Black });
        let bb = Some(Figure { fig_type: FigureType::Bishop, color: Color::Black });
        let bq = Some(Figure { fig_type: FigureType::Queen, color: Color::Black });
        let bk = Some(Figure { fig_type: FigureType::King, color: Color::Black });
        let bp = Some(Figure { fig_type: FigureType::Pawn, color: Color::Black });
        let state: [Option<Figure>; 64] = [
            wr, wn, wb, wq, wk, wb, wn, wr,
            wp, wp, wp, wp, wp, wp, wp, wp,
            None, None, None, None, None, None, None, None,
            None, None, None, None, None, None, None, None,
            None, None, None, None, None, None, None, None,
            None, None, None, None, None, None, None, None,
            bp, bp, bp, bp, bp, bp, bp, bp,
            br, bn, bb, bq, bk, bb, bn, br,
        ];
        assert(state@ =~= spec_classic_cells());
        proof {
            lemma_classic_count();
        }
        Board { state, number_of_figures: 32 }
    }

    pub fn empty() -> (r: Board)
        ensures
            r@ == Seq::new(64, |i: int| None::<Figure>),
    {
        let state: [Option<Figure>; 64] = [None; 64];
        proof {
            lemma_empty_count(state@);
        }
        Board { state, number_of_figures: 0 }
    }

    pub fn get_figure(&self, pos: Position) -> (r: Option<Figure>)
        requires
            pos.wf(),
        ensures
            r == self@[pos.index as int],
    {
        self.state[pos.index]
    }

    /**
    * returns if a figure was caught/replaced on that position
    */
    pub fn set_figure(&mut self, pos: Position, figure: Figure) -> (r: bool)
        requires
            pos.wf(),
        ensures
            final(self)@ == old(self)@.update(pos.index as int, Some(figure)),
            r == (old(self)@[pos.index as int] is Some),
    {
        proof {
            use_type_invariant(&*self);
            lemma_count_update(self.state@, pos.index as int, Some(figure), occupied());
            lemma_count_bound(self.state@, occupied());
        }
        let old_content = self.state[pos.index];
        let mut state = self.state;
        state[pos.index] = Some(figure);
        assert(state@ =~= old(self)@.update(pos.index as int, Some(figure)));
        if old_content.is_some() {
            *self = Board { state, number_of_figures: self.number_of_figures };
            true
        } else {
            *self = Board { state, number_of_figures: self.number_of_figures + 1 };
            false
        }
    }

    /// Removes the figure standing on `pos`, if there is one; an empty field stays empty. The
    /// number of figures kept with the board stays the number of figures on it.
    pub fn clear_field(&mut self, pos: Position)
        requires
            pos.wf(),
        ensures
            final(self)@ == old(self)@.update(pos.index as int, None),
    {
        proof {
            use_type_invariant(&*self);
            lemma_count_update(self.state@, pos.index as int, None, occupied());
        }
        let was_occupied = self.state[pos.index].is_some();
        let mut state = self.state;
        state[pos.index] = None;
        assert(state@ =~= old(self)@.update(pos.index as int, None));
        if was_occupied {
            *self = Board { state, number_of_figures: self.number_of_figures - 1 };
        } else {
            assert(state@ =~= old(self).state@);
            *self = Board { state, number_of_figures: self.number_of_figures };
        }
    }

    pub fn is_empty(&self, pos: Position) -> (r: bool)
        requires
            pos.wf(),
        ensures
            r == (self@[pos.index as int] is None),
    {
        self.get_figure(pos).is_none()
    }

    pub fn contains_figure(&self, pos: Position, fig_type: FigureType, color: Color) -> (r: bool)
        requires
            pos.wf(),
        ensures
            r == (self@[pos.index as int] == Some(Figure { fig_type, color })),
    {
        match self.state[pos.index] {
            None => false,
            Some(figure) => figure.fig_type == fig_type && figure.color == color,
        }
    }

    pub fn get_content_type(&self, pos: Position, color: Color) -> (r: FieldContent)
        requires
            pos.wf(),
        ensures
            r == spec_content_type(self@[pos.index as int], color),
    {
        match self.get_figure(pos) {
            Some(figure) => if figure.color == color {
                FieldContent::OwnFigure
            } else {
                FieldContent::OpponentFigure
            },
            None => FieldContent::Empty,
        }
    }
}

impl Clone for Board {
    fn clone(&self) -> (r: Board)
        ensures
            r@ == self@,
    {
        proof {
            use_type_invariant(self);
        }
        Board { state: self.state, number_of_figures: self.number_of_figures }
    }
}

proof fn lemma_empty_count(s: Seq<Option<Figure>>)
    requires
        forall|i: int| 0 <= i < s.len() ==> s[i] is None,
    ensures
        count_figures(s) == 0,
    decreases s.len(),
{
    if s.len() > 0 {
        lemma_empty_count(s.drop_last());
    }
}

proof fn lemma_all_count(s: Seq<Option<Figure>>)
    requires
        forall|i: int| 0 <= i < s.len() ==> s[i] is Some,
    ensures
        count_figures(s) == s.len(),
    decreases s.len(),
{
    if s.len() > 0 {
        lemma_all_count(s.drop_last());
    }
}

proof fn lemma_classic_count()
    ensures
        count_figures(spec_classic_cells()) == 32,
{
    let s = spec_classic_cells();
    let a = s.subrange(0, 16);
    let b = s.subrange(16, 48);
    let c = s.subrange(48, 64);
    assert(s =~= a + b + c);
    lemma_count_concat(a + b, c, occupied());
    lemma_count_concat(a, b, occupied());
    lemma_all_count(a);
    lemma_empty_count(b);
    lemma_all_count(c);
}


/// The figures of one color with their fields, in the order of the field indices.
pub open spec fn figures_of_color(s: Seq<Option<Figure>>, color: Color) -> Seq<(Figure, Position)>
    decreases s.len(),
{
    if s.len() == 0 {
        Seq::empty()
    } else {
        let rest = figures_of_color(s.drop_last(), color);
        match s.last() {
            Some(f) => if f.color == color {
                rest.push((f, Position::spec_from_index(s.len() - 1)))
            } else {
                rest
            },
            None => rest,
        }
    }
}

/// The list of figures of a color is as long as their count.
pub proof fn lemma_figures_of_color_len(s: Seq<Option<Figure>>, color: Color)
    ensures
        figures_of_color(s, color).len() == count_where(s, of_color(color)),
    decreases s.len(),
{
    if s.len() > 0 {
        lemma_figures_of_color_len(s.drop_last(), color);
    }
}

/// Every entry of the list of figures of a color names a field that holds that figure.
pub proof fn lemma_figures_of_color_entries(s: Seq<Option<Figure>>, color: Color)
    requires
        s.len() <= 64,
    ensures
        forall|k: int| 0 <= k < figures_of_color(s, color).len() ==> {
            let (f, p) = #[trigger] figures_of_color(s, color)[k];
            &&& p.wf()
            &&& p.index < s.len()
            &&& s[p.index as int] == Some(f)
            &&& f.color == color
        },
    decreases s.len(),
{
    if s.len() > 0 {
        lemma_figures_of_color_entries(s.drop_last(), color);
        crate::base::position::lemma_from_index_wf(s.len() - 1);
    }
}

/// A prefix never holds more of something than the whole.
pub proof fn lemma_count_prefix(s: Seq<Option<Figure>>, k: int, f: spec_fn(Option<Figure>) -> bool)
    requires
        0 <= k <= s.len(),
    ensures
        count_where(s.subrange(0, k), f) <= count_where(s, f),
{
    lemma_count_concat(s.subrange(0, k), s.subrange(k, s.len() as int), f);
    assert(s =~= s.subrange(0, k) + s.subrange(k, s.len() as int));
}

/// Whether the figures on the board still allow a checkmate: more than six figures, any pawn,
/// rook or queen, two bishops of one color, a bishop and a knight of one color, or more than
/// two knights of one color.
pub open spec fn spec_sufficient_material(s: Seq<Option<Figure>>) -> bool {
    let wb = count_where(s, of_kind(FigureType::Bishop, Color::White));
    let bb = count_where(s, of_kind(FigureType::Bishop, Color::Black));
    let wn = count_where(s, of_kind(FigureType::Knight, Color::White));
    let bn = count_where(s, of_kind(FigureType::Knight, Color::Black));
    ||| count_figures(s) > 6
    ||| count_where(s, of_type(FigureType::Pawn)) > 0
    ||| count_where(s, of_type(FigureType::Rook)) > 0
    ||| count_where(s, of_type(FigureType::Queen)) > 0
    ||| wb >= 2
    ||| bb >= 2
    ||| (wb >= 1 && wn >= 1)
    ||| (bb >= 1 && bn >= 1)
    ||| wn > 2
    ||| bn > 2
}

/// Whether there is enough material to go on does not depend on which side is which: the board
/// seen from the other side (rows mirrored, colors swapped) has enough exactly when the board
/// has.
pub proof fn lemma_sufficient_material_symmetric(cells: Seq<Option<Figure>>)
    requires
        cells.len() == 64,
    ensures
        spec_sufficient_material(toggled_cells(cells)) == spec_sufficient_material(cells),
{
    assert forall|c: Color, t: FigureType| #![trigger of_kind(t, c)]
        forall|x: Option<Figure>| #[trigger] of_kind(t, c.spec_toggle())(toggled_cell(x)) == of_kind(t, c)(x) by {
        assert forall|x: Option<Figure>| #[trigger] of_kind(t, c.spec_toggle())(toggled_cell(x)) == of_kind(t, c)(x) by {
            if let Some(f) = x {
                crate::base::color::lemma_toggle_involution(f.color);
                crate::base::color::lemma_toggle_involution(c);
            }
        }
    }
    assert forall|t: FigureType| #![trigger of_type(t)]
        forall|x: Option<Figure>| #[trigger] of_type(t)(toggled_cell(x)) == of_type(t)(x) by {}
    assert forall|x: Option<Figure>| #[trigger] occupied()(toggled_cell(x)) == occupied()(x) by {}
    assert(Color::White.spec_toggle() == Color::Black);
    assert(Color::Black.spec_toggle() == Color::White);
    lemma_count_toggled(cells, of_kind(FigureType::Bishop, Color::White), of_kind(FigureType::Bishop, Color::Black));
    lemma_count_toggled(cells, of_kind(FigureType::Bishop, Color::Black), of_kind(FigureType::Bishop, Color::White));
    lemma_count_toggled(cells, of_kind(FigureType::Knight, Color::White), of_kind(FigureType::Knight, Color::Black));
    lemma_count_toggled(cells, of_kind(FigureType::Knight, Color::Black), of_kind(FigureType::Knight, Color::White));
    lemma_count_toggled(cells, of_type(FigureType::Pawn), of_type(FigureType::Pawn));
    lemma_count_toggled(cells, of_type(FigureType::Rook), of_type(FigureType::Rook));
    lemma_count_toggled(cells, of_type(FigureType::Queen), of_type(FigureType::Queen));
    lemma_count_toggled(cells, occupied(), occupied());
}

/// A side that still has a bishop and a knight can mate: the material is sufficient, whatever
/// else stands on the board and whichever side it is.
pub proof fn lemma_bishop_and_knight_suffice(cells: Seq<Option<Figure>>, color: Color)
    requires
        count_where(cells, of_kind(FigureType::Bishop, color)) >= 1,
        count_where(cells, of_kind(FigureType::Knight, color)) >= 1,
    ensures
        spec_sufficient_material(cells),
{
}

/// Any pawn, rook or queen on the board, of either side, is enough material to go on.
pub proof fn lemma_pawn_rook_or_queen_suffices(cells: Seq<Option<Figure>>, t: FigureType)
    requires
        t == FigureType::Pawn || t == FigureType::Rook || t == FigureType::Queen,
        count_where(cells, of_type(t)) >= 1,
    ensures
        spec_sufficient_material(cells),
{
}

/// A side with two bishops, or with three knights, can mate: the material is sufficient.
pub proof fn lemma_bishop_pair_or_three_knights_suffice(cells: Seq<Option<Figure>>, color: Color)
    requires
        count_where(cells, of_kind(FigureType::Bishop, color)) >= 2 || count_where(
            cells,
            of_kind(FigureType::Knight, color),
        ) >= 3,
    ensures
        spec_sufficient_material(cells),
{
}

/// Kings with at most one bishop or knight per side, and no more than six figures, are not
/// enough to go on: neither side can mate.
pub proof fn lemma_lone_minor_figures_are_insufficient(cells: Seq<Option<Figure>>)
    requires
        count_figures(cells) <= 6,
        count_where(cells, of_type(FigureType::Pawn)) == 0,
        count_where(cells, of_type(FigureType::Rook)) == 0,
        count_where(cells, of_type(FigureType::Queen)) == 0,
        count_where(cells, of_kind(FigureType::Bishop, Color::White)) + count_where(
            cells,
            of_kind(FigureType::Knight, Color::White),
        ) <= 1,
        count_where(cells, of_kind(FigureType::Bishop, Color::Black)) + count_where(
            cells,
            of_kind(FigureType::Knight, Color::Black),
        ) <= 1,
    ensures
        !spec_sufficient_material(cells),
{
}

/// Two knights cannot force a mate: kings with at most two knights per side and no other
/// figure, six figures at most, are not enough to go on.
pub proof fn lemma_two_knights_are_insufficient(cells: Seq<Option<Figure>>)
    requires
        count_figures(cells) <= 6,
        count_where(cells, of_type(FigureType::Pawn)) == 0,
        count_where(cells, of_type(FigureType::Rook)) == 0,
        count_where(cells, of_type(FigureType::Queen)) == 0,
        count_where(cells, of_kind(FigureType::Bishop, Color::White)) == 0,
        count_where(cells, of_kind(FigureType::Bishop, Color::Black)) == 0,
        count_where(cells, of_kind(FigureType::Knight, Color::White)) <= 2,
        count_where(cells, of_kind(FigureType::Knight, Color::Black)) <= 2,
    ensures
        !spec_sufficient_material(cells),
{
}

impl Board {
    /// The number of figures of `color` on the board.
    pub fn count_figures_of_color(&self, color: Color) -> (r: usize)
        ensures
            r == count_where(self@, of_color(color)),
    {
        let ghost cells = self@;
        proof {
            lemma_board_len(*self);
        }
        let mut count: usize = 0;
        let mut i: usize = 0;
        assert(cells.subrange(0, 0) =~= Seq::<Option<Figure>>::empty());
        while i < 64
            invariant
                cells == self@,
                cells.len() == 64,
                i <= 64,
                count == count_where(cells.subrange(0, i as int), of_color(color)),
                count <= i,
            decreases 64 - i,
        {
            let ghost next_prefix = cells.subrange(0, i + 1);
            assert(next_prefix.drop_last() =~= cells.subrange(0, i as int));
            if let Some(figure) = self.state[i] {
                if figure.color == color {
                    count += 1;
                }
            }
            i += 1;
        }
        assert(cells.subrange(0, 64) =~= cells);
        count
    }

    pub fn get_all_figures_of_color(&self, color: Color) -> (r: [Option<(Figure, Position)>; 16])
        requires
            count_where(self@, of_color(color)) <= 16,
        ensures
            forall|i: int| 0 <= i < 16 ==> #[trigger] r@[i] == (if i < figures_of_color(self@, color).len() {
                Some(figures_of_color(self@, color)[i])
            } else {
                None
            }),
    {
        let ghost cells = self@;
        let mut figures: [Option<(Figure, Position)>; 16] = [None; 16];
        let mut next_index: usize = 0;
        let mut state_index: usize = 0;
        proof {
            lemma_figures_of_color_len(cells, color);
        }
        while state_index < 64
            invariant
                cells == self@,
                cells.len() == 64,
                count_where(cells, of_color(color)) <= 16,
                figures_of_color(cells, color).len() <= 16,
                state_index <= 64,
                next_index == figures_of_color(cells.subrange(0, state_index as int), color).len(),
                next_index <= 16,
                forall|i: int| 0 <= i < 16 ==> #[trigger] figures@[i] == (if i < next_index {
                    Some(figures_of_color(cells.subrange(0, state_index as int), color)[i])
                } else {
                    None
                }),
            decreases 64 - state_index,
        {
            let ghost prefix = cells.subrange(0, state_index as int);
            let ghost next_prefix = cells.subrange(0, state_index + 1);
            assert(next_prefix.drop_last() =~= prefix);
            proof {
                lemma_figures_of_color_len(next_prefix, color);
                lemma_count_prefix(cells, state_index + 1, of_color(color));
            }
            if let Some(figure) = self.state[state_index] {
                if figure.color == color {
                    figures[next_index] = Some((figure, Position::from_index_unchecked(state_index)));
                    next_index += 1;
                }
            }
            state_index += 1;
        }
        assert(cells.subrange(0, 64) =~= cells);
        figures
    }

    pub fn get_white_and_black_figures(&self) -> (r: ([Option<(FigureType, Position)>; 16], [Option<(FigureType, Position)>; 16]))
        requires
            count_where(self@, of_color(Color::White)) <= 16,
            count_where(self@, of_color(Color::Black)) <= 16,
        ensures
            forall|i: int| 0 <= i < 16 ==> #[trigger] r.0@[i] == (if i < figures_of_color(self@, Color::White).len() {
                Some((figures_of_color(self@, Color::White)[i].0.fig_type, figures_of_color(self@, Color::White)[i].1))
            } else {
                None
            }),
            forall|i: int| 0 <= i < 16 ==> #[trigger] r.1@[i] == (if i < figures_of_color(self@, Color::Black).len() {
                Some((figures_of_color(self@, Color::Black)[i].0.fig_type, figures_of_color(self@, Color::Black)[i].1))
            } else {
                None
            }),
    {
        let white = self.get_all_figures_of_color(Color::White);
        let black = self.get_all_figures_of_color(Color::Black);
        let mut white_figures: [Option<(FigureType, Position)>; 16] = [None; 16];
        let mut black_figures: [Option<(FigureType, Position)>; 16] = [None; 16];
        let mut i: usize = 0;
        while i < 16
            invariant
                i <= 16,
                forall|j: int| 0 <= j < 16 ==> #[trigger] white@[j] == (if j < figures_of_color(self@, Color::White).len() {
                    Some(figures_of_color(self@, Color::White)[j])
                } else {
                    None
                }),
                forall|j: int| 0 <= j < 16 ==> #[trigger] black@[j] == (if j < figures_of_color(self@, Color::Black).len() {
                    Some(figures_of_color(self@, Color::Black)[j])
                } else {
                    None
                }),
                forall|j: int| 0 <= j < 16 ==> #[trigger] white_figures@[j] == (if j < i && white@[j] is Some {
                    Some(((white@[j]->0).0.fig_type, (white@[j]->0).1))
                } else {
                    None
                }),
                forall|j: int| 0 <= j < 16 ==> #[trigger] black_figures@[j] == (if j < i && black@[j] is Some {
                    Some(((black@[j]->0).0.fig_type, (black@[j]->0).1))
                } else {
                    None
                }),
            decreases 16 - i,
        {
            if let Some((f, p)) = white[i] {
                white_figures[i] = Some((f.fig_type, p));
            }
            if let Some((f, p)) = black[i] {
                black_figures[i] = Some((f.fig_type, p));
            }
            i += 1;
        }
        (white_figures, black_figures)
    }

    pub fn contains_sufficient_material_to_continue(&self) -> (r: bool)
        ensures
            r == spec_sufficient_material(self@),
    {
        proof {
            use_type_invariant(self);
        }
        if self.number_of_figures > 6 {
            return true;
        }
        let ghost cells = self@;
        let ghost wbk = of_kind(FigureType::Bishop, Color::White);
        let ghost bbk = of_kind(FigureType::Bishop, Color::Black);
        let ghost wnk = of_kind(FigureType::Knight, Color::White);
        let ghost bnk = of_kind(FigureType::Knight, Color::Black);
        let mut white_knight_nr: usize = 0;
        let mut found_white_bishop = false;
        let mut black_knight_nr: usize = 0;
        let mut found_black_bishop = false;
        let mut state_index: usize = 0;
        while state_index < 64
            invariant
                cells == self@,
                cells.len() == 64,
                !(count_figures(cells) > 6),
                state_index <= 64,
                white_knight_nr == count_where(cells.subrange(0, state_index as int), wnk),
                black_knight_nr == count_where(cells.subrange(0, state_index as int), bnk),
                found_white_bishop == (count_where(cells.subrange(0, state_index as int), wbk) >= 1),
                found_black_bishop == (count_where(cells.subrange(0, state_index as int), bbk) >= 1),
                count_where(cells.subrange(0, state_index as int), wbk) <= 1,
                count_where(cells.subrange(0, state_index as int), bbk) <= 1,
                white_knight_nr <= state_index,
                black_knight_nr <= state_index,
                count_where(cells.subrange(0, state_index as int), of_type(FigureType::Pawn)) == 0,
                count_where(cells.subrange(0, state_index as int), of_type(FigureType::Rook)) == 0,
                count_where(cells.subrange(0, state_index as int), of_type(FigureType::Queen)) == 0,
                wbk == of_kind(FigureType::Bishop, Color::White),
                bbk == of_kind(FigureType::Bishop, Color::Black),
                wnk == of_kind(FigureType::Knight, Color::White),
                bnk == of_kind(FigureType::Knight, Color::Black),
            decreases 64 - state_index,
        {
            let ghost prefix = cells.subrange(0, state_index as int);
            let ghost next_prefix = cells.subrange(0, state_index + 1);
            assert(next_prefix.drop_last() =~= prefix);
            proof {
                lemma_count_bound(prefix, wnk);
                lemma_count_bound(prefix, bnk);
            }
            if let Some(figure) = self.state[state_index] {
                match figure.fig_type {
                    FigureType::Pawn | FigureType::Rook | FigureType::Queen => {
                        proof {
                            lemma_count_prefix(cells, state_index + 1, of_type(figure.fig_type));
                        }
                        return true;
                    },
                    FigureType::Knight => {
                        match figure.color {
                            Color::Black => {
                                black_knight_nr += 1;
                            },
                            Color::White => {
                                white_knight_nr += 1;
                            },
                        }
                    },
                    FigureType::Bishop => {
                        match figure.color {
                            Color::Black => {
                                if found_black_bishop {
                                    proof {
                                        lemma_count_prefix(cells, state_index + 1, bbk);
                                    }
                                    return true;
                                }
                                found_black_bishop = true;
                            },
                            Color::White => {
                                if found_white_bishop {
                                    proof {
                                        lemma_count_prefix(cells, state_index + 1, wbk);
                                    }
                                    return true;
                                }
                                found_white_bishop = true;
                            },
                        }
                    },
                    FigureType::King => {},
                }
            }
            state_index += 1;
        }
        assert(cells.subrange(0, 64) =~= cells);
        (found_white_bishop && white_knight_nr != 0) || (found_black_bishop && black_knight_nr != 0)
            || (white_knight_nr > 2) || (black_knight_nr > 2)
    }
}


/// The four-bit code of a field: 0 when empty, otherwise 1 to 6 for pawn, rook, knight, bishop,
/// queen and king, plus 8 for a white figure.
pub open spec fn fig_code(o: Option<Figure>) -> nat {
    match o {
        None => 0,
        Some(f) => {
            let type_value: nat = match f.fig_type {
                FigureType::Pawn => 1,
                FigureType::Rook => 2,
                FigureType::Knight => 3,
                FigureType::Bishop => 4,
                FigureType::Queen => 5,
                FigureType::King => 6,
            };
            if f.color == Color::White {
                8 + type_value
            } else {
                type_value
            }
        },
    }
}

/// The fields packed into one number, four bits each, the first field in the highest bits.
pub open spec fn pack(s: Seq<Option<Figure>>) -> nat
    decreases s.len(),
{
    if s.len() == 0 {
        0
    } else {
        pack(s.drop_last()) * 16 + fig_code(s.last())
    }
}

pub open spec fn pow16(n: nat) -> nat
    decreases n,
{
    if n == 0 {
        1
    } else {
        16 * pow16((n - 1) as nat)
    }
}

/// The numbers a board is packed into: sixteen fields per number.
pub open spec fn spec_encode(s: Seq<Option<Figure>>) -> Seq<u64> {
    seq![
        pack(s.subrange(0, 16)) as u64,
        pack(s.subrange(16, 32)) as u64,
        pack(s.subrange(32, 48)) as u64,
        pack(s.subrange(48, 64)) as u64,
    ]
}

pub proof fn lemma_fig_code(o: Option<Figure>, p: Option<Figure>)
    ensures
        fig_code(o) < 16,
        fig_code(o) == fig_code(p) ==> o == p,
{
}

pub proof fn lemma_pack_bound(s: Seq<Option<Figure>>)
    ensures
        pack(s) < pow16(s.len()),
    decreases s.len(),
{
    if s.len() > 0 {
        lemma_pack_bound(s.drop_last());
        lemma_fig_code(s.last(), None);
        let a = pack(s.drop_last());
        let p = pow16((s.len() - 1) as nat);
        assert(a * 16 + fig_code(s.last()) < 16 * p) by (nonlinear_arith)
            requires a < p, fig_code(s.last()) < 16;
    }
}

/// Equal packs of equally long field sequences come from equal fields.
pub proof fn lemma_pack_injective(a: Seq<Option<Figure>>, b: Seq<Option<Figure>>)
    requires
        a.len() == b.len(),
        pack(a) == pack(b),
    ensures
        a == b,
    decreases a.len(),
{
    if a.len() > 0 {
        lemma_fig_code(a.last(), b.last());
        lemma_fig_code(b.last(), a.last());
        assert(pack(a.drop_last()) == pack(b.drop_last()));
        assert(fig_code(a.last()) == fig_code(b.last()));
        lemma_pack_injective(a.drop_last(), b.drop_last());
        assert(a =~= a.drop_last().push(a.last()));
        assert(b =~= b.drop_last().push(b.last()));
    } else {
        assert(a =~= b);
    }
}

proof fn lemma_pow16_16()
    ensures
        pow16(15) == 0x1000_0000_0000_0000,
        pow16(16) == 0x1_0000_0000_0000_0000,
{
    reveal_with_fuel(pow16, 17);
}

/// Two boards are packed into the same numbers exactly when they hold the same figures
/// on the same fields.
pub proof fn lemma_encode_injective(a: Seq<Option<Figure>>, b: Seq<Option<Figure>>)
    requires
        a.len() == 64,
        b.len() == 64,
    ensures
        spec_encode(a) == spec_encode(b) <==> a == b,
{
    if spec_encode(a) == spec_encode(b) {
        lemma_encode_block(a, b, 0);
        lemma_encode_block(a, b, 1);
        lemma_encode_block(a, b, 2);
        lemma_encode_block(a, b, 3);
        assert forall|i: int| 0 <= i < 64 implies a[i] == b[i] by {
            let k = i / 16;
            assert(a.subrange(16 * k, 16 * k + 16)[i - 16 * k] == a[i]);
            assert(b.subrange(16 * k, 16 * k + 16)[i - 16 * k] == b[i]);
        }
        assert(a =~= b);
    }
}

proof fn lemma_encode_block(a: Seq<Option<Figure>>, b: Seq<Option<Figure>>, k: int)
    requires
        a.len() == 64,
        b.len() == 64,
        0 <= k < 4,
        spec_encode(a) == spec_encode(b),
    ensures
        a.subrange(16 * k, 16 * k + 16) == b.subrange(16 * k, 16 * k + 16),
{
    lemma_pow16_16();
    let sa = a.subrange(16 * k, 16 * k + 16);
    let sb = b.subrange(16 * k, 16 * k + 16);
    lemma_pack_bound(sa);
    lemma_pack_bound(sb);
    assert(spec_encode(a)[k] == spec_encode(b)[k]);
    assert(pack(sa) == pack(sb));
    lemma_pack_injective(sa, sb);
}

impl Board {
    fn encode_opt_figure(opt_figure: Option<Figure>) -> (r: u64)
        ensures
            r == fig_code(opt_figure),
    {
        match opt_figure {
            None => 0,
            Some(figure) => {
                let type_value: u64 = match figure.fig_type {
                    FigureType::Pawn => 1,
                    FigureType::Rook => 2,
                    FigureType::Knight => 3,
                    FigureType::Bishop => 4,
                    FigureType::Queen => 5,
                    FigureType::King => 6,
                };
                if figure.color == Color::White {
                    8 + type_value
                } else {
                    type_value
                }
            },
        }
    }

    fn encode_figure_slice(&self, start: usize) -> (r: u64)
        requires
            start == 0 || start == 16 || start == 32 || start == 48,
        ensures
            r == pack(self@.subrange(start as int, start + 16)),
    {
        let ghost cells = self@;
        proof {
            lemma_pow16_16();
        }
        let mut slice_compacted: u64 = Self::encode_opt_figure(self.state[start]);
        proof {
            let one = cells.subrange(start as int, start + 1);
            assert(one.drop_last() =~= Seq::<Option<Figure>>::empty());
            assert(one.last() == cells[start as int]);
            assert(pack(one.drop_last()) == 0);
        }
        let mut k: usize = 1;
        while k < 16
            invariant
                cells == self@,
                cells.len() == 64,
                start == 0 || start == 16 || start == 32 || start == 48,
                1 <= k <= 16,
                slice_compacted == pack(cells.subrange(start as int, start + k)),
                pow16(15) == 0x1000_0000_0000_0000,
            decreases 16 - k,
        {
            let ghost prefix = cells.subrange(start as int, start + k);
            proof {
                lemma_pack_bound(prefix);
                lemma_pow16_monotone(k as nat, 15);
            }
            assert(cells.subrange(start as int, start + k + 1).drop_last() =~= prefix);
            let x = slice_compacted;
            assert(x < 0x1000_0000_0000_0000);
            let shifted = x << 4;
            assert(shifted == x * 16) by (bit_vector)
                requires
                    x < 0x1000_0000_0000_0000,
                    shifted == x << 4,
            ;
            slice_compacted = shifted + Self::encode_opt_figure(self.state[start + k]);
            k += 1;
        }
        slice_compacted
    }

    pub fn encode(&self) -> (r: BoardState)
        ensures
            r.spec_state() == spec_encode(self@),
            r == BoardState::spec_from_numbers(spec_encode(self@)),
    {
        let r = BoardState::new([
            self.encode_figure_slice(0),
            self.encode_figure_slice(16),
            self.encode_figure_slice(32),
            self.encode_figure_slice(48),
        ]);
        assert(r.spec_state() =~= spec_encode(self@));
        r
    }
}

proof fn lemma_pow16_monotone(a: nat, b: nat)
    requires
        a <= b,
    ensures
        pow16(a) <= pow16(b),
    decreases b,
{
    if a < b {
        lemma_pow16_monotone(a, (b - 1) as nat);
    }
}

/// How many steps in direction `d` stay on the board from `p`.
pub open spec fn steps_left(p: Position, d: Direction) -> int {
    let cs = if d.dc() > 0 { 7 - p.column } else if d.dc() < 0 { p.column as int } else { 8 };
    let rs = if d.dr() > 0 { 7 - p.row } else if d.dr() < 0 { p.row as int } else { 8 };
    if cs < rs { cs } else { rs }
}

pub proof fn lemma_steps_left(p: Position, d: Direction)
    requires
        p.wf(),
    ensures
        0 <= steps_left(p, d) <= 7,
        (p.spec_step(d) is Some) <==> steps_left(p, d) > 0,
        p.spec_step(d) matches Some(q) ==> q.wf() && steps_left(q, d) == steps_left(p, d) - 1,
{
}

/// The fields a figure of `color` on `p` can move to in direction `d`: the empty fields up to
/// the first occupied one, and that one too if an opponent stands there.
pub open spec fn ray_targets(cells: Seq<Option<Figure>>, p: Position, d: Direction, color: Color) -> Seq<Position>
    decreases steps_left(p, d),
    when p.wf()
{
    proof {
        lemma_steps_left(p, d);
    }
    match p.spec_step(d) {
        None => Seq::empty(),
        Some(q) => match cells[q.index as int] {
            None => seq![q] + ray_targets(cells, q, d, color),
            Some(f) => if f.color != color {
                seq![q]
            } else {
                Seq::empty()
            },
        },
    }
}

/// The first occupied field seen from `p` in direction `d`, if any.
pub open spec fn first_occupied(cells: Seq<Option<Figure>>, p: Position, d: Direction) -> Option<Position>
    decreases steps_left(p, d),
    when p.wf()
{
    proof {
        lemma_steps_left(p, d);
    }
    match p.spec_step(d) {
        None => None,
        Some(q) => if cells[q.index as int] is Some {
            Some(q)
        } else {
            first_occupied(cells, q, d)
        },
    }
}

/// Whether every field strictly between `p` and `to`, walking from `p` in direction `d`, is empty.
pub open spec fn path_free(cells: Seq<Option<Figure>>, p: Position, d: Direction, to: Position) -> bool
    decreases steps_left(p, d),
    when p.wf()
{
    proof {
        lemma_steps_left(p, d);
    }
    match p.spec_step(d) {
        None => true,
        Some(q) => if q == to {
            true
        } else {
            cells[q.index as int] is None && path_free(cells, q, d, to)
        },
    }
}

/// The fields of a ray lie on the board and hold no figure of the moving color.
pub proof fn lemma_ray_targets_fields(cells: Seq<Option<Figure>>, p: Position, d: Direction, color: Color)
    requires
        p.wf(),
        cells.len() == 64,
    ensures
        forall|k: int| 0 <= k < ray_targets(cells, p, d, color).len() ==> {
            let q = #[trigger] ray_targets(cells, p, d, color)[k];
            &&& q.wf()
            &&& !(cells[q.index as int] matches Some(f) && f.color == color)
        },
    decreases steps_left(p, d),
{
    lemma_steps_left(p, d);
    if let Some(q) = p.spec_step(d) {
        if cells[q.index as int] is None {
            lemma_ray_targets_fields(cells, q, d, color);
            let rest = ray_targets(cells, q, d, color);
            assert forall|k: int| 0 <= k < ray_targets(cells, p, d, color).len() implies {
                let t = #[trigger] ray_targets(cells, p, d, color)[k];
                &&& t.wf()
                &&& !(cells[t.index as int] matches Some(f) && f.color == color)
            } by {
                if k > 0 {
                    assert(ray_targets(cells, p, d, color)[k] == rest[k - 1]);
                }
            }
        }
    }
}

impl Board {
    pub fn are_intermediate_pos_free(&self, from: Position, direction: Direction, to: Position) -> (r: bool)
        requires
            from.wf(),
        ensures
            r == path_free(self@, from, direction, to),
    {
        let mut pos = from;
        loop
            invariant
                pos.wf(),
                path_free(self@, from, direction, to) == path_free(self@, pos, direction, to),
            decreases steps_left(pos, direction),
        {
            proof {
                lemma_steps_left(pos, direction);
            }
            match pos.step(direction) {
                None => {
                    return true;
                },
                Some(q) => {
                    if q == to {
                        return true;
                    }
                    if !self.is_empty(q) {
                        return false;
                    }
                    pos = q;
                },
            }
        }
    }
}

/// The k-th knight jump, in the order the library tries them.
pub open spec fn knight_delta(k: int) -> (int, int) {
    if k == 0 {
        (2, -1)
    } else if k == 1 {
        (2, 1)
    } else if k == 2 {
        (-2, -1)
    } else if k == 3 {
        (-2, 1)
    } else if k == 4 {
        (1, -2)
    } else if k == 5 {
        (1, 2)
    } else if k == 6 {
        (-1, -2)
    } else {
        (-1, 2)
    }
}

pub open spec fn knight_jump(p: Position, k: int) -> Option<Position> {
    p.spec_jump(knight_delta(k).0, knight_delta(k).1)
}

/// The fields a knight of `color` on `p` can jump to, trying the jumps from the k-th on.
pub open spec fn knight_targets_from(cells: Seq<Option<Figure>>, p: Position, color: Color, k: int) -> Seq<Position>
    decreases 8 - k,
{
    if k >= 8 || k < 0 {
        Seq::empty()
    } else {
        let rest = knight_targets_from(cells, p, color, k + 1);
        match knight_jump(p, k) {
            Some(q) => if spec_content_type(cells[q.index as int], color) == FieldContent::OwnFigure {
                rest
            } else {
                seq![q] + rest
            },
            None => rest,
        }
    }
}

pub open spec fn knight_targets(cells: Seq<Option<Figure>>, p: Position, color: Color) -> Seq<Position> {
    knight_targets_from(cells, p, color, 0)
}

/// The count the library gives for a knight: one for every jump that leaves the board or lands
/// on a field without a figure of its own color, from the k-th jump on.
pub open spec fn knight_count_from(cells: Seq<Option<Figure>>, p: Position, color: Color, k: int) -> nat
    decreases 8 - k,
{
    if k >= 8 || k < 0 {
        0
    } else {
        knight_count_from(cells, p, color, k + 1) + match knight_jump(p, k) {
            None => 1nat,
            Some(q) => match cells[q.index as int] {
                None => 1nat,
                Some(f) => if f.color == color { 0nat } else { 1nat },
            },
        }
    }
}

/// The fields a knight can jump to lie on the board and hold no figure of its color.
pub proof fn lemma_knight_targets_fields(cells: Seq<Option<Figure>>, p: Position, color: Color, k: int)
    requires
        p.wf(),
        cells.len() == 64,
    ensures
        forall|j: int| 0 <= j < knight_targets_from(cells, p, color, k).len() ==> {
            let q = #[trigger] knight_targets_from(cells, p, color, k)[j];
            &&& q.wf()
            &&& !(cells[q.index as int] matches Some(f) && f.color == color)
        },
    decreases 8 - k,
{
    if 0 <= k < 8 {
        lemma_knight_targets_fields(cells, p, color, k + 1);
        let rest = knight_targets_from(cells, p, color, k + 1);
        assert forall|j: int| 0 <= j < knight_targets_from(cells, p, color, k).len() implies {
            let q = #[trigger] knight_targets_from(cells, p, color, k)[j];
            &&& q.wf()
            &&& !(cells[q.index as int] matches Some(f) && f.color == color)
        } by {
            match knight_jump(p, k) {
                Some(q) => if spec_content_type(cells[q.index as int], color) != FieldContent::OwnFigure {
                    if j > 0 {
                        assert(knight_targets_from(cells, p, color, k)[j] == rest[j - 1]);
                    }
                },
                None => {},
            }
        }
    }
}

/// A ray holds at most seven fields.
pub proof fn lemma_ray_targets_len(cells: Seq<Option<Figure>>, p: Position, d: Direction, color: Color)
    requires
        p.wf(),
    ensures
        ray_targets(cells, p, d, color).len() <= steps_left(p, d),
        steps_left(p, d) <= 7,
    decreases steps_left(p, d),
{
    lemma_steps_left(p, d);
    if let Some(q) = p.spec_step(d) {
        if cells[q.index as int] is None {
            lemma_ray_targets_len(cells, q, d, color);
        }
    }
}

/// Each side starts a classic game with sixteen figures.
pub proof fn lemma_classic_color_counts()
    ensures
        count_where(spec_classic_cells(), of_color(Color::White)) == 16,
        count_where(spec_classic_cells(), of_color(Color::Black)) == 16,
{
    let s = spec_classic_cells();
    let a = s.subrange(0, 16);
    let b = s.subrange(16, 48);
    let c = s.subrange(48, 64);
    assert(s =~= a + b + c);
    lemma_count_concat(a + b, c, of_color(Color::White));
    lemma_count_concat(a, b, of_color(Color::White));
    lemma_count_concat(a + b, c, of_color(Color::Black));
    lemma_count_concat(a, b, of_color(Color::Black));
    lemma_count_all_or_none(a, of_color(Color::White));
    lemma_count_all_or_none(b, of_color(Color::White));
    lemma_count_all_or_none(c, of_color(Color::White));
    lemma_count_all_or_none(a, of_color(Color::Black));
    lemma_count_all_or_none(b, of_color(Color::Black));
    lemma_count_all_or_none(c, of_color(Color::Black));
}

/// When every cell satisfies a predicate, the count is the length; when none does, it is zero.
pub proof fn lemma_count_all_or_none(s: Seq<Option<Figure>>, f: spec_fn(Option<Figure>) -> bool)
    ensures
        (forall|i: int| 0 <= i < s.len() ==> f(#[trigger] s[i])) ==> count_where(s, f) == s.len(),
        (forall|i: int| 0 <= i < s.len() ==> !f(#[trigger] s[i])) ==> count_where(s, f) == 0,
    decreases s.len(),
{
    if s.len() > 0 {
        lemma_count_all_or_none(s.drop_last(), f);
        assert(forall|i: int| 0 <= i < s.drop_last().len() ==> s.drop_last()[i] == s[i]);
    }
}

/// The same figure in the other color.
pub open spec fn toggled_cell(o: Option<Figure>) -> Option<Figure> {
    match o {
        Some(f) => Some(Figure { fig_type: f.fig_type, color: f.color.spec_toggle() }),
        None => None,
    }
}

/// The index of the field in the same column and the mirrored row.
pub open spec fn toggle_index(i: int) -> int {
    (7 - i / 8) * 8 + i % 8
}

/// The board seen from the other side: rows mirrored and colors swapped.
pub open spec fn toggled_cells(cells: Seq<Option<Figure>>) -> Seq<Option<Figure>> {
    Seq::new(64, |i: int| toggled_cell(cells[toggle_index(i)]))
}

pub proof fn lemma_toggle_index(i: int)
    requires
        0 <= i < 64,
    ensures
        0 <= toggle_index(i) < 64,
        toggle_index(toggle_index(i)) == i,
        Position::spec_from_index(i).spec_toggle_row().index == toggle_index(i),
{
}

/// Mirroring the rows and swapping the colors twice gives the board back.
pub proof fn lemma_toggled_cells_involution(cells: Seq<Option<Figure>>)
    requires
        cells.len() == 64,
    ensures
        toggled_cells(toggled_cells(cells)) == cells,
{
    assert forall|i: int| 0 <= i < 64 implies #[trigger] toggled_cells(toggled_cells(cells))[i] == cells[i] by {
        lemma_toggle_index(i);
        match cells[i] {
            Some(f) => crate::base::color::lemma_toggle_involution(f.color),
            None => {},
        }
    }
    assert(toggled_cells(toggled_cells(cells)) =~= cells);
}

/// Two sequences that correspond cell by cell through `toggled_cell` have matching counts when
/// `g` holds of a toggled cell exactly when `f` holds of the cell.
proof fn lemma_count_toggled_pointwise(
    u: Seq<Option<Figure>>,
    v: Seq<Option<Figure>>,
    f: spec_fn(Option<Figure>) -> bool,
    g: spec_fn(Option<Figure>) -> bool,
)
    requires
        u.len() == v.len(),
        forall|k: int| 0 <= k < u.len() ==> u[k] == toggled_cell(v[k]),
        forall|x: Option<Figure>| #[trigger] g(toggled_cell(x)) == f(x),
    ensures
        count_where(u, g) == count_where(v, f),
    decreases u.len(),
{
    if u.len() > 0 {
        assert(g(toggled_cell(v.last())) == f(v.last()));
        lemma_count_toggled_pointwise(u.drop_last(), v.drop_last(), f, g);
    }
}

/// The first `r` rows of the toggled board count with `g` what the last `r` rows of the board
/// count with `f`.
proof fn lemma_count_toggled_rows(cells: Seq<Option<Figure>>, f: spec_fn(Option<Figure>) -> bool, g: spec_fn(Option<Figure>) -> bool, r: int)
    requires
        cells.len() == 64,
        0 <= r <= 8,
        forall|x: Option<Figure>| #[trigger] g(toggled_cell(x)) == f(x),
    ensures
        count_where(toggled_cells(cells).subrange(0, 8 * r), g) == count_where(cells.subrange(64 - 8 * r, 64), f),
    decreases r,
{
    let t = toggled_cells(cells);
    if r == 0 {
        assert(t.subrange(0, 0) =~= Seq::<Option<Figure>>::empty());
        assert(cells.subrange(64, 64) =~= Seq::<Option<Figure>>::empty());
    } else {
        let q = r - 1;
        lemma_count_toggled_rows(cells, f, g, q);
        let a = t.subrange(0, 8 * q);
        let b = t.subrange(8 * q, 8 * q + 8);
        let c = cells.subrange(56 - 8 * q, 64 - 8 * q);
        let d = cells.subrange(64 - 8 * q, 64);
        assert(t.subrange(0, 8 * q + 8) =~= a + b);
        assert(cells.subrange(56 - 8 * q, 64) =~= c + d);
        assert forall|k: int| 0 <= k < b.len() implies b[k] == toggled_cell(c[k]) by {
            assert((8 * q + k) / 8 == q);
            assert((8 * q + k) % 8 == k);
        }
        lemma_count_toggled_pointwise(b, c, f, g);
        lemma_count_concat(a, b, g);
        lemma_count_concat(c, d, f);
    }
}

/// Mirroring the rows and swapping the colors carries over a count: `g` counts on the toggled
/// board what `f` counts on the board.
pub proof fn lemma_count_toggled(cells: Seq<Option<Figure>>, f: spec_fn(Option<Figure>) -> bool, g: spec_fn(Option<Figure>) -> bool)
    requires
        cells.len() == 64,
        forall|x: Option<Figure>| #[trigger] g(toggled_cell(x)) == f(x),
    ensures
        count_where(toggled_cells(cells), g) == count_where(cells, f),
{
    lemma_count_toggled_rows(cells, f, g, 8);
    assert(toggled_cells(cells).subrange(0, 64) =~= toggled_cells(cells));
    assert(cells.subrange(0, 64) =~= cells);
}


/// Each side starts a classic game with one king, the white one on e1 and the black one on e8.
pub proof fn lemma_classic_king_counts()
    ensures
        count_where(spec_classic_cells(), of_kind(FigureType::King, Color::White)) == 1,
        count_where(spec_classic_cells(), of_kind(FigureType::King, Color::Black)) == 1,
{
    let s = spec_classic_cells();
    let a = s.subrange(0, 4);
    let b = s.subrange(4, 5);
    let c = s.subrange(5, 60);
    let d = s.subrange(60, 61);
    let e = s.subrange(61, 64);
    assert(s =~= a + b + c + d + e);
    let fw = of_kind(FigureType::King, Color::White);
    let fb = of_kind(FigureType::King, Color::Black);
    assert forall|f: spec_fn(Option<Figure>) -> bool| f == fw || f == fb implies count_where(s, f) == count_where(a, f)
        + count_where(b, f) + count_where(c, f) + count_where(d, f) + count_where(e, f) by {
        lemma_count_concat(a + b + c + d, e, f);
        lemma_count_concat(a + b + c, d, f);
        lemma_count_concat(a + b, c, f);
        lemma_count_concat(a, b, f);
    }
    lemma_count_all_or_none(a, fw);
    lemma_count_all_or_none(b, fw);
    lemma_count_all_or_none(c, fw);
    lemma_count_all_or_none(d, fw);
    lemma_count_all_or_none(e, fw);
    lemma_count_all_or_none(a, fb);
    lemma_count_all_or_none(b, fb);
    lemma_count_all_or_none(c, fb);
    lemma_count_all_or_none(d, fb);
    lemma_count_all_or_none(e, fb);
}


/// How a field is drawn: the figure's symbol, or '_' when it is empty.
pub open spec fn cell_char(o: Option<Figure>) -> char {
    match o {
        Some(f) => crate::figure::spec_symbol(f),
        None => '_',
    }
}

/// A row drawn from the given column on.
pub open spec fn row_text_from(cells: Seq<Option<Figure>>, row: int, column: int) -> Seq<char>
    decreases 8 - column,
{
    if column >= 8 || column < 0 {
        Seq::empty()
    } else {
        seq![cell_char(cells[row * 8 + column])] + row_text_from(cells, row, column + 1)
    }
}

/// The rows from `row` down to the first, each followed by a space, its number and a line break.
pub open spec fn rows_text_from(cells: Seq<Option<Figure>>, row: int) -> Seq<char>
    decreases row + 1,
{
    if row < 0 {
        Seq::empty()
    } else {
        row_text_from(cells, row, 0) + seq![' ', crate::base::text::digit_char((row + 1) as nat), '\n']
            + rows_text_from(cells, row - 1)
    }
}

/// The board drawn as text: a line break, the rows from the eighth down to the first, and the
/// column letters.
pub open spec fn board_text(cells: Seq<Option<Figure>>) -> Seq<char> {
    seq!['\n'] + rows_text_from(cells, 7) + seq!['a', 'b', 'c', 'd', 'e', 'f', 'g', 'h', '\n']
}

impl Board {
    pub fn to_string(&self) -> (r: String)
        ensures
            r@ == board_text(self@),
    {
        let mut text = String::new();
        crate::base::text::push_char(&mut text, '\n');
        let mut row: i8 = 7;
        while row >= 0
            invariant
                -1 <= row <= 7,
                text@ + rows_text_from(self@, row as int) + seq!['a', 'b', 'c', 'd', 'e', 'f', 'g', 'h', '\n']
                    == board_text(self@),
            decreases row + 1,
        {
            let ghost before = text@;
            let mut column: i8 = 0;
            while column < 8
                invariant
                    0 <= row <= 7,
                    0 <= column <= 8,
                    text@ + row_text_from(self@, row as int, column as int) == before + row_text_from(
                        self@,
                        row as int,
                        0,
                    ),
                decreases 8 - column,
            {
                let ghost t0 = text@;
                let pos = Position::new_unchecked(column, row);
                let c = match self.get_figure(pos) {
                    None => '_',
                    Some(figure) => figure.get_symbol(),
                };
                crate::base::text::push_char(&mut text, c);
                assert(text@ + row_text_from(self@, row as int, column + 1) =~= t0 + row_text_from(
                    self@,
                    row as int,
                    column as int,
                ));
                column = column + 1;
            }
            crate::base::text::push_char(&mut text, ' ');
            crate::base::text::push_char(&mut text, crate::base::text::digit_to_char((row + 1) as usize));
            crate::base::text::push_char(&mut text, '\n');
            assert(text@ + rows_text_from(self@, row - 1) =~= before + rows_text_from(self@, row as int));
            row = row - 1;
        }
        let ghost before_letters = text@;
        crate::base::text::push_str(&mut text, "abcdefgh\n");
        proof {
            reveal_strlit("abcdefgh\n");
        }
        assert(text@ =~= board_text(self@));
        text
    }
}


/// The first occupied field seen in a direction lies on the board and holds a figure.
pub proof fn lemma_first_occupied_fields(cells: Seq<Option<Figure>>, p: Position, d: Direction)
    requires
        p.wf(),
    ensures
        first_occupied(cells, p, d) matches Some(q) ==> q.wf() && cells[q.index as int] is Some,
    decreases steps_left(p, d),
{
    lemma_steps_left(p, d);
    if let Some(q) = p.spec_step(d) {
        if cells[q.index as int] is None {
            lemma_first_occupied_fields(cells, q, d);
        }
    }
}

/// A knight jump lands on the board.
pub proof fn lemma_knight_jump_wf(p: Position, k: int)
    requires
        p.wf(),
    ensures
        knight_jump(p, k) matches Some(q) ==> q.wf(),
{
}

} // verus!
