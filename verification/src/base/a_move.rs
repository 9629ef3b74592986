use vstd::prelude::*;
use crate::base::{ChessError, ErrorKind, Position};
use crate::base::errors::chess_error;
use crate::base::position::spec_parse_position;
use crate::base::text::{chars_of, push_char, push_chars};
use crate::figure::FigureType;

verus! {

#[derive(Debug, Copy, Clone, PartialEq, Eq, Structural, Hash)]
pub enum PromotionType {
    Rook,
    Knight,
    Bishop,
    Queen,
}

impl PromotionType {
    pub open spec fn spec_figure_type(self) -> FigureType {
        match self {
            PromotionType::Rook => FigureType::Rook,
            PromotionType::Knight => FigureType::Knight,
            PromotionType::Bishop => FigureType::Bishop,
            PromotionType::Queen => FigureType::Queen,
        }
    }

    pub fn get_figure_type(&self) -> (r: FigureType)
        ensures
            r == self.spec_figure_type(),
    {
        match self {
            PromotionType::Rook => FigureType::Rook,
            PromotionType::Knight => FigureType::Knight,
            PromotionType::Bishop => FigureType::Bishop,
            PromotionType::Queen => FigureType::Queen,
        }
    }
}

#[derive(Debug, Copy, Clone, PartialEq, Eq, Structural, Hash)]
pub enum CastlingType {
    KingSide,
    QueenSide,
}

/// What kind of move a move is, beside its start and end field.
#[derive(Debug, Copy, Clone, PartialEq, Eq, Structural, Hash)]
pub enum MoveType {
    Normal,
    PawnPromotion(PromotionType),
    EnPassant,
    Castling(CastlingType),
}

/// The move type a single code character names: `-` normal, `QRKB` pawn promotions,
/// `e` en-passant, `c` king side castling and `C` queen side castling.
pub open spec fn spec_parse_move_type(c: char) -> Option<MoveType> {
    if c == '-' {
        Some(MoveType::Normal)
    } else if c == 'Q' {
        Some(MoveType::PawnPromotion(PromotionType::Queen))
    } else if c == 'R' {
        Some(MoveType::PawnPromotion(PromotionType::Rook))
    } else if c == 'K' {
        Some(MoveType::PawnPromotion(PromotionType::Knight))
    } else if c == 'B' {
        Some(MoveType::PawnPromotion(PromotionType::Bishop))
    } else if c == 'e' {
        Some(MoveType::EnPassant)
    } else if c == 'c' {
        Some(MoveType::Castling(CastlingType::KingSide))
    } else if c == 'C' {
        Some(MoveType::Castling(CastlingType::QueenSide))
    } else {
        None
    }
}

impl MoveType {
    pub open spec fn spec_as_state(self) -> int {
        match self {
            MoveType::Normal => 0,
            MoveType::PawnPromotion(PromotionType::Rook) => 1,
            MoveType::PawnPromotion(PromotionType::Knight) => 2,
            MoveType::PawnPromotion(PromotionType::Bishop) => 3,
            MoveType::PawnPromotion(PromotionType::Queen) => 4,
            MoveType::EnPassant => 5,
            MoveType::Castling(CastlingType::KingSide) => 6,
            MoveType::Castling(CastlingType::QueenSide) => 7,
        }
    }

    /// The move type a number below 8 stands for (numbers from 8 on stand for nothing and give `Normal`).
    pub open spec fn spec_from_state(state: int) -> MoveType {
        if state == 1 {
            MoveType::PawnPromotion(PromotionType::Rook)
        } else if state == 2 {
            MoveType::PawnPromotion(PromotionType::Knight)
        } else if state == 3 {
            MoveType::PawnPromotion(PromotionType::Bishop)
        } else if state == 4 {
            MoveType::PawnPromotion(PromotionType::Queen)
        } else if state == 5 {
            MoveType::EnPassant
        } else if state == 6 {
            MoveType::Castling(CastlingType::KingSide)
        } else if state == 7 {
            MoveType::Castling(CastlingType::QueenSide)
        } else {
            MoveType::Normal
        }
    }

    /// The code character of this move type.
    pub open spec fn spec_code(self) -> char {
        match self {
            MoveType::Normal => '-',
            MoveType::PawnPromotion(PromotionType::Queen) => 'Q',
            MoveType::PawnPromotion(PromotionType::Rook) => 'R',
            MoveType::PawnPromotion(PromotionType::Knight) => 'K',
            MoveType::PawnPromotion(PromotionType::Bishop) => 'B',
            MoveType::EnPassant => 'e',
            MoveType::Castling(CastlingType::KingSide) => 'c',
            MoveType::Castling(CastlingType::QueenSide) => 'C',
        }
    }

    pub fn as_state(&self) -> (r: usize)
        ensures
            r == self.spec_as_state(),
            r < 8,
    {
        match self {
            MoveType::Normal => 0,
            MoveType::PawnPromotion(promotion_type) => {
                match promotion_type {
                    PromotionType::Rook => 1,
                    PromotionType::Knight => 2,
                    PromotionType::Bishop => 3,
                    PromotionType::Queen => 4,
                }
            },
            MoveType::EnPassant => 5,
            MoveType::Castling(castling_type) => {
                match castling_type {
                    CastlingType::KingSide => 6,
                    CastlingType::QueenSide => 7,
                }
            },
        }
    }

    pub fn from_state(state: usize) -> (r: MoveType)
        requires
            state < 8,
        ensures
            r == Self::spec_from_state(state as int),
    {
        match state {
            0 => MoveType::Normal,
            1 => MoveType::PawnPromotion(PromotionType::Rook),
            2 => MoveType::PawnPromotion(PromotionType::Knight),
            3 => MoveType::PawnPromotion(PromotionType::Bishop),
            4 => MoveType::PawnPromotion(PromotionType::Queen),
            5 => MoveType::EnPassant,
            6 => MoveType::Castling(CastlingType::KingSide),
            _ => MoveType::Castling(CastlingType::QueenSide),
        }
    }

    /// Reads a single code character.
    pub fn parse_char(c: char) -> (r: Option<MoveType>)
        ensures
            r == spec_parse_move_type(c),
    {
        if c == '-' {
            Some(MoveType::Normal)
        } else if c == 'Q' {
            Some(MoveType::PawnPromotion(PromotionType::Queen))
        } else if c == 'R' {
            Some(MoveType::PawnPromotion(PromotionType::Rook))
        } else if c == 'K' {
            Some(MoveType::PawnPromotion(PromotionType::Knight))
        } else if c == 'B' {
            Some(MoveType::PawnPromotion(PromotionType::Bishop))
        } else if c == 'e' {
            Some(MoveType::EnPassant)
        } else if c == 'c' {
            Some(MoveType::Castling(CastlingType::KingSide))
        } else if c == 'C' {
            Some(MoveType::Castling(CastlingType::QueenSide))
        } else {
            None
        }
    }

    /// Reads a move type code: exactly one of the characters `-QRKBecC`.
    pub fn parse(s: &str) -> (r: Result<MoveType, ChessError>)
        ensures
            r matches Ok(mt) ==> s@.len() == 1 && spec_parse_move_type(s@[0]) == Some(mt),
            r is Err ==> !(s@.len() == 1 && spec_parse_move_type(s@[0]) is Some),
            r matches Err(e) ==> e.kind == ErrorKind::IllegalFormat,
    {
        let cs = chars_of(s);
        if cs.len() == 1 {
            if let Some(mt) = MoveType::parse_char(cs[0]) {
                return Ok(mt);
            }
        }
        Err(chess_error(ErrorKind::IllegalFormat, "unknown move type: ", s))
    }

    pub fn get_code_char(&self) -> (r: char)
        ensures
            r == self.spec_code(),
    {
        match self {
            MoveType::Normal => '-',
            MoveType::PawnPromotion(PromotionType::Queen) => 'Q',
            MoveType::PawnPromotion(PromotionType::Rook) => 'R',
            MoveType::PawnPromotion(PromotionType::Knight) => 'K',
            MoveType::PawnPromotion(PromotionType::Bishop) => 'B',
            MoveType::EnPassant => 'e',
            MoveType::Castling(CastlingType::KingSide) => 'c',
            MoveType::Castling(CastlingType::QueenSide) => 'C',
        }
    }

    /// The code of this move type as a string.
    pub fn to_string(&self) -> (r: String)
        ensures
            r@ == seq![self.spec_code()],
    {
        let mut s = String::new();
        push_char(&mut s, self.get_code_char());
        assert(s@ =~= seq![self.spec_code()]);
        s
    }
}

impl std::str::FromStr for MoveType {
    type Err = ChessError;

    fn from_str(s: &str) -> (r: Result<MoveType, ChessError>)
        ensures
            r matches Ok(mt) ==> s@.len() == 1 && spec_parse_move_type(s@[0]) == Some(mt),
            r is Err ==> !(s@.len() == 1 && spec_parse_move_type(s@[0]) is Some),
            r matches Err(e) ==> e.kind == ErrorKind::IllegalFormat,
    {
        MoveType::parse(s)
    }
}

/// A move type survives the trip through its number.
pub proof fn lemma_move_type_state_roundtrip(mt: MoveType)
    ensures
        0 <= mt.spec_as_state() < 8,
        MoveType::spec_from_state(mt.spec_as_state()) == mt,
        spec_parse_move_type(mt.spec_code()) == Some(mt),
{
}

/// The number of a move, given the indices of its fields and the number of its type.
pub open spec fn spec_combined_state(from_index: int, to_index: int, move_type_state: int) -> int {
    move_type_state * 4096 + to_index * 64 + from_index
}

/// A move: start field, end field and move type packed into one number.
#[derive(Debug, Copy, Clone, PartialEq, Eq, Structural, Hash)]
pub struct Move {
    state: usize,
}

/// The move a code like "e2-e4" names: a start field, a move type character and an end field.
/// Characters beyond the fifth are not read.
pub open spec fn spec_parse_move(s: Seq<char>) -> Option<Move> {
    if s.len() >= 5 && spec_parse_position(s.subrange(0, 2)) is Some && spec_parse_move_type(s[2]) is Some
        && spec_parse_position(s.subrange(3, 5)) is Some {
        Some(Move::spec_new(
            spec_parse_position(s.subrange(0, 2))->0,
            spec_parse_position(s.subrange(3, 5))->0,
            spec_parse_move_type(s[2])->0,
        ))
    } else {
        None
    }
}

impl Move {
    #[verifier::type_invariant]
    closed spec fn inv(self) -> bool {
        self.state < 32768
    }

    /// The move is one of the moves the library builds.
    pub closed spec fn wf(self) -> bool {
        self.state < 32768
    }

    pub closed spec fn from_index(self) -> int {
        self.state as int % 64
    }

    pub closed spec fn to_index(self) -> int {
        (self.state as int / 64) % 64
    }

    pub closed spec fn type_state(self) -> int {
        self.state as int / 4096
    }

    pub open spec fn spec_from(self) -> Position {
        Position::spec_from_index(self.from_index())
    }

    pub open spec fn spec_to(self) -> Position {
        Position::spec_from_index(self.to_index())
    }

    pub open spec fn spec_move_type(self) -> MoveType {
        MoveType::spec_from_state(self.type_state())
    }

    /// The move from `from` to `to` of the given type.
    pub closed spec fn spec_new(from: Position, to: Position, mt: MoveType) -> Move {
        Move { state: spec_combined_state(from.index as int, to.index as int, mt.spec_as_state()) as usize }
    }

    pub open spec fn spec_toggle_rows(self) -> Move {
        Move::spec_new(self.spec_from().spec_toggle_row(), self.spec_to().spec_toggle_row(), self.spec_move_type())
    }

    /// The code of this move, like "e2-e4".
    pub open spec fn spec_code(self) -> Seq<char> {
        self.spec_from().spec_code() + seq![self.spec_move_type().spec_code()] + self.spec_to().spec_code()
    }

    pub fn combine_state(from_index: usize, to_index: usize, move_type_state: usize) -> (r: Move)
        requires
            from_index < 64,
            to_index < 64,
            move_type_state < 8,
        ensures
            r.wf(),
            r.from_index() == from_index,
            r.to_index() == to_index,
            r.type_state() == move_type_state,
    {
        let state = (((move_type_state << 6) | to_index) << 6) | from_index;
        assert(state == move_type_state * 4096 + to_index * 64 + from_index) by (bit_vector)
            requires
                from_index < 64,
                to_index < 64,
                move_type_state < 8,
                state == (((move_type_state << 6) | to_index) << 6) | from_index,
        ;
        Move { state }
    }

    pub fn new(from: Position, to: Position, move_type: Option<MoveType>) -> (r: Move)
        requires
            from.wf(),
            to.wf(),
        ensures
            r.wf(),
            r == Move::spec_new(from, to, move_type.unwrap_or(MoveType::Normal)),
            r.spec_from() == from,
            r.spec_to() == to,
            r.spec_move_type() == move_type.unwrap_or(MoveType::Normal),
    {
        let mt_state = match move_type {
            Some(mt) => mt.as_state(),
            None => 0,
        };
        proof {
            lemma_move_type_state_roundtrip(move_type.unwrap_or(MoveType::Normal));
        }
        let r = Self::combine_state(from.index, to.index, mt_state);
        r
    }

    /// The move a code like "e2-e4" names; the code has to name one.
    pub fn from_code(code: &str) -> (r: Move)
        requires
            spec_parse_move(code@) is Some,
        ensures
            r == spec_parse_move(code@)->0,
    {
        match Move::parse(code) {
            Ok(m) => m,
            Err(_) => Move { state: 0 },
        }
    }

    /// Reads a code like "e2-e4", "a7Qa8" or "e1cg1".
    pub fn parse(code: &str) -> (r: Result<Move, ChessError>)
        ensures
            r matches Ok(m) ==> spec_parse_move(code@) == Some(m),
            r is Err ==> spec_parse_move(code@) is None,
            r matches Err(e) ==> e.kind == ErrorKind::IllegalFormat,
    {
        let cs = chars_of(code);
        match Move::parse_chars(&cs) {
            Some(m) => Ok(m),
            None => Err(chess_error(ErrorKind::IllegalFormat, "illegal move code: ", code)),
        }
    }

    /// The move the characters name, if they name one.
    pub fn parse_chars(cs: &Vec<char>) -> (r: Option<Move>)
        ensures
            r == spec_parse_move(cs@),
    {
        if cs.len() < 5 {
            return None;
        }
        let from_chars = vec![cs[0], cs[1]];
        let to_chars = vec![cs[3], cs[4]];
        assert(from_chars@ =~= cs@.subrange(0, 2));
        assert(to_chars@ =~= cs@.subrange(3, 5));
        let from = match Position::parse_chars(&from_chars) {
            Some(p) => p,
            None => return None,
        };
        let move_type = match MoveType::parse_char(cs[2]) {
            Some(mt) => mt,
            None => return None,
        };
        let to = match Position::parse_chars(&to_chars) {
            Some(p) => p,
            None => return None,
        };
        Some(Move::new(from, to, Some(move_type)))
    }

    pub fn from(&self) -> (r: Position)
        ensures
            r == self.spec_from(),
            r.wf(),
            self.wf(),
    {
        proof {
            use_type_invariant(self);
        }
        let s = self.state;
        let i = s & 63;
        assert(i == s % 64) by (bit_vector)
            requires
                i == s & 63,
        ;
        Position::from_index_unchecked(i)
    }

    pub fn to(&self) -> (r: Position)
        ensures
            r == self.spec_to(),
            r.wf(),
    {
        proof {
            use_type_invariant(self);
        }
        let s = self.state;
        let i = (s >> 6) & 63;
        assert(i == (s / 64) % 64) by (bit_vector)
            requires
                i == (s >> 6) & 63,
        ;
        Position::from_index_unchecked(i)
    }

    pub fn move_type(&self) -> (r: MoveType)
        ensures
            r == self.spec_move_type(),
    {
        proof {
            use_type_invariant(self);
        }
        let s = self.state;
        let t = s >> 12;
        assert(t == s / 4096 && t < 8) by (bit_vector)
            requires
                t == s >> 12,
                s < 32768,
        ;
        MoveType::from_state(t)
    }

    /// The same move seen from the other side of the board: both rows mirrored, same type.
    pub fn toggle_rows(&self) -> (r: Move)
        ensures
            r == self.spec_toggle_rows(),
            r.wf(),
    {
        let from = self.from().toggle_row();
        let to = self.to().toggle_row();
        Move::new(from, to, Some(self.move_type()))
    }

    /// The code of this move, like "e2-e4".
    pub fn to_string(&self) -> (r: String)
        ensures
            r@ == self.spec_code(),
    {
        let from = self.from();
        let to = self.to();
        let mut s = from.to_string();
        push_char(&mut s, self.move_type().get_code_char());
        let to_code = chars_of(to.to_string().as_str());
        push_chars(&mut s, &to_code);
        s
    }
}

impl Default for Move {
    fn default() -> (r: Move)
        ensures
            r.spec_from() == Position::spec_at(1, 2),
            r.spec_to() == Position::spec_at(6, 5),
            r.spec_move_type() == MoveType::PawnPromotion(PromotionType::Bishop),
    {
        Move::new(
            Position::new_unchecked(1, 2),
            Position::new_unchecked(6, 5),
            Some(MoveType::PawnPromotion(PromotionType::Bishop)),
        )
    }
}

impl std::str::FromStr for Move {
    type Err = ChessError;

    fn from_str(code: &str) -> (r: Result<Move, ChessError>)
        ensures
            r matches Ok(m) ==> spec_parse_move(code@) == Some(m),
            r is Err ==> spec_parse_move(code@) is None,
            r matches Err(e) ==> e.kind == ErrorKind::IllegalFormat,
    {
        Move::parse(code)
    }
}

/// A move is determined by its start field, end field and type: what `new` stores, the getters give back.
pub proof fn lemma_move_new_getters(from: Position, to: Position, mt: MoveType)
    requires
        from.wf(),
        to.wf(),
    ensures
        Move::spec_new(from, to, mt).wf(),
        Move::spec_new(from, to, mt).spec_from() == from,
        Move::spec_new(from, to, mt).spec_to() == to,
        Move::spec_new(from, to, mt).spec_move_type() == mt,
{
    lemma_move_type_state_roundtrip(mt);
    let s = spec_combined_state(from.index as int, to.index as int, mt.spec_as_state());
    assert(s % 64 == from.index) by (nonlinear_arith)
        requires s == mt.spec_as_state() * 4096 + to.index * 64 + from.index, from.index < 64, to.index < 64,
            0 <= mt.spec_as_state() < 8;
    assert((s / 64) % 64 == to.index) by (nonlinear_arith)
        requires s == mt.spec_as_state() * 4096 + to.index * 64 + from.index, from.index < 64, to.index < 64,
            0 <= mt.spec_as_state() < 8;
    assert(s / 4096 == mt.spec_as_state()) by (nonlinear_arith)
        requires s == mt.spec_as_state() * 4096 + to.index * 64 + from.index, from.index < 64, to.index < 64,
            0 <= mt.spec_as_state() < 8;
    assert(s < 32768) by (nonlinear_arith)
        requires s == mt.spec_as_state() * 4096 + to.index * 64 + from.index, from.index < 64, to.index < 64,
            0 <= mt.spec_as_state() < 8;
    crate::base::position::lemma_position_at(from);
    crate::base::position::lemma_position_at(to);
}

/// Two library moves with the same start field, end field and type are the same move.
pub proof fn lemma_move_eq(m1: Move, m2: Move)
    requires
        m1.wf(),
        m2.wf(),
        m1.spec_from() == m2.spec_from(),
        m1.spec_to() == m2.spec_to(),
        m1.spec_move_type() == m2.spec_move_type(),
    ensures
        m1 == m2,
{
    let s1 = m1.state as int;
    let s2 = m2.state as int;
    assert(m1.from_index() == m2.from_index());
    assert(m1.to_index() == m2.to_index());
    assert(m1.type_state() == m2.type_state()) by {
        assert(0 <= m1.type_state() < 8) by (nonlinear_arith)
            requires m1.type_state() == s1 / 4096, 0 <= s1 < 32768;
        assert(0 <= m2.type_state() < 8) by (nonlinear_arith)
            requires m2.type_state() == s2 / 4096, 0 <= s2 < 32768;
    }
    assert(s1 == s2) by (nonlinear_arith)
        requires
            0 <= s1 < 32768,
            0 <= s2 < 32768,
            s1 % 64 == s2 % 64,
            (s1 / 64) % 64 == (s2 / 64) % 64,
            s1 / 4096 == s2 / 4096,
    {
        assert(s1 == (s1 / 4096) * 4096 + ((s1 / 64) % 64) * 64 + s1 % 64);
        assert(s2 == (s2 / 4096) * 4096 + ((s2 / 64) % 64) * 64 + s2 % 64);
    }
}

/// Mirroring a move twice gives it back.
pub proof fn lemma_toggle_rows_involution(m: Move)
    requires
        m.wf(),
    ensures
        m.spec_toggle_rows().spec_toggle_rows() == m,
{
    let f = m.spec_from();
    let t = m.spec_to();
    let mt = m.spec_move_type();
    assert(0 <= m.from_index() < 64);
    assert(0 <= m.to_index() < 64);
    crate::base::position::lemma_from_index_wf(m.from_index());
    crate::base::position::lemma_from_index_wf(m.to_index());
    crate::base::position::lemma_toggle_row_involution(f);
    crate::base::position::lemma_toggle_row_involution(t);
    lemma_move_new_getters(f.spec_toggle_row(), t.spec_toggle_row(), mt);
    let m1 = m.spec_toggle_rows();
    lemma_move_new_getters(f, t, mt);
    lemma_move_eq(Move::spec_new(f, t, mt), m);
}

/// The start and end field of every move lie on the board.
pub proof fn lemma_move_fields_wf(m: Move)
    ensures
        m.spec_from().wf(),
        m.spec_to().wf(),
{
    crate::base::position::lemma_from_index_wf(m.from_index());
    crate::base::position::lemma_from_index_wf(m.to_index());
}

/// Reading the code of a move gives the move back.
pub proof fn lemma_parse_move_code(m: Move)
    requires
        m.wf(),
    ensures
        spec_parse_move(m.spec_code()) == Some(m),
{
    let f = m.spec_from();
    let t = m.spec_to();
    let mt = m.spec_move_type();
    crate::base::position::lemma_from_index_wf(m.from_index());
    crate::base::position::lemma_from_index_wf(m.to_index());
    crate::base::position::lemma_parse_code(f);
    crate::base::position::lemma_parse_code(t);
    let code = m.spec_code();
    assert(code.subrange(0, 2) =~= f.spec_code());
    assert(code.subrange(3, 5) =~= t.spec_code());
    assert(code[2] == mt.spec_code());
    lemma_move_type_state_roundtrip(mt);
    lemma_move_new_getters(f, t, mt);
    lemma_move_eq(Move::spec_new(f, t, mt), m);
}

} // verus!

verus! {

/// The moves a figure or a side can make, held inline in a `tinyvec::TinyVec`
/// for up to 80 moves and on the heap beyond.
#[verifier::external_body]
#[derive(Debug)]
pub struct Moves {
    inner: tinyvec::TinyVec<[Move; 80]>,
}

/// The moves a `Moves` holds, in order.
pub uninterp spec fn moves_content(moves: Moves) -> Seq<Move>;

/// `TinyVec::new`: a new, empty vec.
#[verifier::external_body]
fn tiny_vec_new() -> (r: Moves)
    ensures
        moves_content(r) == Seq::<Move>::empty(),
{
    Moves { inner: tinyvec::TinyVec::new() }
}

/// `TinyVec::push`: places an element onto the end of the vec.
#[verifier::external_body]
fn tiny_vec_push(moves: &mut Moves, m: Move)
    ensures
        moves_content(*final(moves)) == moves_content(*old(moves)).push(m),
{
    moves.inner.push(m)
}

/// `TinyVec::len`: the number of elements.
#[verifier::external_body]
fn tiny_vec_len(moves: &Moves) -> (r: usize)
    ensures
        r == moves_content(*moves).len(),
{
    moves.inner.len()
}

/// Indexing a `TinyVec` (through its slice): the element at `i`.
#[verifier::external_body]
fn tiny_vec_index(moves: &Moves, i: usize) -> (r: Move)
    requires
        i < moves_content(*moves).len(),
    ensures
        r == moves_content(*moves)[i as int],
{
    moves.inner[i]
}

/// `<[T]>::swap` on the slice of a `TinyVec`: exchanges the elements at `i` and `j`.
#[verifier::external_body]
fn tiny_vec_swap(moves: &mut Moves, i: usize, j: usize)
    requires
        i < moves_content(*old(moves)).len(),
        j < moves_content(*old(moves)).len(),
    ensures
        moves_content(*final(moves)) == moves_content(*old(moves)).update(i as int, moves_content(
            *old(moves),
        )[j as int]).update(j as int, moves_content(*old(moves))[i as int]),
{
    moves.inner.swap(i, j)
}

/// `TinyVec::clone`: clones each element (a `Move` is copied as it is).
#[verifier::external_body]
fn tiny_vec_clone(moves: &Moves) -> (r: Moves)
    ensures
        moves_content(r) == moves_content(*moves),
{
    Moves { inner: moves.inner.clone() }
}

impl View for Moves {
    type V = Seq<Move>;

    open spec fn view(&self) -> Seq<Move> {
        moves_content(*self)
    }
}

impl Moves {
    pub fn new() -> (r: Moves)
        ensures
            r@ == Seq::<Move>::empty(),
    {
        tiny_vec_new()
    }

    pub fn push(&mut self, m: Move)
        ensures
            final(self)@ == old(self)@.push(m),
    {
        tiny_vec_push(self, m)
    }

    pub fn len(&self) -> (r: usize)
        ensures
            r == self@.len(),
    {
        tiny_vec_len(self)
    }

    pub fn get(&self, i: usize) -> (r: Move)
        requires
            i < self@.len(),
        ensures
            r == self@[i as int],
    {
        tiny_vec_index(self, i)
    }

    pub fn swap(&mut self, i: usize, j: usize)
        requires
            i < old(self)@.len(),
            j < old(self)@.len(),
        ensures
            final(self)@ == old(self)@.update(i as int, old(self)@[j as int]).update(j as int, old(self)@[i as int]),
    {
        tiny_vec_swap(self, i, j)
    }

    pub fn contains(&self, m: Move) -> (r: bool)
        ensures
            r == self@.contains(m),
    {
        let n = self.len();
        let mut i: usize = 0;
        while i < n
            invariant
                n == self@.len(),
                i <= n,
                forall|j: int| 0 <= j < i ==> self@[j] != m,
            decreases n - i,
        {
            if self.get(i) == m {
                return true;
            }
            i = i + 1;
        }
        false
    }

    /// The moves, in order, in a `Vec`.
    pub fn to_vec(&self) -> (r: Vec<Move>)
        ensures
            r@ == self@,
    {
        let n = self.len();
        let mut r: Vec<Move> = Vec::new();
        let mut i: usize = 0;
        while i < n
            invariant
                n == self@.len(),
                i <= n,
                r@ == self@.subrange(0, i as int),
            decreases n - i,
        {
            r.push(self.get(i));
            assert(r@ =~= self@.subrange(0, i + 1));
            i = i + 1;
        }
        assert(r@ =~= self@);
        r
    }
}

impl Clone for Moves {
    fn clone(&self) -> (r: Moves)
        ensures
            r@ == self@,
    {
        tiny_vec_clone(self)
    }
}

} // verus!
