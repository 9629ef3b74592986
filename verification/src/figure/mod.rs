use vstd::prelude::*;
use crate::base::{ChessError, Color, ErrorKind, Position};
use crate::base::errors::chess_error;
use crate::base::position::spec_parse_position;
use crate::base::text::{chars_of, push_char};

pub mod functions;

verus! {

#[derive(Debug, Copy, Clone, PartialEq, Eq, Structural, Hash)]
pub enum FigureType {
    Pawn,
    Rook,
    Knight,
    Bishop,
    Queen,
    King,
}

/// A chess figure: its type and its color.
#[derive(Debug, Copy, Clone, PartialEq, Eq, Structural, Hash)]
pub struct Figure {
    pub fig_type: FigureType,
    pub color: Color,
}

/// The chess symbol of a figure, like the white king `\u{2654}`.
pub open spec fn spec_symbol(f: Figure) -> char {
    match (f.fig_type, f.color) {
        (FigureType::King, Color::White) => '\u{2654}',
        (FigureType::Queen, Color::White) => '\u{2655}',
        (FigureType::Rook, Color::White) => '\u{2656}',
        (FigureType::Bishop, Color::White) => '\u{2657}',
        (FigureType::Knight, Color::White) => '\u{2658}',
        (FigureType::Pawn, Color::White) => '\u{2659}',
        (FigureType::King, Color::Black) => '\u{265A}',
        (FigureType::Queen, Color::Black) => '\u{265B}',
        (FigureType::Rook, Color::Black) => '\u{265C}',
        (FigureType::Bishop, Color::Black) => '\u{265D}',
        (FigureType::Knight, Color::Black) => '\u{265E}',
        (FigureType::Pawn, Color::Black) => '\u{265F}',
    }
}

/// The figure a single chess symbol stands for, if it stands for one.
pub open spec fn spec_figure_of_symbol(c: char) -> Option<Figure> {
    if '\u{2654}' <= c <= '\u{265F}' {
        let k = c as int - 0x2654;
        let color = if k < 6 { Color::White } else { Color::Black };
        let t = k % 6;
        let fig_type = if t == 0 {
            FigureType::King
        } else if t == 1 {
            FigureType::Queen
        } else if t == 2 {
            FigureType::Rook
        } else if t == 3 {
            FigureType::Bishop
        } else if t == 4 {
            FigureType::Knight
        } else {
            FigureType::Pawn
        };
        Some(Figure { fig_type, color })
    } else {
        None
    }
}

/// The figure a text like "\u{2659}" names: exactly one chess symbol.
pub open spec fn spec_parse_figure(s: Seq<char>) -> Option<Figure> {
    if s.len() == 1 {
        spec_figure_of_symbol(s[0])
    } else {
        None
    }
}

impl Figure {
    /// Adds the moves this figure, standing on `pos` for the side to move, can reach; see
    /// `spec_reachable_moves_of`.
    pub fn for_reachable_moves(&self, pos: Position, game_state: &crate::game::GameState, move_collector: &mut crate::base::a_move::Moves)
        requires
            pos.wf(),
            game_state.en_passant_intercept_pos matches Some(p) ==> p.wf(),
        ensures
            final(move_collector)@ == old(move_collector)@ + crate::figure::functions::reachable::spec_reachable_moves_of(
                game_state.model(),
                self.fig_type,
                pos,
            ),
    {
        crate::figure::functions::reachable::for_reachable_moves(self.fig_type, pos, game_state, move_collector)
    }

    /// The letter FEN uses for this figure: upper case for white, lower case for black.
    pub open spec fn spec_fen_char(self) -> char {
        let c = match self.fig_type {
            FigureType::Pawn => 'p',
            FigureType::Rook => 'r',
            FigureType::Knight => 'n',
            FigureType::Bishop => 'b',
            FigureType::Queen => 'q',
            FigureType::King => 'k',
        };
        if self.color == Color::White {
            ((c as int) - 32) as char
        } else {
            c
        }
    }

    pub fn get_fen_char(&self) -> (r: char)
        ensures
            r == self.spec_fen_char(),
    {
        match self.fig_type {
            FigureType::Pawn => if self.color == Color::White { 'P' } else { 'p' },
            FigureType::Rook => if self.color == Color::White { 'R' } else { 'r' },
            FigureType::Knight => if self.color == Color::White { 'N' } else { 'n' },
            FigureType::Bishop => if self.color == Color::White { 'B' } else { 'b' },
            FigureType::Queen => if self.color == Color::White { 'Q' } else { 'q' },
            FigureType::King => if self.color == Color::White { 'K' } else { 'k' },
        }
    }

    pub fn get_symbol(&self) -> (r: char)
        ensures
            r == spec_symbol(*self),
    {
        let white = match self.color {
            Color::White => true,
            Color::Black => false,
        };
        match self.fig_type {
            FigureType::King => if white { '\u{2654}' } else { '\u{265A}' },
            FigureType::Queen => if white { '\u{2655}' } else { '\u{265B}' },
            FigureType::Rook => if white { '\u{2656}' } else { '\u{265C}' },
            FigureType::Bishop => if white { '\u{2657}' } else { '\u{265D}' },
            FigureType::Knight => if white { '\u{2658}' } else { '\u{265E}' },
            FigureType::Pawn => if white { '\u{2659}' } else { '\u{265F}' },
        }
    }

    /// The figure a chess symbol stands for, if any.
    pub fn from_symbol(c: char) -> (r: Option<Figure>)
        ensures
            r == spec_figure_of_symbol(c),
    {
        if c == '\u{2654}' {
            Some(Figure { fig_type: FigureType::King, color: Color::White })
        } else if c == '\u{2655}' {
            Some(Figure { fig_type: FigureType::Queen, color: Color::White })
        } else if c == '\u{2656}' {
            Some(Figure { fig_type: FigureType::Rook, color: Color::White })
        } else if c == '\u{2657}' {
            Some(Figure { fig_type: FigureType::Bishop, color: Color::White })
        } else if c == '\u{2658}' {
            Some(Figure { fig_type: FigureType::Knight, color: Color::White })
        } else if c == '\u{2659}' {
            Some(Figure { fig_type: FigureType::Pawn, color: Color::White })
        } else if c == '\u{265A}' {
            Some(Figure { fig_type: FigureType::King, color: Color::Black })
        } else if c == '\u{265B}' {
            Some(Figure { fig_type: FigureType::Queen, color: Color::Black })
        } else if c == '\u{265C}' {
            Some(Figure { fig_type: FigureType::Rook, color: Color::Black })
        } else if c == '\u{265D}' {
            Some(Figure { fig_type: FigureType::Bishop, color: Color::Black })
        } else if c == '\u{265E}' {
            Some(Figure { fig_type: FigureType::Knight, color: Color::Black })
        } else if c == '\u{265F}' {
            Some(Figure { fig_type: FigureType::Pawn, color: Color::Black })
        } else {
            None
        }
    }

    /// Reads a figure from its chess symbol, like "\u{2654}" for the white king.
    pub fn parse(desc: &str) -> (r: Result<Figure, ChessError>)
        ensures
            r matches Ok(f) ==> spec_parse_figure(desc@) == Some(f),
            r is Err ==> spec_parse_figure(desc@) is None,
            r matches Err(e) ==> e.kind == ErrorKind::IllegalFormat,
    {
        let cs = chars_of(desc);
        if cs.len() == 1 {
            if let Some(f) = Figure::from_symbol(cs[0]) {
                return Ok(f);
            }
        }
        Err(chess_error(
            ErrorKind::IllegalFormat,
            "unexpected character, utf-chess symbol expected but got ",
            desc,
        ))
    }

    /// The chess symbol of this figure as a string.
    pub fn to_string(&self) -> (r: String)
        ensures
            r@ == seq![spec_symbol(*self)],
    {
        let mut s = String::new();
        push_char(&mut s, self.get_symbol());
        assert(s@ =~= seq![spec_symbol(*self)]);
        s
    }
}

impl std::str::FromStr for Figure {
    type Err = ChessError;

    fn from_str(desc: &str) -> (r: Result<Figure, ChessError>)
        ensures
            r matches Ok(f) ==> spec_parse_figure(desc@) == Some(f),
            r is Err ==> spec_parse_figure(desc@) is None,
            r matches Err(e) ==> e.kind == ErrorKind::IllegalFormat,
    {
        Figure::parse(desc)
    }
}

/// Reading the symbol of a figure gives the figure back.
pub proof fn lemma_symbol_roundtrip(f: Figure)
    ensures
        spec_figure_of_symbol(spec_symbol(f)) == Some(f),
{
}

/// A figure together with the field it stands on.
#[derive(Debug, Copy, Clone, PartialEq, Eq, Structural)]
pub struct FigureAndPosition {
    pub figure: Figure,
    pub pos: Position,
}

/// The figure and field a text like "\u{2654}e1" names: a chess symbol followed by a position code.
pub open spec fn spec_parse_figure_and_position(s: Seq<char>) -> Option<FigureAndPosition> {
    if s.len() == 3 && spec_figure_of_symbol(s[0]) is Some && spec_parse_position(s.subrange(1, 3)) is Some {
        Some(FigureAndPosition {
            figure: spec_figure_of_symbol(s[0])->0,
            pos: spec_parse_position(s.subrange(1, 3))->0,
        })
    } else {
        None
    }
}

impl FigureAndPosition {
    /// The figure and field the characters name, if they name one.
    pub fn parse_chars(cs: &Vec<char>) -> (r: Option<FigureAndPosition>)
        ensures
            r == spec_parse_figure_and_position(cs@),
            r matches Some(fp) ==> fp.pos.wf(),
    {
        if cs.len() != 3 {
            return None;
        }
        let figure = match Figure::from_symbol(cs[0]) {
            Some(f) => f,
            None => return None,
        };
        let pos_chars = vec![cs[1], cs[2]];
        assert(pos_chars@ =~= cs@.subrange(1, 3));
        let pos = match Position::parse_chars(&pos_chars) {
            Some(p) => p,
            None => return None,
        };
        Some(FigureAndPosition { figure, pos })
    }

    /// Reads a text like "\u{2654}e1".
    pub fn parse(desc: &str) -> (r: Result<FigureAndPosition, ChessError>)
        ensures
            r matches Ok(fp) ==> spec_parse_figure_and_position(desc@) == Some(fp) && fp.pos.wf(),
            r is Err ==> spec_parse_figure_and_position(desc@) is None,
            r matches Err(e) ==> e.kind == ErrorKind::IllegalFormat,
    {
        let cs = chars_of(desc);
        match FigureAndPosition::parse_chars(&cs) {
            Some(fp) => Ok(fp),
            None => Err(chess_error(
                ErrorKind::IllegalFormat,
                "expected a figure symbol followed by a position but found ",
                desc,
            )),
        }
    }
}

impl std::str::FromStr for FigureAndPosition {
    type Err = ChessError;

    fn from_str(desc: &str) -> (r: Result<FigureAndPosition, ChessError>)
        ensures
            r matches Ok(fp) ==> spec_parse_figure_and_position(desc@) == Some(fp) && fp.pos.wf(),
            r is Err ==> spec_parse_figure_and_position(desc@) is None,
            r matches Err(e) ==> e.kind == ErrorKind::IllegalFormat,
    {
        FigureAndPosition::parse(desc)
    }
}

} // verus!
