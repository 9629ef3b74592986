use vstd::prelude::*;

verus! {

/// The two sides of a chess game.
#[derive(Debug, Copy, Clone, PartialEq, Eq, Structural, Hash)]
pub enum Color {
    Black,
    White,
}

impl Color {
    /// The opposite color.
    pub open spec fn spec_toggle(self) -> Color {
        match self {
            Color::White => Color::Black,
            Color::Black => Color::White,
        }
    }

    pub fn toggle(&self) -> (r: Color)
        ensures
            r == self.spec_toggle(),
    {
        match self {
            Color::White => Color::Black,
            Color::Black => Color::White,
        }
    }

    /// The character FEN uses for the side to move.
    pub open spec fn spec_fen_char(self) -> char {
        match self {
            Color::Black => 'b',
            Color::White => 'w',
        }
    }

    pub fn get_fen_char(&self) -> (r: char)
        ensures
            r == self.spec_fen_char(),
    {
        match self {
            Color::Black => 'b',
            Color::White => 'w',
        }
    }

    /// The lowercase English name of the color.
    pub open spec fn spec_name(self) -> Seq<char> {
        match self {
            Color::White => seq!['w', 'h', 'i', 't', 'e'],
            Color::Black => seq!['b', 'l', 'a', 'c', 'k'],
        }
    }

    /// The lowercase English name of the color ("white" or "black").
    pub fn to_string(&self) -> (r: String)
        ensures
            r@ == self.spec_name(),
    {
        let mut s = String::new();
        match self {
            Color::White => {
                crate::base::text::push_char(&mut s, 'w');
                crate::base::text::push_char(&mut s, 'h');
                crate::base::text::push_char(&mut s, 'i');
                crate::base::text::push_char(&mut s, 't');
                crate::base::text::push_char(&mut s, 'e');
            },
            Color::Black => {
                crate::base::text::push_char(&mut s, 'b');
                crate::base::text::push_char(&mut s, 'l');
                crate::base::text::push_char(&mut s, 'a');
                crate::base::text::push_char(&mut s, 'c');
                crate::base::text::push_char(&mut s, 'k');
            },
        }
        assert(s@ =~= (match *self {
            Color::White => seq!['w', 'h', 'i', 't', 'e'],
            Color::Black => seq!['b', 'l', 'a', 'c', 'k'],
        }));
        s
    }
}

/// Toggling a color twice gives the color back.
pub proof fn lemma_toggle_involution(c: Color)
    ensures
        c.spec_toggle().spec_toggle() == c,
        c.spec_toggle() != c,
{
}

/// A flag that starts out with a value and can only ever be switched off.
#[derive(Debug, Copy, Clone, PartialEq, Eq, Structural)]
pub struct Deactivatable {
    value: bool,
}

impl Deactivatable {
    pub closed spec fn spec_value(self) -> bool {
        self.value
    }

    pub fn new(value: bool) -> (r: Deactivatable)
        ensures
            r.spec_value() == value,
    {
        Deactivatable { value }
    }

    pub fn deactivate(&mut self)
        ensures
            final(self).spec_value() == false,
    {
        self.value = false;
    }

    pub fn get_value(&self) -> (r: bool)
        ensures
            r == self.spec_value(),
    {
        self.value
    }
}

/// Two flags with the same value are the same flag.
pub proof fn lemma_deactivatable_eq(a: Deactivatable, b: Deactivatable)
    ensures
        a.spec_value() == b.spec_value() <==> a == b,
{
}

} // verus!
