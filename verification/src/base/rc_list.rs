use vstd::prelude::*;
use std::rc::Rc;
use crate::base::a_move::Move;

verus! {

/// A persistent singly linked list: appending builds a new list that shares the old one.
pub struct RcList<T> {
    head: Option<Rc<Node<T>>>,
}

struct Node<T> {
    elem: T,
    next: Option<Rc<Node<T>>>,
}

/// The elements from a link on, the most recently appended first.
closed spec fn link_seq<T>(link: Option<Rc<Node<T>>>) -> Seq<T>
    decreases link,
{
    match link {
        None => Seq::empty(),
        Some(rc) => seq![rc.elem].add(link_seq(rc.next)),
    }
}

/// `Rc::clone` from std: another pointer to the same allocation.
#[verifier::external_body]
fn rc_clone<T>(rc: &Rc<T>) -> (r: Rc<T>)
    ensures
        r == *rc,
{
    Rc::clone(rc)
}

impl<T> View for RcList<T> {
    type V = Seq<T>;

    /// The elements of the list, the most recently appended first.
    closed spec fn view(&self) -> Seq<T> {
        link_seq(self.head)
    }
}

impl<T> RcList<T> {
    pub fn new() -> (r: Self)
        ensures
            r@ == Seq::<T>::empty(),
    {
        Self { head: None }
    }

    /// A new list holding `elem` in front of the elements of this one, which is left as it is.
    pub fn append_new(&self, elem: T) -> (r: Self)
        ensures
            r@ == seq![elem] + self@,
    {
        let new_node = match &self.head {
            None => Node { elem, next: None },
            Some(rc) => Node { elem, next: Some(rc_clone(rc)) },
        };
        let r = Self { head: Some(Rc::new(new_node)) };
        r
    }

    pub fn is_empty(&self) -> (r: bool)
        ensures
            r == (self@.len() == 0),
    {
        match &self.head {
            None => true,
            Some(_) => false,
        }
    }

    pub fn count(&self) -> (r: usize)
        requires
            self@.len() <= usize::MAX,
        ensures
            r == self@.len(),
    {
        let mut it = self.reverse_iter();
        let mut n: usize = 0;
        while it.has_next()
            invariant
                n + it@.len() == self@.len(),
                self@.len() <= usize::MAX,
            decreases it@.len(),
        {
            let _ = it.next();
            n = n + 1;
        }
        n
    }

    pub fn peek(&self) -> (r: Option<&T>)
        ensures
            self@.len() == 0 ==> r is None,
            self@.len() > 0 ==> r == Some(&self@[0]),
    {
        match &self.head {
            None => None,
            Some(rc) => Some(&rc.elem),
        }
    }

    /// Walks the elements from the most recently appended to the first one.
    pub fn reverse_iter(&self) -> (r: Iter<'_, T>)
        ensures
            r@ == self@,
    {
        match &self.head {
            None => Iter { next: None },
            Some(rc) => Iter { next: Some(&**rc) },
        }
    }
}

impl<T: Clone> Clone for RcList<T> {
    fn clone(&self) -> (r: Self)
        ensures
            r@ == self@,
    {
        match &self.head {
            None => RcList { head: None },
            Some(rc) => RcList { head: Some(rc_clone(rc)) },
        }
    }
}

impl RcList<Move> {
    /// The list of the same moves, each seen from the other side of the board.
    pub fn toggle_rows(&self) -> (r: RcList<Move>)
        ensures
            r@ == toggled_moves(self@),
    {
        let mut moves: Vec<Move> = Vec::new();
        let mut it = self.reverse_iter();
        while it.has_next()
            invariant
                moves@ + it@ == self@,
            decreases it@.len(),
        {
            let ghost before = it@;
            let m = it.next();
            match m {
                Some(a_move) => {
                    moves.push(*a_move);
                    assert(moves@ + it@ =~= self@);
                },
                None => {},
            }
        }
        assert(moves@ =~= self@);
        let mut result: RcList<Move> = RcList::new();
        let mut i = moves.len();
        while i > 0
            invariant
                moves@ == self@,
                i <= moves@.len(),
                result@.len() == moves@.len() - i,
                forall|j: int| 0 <= j < result@.len() ==> #[trigger] result@[j] == moves@[i + j].spec_toggle_rows(),
            decreases i,
        {
            i = i - 1;
            let toggled = moves[i].toggle_rows();
            let ghost old_result = result@;
            result = result.append_new(toggled);
            assert forall|j: int| 0 <= j < result@.len() implies #[trigger] result@[j] == moves@[i + j].spec_toggle_rows() by {
                if j > 0 {
                    assert(result@[j] == old_result[j - 1]);
                }
            }
        }
        assert(result@ =~= toggled_moves(self@));
        result
    }
}

/// Each move seen from the other side of the board.
pub open spec fn toggled_moves(moves: Seq<Move>) -> Seq<Move> {
    moves.map_values(|m: Move| m.spec_toggle_rows())
}

/// A list with an element put in front (what `append_new` gives) is not empty, shows the new
/// element first, is one element longer, and behind the new element holds the old list in the
/// same order; the old list itself is left as it was.
pub proof fn lemma_append_new_keeps_list<T>(list: Seq<T>, elem: T)
    ensures
        (seq![elem] + list).len() != 0,
        (seq![elem] + list)[0] == elem,
        (seq![elem] + list).len() == list.len() + 1,
        (seq![elem] + list).drop_first() == list,
{
    assert((seq![elem] + list).drop_first() =~= list);
}

/// Toggling the rows of a list of moves twice gives the list back.
pub proof fn lemma_toggled_moves_twice(moves: Seq<Move>)
    requires
        forall|i: int| 0 <= i < moves.len() ==> (#[trigger] moves[i]).wf(),
    ensures
        toggled_moves(toggled_moves(moves)) == moves,
{
    assert forall|i: int| 0 <= i < moves.len() implies #[trigger] toggled_moves(toggled_moves(moves))[i] == moves[i] by {
        crate::base::a_move::lemma_toggle_rows_involution(moves[i]);
    }
    assert(toggled_moves(toggled_moves(moves)) =~= moves);
}

/// Walks an `RcList` from its most recently appended element on.
pub struct Iter<'a, T> {
    next: Option<&'a Node<T>>,
}

impl<'a, T> View for Iter<'a, T> {
    type V = Seq<T>;

    /// The elements still to come.
    closed spec fn view(&self) -> Seq<T> {
        match self.next {
            None => Seq::empty(),
            Some(node) => seq![node.elem].add(link_seq(node.next)),
        }
    }
}

impl<'a, T> Iter<'a, T> {
    pub fn has_next(&self) -> (r: bool)
        ensures
            r == (self@.len() > 0),
    {
        match self.next {
            None => false,
            Some(_) => true,
        }
    }

    /// The next element, if any; the iterator moves past it.
    pub fn next(&mut self) -> (r: Option<&'a T>)
        ensures
            old(self)@.len() == 0 ==> r is None && final(self)@ == old(self)@,
            old(self)@.len() > 0 ==> r == Some(&old(self)@[0]) && final(self)@ == old(self)@.drop_first(),
    {
        match self.next {
            None => None,
            Some(node) => {
                let ghost rest = link_seq(node.next);
                assert((seq![node.elem] + rest).drop_first() =~= rest);
                self.next = match &node.next {
                    None => None,
                    Some(rc) => Some(&**rc),
                };
                Some(&node.elem)
            },
        }
    }
}

} // verus!
