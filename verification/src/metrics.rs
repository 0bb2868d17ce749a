//! The box that a node takes up in a layout.

use crate::ast::AST;
use vstd::prelude::*;

verus! {

/// The height and width of the box that a value takes up in a layout.
///
/// A value that says nothing else is one unit high and one unit wide.
pub trait BoxArea {
    /// The height of the box.
    open spec fn box_height(&self) -> nat {
        1
    }

    /// The width of the box.
    open spec fn box_width(&self) -> nat {
        1
    }

    /// Whether the value has a height at all.
    open spec fn has_height(&self) -> bool {
        true
    }

    /// The height of the box: one unit, unless the value says otherwise.
    fn height(&self) -> (height: usize)
        requires
            self.has_height(),
            self.box_height() <= usize::MAX,
        default_ensures
            height == 1,
    {
        1
    }

    /// The width of the box: one unit, unless the value says otherwise.
    fn width(&self) -> (width: usize)
        requires
            self.box_width() <= usize::MAX,
        default_ensures
            width == 1,
    {
        1
    }
}

/// The least of the heights of `terms`; zero where there is none.
pub open spec fn least_height(terms: Seq<AST>) -> nat
    decreases terms,
{
    if terms.len() == 0 {
        0
    } else if terms.len() == 1 {
        terms[0].box_height()
    } else {
        let front = least_height(terms.drop_last());
        let last = terms.last().box_height();
        if last < front {
            last
        } else {
            front
        }
    }
}

/// The least height among terms is the height of one of them, and none of
/// them is lower.
pub proof fn lemma_least_height_is_least(terms: Seq<AST>)
    requires
        terms.len() > 0,
    ensures
        forall|i: int| 0 <= i < terms.len() ==> least_height(terms) <= (#[trigger] terms[i]).box_height(),
        exists|i: int| 0 <= i < terms.len() && least_height(terms) == (#[trigger] terms[i]).box_height(),
    decreases terms,
{
    if terms.len() > 1 {
        let front = terms.drop_last();
        lemma_least_height_is_least(front);
        assert forall|i: int| 0 <= i < terms.len() implies least_height(terms) <= (
        #[trigger] terms[i]).box_height() by {
            if i < front.len() {
                assert(front[i] == terms[i]);
            }
        }
        let last = terms.len() - 1;
        if terms[last].box_height() < least_height(front) {
            assert(least_height(terms) == terms[last].box_height());
        } else {
            let i = choose|i: int| 0 <= i < front.len() && least_height(front) == (
            #[trigger] front[i]).box_height();
            assert(front[i] == terms[i]);
            assert(least_height(terms) == terms[i].box_height());
        }
    } else {
        assert(least_height(terms) == terms[0].box_height());
    }
}

/// No node is more than one unit high.
pub proof fn lemma_height_at_most_one(node: AST)
    ensures
        node.box_height() <= 1,
    decreases node,
{
    match node {
        AST::AdditiveExpression { terms } => lemma_least_height_at_most_one(terms@),
        _ => {},
    }
}

/// The least height among any terms is at most one unit.
pub proof fn lemma_least_height_at_most_one(terms: Seq<AST>)
    ensures
        least_height(terms) <= 1,
    decreases terms,
{
    if terms.len() == 1 {
        lemma_height_at_most_one(terms[0]);
    } else if terms.len() > 1 {
        lemma_least_height_at_most_one(terms.drop_last());
    }
}

/// A binary operator is as wide as its two operands together and one unit
/// more, whatever the operands are.
pub proof fn lemma_infix_width(node: AST)
    requires
        node is InfixOperators,
    ensures
        node.box_width() == node->lhs.box_width() + node->rhs.box_width() + 1,
{
}

/// The least of the heights of `terms`, which is not empty.
fn least_height_of(terms: &Vec<AST>) -> (least: usize)
    requires
        terms@.len() > 0,
        forall|i: int| 0 <= i < terms@.len() ==> (#[trigger] terms@[i]).has_height(),
    ensures
        least == least_height(terms@),
    decreases terms,
{
    proof {
        lemma_height_at_most_one(terms[0]);
        assert(terms@.take(1).len() == 1);
    }
    let mut least = terms[0].height();
    let mut i: usize = 1;
    while i < terms.len()
        invariant
            1 <= i <= terms.len(),
            forall|i: int| 0 <= i < terms@.len() ==> (#[trigger] terms@[i]).has_height(),
            least == least_height(terms@.take(i as int)),
        decreases terms.len() - i,
    {
        proof {
            lemma_height_at_most_one(terms[i as int]);
            assert(terms@.take(i + 1).drop_last() =~= terms@.take(i as int));
        }
        let next = terms[i].height();
        if next < least {
            least = next;
        }
        i = i + 1;
    }
    assert(terms@.take(terms.len() as int) =~= terms@);
    least
}

impl BoxArea for AST {
    /// Nothing for the empty statement, the least height among the terms for
    /// a sum, one unit for every other node.
    open spec fn box_height(&self) -> nat
        decreases self,
    {
        match self {
            AST::EmptyStatement => 0,
            AST::AdditiveExpression { terms } => least_height(terms@),
            _ => 1,
        }
    }

    /// A sum has a height where it has a term and each term has a height;
    /// every other node has one.
    open spec fn has_height(&self) -> bool
        decreases self,
    {
        match self {
            AST::AdditiveExpression { terms } => terms@.len() > 0 && forall|i: int|
                0 <= i < terms@.len() ==> (#[trigger] terms@[i]).has_height(),
            _ => true,
        }
    }

    /// Nothing for the empty statement, the number of terms for a sum, the
    /// number of items for a list, the operand's width and one unit for each
    /// operator around a unary operand, both operands' widths and one unit
    /// for a binary operator, one unit for every other node.
    open spec fn box_width(&self) -> nat
        decreases self,
    {
        match self {
            AST::EmptyStatement => 0,
            AST::AdditiveExpression { terms } => terms@.len(),
            AST::List(items) => items@.len(),
            AST::UnaryOperators { base, prefix, suffix } => base.box_width() + prefix@.len()
                + suffix@.len(),
            AST::InfixOperators { infix, lhs, rhs } => lhs.box_width() + rhs.box_width() + 1,
            _ => 1,
        }
    }

    fn height(&self) -> (height: usize)
        ensures
            height == self.box_height(),
        decreases self,
    {
        match self {
            AST::EmptyStatement => 0,
            AST::AdditiveExpression { terms } => least_height_of(terms),
            _ => 1,
        }
    }

    fn width(&self) -> (width: usize)
        ensures
            width == self.box_width(),
        decreases self,
    {
        match self {
            AST::EmptyStatement => 0,
            AST::AdditiveExpression { terms } => terms.len(),
            AST::List(items) => items.len(),
            AST::UnaryOperators { base, prefix, suffix } => base.width() + prefix.len()
                + suffix.len(),
            AST::InfixOperators { infix, lhs, rhs } => {
                assert(self.box_width() == lhs.box_width() + rhs.box_width() + 1);
                lhs.width() + rhs.width() + 1
            },
            _ => 1,
        }
    }
}

/// Whether each of `terms` has a height.
fn each_has_height(terms: &Vec<AST>) -> (all: bool)
    ensures
        all == forall|i: int| 0 <= i < terms@.len() ==> (#[trigger] terms@[i]).has_height(),
    decreases terms,
{
    let mut i: usize = 0;
    while i < terms.len()
        invariant
            i <= terms.len(),
            forall|j: int| 0 <= j < i ==> terms[j].has_height(),
        decreases terms.len() - i,
    {
        if !terms[i].measurable() {
            return false;
        }
        i = i + 1;
    }
    true
}

impl AST {
    /// Whether the node has a height: whether `height` may be asked for it.
    pub fn measurable(&self) -> (measurable: bool)
        ensures
            measurable == self.has_height(),
        decreases self,
    {
        match self {
            AST::AdditiveExpression { terms } => terms.len() > 0 && each_has_height(terms),
            _ => true,
        }
    }

    /// The width of the box, if a `usize` holds it.
    pub fn checked_width(&self) -> (width: Option<usize>)
        ensures
            match width {
                Some(width) => width == self.box_width(),
                None => self.box_width() > usize::MAX,
            },
        decreases self,
    {
        match self {
            AST::UnaryOperators { base, prefix, suffix } => {
                assert(self.box_width() == base.box_width() + prefix@.len() + suffix@.len());
                match base.checked_width() {
                    None => None,
                    Some(inner) => match inner.checked_add(prefix.len()) {
                        None => None,
                        Some(partial) => partial.checked_add(suffix.len()),
                    },
                }
            },
            AST::InfixOperators { infix, lhs, rhs } => {
                assert(self.box_width() == lhs.box_width() + rhs.box_width() + 1);
                match lhs.checked_width() {
                    None => None,
                    Some(left) => match rhs.checked_width() {
                        None => None,
                        Some(right) => match left.checked_add(right) {
                            None => None,
                            Some(both) => both.checked_add(1),
                        },
                    },
                }
            },
            AST::EmptyStatement => Some(0),
            AST::AdditiveExpression { terms } => Some(terms.len()),
            AST::List(items) => Some(items.len()),
            _ => Some(1),
        }
    }
}

} // verus!
