//! The chord algebra: expressions over atoms.

use vstd::prelude::*;
use crate::display::{Button, Keysym, Modifier};

verus! {

/// An indivisible input predicate.
#[derive(Clone, Copy, Debug, PartialEq, Eq, Structural)]
pub enum Atom {
    Key(Keysym),
    Button(Button),
    Modifier(Modifier),
}

/// A chord expression.
#[derive(Debug, PartialEq, Eq)]
pub enum AST {
    // e.g.: Key(x) ; Key(c)
    Sequence(Box<AST>, Box<AST>),
    // e.g.: Key(super) + Key(c)
    All(Box<AST>, Box<AST>),
    // e.g.: {Key(c), Key(n)}
    Any(Box<AST>, Box<AST>),
    // e.g.: c
    Key { key: Keysym, replay: bool },
    // e.g.: right mouse button
    Button { button: Button, replay: bool },
    // e.g.: Scroll lock
    Modifier { modifier: Modifier, replay: bool },
}

impl AST {
    /// True for the three kinds of leaves.
    pub open spec fn is_leaf(self) -> bool {
        self is Key || self is Button || self is Modifier
    }

    /// The atom of a leaf.
    pub open spec fn atom(self) -> Atom
        recommends
            self.is_leaf(),
    {
        match self {
            AST::Key { key, .. } => Atom::Key(key),
            AST::Button { button, .. } => Atom::Button(button),
            AST::Modifier { modifier, .. } => Atom::Modifier(modifier),
            _ => arbitrary(),
        }
    }

    /// The replay flag of a leaf.
    pub open spec fn replay(self) -> bool
        recommends
            self.is_leaf(),
    {
        match self {
            AST::Key { replay, .. } => replay,
            AST::Button { replay, .. } => replay,
            AST::Modifier { replay, .. } => replay,
            _ => false,
        }
    }

    /// Number of alternatives of the disjunction at the top of the
    /// expression. A disjunction inside a disjunction is part of the same
    /// list; every other expression is one alternative, whatever it holds.
    pub open spec fn width(self) -> nat
        decreases self,
    {
        match self {
            AST::Any(a, b) => a.width() + b.width(),
            _ => 1,
        }
    }

    /// The atoms of the leaves, from left to right.
    pub open spec fn leaf_atoms(self) -> Seq<Atom>
        decreases self,
    {
        match self {
            AST::Sequence(a, b) => a.leaf_atoms() + b.leaf_atoms(),
            AST::All(a, b) => a.leaf_atoms() + b.leaf_atoms(),
            AST::Any(a, b) => a.leaf_atoms() + b.leaf_atoms(),
            _ => seq![self.atom()],
        }
    }

    /// True if `atom` occurs in a leaf of the expression.
    pub open spec fn mentions(self, atom: Atom) -> bool {
        self.leaf_atoms().contains(atom)
    }

    /// Deep copy.
    pub fn duplicate(&self) -> (r: AST)
        ensures
            r == *self,
        decreases *self,
    {
        match self {
            AST::Sequence(a, b) => AST::Sequence(Box::new(a.duplicate()), Box::new(b.duplicate())),
            AST::All(a, b) => AST::All(Box::new(a.duplicate()), Box::new(b.duplicate())),
            AST::Any(a, b) => AST::Any(Box::new(a.duplicate()), Box::new(b.duplicate())),
            AST::Key { key, replay } => AST::Key { key: *key, replay: *replay },
            AST::Button { button, replay } => AST::Button { button: *button, replay: *replay },
            AST::Modifier { modifier, replay } => AST::Modifier {
                modifier: *modifier,
                replay: *replay,
            },
        }
    }
}

/// Why an expression could not be built.
#[derive(Clone, Copy, Debug, PartialEq, Eq, Structural)]
pub enum BuildError {
    /// The replay flag was toggled on a node that is not a leaf.
    ReplayOnCompound,
}

/// Every expression is at least one alternative.
pub proof fn lemma_width_positive(e: AST)
    ensures
        e.width() >= 1,
    decreases e,
{
    match e {
        AST::Any(a, b) => {
            lemma_width_positive(*a);
            lemma_width_positive(*b);
        },
        _ => {},
    }
}

/// consume key from other clients
pub fn key(keysym: Keysym) -> (r: AST)
    ensures
        r == (AST::Key { key: keysym, replay: false }),
{
    AST::Key { key: keysym, replay: false }
}

/// A leaf for a pointer button, consumed from other clients.
pub fn button(code: Button) -> (r: AST)
    ensures
        r == (AST::Button { button: code, replay: false }),
{
    AST::Button { button: code, replay: false }
}

/// A leaf for a modifier, consumed from other clients.
pub fn modifier(mask: Modifier) -> (r: AST)
    ensures
        r == (AST::Modifier { modifier: mask, replay: false }),
{
    AST::Modifier { modifier: mask, replay: false }
}

/// requires two expressions active at the same time
pub fn and(left: AST, right: AST) -> (r: AST)
    ensures
        r == AST::All(Box::new(left), Box::new(right)),
{
    AST::All(Box::new(left), Box::new(right))
}

/// requires at least one expression active at the same time
pub fn or(left: AST, right: AST) -> (r: AST)
    ensures
        r == AST::Any(Box::new(left), Box::new(right)),
{
    AST::Any(Box::new(left), Box::new(right))
}

/// requires the first expression to be active, then requires the second expression to be active.
pub fn sequence(first: AST, second: AST) -> (r: AST)
    ensures
        r == AST::Sequence(Box::new(first), Box::new(second)),
{
    AST::Sequence(Box::new(first), Box::new(second))
}

/// What toggling the replay flag of `e` gives: the same leaf with the flag
/// inverted, and an error for every other node.
pub open spec fn toggled(e: AST) -> Result<AST, BuildError> {
    match e {
        AST::Key { key, replay } => Ok(AST::Key { key, replay: !replay }),
        AST::Button { button, replay } => Ok(AST::Button { button, replay: !replay }),
        AST::Modifier { modifier, replay } => Ok(AST::Modifier { modifier, replay: !replay }),
        _ => Err(BuildError::ReplayOnCompound),
    }
}

/// Toggle the replay key
pub fn toggle_replay(e: AST) -> (r: Result<AST, BuildError>)
    ensures
        r == toggled(e),
        r is Ok <==> e.is_leaf(),
{
    match e {
        AST::Key { key, replay } => Ok(AST::Key { key, replay: !replay }),
        AST::Button { button, replay } => Ok(AST::Button { button, replay: !replay }),
        AST::Modifier { modifier, replay } => Ok(AST::Modifier { modifier, replay: !replay }),
        _ => Err(BuildError::ReplayOnCompound),
    }
}

/// Toggling the replay flag of a leaf twice gives the leaf back.
pub proof fn lemma_double_toggle(e: AST)
    requires
        e.is_leaf(),
    ensures
        toggled(e) is Ok,
        toggled(toggled(e)->Ok_0) == Ok::<AST, BuildError>(e),
{
}

/// Toggling keeps the atom of a leaf and inverts its flag.
pub proof fn lemma_toggle_keeps_atom(e: AST)
    requires
        e.is_leaf(),
    ensures
        toggled(e)->Ok_0.is_leaf(),
        toggled(e)->Ok_0.atom() == e.atom(),
        toggled(e)->Ok_0.replay() == !e.replay(),
{
}

} // verus!
