//! Bindings: a chord expression and what is to happen when it matches.

use std::ops::Shr;
use vstd::prelude::*;
use vstd::std_specs::ops::ShrSpecImpl;
use vstd::string::StringExecFns;
use crate::ast::{Atom, AST};
use crate::display::Keysym;
use crate::key_state::KeyState;
use crate::transition::{eval, evaluate, NodeOut};

verus! {

/// What the host does when a binding fires.
#[derive(Debug, PartialEq, Eq)]
pub enum Callback {
    /// Hand the command line to the shell.
    Run(String),
    /// Call the action that the host keeps under this number, with the
    /// branch index.
    Call(usize),
}

#[derive(Debug, PartialEq, Eq)]
pub struct Binding {
    pub key_tree: AST,
    pub callback: Option<Callback>,
}

/// The symbolic keys of the key leaves of `e`, from left to right.
pub open spec fn key_leaves(e: AST) -> Seq<Keysym>
    decreases e,
{
    match e {
        AST::Sequence(a, b) => key_leaves(*a) + key_leaves(*b),
        AST::All(a, b) => key_leaves(*a) + key_leaves(*b),
        AST::Any(a, b) => key_leaves(*a) + key_leaves(*b),
        AST::Key { key, .. } => seq![key],
        _ => Seq::empty(),
    }
}

fn push_keys(e: &AST, out: &mut Vec<Keysym>)
    ensures
        final(out)@ == old(out)@ + key_leaves(*e),
    decreases *e,
{
    match e {
        AST::Sequence(a, b) | AST::All(a, b) | AST::Any(a, b) => {
            push_keys(a, out);
            push_keys(b, out);
            assert(out@ == old(out)@ + key_leaves(*e));
        },
        AST::Key { key, .. } => {
            out.push(*key);
            assert(out@ == old(out)@ + key_leaves(*e));
        },
        _ => {
            assert(out@ == old(out)@ + key_leaves(*e));
        },
    }
}

/// Appends the atoms of the leaves of `e`, from left to right.
pub fn push_atoms(e: &AST, out: &mut Vec<Atom>)
    ensures
        final(out)@ == old(out)@ + e.leaf_atoms(),
    decreases *e,
{
    match e {
        AST::Sequence(a, b) | AST::All(a, b) | AST::Any(a, b) => {
            push_atoms(a, out);
            push_atoms(b, out);
            assert(out@ == old(out)@ + e.leaf_atoms());
        },
        AST::Key { key, .. } => {
            out.push(Atom::Key(*key));
            assert(out@ == old(out)@ + e.leaf_atoms());
        },
        AST::Button { button, .. } => {
            out.push(Atom::Button(*button));
            assert(out@ == old(out)@ + e.leaf_atoms());
        },
        AST::Modifier { modifier, .. } => {
            out.push(Atom::Modifier(*modifier));
            assert(out@ == old(out)@ + e.leaf_atoms());
        },
    }
}

impl Binding {
    /// get all registered keys
    pub fn get_keys(&self) -> (r: Vec<Keysym>)
        ensures
            r@ == key_leaves(self.key_tree),
    {
        let mut out: Vec<Keysym> = Vec::new();
        push_keys(&self.key_tree, &mut out);
        out
    }

    /// process event
    ///
    /// Evaluates the expression from its root against what is pressed.
    pub fn handle_event(&self, keys: &KeyState) -> (r: NodeOut)
        ensures
            r@ == eval(self.key_tree, keys.active_atoms()),
    {
        evaluate(&self.key_tree, keys)
    }

    /// Sets the action that the host calls when the binding fires.
    pub fn on_match(self, action: usize) -> (r: Self)
        ensures
            r.key_tree == self.key_tree,
            r.callback == Some(Callback::Call(action)),
    {
        Binding { key_tree: self.key_tree, callback: Some(Callback::Call(action)) }
    }

    /// Sets the command line that the host runs when the binding fires.
    pub fn then_run(self, path: &str) -> (r: Self)
        ensures
            r.key_tree == self.key_tree,
            r.callback matches Some(Callback::Run(command)) && command@ == path@,
    {
        Binding { key_tree: self.key_tree, callback: Some(Callback::Run(String::from_str(path))) }
    }
}

/// More readable way than "then_run"
impl Shr<&str> for Binding {
    type Output = Self;

    fn shr(self, rhs: &str) -> (r: Self::Output)
        ensures
            r.key_tree == self.key_tree,
            r.callback matches Some(Callback::Run(command)) && command@ == rhs@,
    {
        self.then_run(rhs)
    }
}

/// What `>>` with a command line gives is stated on the operator itself: a
/// command is a string, and no specification value is one.
impl ShrSpecImpl<&str> for Binding {
    open spec fn obeys_shr_spec() -> bool {
        false
    }

    open spec fn shr_req(self, rhs: &str) -> bool {
        true
    }

    open spec fn shr_spec(self, rhs: &str) -> Self::Output {
        self
    }
}

/// More readable way than "on_match"
impl Shr<usize> for Binding {
    type Output = Self;

    fn shr(self, rhs: usize) -> (r: Self::Output)
        ensures
            r.key_tree == self.key_tree,
            r.callback == Some(Callback::Call(rhs)),
    {
        self.on_match(rhs)
    }
}

impl ShrSpecImpl<usize> for Binding {
    open spec fn obeys_shr_spec() -> bool {
        true
    }

    open spec fn shr_req(self, rhs: usize) -> bool {
        true
    }

    open spec fn shr_spec(self, rhs: usize) -> Self::Output {
        Binding { key_tree: self.key_tree, callback: Some(Callback::Call(rhs)) }
    }
}

pub fn bind(key_tree: AST) -> (r: Binding)
    ensures
        r.key_tree == key_tree,
        r.callback is None,
{
    Binding { key_tree, callback: None }
}

/// Accepts a command line for the shell. None is refused: whether the
/// command can be started shows only when the host runs it.
pub fn run_checked(path: &str) -> (r: Result<(), ()>)
    ensures
        r is Ok,
{
    Ok(())
}

} // verus!
