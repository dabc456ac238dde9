//! The operators that build chord expressions: `+` for a conjunction, `|`
//! for a disjunction, `-` for a sequence and `!` for the replay flag.

use std::ops::{Add, BitOr, Not, Sub};
use vstd::prelude::*;
use vstd::std_specs::ops::{AddSpecImpl, BitOrSpecImpl, NotSpecImpl, SubSpecImpl};
use crate::ast::{toggled, AST};

verus! {

/// requires two expressions active at the same time
impl Add for AST {
    type Output = AST;

    fn add(self, rhs: Self) -> (r: Self::Output) {
        AST::All(Box::new(self), Box::new(rhs))
    }
}

impl AddSpecImpl for AST {
    open spec fn obeys_add_spec() -> bool {
        true
    }

    open spec fn add_req(self, rhs: Self) -> bool {
        true
    }

    open spec fn add_spec(self, rhs: Self) -> Self::Output {
        AST::All(Box::new(self), Box::new(rhs))
    }
}

impl Add<&AST> for AST {
    type Output = AST;

    fn add(self, rhs: &AST) -> (r: Self::Output) {
        AST::All(Box::new(self), Box::new(rhs.duplicate()))
    }
}

impl AddSpecImpl<&AST> for AST {
    open spec fn obeys_add_spec() -> bool {
        true
    }

    open spec fn add_req(self, rhs: &AST) -> bool {
        true
    }

    open spec fn add_spec(self, rhs: &AST) -> Self::Output {
        AST::All(Box::new(self), Box::new(*rhs))
    }
}

impl Add<&AST> for &AST {
    type Output = AST;

    fn add(self, rhs: &AST) -> (r: Self::Output) {
        AST::All(Box::new(self.duplicate()), Box::new(rhs.duplicate()))
    }
}

impl AddSpecImpl<&AST> for &AST {
    open spec fn obeys_add_spec() -> bool {
        true
    }

    open spec fn add_req(self, rhs: &AST) -> bool {
        true
    }

    open spec fn add_spec(self, rhs: &AST) -> Self::Output {
        AST::All(Box::new(*self), Box::new(*rhs))
    }
}

impl Add<AST> for &AST {
    type Output = AST;

    fn add(self, rhs: AST) -> (r: Self::Output) {
        AST::All(Box::new(self.duplicate()), Box::new(rhs))
    }
}

impl AddSpecImpl<AST> for &AST {
    open spec fn obeys_add_spec() -> bool {
        true
    }

    open spec fn add_req(self, rhs: AST) -> bool {
        true
    }

    open spec fn add_spec(self, rhs: AST) -> Self::Output {
        AST::All(Box::new(*self), Box::new(rhs))
    }
}

/// requires at least one expression active at the same time
impl BitOr for AST {
    type Output = AST;

    fn bitor(self, rhs: Self) -> (r: Self::Output) {
        AST::Any(Box::new(self), Box::new(rhs))
    }
}

impl BitOrSpecImpl for AST {
    open spec fn obeys_bitor_spec() -> bool {
        true
    }

    open spec fn bitor_req(self, rhs: Self) -> bool {
        true
    }

    open spec fn bitor_spec(self, rhs: Self) -> Self::Output {
        AST::Any(Box::new(self), Box::new(rhs))
    }
}

impl BitOr<&AST> for AST {
    type Output = AST;

    fn bitor(self, rhs: &AST) -> (r: Self::Output) {
        AST::Any(Box::new(self), Box::new(rhs.duplicate()))
    }
}

impl BitOrSpecImpl<&AST> for AST {
    open spec fn obeys_bitor_spec() -> bool {
        true
    }

    open spec fn bitor_req(self, rhs: &AST) -> bool {
        true
    }

    open spec fn bitor_spec(self, rhs: &AST) -> Self::Output {
        AST::Any(Box::new(self), Box::new(*rhs))
    }
}

impl BitOr<&AST> for &AST {
    type Output = AST;

    fn bitor(self, rhs: &AST) -> (r: Self::Output) {
        AST::Any(Box::new(self.duplicate()), Box::new(rhs.duplicate()))
    }
}

impl BitOrSpecImpl<&AST> for &AST {
    open spec fn obeys_bitor_spec() -> bool {
        true
    }

    open spec fn bitor_req(self, rhs: &AST) -> bool {
        true
    }

    open spec fn bitor_spec(self, rhs: &AST) -> Self::Output {
        AST::Any(Box::new(*self), Box::new(*rhs))
    }
}

impl BitOr<AST> for &AST {
    type Output = AST;

    fn bitor(self, rhs: AST) -> (r: Self::Output) {
        AST::Any(Box::new(self.duplicate()), Box::new(rhs))
    }
}

impl BitOrSpecImpl<AST> for &AST {
    open spec fn obeys_bitor_spec() -> bool {
        true
    }

    open spec fn bitor_req(self, rhs: AST) -> bool {
        true
    }

    open spec fn bitor_spec(self, rhs: AST) -> Self::Output {
        AST::Any(Box::new(*self), Box::new(rhs))
    }
}

/// requires the first expression to be active, then requires the second expression to be active.
impl Sub for AST {
    type Output = AST;

    fn sub(self, rhs: Self) -> (r: Self::Output) {
        AST::Sequence(Box::new(self), Box::new(rhs))
    }
}

impl SubSpecImpl for AST {
    open spec fn obeys_sub_spec() -> bool {
        true
    }

    open spec fn sub_req(self, rhs: Self) -> bool {
        true
    }

    open spec fn sub_spec(self, rhs: Self) -> Self::Output {
        AST::Sequence(Box::new(self), Box::new(rhs))
    }
}

impl Sub<&AST> for AST {
    type Output = AST;

    fn sub(self, rhs: &AST) -> (r: Self::Output) {
        AST::Sequence(Box::new(self), Box::new(rhs.duplicate()))
    }
}

impl SubSpecImpl<&AST> for AST {
    open spec fn obeys_sub_spec() -> bool {
        true
    }

    open spec fn sub_req(self, rhs: &AST) -> bool {
        true
    }

    open spec fn sub_spec(self, rhs: &AST) -> Self::Output {
        AST::Sequence(Box::new(self), Box::new(*rhs))
    }
}

impl Sub<&AST> for &AST {
    type Output = AST;

    fn sub(self, rhs: &AST) -> (r: Self::Output) {
        AST::Sequence(Box::new(self.duplicate()), Box::new(rhs.duplicate()))
    }
}

impl SubSpecImpl<&AST> for &AST {
    open spec fn obeys_sub_spec() -> bool {
        true
    }

    open spec fn sub_req(self, rhs: &AST) -> bool {
        true
    }

    open spec fn sub_spec(self, rhs: &AST) -> Self::Output {
        AST::Sequence(Box::new(*self), Box::new(*rhs))
    }
}

impl Sub<AST> for &AST {
    type Output = AST;

    fn sub(self, rhs: AST) -> (r: Self::Output) {
        AST::Sequence(Box::new(self.duplicate()), Box::new(rhs))
    }
}

impl SubSpecImpl<AST> for &AST {
    open spec fn obeys_sub_spec() -> bool {
        true
    }

    open spec fn sub_req(self, rhs: AST) -> bool {
        true
    }

    open spec fn sub_spec(self, rhs: AST) -> Self::Output {
        AST::Sequence(Box::new(*self), Box::new(rhs))
    }
}

/// Toggle the replay key
///
/// The operator is for leaves only; `toggle_replay` reports the misuse.
impl Not for AST {
    type Output = AST;

    fn not(self) -> (r: Self::Output) {
        match self {
            AST::Key { key, replay } => AST::Key { key, replay: !replay },
            AST::Button { button, replay } => AST::Button { button, replay: !replay },
            AST::Modifier { modifier, replay } => AST::Modifier { modifier, replay: !replay },
            _ => vstd::pervasive::unreached(),
        }
    }
}

impl NotSpecImpl for AST {
    open spec fn obeys_not_spec() -> bool {
        true
    }

    open spec fn not_req(self) -> bool {
        self.is_leaf()
    }

    open spec fn not_spec(self) -> Self::Output {
        toggled(self)->Ok_0
    }
}

impl Not for &AST {
    type Output = AST;

    fn not(self) -> (r: Self::Output) {
        match self {
            AST::Key { key, replay } => AST::Key { key: *key, replay: !*replay },
            AST::Button { button, replay } => AST::Button { button: *button, replay: !*replay },
            AST::Modifier { modifier, replay } => AST::Modifier {
                modifier: *modifier,
                replay: !*replay,
            },
            _ => vstd::pervasive::unreached(),
        }
    }
}

impl NotSpecImpl for &AST {
    open spec fn obeys_not_spec() -> bool {
        true
    }

    open spec fn not_req(self) -> bool {
        self.is_leaf()
    }

    open spec fn not_spec(self) -> Self::Output {
        toggled(*self)->Ok_0
    }
}

} // verus!
