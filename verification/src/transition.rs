//! The chord matcher: one evaluation of an expression against the atoms
//! that are down.

use vstd::prelude::*;
use crate::ast::{lemma_width_positive, Atom, AST};
use crate::display::DisplayServerEvent;
use crate::key_state::{lemma_active_is_local, KeyState, ManageKeyState};

verus! {

/// One way in which a match can go on: `rest` is still to come.
///
/// `branch` is the position, counted from 1, of the alternative through
/// which the match went in the disjunction that holds it, and 0 where no
/// disjunction holds it.
pub struct Course {
    pub branch: nat,
    pub rest: AST,
}

/// What one evaluation yields, over unbounded numbers.
pub enum Progress {
    /// The expression is satisfied. `branch` is the position, counted from
    /// 1, of the satisfied alternative in the disjunction of the expression,
    /// and 0 where it has none. `replay` says that what is satisfied is a
    /// single leaf that carries the replay flag.
    Matched { branch: nat, replay: bool },
    /// The expression is not satisfied. It has advanced on the courses
    /// given; where there is none, nothing holds on this event.
    Open(Seq<Course>),
}

impl Progress {
    /// Nothing holds on this event.
    pub open spec fn waits(self) -> bool {
        self matches Progress::Open(courses) && courses.len() == 0
    }

    /// A first step is satisfied and more is to come.
    pub open spec fn advances(self) -> bool {
        self matches Progress::Open(courses) && courses.len() > 0
    }
}

/// One way in which a match can go on.
#[derive(Debug, PartialEq, Eq)]
pub struct Thread {
    pub branch: usize,
    pub rest: AST,
}

impl View for Thread {
    type V = Course;

    open spec fn view(&self) -> Course {
        Course { branch: self.branch as nat, rest: self.rest }
    }
}

/// The views of the elements of `threads`.
pub open spec fn courses(threads: Seq<Thread>) -> Seq<Course> {
    Seq::new(threads.len(), |i: int| threads[i]@)
}

/// What one evaluation of an expression yields.
#[derive(Debug, PartialEq, Eq)]
pub enum NodeOut {
    /// A first step is satisfied; the threads, of which there is at least
    /// one, are still to come.
    Next(Vec<Thread>),
    Matched { branch: usize, replay: bool },
    /// Nothing holds on this event.
    Wait,
}

impl View for NodeOut {
    type V = Progress;

    open spec fn view(&self) -> Progress {
        match *self {
            NodeOut::Next(threads) => Progress::Open(courses(threads@)),
            NodeOut::Matched { branch, replay } => Progress::Matched { branch: branch as nat, replay },
            NodeOut::Wait => Progress::Open(Seq::empty()),
        }
    }
}

/// The position of an alternative of `e` in the list that `e` is part of,
/// `by` alternatives standing before `e`: where `e` is a disjunction, the
/// position `own` in it counts on; every other expression is one
/// alternative.
pub open spec fn position(e: AST, own: nat, by: nat) -> nat {
    if e is Any {
        own + by
    } else {
        1 + by
    }
}

/// What `e` yields as a part of a disjunction in which `by` alternatives
/// stand before it.
pub open spec fn placed(e: AST, p: Progress, by: nat) -> Progress {
    match p {
        Progress::Matched { branch, replay } => Progress::Matched {
            branch: position(e, branch, by),
            replay,
        },
        Progress::Open(courses) => Progress::Open(
            Seq::new(
                courses.len(),
                |i: int| Course { branch: position(e, courses[i].branch, by), rest: courses[i].rest },
            ),
        ),
    }
}

/// What two parts of a list yield together: the first that is satisfied
/// decides; where none is, all courses stay, in order.
pub open spec fn either(first: Progress, second: Progress) -> Progress {
    match (first, second) {
        (Progress::Matched { .. }, _) => first,
        (_, Progress::Matched { .. }) => second,
        (Progress::Open(a), Progress::Open(b)) => Progress::Open(a + b),
    }
}

/// The courses of a first part, each followed by `second`. What the first
/// part went through adds nothing to the branch.
pub open spec fn followed(courses: Seq<Course>, second: AST) -> Seq<Course> {
    Seq::new(
        courses.len(),
        |i: int| Course { branch: 0, rest: AST::Sequence(Box::new(courses[i].rest), Box::new(second)) },
    )
}

/// One evaluation of `e` while the atoms in `down` are down.
///
/// - A leaf is satisfied iff its atom is down.
/// - A conjunction is satisfied iff both sides are satisfied on this very
///   evaluation. Its branch is that of its right side, and that of its left
///   side where the right side has no disjunction.
/// - A disjunction is satisfied by the first of its alternatives, from left
///   to right, that is satisfied, and its branch is the position of that
///   alternative. An alternative counts once, whatever it holds. Where no
///   alternative is satisfied, every alternative that advances stays.
/// - A sequence is never satisfied by one evaluation. It advances when its
///   first part is satisfied or advances, and what the first part went
///   through adds nothing to the branch.
pub open spec fn eval(e: AST, down: Set<Atom>) -> Progress
    decreases e,
{
    match e {
        AST::Sequence(first, second) => match eval(*first, down) {
            Progress::Matched { .. } => Progress::Open(seq![Course { branch: 0, rest: *second }]),
            Progress::Open(courses) => Progress::Open(followed(courses, *second)),
        },
        AST::All(left, right) => match (eval(*left, down), eval(*right, down)) {
            (Progress::Matched { branch: i, .. }, Progress::Matched { branch: j, .. }) => {
                Progress::Matched { branch: chosen(j, i), replay: false }
            },
            _ => Progress::Open(Seq::empty()),
        },
        AST::Any(left, right) => either(
            placed(*left, eval(*left, down), 0),
            placed(*right, eval(*right, down), left.width()),
        ),
        _ => if down.contains(e.atom()) {
            Progress::Matched { branch: 0, replay: e.replay() }
        } else {
            Progress::Open(Seq::empty())
        },
    }
}

/// The branch of what has `own` of its own and `outer` from what holds it:
/// its own, and the outer one where it has none.
pub open spec fn chosen(own: nat, outer: nat) -> nat {
    if own > 0 {
        own
    } else {
        outer
    }
}

/// What a course yields whose rest yields `p`: a branch of the rest's own
/// disjunction decides, and that of the course where the rest has none.
pub open spec fn inherited(course: Course, p: Progress) -> Progress {
    match p {
        Progress::Matched { branch, replay } => Progress::Matched {
            branch: chosen(branch, course.branch),
            replay,
        },
        Progress::Open(courses) => Progress::Open(
            Seq::new(
                courses.len(),
                |i: int|
                    Course { branch: chosen(courses[i].branch, course.branch), rest: courses[i].rest },
            ),
        ),
    }
}

/// One evaluation of the courses of a pending match: the first course, in
/// order, whose rest is satisfied decides; where none is, the courses that
/// advance stay, and the others are given up.
pub open spec fn advance(courses: Seq<Course>, down: Set<Atom>) -> Progress
    decreases courses.len(),
{
    if courses.len() == 0 {
        Progress::Open(Seq::empty())
    } else {
        either(
            advance(courses.drop_last(), down),
            inherited(courses.last(), eval(courses.last().rest, down)),
        )
    }
}

/// True if a leaf of `e` carries the replay flag and has its atom in `hit`.
pub open spec fn flags_replay(e: AST, hit: Set<Atom>) -> bool
    decreases e,
{
    match e {
        AST::Sequence(a, b) => flags_replay(*a, hit) || flags_replay(*b, hit),
        AST::All(a, b) => flags_replay(*a, hit) || flags_replay(*b, hit),
        AST::Any(a, b) => flags_replay(*a, hit) || flags_replay(*b, hit),
        _ => e.replay() && hit.contains(e.atom()),
    }
}

/// True if every branch that `p` names lies above `low` and not above
/// `high`.
pub open spec fn within(p: Progress, low: nat, high: nat) -> bool {
    match p {
        Progress::Matched { branch, .. } => low < branch <= high,
        Progress::Open(courses) => forall|i: int|
            0 <= i < courses.len() ==> low < (#[trigger] courses[i]).branch <= high,
    }
}

/// As a part of a list, an expression names positions of its own
/// alternatives only: those after the `by` alternatives before it.
pub proof fn lemma_placed_within(e: AST, down: Set<Atom>, by: nat)
    ensures
        within(placed(e, eval(e, down), by), by, by + e.width()),
    decreases e,
{
    lemma_width_positive(e);
    match e {
        AST::Any(left, right) => {
            lemma_placed_within(*left, down, 0);
            lemma_placed_within(*right, down, left.width());
            lemma_width_positive(*left);
            lemma_width_positive(*right);
        },
        _ => {},
    }
}

/// Where only the right side of a disjunction yields anything, the branch
/// is the position of an alternative of the right side: one after all
/// alternatives of the left side.
pub proof fn lemma_any_reports_right_branch(left: AST, right: AST, down: Set<Atom>)
    requires
        eval(left, down).waits(),
    ensures
        eval(AST::Any(Box::new(left), Box::new(right)), down) == placed(
            right,
            eval(right, down),
            left.width(),
        ),
        eval(AST::Any(Box::new(left), Box::new(right)), down) matches Progress::Matched {
            branch,
            ..
        } ==> left.width() < branch <= left.width() + right.width(),
        eval(right, down) is Matched && !(right is Any) ==> eval(
            AST::Any(Box::new(left), Box::new(right)),
            down,
        )->branch == left.width() + 1,
{
    lemma_placed_within(right, down, left.width());
    let l = placed(left, eval(left, down), 0);
    let r = placed(right, eval(right, down), left.width());
    assert(l->Open_0 =~= Seq::<Course>::empty());
    if r is Open {
        assert(l->Open_0 + r->Open_0 =~= r->Open_0);
    }
}

/// Where an alternative of the left side of a disjunction is satisfied, the
/// disjunction is satisfied by it, whatever holds of the right side.
pub proof fn lemma_any_prefers_left(left: AST, right: AST, down: Set<Atom>)
    requires
        eval(left, down) is Matched,
    ensures
        eval(AST::Any(Box::new(left), Box::new(right)), down) == placed(left, eval(left, down), 0),
        1 <= eval(AST::Any(Box::new(left), Box::new(right)), down)->branch <= left.width(),
{
    lemma_placed_within(left, down, 0);
}

/// One evaluation never satisfies a sequence: its second part is only
/// evaluated on a later event. Where the first part is satisfied, what is
/// to come is the second part, and the branch starts anew: the alternative
/// that satisfied the first part adds nothing.
pub proof fn lemma_sequence_takes_two_events(first: AST, second: AST, down: Set<Atom>)
    ensures
        !(eval(AST::Sequence(Box::new(first), Box::new(second)), down) is Matched),
        eval(first, down).waits() ==> eval(
            AST::Sequence(Box::new(first), Box::new(second)),
            down,
        ).waits(),
        eval(first, down) is Matched ==> eval(
            AST::Sequence(Box::new(first), Box::new(second)),
            down,
        ) == Progress::Open(seq![Course { branch: 0, rest: second }]),
{
}

/// The branch of a sequence is the branch of its last step: when the second
/// part is satisfied on a later event, the match is satisfied with the
/// branch and the flag of the second part, whichever alternative satisfied
/// the first part.
pub proof fn lemma_branch_is_that_of_the_last_step(
    first: AST,
    second: AST,
    earlier: Set<Atom>,
    later: Set<Atom>,
)
    requires
        eval(first, earlier) is Matched,
        eval(second, later) is Matched,
    ensures
        eval(AST::Sequence(Box::new(first), Box::new(second)), earlier) matches Progress::Open(
            courses,
        ) && advance(courses, later) == eval(second, later),
{
    let courses = seq![Course { branch: 0, rest: second }];
    assert(courses.drop_last() =~= Seq::<Course>::empty());
    assert(courses.last() == Course { branch: 0, rest: second });
    assert(advance(courses.drop_last(), later) == Progress::Open(Seq::<Course>::empty()));
}

/// An evaluation depends only on the atoms that the expression mentions:
/// two states that agree on them give the same result.
pub proof fn lemma_eval_ignores_other_atoms(e: AST, down: Set<Atom>, other: Set<Atom>)
    requires
        forall|atom: Atom| e.mentions(atom) ==> (down.contains(atom) <==> other.contains(atom)),
    ensures
        eval(e, down) == eval(e, other),
    decreases e,
{
    match e {
        AST::Sequence(a, b) | AST::All(a, b) | AST::Any(a, b) => {
            assert forall|atom: Atom| a.mentions(atom) implies (down.contains(atom)
                <==> other.contains(atom)) by {
                let i = choose|i: int| 0 <= i < a.leaf_atoms().len() && a.leaf_atoms()[i] == atom;
                assert(e.leaf_atoms()[i] == atom);
            }
            assert forall|atom: Atom| b.mentions(atom) implies (down.contains(atom)
                <==> other.contains(atom)) by {
                let i = choose|i: int| 0 <= i < b.leaf_atoms().len() && b.leaf_atoms()[i] == atom;
                assert(e.leaf_atoms()[a.leaf_atoms().len() + i] == atom);
            }
            lemma_eval_ignores_other_atoms(*a, down, other);
            lemma_eval_ignores_other_atoms(*b, down, other);
        },
        _ => {
            assert(e.leaf_atoms()[0] == e.atom());
        },
    }
}

/// A refused grab is local: an expression that does not mention the atom
/// evaluates the same, whatever codes the atom has or has lost.
pub proof fn lemma_grab_failure_is_local(e: AST, keys: KeyState, other: KeyState, failed: Atom)
    requires
        !e.mentions(failed),
        keys.pressed_keys() == other.pressed_keys(),
        keys.pressed_buttons() == other.pressed_buttons(),
        forall|atom: Atom| atom != failed ==> keys.codes(atom) == other.codes(atom),
    ensures
        eval(e, keys.active_atoms()) == eval(e, other.active_atoms()),
{
    assert forall|atom: Atom| e.mentions(atom) implies (keys.active_atoms().contains(atom)
        <==> other.active_atoms().contains(atom)) by {
        lemma_active_is_local(keys, other, atom);
    }
    lemma_eval_ignores_other_atoms(e, keys.active_atoms(), other.active_atoms());
}

/// Gathers the alternatives of the list at the top of `e`.
fn gather<'a>(e: &'a AST, out: &mut Vec<&'a AST>)
    ensures
        final(out)@.len() == old(out)@.len() + e.width(),
    decreases *e,
{
    match e {
        AST::Any(a, b) => {
            gather(a, out);
            gather(b, out);
        },
        _ => {
            out.push(e);
        },
    }
}

/// Counts the alternatives of the list at the top of `e`.
pub fn count_alternatives(e: &AST) -> (r: usize)
    ensures
        r == e.width(),
{
    let mut all: Vec<&AST> = Vec::new();
    gather(e, &mut all);
    all.len()
}

/// Puts what a part of a list yields in its place in the list.
fn place(lone: bool, out: NodeOut, by: usize, Ghost(e): Ghost<AST>, Ghost(high): Ghost<nat>) -> (r:
    NodeOut)
    requires
        lone == !(e is Any),
        within(placed(e, out@, by as nat), by as nat, high),
        high <= usize::MAX,
    ensures
        r@ == placed(e, out@, by as nat),
{
    match out {
        NodeOut::Wait => {
            assert(placed(e, out@, by as nat)->Open_0 =~= Seq::<Course>::empty());
            NodeOut::Wait
        },
        NodeOut::Matched { branch, replay } => NodeOut::Matched {
            branch: if lone {
                1 + by
            } else {
                branch + by
            },
            replay,
        },
        NodeOut::Next(threads) => {
            let ghost before = courses(threads@);
            let ghost wanted = placed(e, out@, by as nat)->Open_0;
            let mut placed_threads: Vec<Thread> = Vec::new();
            for thread in it: threads
                invariant
                    courses(it.seq()) == before,
                    wanted == placed(e, Progress::Open(before), by as nat)->Open_0,
                    lone == !(e is Any),
                    within(Progress::Open(wanted), by as nat, high),
                    high <= usize::MAX,
                    placed_threads@.len() == it.index(),
                    forall|k: int|
                        0 <= k < it.index() ==> (#[trigger] placed_threads@[k])@ == wanted[k],
            {
                let ghost k = it.index() as int;
                assert(before[k] == thread@);
                assert(by < wanted[k].branch <= high);
                let branch: usize = if lone {
                    1 + by
                } else {
                    thread.branch + by
                };
                placed_threads.push(Thread { branch, rest: thread.rest });
            }
            assert(courses(placed_threads@) =~= wanted);
            NodeOut::Next(placed_threads)
        },
    }
}

/// Reports whether `e` is a disjunction.
fn is_any(e: &AST) -> (r: bool)
    ensures
        r == (*e is Any),
{
    match e {
        AST::Any(_, _) => true,
        _ => false,
    }
}

/// Joins what two parts of a list yield.
pub(crate) fn join(first: NodeOut, second: NodeOut) -> (r: NodeOut)
    ensures
        r@ == either(first@, second@),
{
    match first {
        NodeOut::Matched { branch, replay } => NodeOut::Matched { branch, replay },
        NodeOut::Wait => match second {
            NodeOut::Matched { branch, replay } => NodeOut::Matched { branch, replay },
            NodeOut::Wait => {
                assert(Seq::<Course>::empty() + Seq::<Course>::empty() =~= Seq::<Course>::empty());
                NodeOut::Wait
            },
            NodeOut::Next(more) => {
                assert(Seq::<Course>::empty() + courses(more@) =~= courses(more@));
                NodeOut::Next(more)
            },
        },
        NodeOut::Next(threads) => match second {
            NodeOut::Matched { branch, replay } => NodeOut::Matched { branch, replay },
            NodeOut::Wait => {
                assert(courses(threads@) + Seq::<Course>::empty() =~= courses(threads@));
                NodeOut::Next(threads)
            },
            NodeOut::Next(more) => {
                let ghost a = courses(threads@);
                let ghost b = courses(more@);
                let mut all = threads;
                let mut rest = more;
                all.append(&mut rest);
                assert(courses(all@) =~= a + b);
                NodeOut::Next(all)
            },
        },
    }
}

/// Evaluates `e` against what is pressed.
pub fn evaluate(e: &AST, keys: &KeyState) -> (r: NodeOut)
    ensures
        r@ == eval(*e, keys.active_atoms()),
    decreases *e,
{
    let ghost down = keys.active_atoms();
    match e {
        AST::Sequence(first, second) => {
            match evaluate(first, keys) {
                NodeOut::Wait => {
                    assert(followed(Seq::<Course>::empty(), **second) =~= Seq::<Course>::empty());
                    NodeOut::Wait
                },
                NodeOut::Matched { .. } => {
                    let mut threads: Vec<Thread> = Vec::new();
                    threads.push(Thread { branch: 0, rest: second.duplicate() });
                    assert(courses(threads@) =~= seq![Course { branch: 0, rest: **second }]);
                    NodeOut::Next(threads)
                },
                NodeOut::Next(threads) => {
                    let ghost before = courses(threads@);
                    let ghost wanted = followed(before, **second);
                    let mut all: Vec<Thread> = Vec::new();
                    for thread in it: threads
                        invariant
                            courses(it.seq()) == before,
                            wanted == followed(before, **second),
                            all@.len() == it.index(),
                            forall|k: int| 0 <= k < it.index() ==> (#[trigger] all@[k])@ == wanted[k],
                    {
                        assert(before[it.index() as int] == thread@);
                        all.push(
                            Thread {
                                branch: 0,
                                rest: AST::Sequence(
                                    Box::new(thread.rest),
                                    Box::new(second.duplicate()),
                                ),
                            },
                        );
                    }
                    assert(courses(all@) =~= wanted);
                    NodeOut::Next(all)
                },
            }
        },
        AST::All(left, right) => {
            match evaluate(left, keys) {
                NodeOut::Matched { branch: i, .. } => match evaluate(right, keys) {
                    NodeOut::Matched { branch: j, .. } => NodeOut::Matched {
                        branch: if j > 0 {
                            j
                        } else {
                            i
                        },
                        replay: false,
                    },
                    _ => NodeOut::Wait,
                },
                _ => NodeOut::Wait,
            }
        },
        AST::Any(left, right) => {
            let before = count_alternatives(left);
            let all = count_alternatives(e);
            proof {
                lemma_placed_within(**left, down, 0);
                lemma_placed_within(**right, down, left.width());
            }
            let first = place(
                !is_any(left),
                evaluate(left, keys),
                0,
                Ghost(**left),
                Ghost(left.width()),
            );
            let second = place(
                !is_any(right),
                evaluate(right, keys),
                before,
                Ghost(**right),
                Ghost(e.width()),
            );
            join(first, second)
        },
        AST::Key { key, replay } => {
            if keys.is_active(Atom::Key(*key)) {
                NodeOut::Matched { branch: 0, replay: *replay }
            } else {
                NodeOut::Wait
            }
        },
        AST::Button { button, replay } => {
            if keys.is_active(Atom::Button(*button)) {
                NodeOut::Matched { branch: 0, replay: *replay }
            } else {
                NodeOut::Wait
            }
        },
        AST::Modifier { modifier, replay } => {
            if keys.is_active(Atom::Modifier(*modifier)) {
                NodeOut::Matched { branch: 0, replay: *replay }
            } else {
                NodeOut::Wait
            }
        },
    }
}

/// Reports whether a leaf of `e` that carries the replay flag has an atom
/// that the code of `event` realizes.
pub fn wants_replay(e: &AST, keys: &KeyState, event: DisplayServerEvent) -> (r: bool)
    ensures
        r == flags_replay(*e, keys.atoms_of(event)),
    decreases *e,
{
    match e {
        AST::Sequence(a, b) | AST::All(a, b) | AST::Any(a, b) => {
            wants_replay(a, keys, event) || wants_replay(b, keys, event)
        },
        AST::Key { key, replay } => *replay && keys.is_realized_by(event, Atom::Key(*key)),
        AST::Button { button, replay } => *replay && keys.is_realized_by(
            event,
            Atom::Button(*button),
        ),
        AST::Modifier { modifier, replay } => *replay && keys.is_realized_by(
            event,
            Atom::Modifier(*modifier),
        ),
    }
}

} // verus!
