//! The executor: the state machine that drives the matcher over the stream
//! of events.

use vstd::prelude::*;
use crate::ast::{Atom, AST};
use crate::binding::Binding;
use crate::display::{DisplayServerEvent, EventHandling};
use crate::key_state::{buttons_after, keys_after, AtomCodes, KeyState, ManageKeyState};
use crate::transition::{
    advance,
    lemma_branch_is_that_of_the_last_step,
    courses,
    eval,
    evaluate,
    flags_replay,
    inherited,
    join,
    wants_replay,
    Course,
    NodeOut,
    Progress,
    Thread,
};

verus! {

/// Where the executor stands, over unbounded numbers.
pub enum Position {
    /// No binding is in progress.
    Root,
    /// Binding `binding` is partly matched and can go on in the ways that
    /// `courses` gives.
    Pending { binding: nat, courses: Seq<Course> },
}

/// Where the executor stands.
#[derive(Debug, PartialEq, Eq)]
pub enum Node {
    Root,
    Pending { binding: usize, threads: Vec<Thread> },
}

impl View for Node {
    type V = Position;

    open spec fn view(&self) -> Position {
        match *self {
            Node::Root => Position::Root,
            Node::Pending { binding, threads } => Position::Pending {
                binding: binding as nat,
                courses: courses(threads@),
            },
        }
    }
}

/// A binding that fired, and the branch index that its action receives.
#[derive(Clone, Copy, Debug, PartialEq, Eq, Structural)]
pub struct Fired {
    /// Position of the binding in declaration order.
    pub binding: usize,
    /// The position, counted from 1, of the satisfied alternative in the
    /// disjunction of the step that completed the match; where that step has
    /// none, the position of the completed sequence in the disjunction that
    /// holds it; 0 where there is no such disjunction.
    pub branch: usize,
}

/// What the host has to do after an event.
#[derive(Clone, Copy, Debug, PartialEq, Eq, Structural)]
pub struct Reaction {
    /// The decision to send to the display server for an input event; `None`
    /// for an event that is no input event.
    pub handling: Option<EventHandling>,
    /// The binding whose action is to run.
    pub fired: Option<Fired>,
    /// The codes of the atoms have to be resolved anew and handed to
    /// `Executor::remap`.
    pub refresh: bool,
}

/// What an input event leads to: the next position, the decision on the
/// event, and the binding that fires with its branch index.
pub struct Verdict {
    pub position: Position,
    pub handling: EventHandling,
    pub fired: Option<(nat, nat)>,
}

/// The first binding at or after `from`, in declaration order, whose
/// expression yields anything.
pub open spec fn first_match(bindings: Seq<Binding>, down: Set<Atom>, from: nat) -> Option<nat>
    decreases bindings.len() - from,
{
    if from >= bindings.len() {
        None
    } else if !eval(bindings[from as int].key_tree, down).waits() {
        Some(from)
    } else {
        first_match(bindings, down, from + 1)
    }
}

/// True if a leaf of some binding carries the replay flag and has its atom
/// in `hit`.
pub open spec fn any_flags_replay(bindings: Seq<Binding>, hit: Set<Atom>) -> bool {
    exists|k: int| 0 <= k < bindings.len() && flags_replay(#[trigger] bindings[k].key_tree, hit)
}

/// What follows when binding `binding` yields `p`; `stay` is what follows
/// where it yields nothing.
///
/// A binding that advances becomes pending and the event is hidden. A
/// binding that is satisfied fires with the branch of `p`, and the executor
/// is at the root again; the event is hidden, unless what is satisfied is a
/// single leaf that carries the replay flag.
pub open spec fn conclude(binding: nat, p: Progress, stay: Verdict) -> Verdict {
    match p {
        Progress::Matched { branch, replay } => Verdict {
            position: Position::Root,
            handling: if replay {
                EventHandling::Replay
            } else {
                EventHandling::Hide
            },
            fired: Some((binding, branch)),
        },
        Progress::Open(courses) => if courses.len() == 0 {
            stay
        } else {
            Verdict {
                position: Position::Pending { binding, courses },
                handling: EventHandling::Hide,
                fired: None,
            }
        },
    }
}

/// The event is replayed and nothing changes at the root.
pub open spec fn passed_on() -> Verdict {
    Verdict { position: Position::Root, handling: EventHandling::Replay, fired: None }
}

/// The reaction to an input event, after the tracker has recorded it.
///
/// `down` holds the atoms that are down, `hit` the atoms that the code of the
/// event realizes.
///
/// - At the root the bindings are tried in declaration order and the first
///   that yields anything decides; where none does, the event is replayed.
/// - While a binding is pending, the reset atom leads back to the root
///   whatever is pending. Else the courses are evaluated; where they yield
///   nothing the position stays and the event is hidden, unless a leaf with
///   the replay flag has an atom that the event realizes.
pub open spec fn react(
    bindings: Seq<Binding>,
    reset: Atom,
    position: Position,
    down: Set<Atom>,
    hit: Set<Atom>,
) -> Verdict {
    match position {
        Position::Root => match first_match(bindings, down, 0) {
            Some(k) => conclude(k, eval(bindings[k as int].key_tree, down), passed_on()),
            None => passed_on(),
        },
        Position::Pending { binding, courses } => if down.contains(reset) {
            Verdict { position: Position::Root, handling: EventHandling::Hide, fired: None }
        } else {
            conclude(
                binding,
                advance(courses, down),
                Verdict {
                    position,
                    handling: if any_flags_replay(bindings, hit) {
                        EventHandling::Replay
                    } else {
                        EventHandling::Hide
                    },
                    fired: None,
                },
            )
        },
    }
}

/// What `first_match` finds is the first binding that yields anything: none
/// before it does, and where it finds none, no binding does.
pub proof fn lemma_first_match(bindings: Seq<Binding>, down: Set<Atom>, from: nat)
    ensures
        match first_match(bindings, down, from) {
            Some(k) => {
                &&& from <= k < bindings.len()
                &&& !eval(bindings[k as int].key_tree, down).waits()
                &&& forall|j: int|
                    from <= j < k ==> eval(#[trigger] bindings[j].key_tree, down).waits()
            },
            None => forall|j: int|
                from <= j < bindings.len() ==> eval(#[trigger] bindings[j].key_tree, down).waits(),
        },
    decreases bindings.len() - from,
{
    if from < bindings.len() && eval(bindings[from as int].key_tree, down).waits() {
        lemma_first_match(bindings, down, from + 1);
    }
}

/// At most one binding fires on an event, and at the root it is the first,
/// in declaration order, whose expression is satisfied or advances: no
/// binding declared before it yields anything, whatever holds of those
/// declared after it.
pub proof fn lemma_first_binding_wins(
    bindings: Seq<Binding>,
    reset: Atom,
    down: Set<Atom>,
    hit: Set<Atom>,
)
    ensures
        react(bindings, reset, Position::Root, down, hit).fired matches Some((k, _)) ==> {
            &&& k < bindings.len()
            &&& eval(bindings[k as int].key_tree, down) is Matched
            &&& forall|j: int| 0 <= j < k ==> eval(#[trigger] bindings[j].key_tree, down).waits()
        },
        react(bindings, reset, Position::Root, down, hit).position matches Position::Pending {
            binding,
            ..
        } ==> {
            &&& binding < bindings.len()
            &&& eval(bindings[binding as int].key_tree, down).advances()
            &&& forall|j: int|
                0 <= j < binding ==> eval(#[trigger] bindings[j].key_tree, down).waits()
        },
        (forall|j: int|
            0 <= j < bindings.len() ==> eval(#[trigger] bindings[j].key_tree, down).waits())
            ==> react(bindings, reset, Position::Root, down, hit) == passed_on(),
{
    lemma_first_match(bindings, down, 0);
}

/// The reset atom leads from every pending position back to the root: the
/// event is hidden and nothing fires, whatever is pending.
pub proof fn lemma_reset_abandons(
    bindings: Seq<Binding>,
    reset: Atom,
    binding: nat,
    courses: Seq<Course>,
    down: Set<Atom>,
    hit: Set<Atom>,
)
    requires
        down.contains(reset),
    ensures
        react(bindings, reset, Position::Pending { binding, courses }, down, hit) == (Verdict {
            position: Position::Root,
            handling: EventHandling::Hide,
            fired: None,
        }),
{
}

/// A binding whose expression is a sequence never fires at the root: its
/// action runs only from a pending position, which is entered on an earlier
/// event by an expression that advanced. From a pending position only the
/// pending binding fires, and not while the reset atom is down.
pub proof fn lemma_sequence_fires_later(
    bindings: Seq<Binding>,
    reset: Atom,
    position: Position,
    down: Set<Atom>,
    hit: Set<Atom>,
)
    ensures
        react(bindings, reset, position, down, hit).fired matches Some((k, _)) ==> match position {
            Position::Root => k < bindings.len() && !(bindings[k as int].key_tree is Sequence),
            Position::Pending { binding, courses } => {
                &&& k == binding
                &&& !down.contains(reset)
                &&& advance(courses, down) is Matched
            },
        },
{
    lemma_first_match(bindings, down, 0);
}

/// While a binding is pending and neither the reset atom is down nor a
/// course yields anything, the position stays and nothing fires; the event
/// is hidden unless a leaf with the replay flag has an atom that the event
/// realizes.
pub proof fn lemma_pending_waits(
    bindings: Seq<Binding>,
    reset: Atom,
    binding: nat,
    courses: Seq<Course>,
    down: Set<Atom>,
    hit: Set<Atom>,
)
    requires
        !down.contains(reset),
        advance(courses, down).waits(),
    ensures
        react(bindings, reset, Position::Pending { binding, courses }, down, hit).position == (
        Position::Pending { binding, courses }),
        react(bindings, reset, Position::Pending { binding, courses }, down, hit).fired is None,
        react(bindings, reset, Position::Pending { binding, courses }, down, hit).handling
            == EventHandling::Hide <==> !any_flags_replay(bindings, hit),
{
}

/// The branch index of a sequence is that of its last step. Where the first
/// part of a binding is satisfied at the root, by whichever of its
/// alternatives, and the second part is satisfied on a later event, the
/// binding fires with the branch of the second part: the position of the
/// satisfied alternative in the disjunction of the second part, and 0 where
/// it has none.
pub proof fn lemma_last_step_gives_the_branch(
    bindings: Seq<Binding>,
    reset: Atom,
    binding: nat,
    first: AST,
    second: AST,
    earlier: Set<Atom>,
    later: Set<Atom>,
    hit: Set<Atom>,
)
    requires
        binding < bindings.len(),
        bindings[binding as int].key_tree == AST::Sequence(Box::new(first), Box::new(second)),
        forall|j: int| 0 <= j < binding ==> eval(#[trigger] bindings[j].key_tree, earlier).waits(),
        eval(first, earlier) is Matched,
        !later.contains(reset),
        eval(second, later) is Matched,
    ensures
        react(bindings, reset, Position::Root, earlier, hit).position == (Position::Pending {
            binding,
            courses: seq![Course { branch: 0, rest: second }],
        }),
        react(bindings, reset, Position::Root, earlier, hit).fired is None,
        react(
            bindings,
            reset,
            react(bindings, reset, Position::Root, earlier, hit).position,
            later,
            hit,
        ).fired == Some((binding, eval(second, later)->branch)),
        react(
            bindings,
            reset,
            react(bindings, reset, Position::Root, earlier, hit).position,
            later,
            hit,
        ).position == Position::Root,
{
    lemma_first_match(bindings, earlier, 0);
    lemma_branch_is_that_of_the_last_step(first, second, earlier, later);
    let courses = seq![Course { branch: 0, rest: second }];
    assert(eval(bindings[binding as int].key_tree, earlier) == Progress::Open(courses));
    assert(courses.len() == 1);
}

/// The branch index of a fired binding as the host receives it.
pub open spec fn fired_view(fired: Option<Fired>) -> Option<(nat, nat)> {
    match fired {
        Some(f) => Some((f.binding as nat, f.branch as nat)),
        None => None,
    }
}

/// The bindings and the position among them.
struct Machine {
    bindings: Vec<Binding>,
    reset: Atom,
    actual_node: Node,
}

pub struct Executor {
    key_state: KeyState,
    machine: Machine,
}

/// Gives what a thread yields whose rest yielded `out`.
fn inherit(outer: usize, out: NodeOut, Ghost(course): Ghost<Course>) -> (r: NodeOut)
    requires
        course.branch == outer,
    ensures
        r@ == inherited(course, out@),
{
    match out {
        NodeOut::Wait => {
            assert(inherited(course, out@)->Open_0 =~= Seq::<Course>::empty());
            NodeOut::Wait
        },
        NodeOut::Matched { branch, replay } => NodeOut::Matched {
            branch: if branch > 0 {
                branch
            } else {
                outer
            },
            replay,
        },
        NodeOut::Next(threads) => {
            let ghost before = courses(threads@);
            let ghost wanted = inherited(course, out@)->Open_0;
            let mut all: Vec<Thread> = Vec::new();
            for thread in it: threads
                invariant
                    courses(it.seq()) == before,
                    wanted == inherited(course, Progress::Open(before))->Open_0,
                    course.branch == outer,
                    all@.len() == it.index(),
                    forall|k: int| 0 <= k < it.index() ==> (#[trigger] all@[k])@ == wanted[k],
            {
                assert(before[it.index() as int] == thread@);
                let branch: usize = if thread.branch > 0 {
                    thread.branch
                } else {
                    outer
                };
                all.push(Thread { branch, rest: thread.rest });
            }
            assert(courses(all@) =~= wanted);
            NodeOut::Next(all)
        },
    }
}

/// Evaluates the threads of a pending match.
fn evaluate_all(threads: &Vec<Thread>, keys: &KeyState) -> (r: NodeOut)
    ensures
        r@ == advance(courses(threads@), keys.active_atoms()),
{
    let ghost whole = courses(threads@);
    let ghost down = keys.active_atoms();
    let mut so_far = NodeOut::Wait;
    let mut i: usize = 0;
    assert(whole.take(0) =~= Seq::<Course>::empty());
    while i < threads.len()
        invariant
            i <= threads.len(),
            whole == courses(threads@),
            down == keys.active_atoms(),
            so_far@ == advance(whole.take(i as int), down),
        decreases threads.len() - i,
    {
        proof {
            assert(whole.take(i + 1).drop_last() =~= whole.take(i as int));
            assert(whole.take(i + 1).last() == threads@[i as int]@);
        }
        let out = evaluate(&threads[i].rest, keys);
        let mine = inherit(threads[i].branch, out, Ghost(threads@[i as int]@));
        so_far = join(so_far, mine);
        i += 1;
    }
    assert(whole.take(i as int) =~= whole);
    so_far
}

impl Machine {
    #[verifier::type_invariant]
    spec fn inv(self) -> bool {
        match self.actual_node {
            Node::Root => true,
            Node::Pending { binding, .. } => binding < self.bindings@.len(),
        }
    }

    /// Takes what binding `binding` yielded.
    fn settle(&mut self, binding: usize, out: NodeOut, stay: EventHandling) -> (r: (
        EventHandling,
        Option<Fired>,
    ))
        requires
            binding < old(self).bindings@.len(),
        ensures
            final(self).bindings == old(self).bindings,
            final(self).reset == old(self).reset,
            ({
                let v = conclude(
                    binding as nat,
                    out@,
                    Verdict { position: old(self).actual_node@, handling: stay, fired: None },
                );
                &&& final(self).actual_node@ == v.position
                &&& r.0 == v.handling
                &&& fired_view(r.1) == v.fired
            }),
            r.1 matches Some(fired) ==> fired.binding < old(self).bindings@.len(),
    {
        proof {
            use_type_invariant(&*self);
        }
        match out {
            NodeOut::Next(threads) => {
                if threads.len() == 0 {
                    (stay, None)
                } else {
                    self.actual_node = Node::Pending { binding, threads };
                    (EventHandling::Hide, None)
                }
            },
            NodeOut::Matched { branch, replay } => {
                self.actual_node = Node::Root;
                let handling = if replay {
                    EventHandling::Replay
                } else {
                    EventHandling::Hide
                };
                (handling, Some(Fired { binding, branch }))
            },
            NodeOut::Wait => (stay, None),
        }
    }

    /// Reports whether a leaf of some binding carries the replay flag and has
    /// an atom that the code of `e` realizes.
    fn replay_flagged(&self, keys: &KeyState, e: DisplayServerEvent) -> (r: bool)
        ensures
            r == any_flags_replay(self.bindings@, keys.atoms_of(e)),
    {
        let mut i: usize = 0;
        while i < self.bindings.len()
            invariant
                i <= self.bindings.len(),
                forall|k: int|
                    0 <= k < i ==> !flags_replay(
                        (#[trigger] self.bindings@[k]).key_tree,
                        keys.atoms_of(e),
                    ),
            decreases self.bindings.len() - i,
        {
            if wants_replay(&self.bindings[i].key_tree, keys, e) {
                return true;
            }
            i += 1;
        }
        false
    }

    /// The reaction to an input event that `keys` has recorded.
    fn step(&mut self, keys: &KeyState, e: DisplayServerEvent) -> (r: (
        EventHandling,
        Option<Fired>,
    ))
        ensures
            final(self).bindings == old(self).bindings,
            final(self).reset == old(self).reset,
            ({
                let v = react(
                    old(self).bindings@,
                    old(self).reset,
                    old(self).actual_node@,
                    keys.active_atoms(),
                    keys.atoms_of(e),
                );
                &&& final(self).actual_node@ == v.position
                &&& r.0 == v.handling
                &&& fired_view(r.1) == v.fired
            }),
            r.1 matches Some(fired) ==> fired.binding < old(self).bindings@.len(),
    {
        proof {
            use_type_invariant(&*self);
        }
        let ghost down = keys.active_atoms();
        match &self.actual_node {
            Node::Root => {
                let mut i: usize = 0;
                while i < self.bindings.len()
                    invariant
                        i <= self.bindings.len(),
                        down == keys.active_atoms(),
                        *self == *old(self),
                        self.actual_node is Root,
                        first_match(self.bindings@, down, 0) == first_match(
                            self.bindings@,
                            down,
                            i as nat,
                        ),
                    decreases self.bindings.len() - i,
                {
                    let out = evaluate(&self.bindings[i].key_tree, keys);
                    let waits = match &out {
                        NodeOut::Wait => true,
                        NodeOut::Next(threads) => threads.len() == 0,
                        NodeOut::Matched { .. } => false,
                    };
                    if !waits {
                        return self.settle(i, out, EventHandling::Replay);
                    }
                    i += 1;
                }
                (EventHandling::Replay, None)
            },
            Node::Pending { binding, threads } => {
                let binding = *binding;
                if keys.is_active(self.reset) {
                    self.actual_node = Node::Root;
                    (EventHandling::Hide, None)
                } else {
                    let out = evaluate_all(threads, keys);
                    let stay = if self.replay_flagged(keys, e) {
                        EventHandling::Replay
                    } else {
                        EventHandling::Hide
                    };
                    self.settle(binding, out, stay)
                }
            },
        }
    }

    fn restart(&mut self)
        ensures
            final(self).actual_node == Node::Root,
            final(self).bindings == old(self).bindings,
            final(self).reset == old(self).reset,
    {
        proof {
            use_type_invariant(&*self);
        }
        self.actual_node = Node::Root;
    }
}

impl Executor {
    /// The registered bindings, in declaration order.
    pub closed spec fn bindings(&self) -> Seq<Binding> {
        self.machine.bindings@
    }

    /// The atom that abandons a pending binding.
    pub closed spec fn reset(&self) -> Atom {
        self.machine.reset
    }

    /// Where the executor stands.
    pub closed spec fn position(&self) -> Position {
        self.machine.actual_node@
    }

    /// The key-state tracker.
    pub closed spec fn keys(&self) -> KeyState {
        self.key_state
    }

    /// An executor at the root with nothing pressed.
    pub fn new(bindings: Vec<Binding>, reset: Atom, table: Vec<AtomCodes>) -> (r: Self)
        ensures
            r.bindings() == bindings@,
            r.reset() == reset,
            r.position() == Position::Root,
            r.keys().table() == table@,
            r.keys().pressed_keys() == Set::<u8>::empty(),
            r.keys().pressed_buttons() == Set::<u8>::empty(),
    {
        Executor {
            key_state: KeyState::new(table),
            machine: Machine { bindings, reset, actual_node: Node::Root },
        }
    }

    /// Where the executor stands.
    pub fn node(&self) -> (r: &Node)
        ensures
            r@ == self.position(),
    {
        &self.machine.actual_node
    }

    /// The key-state tracker.
    pub fn key_state(&self) -> (r: &KeyState)
        ensures
            *r == self.keys(),
    {
        &self.key_state
    }

    /// The registered bindings, in declaration order.
    pub fn registered(&self) -> (r: &Vec<Binding>)
        ensures
            r@ == self.bindings(),
    {
        &self.machine.bindings
    }

    /// The atom that abandons a pending binding.
    pub fn reset_atom(&self) -> (r: Atom)
        ensures
            r == self.reset(),
    {
        self.machine.reset
    }

    /// Takes the next event: records it in the tracker, then decides what
    /// becomes of it and which binding fires.
    ///
    /// A change of layout is no input event: nothing is decided on it, what
    /// is pressed and what is pending stay, and the host is asked to resolve
    /// the codes anew.
    pub fn next(&mut self, e: DisplayServerEvent) -> (r: Reaction)
        ensures
            final(self).bindings() == old(self).bindings(),
            final(self).reset() == old(self).reset(),
            final(self).keys().table() == old(self).keys().table(),
            final(self).keys().pressed_keys() == keys_after(old(self).keys().pressed_keys(), e),
            final(self).keys().pressed_buttons() == buttons_after(
                old(self).keys().pressed_buttons(),
                e,
            ),
            e is LayoutChanged ==> {
                &&& final(self).position() == old(self).position()
                &&& r == (Reaction { handling: None, fired: None, refresh: true })
            },
            !(e is LayoutChanged) ==> {
                let v = react(
                    old(self).bindings(),
                    old(self).reset(),
                    old(self).position(),
                    final(self).keys().active_atoms(),
                    final(self).keys().atoms_of(e),
                );
                &&& final(self).position() == v.position
                &&& r.handling == Some(v.handling)
                &&& fired_view(r.fired) == v.fired
                &&& !r.refresh
            },
            r.fired matches Some(fired) ==> fired.binding < old(self).bindings().len(),
    {
        self.key_state.update(e);
        match e {
            DisplayServerEvent::LayoutChanged => Reaction {
                handling: None,
                fired: None,
                refresh: true,
            },
            _ => {
                let (handling, fired) = self.machine.step(&self.key_state, e);
                Reaction { handling: Some(handling), fired, refresh: false }
            },
        }
    }

    /// Abandons what is pending, on the word of an action.
    pub fn restart(&mut self)
        ensures
            final(self).position() == Position::Root,
            final(self).bindings() == old(self).bindings(),
            final(self).reset() == old(self).reset(),
            final(self).keys() == old(self).keys(),
    {
        self.machine.restart();
    }

    /// Takes the codes resolved anew after a change of the keyboard layout.
    /// What is pressed and what is pending stay as they are.
    pub fn remap(&mut self, table: Vec<AtomCodes>)
        ensures
            final(self).keys().table() == table@,
            final(self).keys().pressed_keys() == old(self).keys().pressed_keys(),
            final(self).keys().pressed_buttons() == old(self).keys().pressed_buttons(),
            final(self).position() == old(self).position(),
            final(self).bindings() == old(self).bindings(),
            final(self).reset() == old(self).reset(),
    {
        self.key_state.remap(table);
    }
}

} // verus!
