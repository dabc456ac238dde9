//! Registration: the keys and bindings of a daemon, and the atoms that it
//! asks the display server to deliver.

use vstd::prelude::*;
use crate::ast::{Atom, AST};
use crate::binding::{push_atoms, Binding};
use crate::display::{Button, Keysym, Modifier};
use crate::executor::{Executor, Position};
use crate::key_state::{AtomCodes, ManageKeyState};

verus! {

/// `s` without repetitions: each atom where it first occurs.
pub open spec fn distinct(s: Seq<Atom>) -> Seq<Atom>
    decreases s.len(),
{
    if s.len() == 0 {
        Seq::empty()
    } else if distinct(s.drop_last()).contains(s.last()) {
        distinct(s.drop_last())
    } else {
        distinct(s.drop_last()).push(s.last())
    }
}

/// `distinct` holds every atom of the sequence, and each once.
pub proof fn lemma_distinct(s: Seq<Atom>)
    ensures
        distinct(s).no_duplicates(),
        forall|atom: Atom| distinct(s).contains(atom) <==> s.contains(atom),
    decreases s.len(),
{
    if s.len() > 0 {
        let before = s.drop_last();
        lemma_distinct(before);
        assert forall|atom: Atom| distinct(s).contains(atom) <==> s.contains(atom) by {
            if s.contains(atom) {
                let i = choose|i: int| 0 <= i < s.len() && s[i] == atom;
                if i < s.len() - 1 {
                    assert(before[i] == atom);
                    assert(before.contains(atom));
                    assert(distinct(before).contains(atom));
                    let j = choose|j: int|
                        0 <= j < distinct(before).len() && distinct(before)[j] == atom;
                    assert(distinct(s)[j] == atom);
                } else if !distinct(before).contains(atom) {
                    assert(distinct(s)[distinct(s).len() - 1] == atom);
                }
            }
            if distinct(s).contains(atom) {
                let j = choose|j: int| 0 <= j < distinct(s).len() && distinct(s)[j] == atom;
                if j < distinct(before).len() {
                    assert(distinct(before)[j] == atom);
                    assert(distinct(before).contains(atom));
                    assert(before.contains(atom));
                    let i = choose|i: int| 0 <= i < before.len() && before[i] == atom;
                    assert(s[i] == atom);
                } else {
                    assert(s[s.len() - 1] == atom);
                }
            }
        }
    }
}

/// The atoms of the leaves of all bindings, in declaration order.
pub open spec fn all_atoms(bindings: Seq<Binding>) -> Seq<Atom>
    decreases bindings.len(),
{
    if bindings.len() == 0 {
        Seq::empty()
    } else {
        all_atoms(bindings.drop_last()) + bindings.last().key_tree.leaf_atoms()
    }
}

/// The atoms for which delivery is requested: the registered ones, then
/// those of the bindings, each once.
pub fn atoms_to_grab(registered: &Vec<Atom>, bindings: &Vec<Binding>) -> (r: Vec<Atom>)
    ensures
        r@ == distinct(registered@ + all_atoms(bindings@)),
{
    let mut all: Vec<Atom> = Vec::new();
    let mut i: usize = 0;
    while i < registered.len()
        invariant
            i <= registered.len(),
            all@ == registered@.take(i as int),
        decreases registered.len() - i,
    {
        all.push(registered[i]);
        i += 1;
    }
    assert(registered@.take(i as int) == registered@);
    let mut k: usize = 0;
    assert(bindings@.take(0) == Seq::<Binding>::empty());
    while k < bindings.len()
        invariant
            k <= bindings.len(),
            all@ == registered@ + all_atoms(bindings@.take(k as int)),
        decreases bindings.len() - k,
    {
        assert(bindings@.take(k + 1).drop_last() == bindings@.take(k as int));
        push_atoms(&bindings[k].key_tree, &mut all);
        k += 1;
    }
    assert(bindings@.take(k as int) == bindings@);
    let mut out: Vec<Atom> = Vec::new();
    let mut j: usize = 0;
    while j < all.len()
        invariant
            j <= all.len(),
            out@ == distinct(all@.take(j as int)),
        decreases all.len() - j,
    {
        assert(all@.take(j + 1).drop_last() == all@.take(j as int));
        let atom = all[j];
        let mut seen = false;
        let mut m: usize = 0;
        while m < out.len()
            invariant
                m <= out.len(),
                seen == exists|n: int| 0 <= n < m && out@[n] == atom,
            decreases out.len() - m,
        {
            if out[m] == atom {
                seen = true;
            }
            m += 1;
        }
        if !seen {
            out.push(atom);
        }
        j += 1;
    }
    assert(all@.take(j as int) == all@);
    out
}

/// A daemon that is ready for events.
pub struct HotKeyDaemon {
    /// The state machine that takes the events.
    pub executor: Executor,
    /// The atoms for which delivery is to be requested, each once.
    pub grabs: Vec<Atom>,
}

impl HotKeyDaemon {
    /// Takes the codes that the display server granted for the atoms in
    /// `grabs` and puts the executor at the root.
    pub fn start(&mut self, table: Vec<AtomCodes>)
        ensures
            final(self).grabs == old(self).grabs,
            final(self).executor.position() == Position::Root,
            final(self).executor.keys().table() == table@,
            final(self).executor.keys().pressed_keys() == old(self).executor.keys().pressed_keys(),
            final(self).executor.keys().pressed_buttons() == old(
                self,
            ).executor.keys().pressed_buttons(),
            final(self).executor.bindings() == old(self).executor.bindings(),
            final(self).executor.reset() == old(self).executor.reset(),
    {
        self.executor.remap(table);
        self.executor.restart();
    }
}

/// Collects the keys and the bindings of a daemon.
pub struct HotKeyDaemonBuilder {
    pub reset: Atom,
    pub keys: Vec<Atom>,
    pub bindings: Vec<Binding>,
}

impl HotKeyDaemonBuilder {
    /// A builder without bindings, whose pending bindings `reset` abandons.
    pub fn new(reset: Atom) -> (r: Self)
        ensures
            r.reset == reset,
            r.keys@ == seq![reset],
            r.bindings@ == Seq::<Binding>::empty(),
    {
        let mut keys: Vec<Atom> = Vec::new();
        keys.push(reset);
        Self { reset, keys, bindings: Vec::new() }
    }

    /// Register key
    pub fn key(&mut self, keysym: Keysym) -> (r: AST)
        ensures
            r == (AST::Key { replay: false, key: keysym }),
            final(self).keys@ == old(self).keys@.push(Atom::Key(keysym)),
            final(self).bindings == old(self).bindings,
            final(self).reset == old(self).reset,
    {
        self.keys.push(Atom::Key(keysym));
        AST::Key { replay: false, key: keysym }
    }

    /// Register pointer button
    pub fn button(&mut self, code: Button) -> (r: AST)
        ensures
            r == (AST::Button { replay: false, button: code }),
            final(self).keys@ == old(self).keys@.push(Atom::Button(code)),
            final(self).bindings == old(self).bindings,
            final(self).reset == old(self).reset,
    {
        self.keys.push(Atom::Button(code));
        AST::Button { replay: false, button: code }
    }

    /// Register modifier
    pub fn modifier(&mut self, mask: Modifier) -> (r: AST)
        ensures
            r == (AST::Modifier { replay: false, modifier: mask }),
            final(self).keys@ == old(self).keys@.push(Atom::Modifier(mask)),
            final(self).bindings == old(self).bindings,
            final(self).reset == old(self).reset,
    {
        self.keys.push(Atom::Modifier(mask));
        AST::Modifier { replay: false, modifier: mask }
    }

    pub fn setup_bindings(&mut self, bindings: Vec<Binding>)
        ensures
            final(self).bindings == bindings,
            final(self).keys == old(self).keys,
            final(self).reset == old(self).reset,
    {
        self.bindings = bindings
    }

    /// Builds the daemon: an executor at the root with nothing pressed and
    /// no codes yet, and the atoms to request.
    pub fn build(self) -> (daemon: HotKeyDaemon)
        ensures
            daemon.grabs@ == distinct(self.keys@ + all_atoms(self.bindings@)),
            daemon.executor.bindings() == self.bindings@,
            daemon.executor.reset() == self.reset,
            daemon.executor.position() == Position::Root,
            daemon.executor.keys().table() == Seq::<AtomCodes>::empty(),
            daemon.executor.keys().pressed_keys() == Set::<u8>::empty(),
            daemon.executor.keys().pressed_buttons() == Set::<u8>::empty(),
    {
        let grabs = atoms_to_grab(&self.keys, &self.bindings);
        HotKeyDaemon { executor: Executor::new(self.bindings, self.reset, Vec::new()), grabs }
    }
}

} // verus!
