//! The key-state tracker: which hardware codes are pressed, and which codes
//! realize each atom.

use std::collections::HashSet;
use vstd::prelude::*;
use crate::ast::Atom;
use crate::display::{
    grab_keysym_checked,
    granted,
    refused,
    Button,
    DisplayServerEvent,
    GrabError,
    Keycode,
    Keysym,
};

verus! {

broadcast use vstd::std_specs::hash::group_hash_axioms;

pub const SIZE_OF_THE_ACTIVE_KEYS: usize = 100;

/// The hardware codes that realize one atom.
///
/// For a key or a modifier these are key codes, for a button they are button
/// codes.
#[derive(Debug, PartialEq, Eq)]
pub struct AtomCodes {
    pub atom: Atom,
    pub codes: Vec<u8>,
}

/// The codes listed for `atom` in `table`: those of its first entry, and none
/// where it has no entry.
pub open spec fn lookup(table: Seq<AtomCodes>, atom: Atom) -> Seq<u8>
    decreases table.len(),
{
    if table.len() == 0 {
        Seq::empty()
    } else if table[0].atom == atom {
        table[0].codes@
    } else {
        lookup(table.drop_first(), atom)
    }
}

/// True if one of `codes` is a member of `pressed`.
pub open spec fn any_pressed(codes: Seq<u8>, pressed: Set<u8>) -> bool {
    exists|i: int| 0 <= i < codes.len() && pressed.contains(#[trigger] codes[i])
}

/// The pressed set after `e`: a press inserts its code, a release removes it.
pub open spec fn keys_after(pressed: Set<Keycode>, e: DisplayServerEvent) -> Set<Keycode> {
    match e {
        DisplayServerEvent::KeyPress(k) => pressed.insert(k),
        DisplayServerEvent::KeyRelease(k) => pressed.remove(k),
        _ => pressed,
    }
}

/// The pressed buttons after `e`.
pub open spec fn buttons_after(pressed: Set<Button>, e: DisplayServerEvent) -> Set<Button> {
    match e {
        DisplayServerEvent::ButtonPress(b) => pressed.insert(b),
        DisplayServerEvent::ButtonRelease(b) => pressed.remove(b),
        _ => pressed,
    }
}

/// The entry of a symbolic key in the table of codes, from the outcomes of
/// the requests for its key codes: the codes that were granted realize the
/// key, and the refusals are handed back to be reported.
pub fn grab_keysym(keysym: Keysym, results: Vec<Result<Keycode, GrabError<Keycode>>>) -> (r: (
    AtomCodes,
    Vec<GrabError<Keycode>>,
))
    ensures
        r.0.atom == Atom::Key(keysym),
        r.0.codes@ == granted(results@),
        r.1@ == refused(results@),
{
    let (codes, errors) = grab_keysym_checked(results);
    (AtomCodes { atom: Atom::Key(keysym), codes }, errors)
}

pub trait ManageKeyState: Sized {
    /// The key codes that are pressed.
    spec fn pressed_keys(&self) -> Set<Keycode>;

    /// The button codes that are pressed.
    spec fn pressed_buttons(&self) -> Set<Button>;

    /// The table of codes per atom.
    spec fn table(&self) -> Seq<AtomCodes>;

    /// A tracker with nothing pressed.
    fn new(table: Vec<AtomCodes>) -> (r: Self)
        ensures
            r.pressed_keys() == Set::<Keycode>::empty(),
            r.pressed_buttons() == Set::<Button>::empty(),
            r.table() == table@,
    ;

    /// Records a press or a release; any other event changes nothing.
    fn update(&mut self, e: DisplayServerEvent)
        ensures
            final(self).pressed_keys() == keys_after(old(self).pressed_keys(), e),
            final(self).pressed_buttons() == buttons_after(old(self).pressed_buttons(), e),
            final(self).table() == old(self).table(),
    ;
}

pub struct KeyState {
    // keycode: a number marking the physical place of keys
    keycodes: HashSet<Keycode>,
    buttons: HashSet<Button>,
    // keysym: a number assigned to the name of the key (understandable by both programs and humans). Like enter.
    // 1 keysym could need multiple keycodes
    keys: Vec<AtomCodes>,
}

impl ManageKeyState for KeyState {
    closed spec fn pressed_keys(&self) -> Set<Keycode> {
        self.keycodes@
    }

    closed spec fn pressed_buttons(&self) -> Set<Button> {
        self.buttons@
    }

    closed spec fn table(&self) -> Seq<AtomCodes> {
        self.keys@
    }

    fn new(table: Vec<AtomCodes>) -> (r: Self) {
        KeyState {
            keycodes: HashSet::with_capacity(SIZE_OF_THE_ACTIVE_KEYS),
            buttons: HashSet::new(),
            keys: table,
        }
    }

    fn update(&mut self, e: DisplayServerEvent) {
        match e {
            DisplayServerEvent::KeyRelease(k) => {
                self.keycodes.remove(&k);
            },
            DisplayServerEvent::KeyPress(k) => {
                self.keycodes.insert(k);
            },
            DisplayServerEvent::ButtonRelease(b) => {
                self.buttons.remove(&b);
            },
            DisplayServerEvent::ButtonPress(b) => {
                self.buttons.insert(b);
            },
            DisplayServerEvent::LayoutChanged => {
                // do nothing
            },
        }
    }
}

impl KeyState {
    /// The codes that realize `atom`.
    pub open spec fn codes(&self, atom: Atom) -> Seq<u8> {
        lookup(self.table(), atom)
    }

    /// The pressed set in which the codes of `atom` are looked up.
    pub open spec fn pressed_for(&self, atom: Atom) -> Set<u8> {
        match atom {
            Atom::Button(_) => self.pressed_buttons(),
            _ => self.pressed_keys(),
        }
    }

    /// An atom is down if any code that realizes it is pressed.
    pub open spec fn active(&self, atom: Atom) -> bool {
        any_pressed(self.codes(atom), self.pressed_for(atom))
    }

    /// The atoms that are down.
    pub open spec fn active_atoms(&self) -> Set<Atom> {
        Set::new(|atom: Atom| self.active(atom))
    }

    /// True if `e` carries a code that realizes `atom`.
    pub open spec fn realizes(&self, e: DisplayServerEvent, atom: Atom) -> bool {
        match (e, atom) {
            (DisplayServerEvent::ButtonPress(b), Atom::Button(_)) => self.codes(atom).contains(b),
            (DisplayServerEvent::ButtonRelease(b), Atom::Button(_)) => self.codes(atom).contains(b),
            (DisplayServerEvent::KeyPress(k), Atom::Key(_)) => self.codes(atom).contains(k),
            (DisplayServerEvent::KeyRelease(k), Atom::Key(_)) => self.codes(atom).contains(k),
            (DisplayServerEvent::KeyPress(k), Atom::Modifier(_)) => self.codes(atom).contains(k),
            (DisplayServerEvent::KeyRelease(k), Atom::Modifier(_)) => self.codes(atom).contains(k),
            _ => false,
        }
    }

    /// The atoms that the code of `e` realizes.
    pub open spec fn atoms_of(&self, e: DisplayServerEvent) -> Set<Atom> {
        Set::new(|atom: Atom| self.realizes(e, atom))
    }

    /// Reports whether the key with code `code` is pressed.
    pub fn is_key_pressed(&self, code: Keycode) -> (r: bool)
        ensures
            r == self.pressed_keys().contains(code),
    {
        self.keycodes.contains(&code)
    }

    /// Reports whether the button with code `code` is pressed.
    pub fn is_button_pressed(&self, code: Button) -> (r: bool)
        ensures
            r == self.pressed_buttons().contains(code),
    {
        self.buttons.contains(&code)
    }

    /// The table of codes per atom.
    pub fn entries(&self) -> (r: &Vec<AtomCodes>)
        ensures
            r@ == self.table(),
    {
        &self.keys
    }

    /// Reports whether `atom` is down.
    pub fn is_active(&self, atom: Atom) -> (r: bool)
        ensures
            r == self.active(atom),
            r == self.active_atoms().contains(atom),
    {
        match self.find(atom) {
            None => false,
            Some(at) => {
                let codes = &self.keys[at].codes;
                let mut i: usize = 0;
                while i < codes.len()
                    invariant
                        i <= codes.len(),
                        codes@ == self.codes(atom),
                        self.pressed_keys() == self.keycodes@,
                        self.pressed_buttons() == self.buttons@,
                        forall|j: int| 0 <= j < i ==> !self.pressed_for(atom).contains(#[trigger] codes@[j]),
                    decreases codes.len() - i,
                {
                    let code = codes[i];
                    let down = match atom {
                        Atom::Button(_) => self.buttons.contains(&code),
                        _ => self.keycodes.contains(&code),
                    };
                    if down {
                        return true;
                    }
                    i += 1;
                }
                false
            },
        }
    }

    /// Reports whether the code that `e` carries realizes `atom`.
    pub fn is_realized_by(&self, e: DisplayServerEvent, atom: Atom) -> (r: bool)
        ensures
            r == self.realizes(e, atom),
            r == self.atoms_of(e).contains(atom),
    {
        let code: u8 = match (e, atom) {
            (DisplayServerEvent::ButtonPress(b), Atom::Button(_)) => b,
            (DisplayServerEvent::ButtonRelease(b), Atom::Button(_)) => b,
            (DisplayServerEvent::KeyPress(k), Atom::Key(_)) => k,
            (DisplayServerEvent::KeyRelease(k), Atom::Key(_)) => k,
            (DisplayServerEvent::KeyPress(k), Atom::Modifier(_)) => k,
            (DisplayServerEvent::KeyRelease(k), Atom::Modifier(_)) => k,
            _ => {
                return false;
            },
        };
        match self.find(atom) {
            None => false,
            Some(at) => {
                let codes = &self.keys[at].codes;
                let mut i: usize = 0;
                while i < codes.len()
                    invariant
                        i <= codes.len(),
                        codes@ == self.codes(atom),
                        self.realizes(e, atom) == self.codes(atom).contains(code),
                        forall|j: int| 0 <= j < i ==> codes@[j] != code,
                    decreases codes.len() - i,
                {
                    if codes[i] == code {
                        return true;
                    }
                    i += 1;
                }
                false
            },
        }
    }

    /// Replaces the table of codes after a change of the keyboard layout.
    /// What is pressed stays pressed, by hardware code.
    pub fn remap(&mut self, table: Vec<AtomCodes>)
        ensures
            final(self).table() == table@,
            final(self).pressed_keys() == old(self).pressed_keys(),
            final(self).pressed_buttons() == old(self).pressed_buttons(),
    {
        self.keys = table;
    }

    /// Position of the first entry for `atom` in the table.
    fn find(&self, atom: Atom) -> (r: Option<usize>)
        ensures
            match r {
                Some(i) => i < self.table().len() && self.table()[i as int].atom == atom
                    && self.codes(atom) == self.table()[i as int].codes@,
                None => self.codes(atom) == Seq::<u8>::empty(),
            },
    {
        let mut i: usize = 0;
        assert(self.keys@.skip(0) =~= self.keys@);
        while i < self.keys.len()
            invariant
                i <= self.keys.len(),
                lookup(self.keys@, atom) == lookup(self.keys@.skip(i as int), atom),
            decreases self.keys.len() - i,
        {
            proof {
                let rest = self.keys@.skip(i as int);
                assert(rest[0] == self.keys@[i as int]);
                assert(rest.drop_first() =~= self.keys@.skip(i + 1));
            }
            if self.keys[i].atom == atom {
                return Some(i);
            }
            i += 1;
        }
        None
    }
}

/// An atom that no code realizes is never down: a key whose grabs were all
/// refused is inert.
pub proof fn lemma_unrealized_is_inactive(keys: KeyState, atom: Atom)
    requires
        keys.codes(atom).len() == 0,
    ensures
        !keys.active(atom),
        !keys.active_atoms().contains(atom),
{
}

/// Whether an atom is down depends on its own codes and on what is pressed,
/// not on the codes of any other atom.
pub proof fn lemma_active_is_local(keys: KeyState, other: KeyState, atom: Atom)
    requires
        keys.pressed_keys() == other.pressed_keys(),
        keys.pressed_buttons() == other.pressed_buttons(),
        keys.codes(atom) == other.codes(atom),
    ensures
        keys.active(atom) == other.active(atom),
{
}

} // verus!
