use hotkeyd::ast::{and, button, key, modifier, or, sequence, toggle_replay, Atom, AST};
use hotkeyd::binding::bind;
use hotkeyd::display::{grab_keycode_checked, DisplayServerEvent, Modifier, ReplyError};
use hotkeyd::key_state::{grab_keysym, AtomCodes, KeyState, ManageKeyState};
use hotkeyd::transition::{evaluate, wants_replay, NodeOut, Thread};

const XK_P: u32 = 0x70;
const XK_L: u32 = 0x6c;
const XK_R: u32 = 0x72;
const XK_N: u32 = 0x6e;

const CODE_P: u8 = 33;
const CODE_L: u8 = 46;
const CODE_R: u8 = 27;
const CODE_N: u8 = 57;

fn table() -> Vec<AtomCodes> {
    vec![
        AtomCodes { atom: Atom::Key(XK_P), codes: vec![CODE_P] },
        AtomCodes { atom: Atom::Key(XK_L), codes: vec![CODE_L, 200] },
        AtomCodes { atom: Atom::Key(XK_R), codes: vec![CODE_R] },
        AtomCodes { atom: Atom::Key(XK_N), codes: vec![] },
        AtomCodes { atom: Atom::Button(3), codes: vec![3] },
        AtomCodes { atom: Atom::Modifier(Modifier::Mod4), codes: vec![133, 134] },
        // a second entry for an atom is never read
        AtomCodes { atom: Atom::Key(XK_P), codes: vec![99] },
    ]
}

fn next(branch: usize, rest: AST) -> NodeOut {
    NodeOut::Next(vec![Thread { branch, rest }])
}

fn pressed(events: Vec<DisplayServerEvent>) -> KeyState {
    let mut keys = KeyState::new(table());
    for e in events {
        keys.update(e);
    }
    keys
}

#[test]
fn update_inserts_on_press_and_removes_on_release() {
    let mut keys = KeyState::new(table());
    assert!(!keys.is_key_pressed(CODE_P));
    keys.update(DisplayServerEvent::KeyPress(CODE_P));
    assert!(keys.is_key_pressed(CODE_P));
    assert!(!keys.is_button_pressed(CODE_P));
    keys.update(DisplayServerEvent::KeyPress(CODE_P));
    assert!(keys.is_key_pressed(CODE_P));
    keys.update(DisplayServerEvent::KeyRelease(CODE_P));
    assert!(!keys.is_key_pressed(CODE_P));
    keys.update(DisplayServerEvent::KeyRelease(CODE_P));
    assert!(!keys.is_key_pressed(CODE_P));
    keys.update(DisplayServerEvent::ButtonPress(3));
    assert!(keys.is_button_pressed(3));
    assert!(!keys.is_key_pressed(3));
    keys.update(DisplayServerEvent::LayoutChanged);
    assert!(keys.is_button_pressed(3));
    keys.update(DisplayServerEvent::ButtonRelease(3));
    assert!(!keys.is_button_pressed(3));
}

#[test]
fn an_atom_is_down_if_any_of_its_codes_is_pressed() {
    let keys = pressed(vec![DisplayServerEvent::KeyPress(200)]);
    assert!(keys.is_active(Atom::Key(XK_L)));
    assert!(!keys.is_active(Atom::Key(XK_P)));
    let keys = pressed(vec![DisplayServerEvent::KeyPress(CODE_L)]);
    assert!(keys.is_active(Atom::Key(XK_L)));
    let keys = pressed(vec![DisplayServerEvent::KeyPress(134)]);
    assert!(keys.is_active(Atom::Modifier(Modifier::Mod4)));
    assert!(!keys.is_active(Atom::Modifier(Modifier::Mod1)));
}

#[test]
fn an_atom_without_codes_is_never_down() {
    let keys = pressed(vec![
        DisplayServerEvent::KeyPress(CODE_N),
        DisplayServerEvent::KeyPress(CODE_P),
    ]);
    assert!(!keys.is_active(Atom::Key(XK_N)));
    assert!(!keys.is_active(Atom::Key(0x7a)));
    assert!(keys.is_active(Atom::Key(XK_P)));
}

#[test]
fn buttons_and_keys_do_not_mix() {
    let keys = pressed(vec![DisplayServerEvent::KeyPress(3)]);
    assert!(!keys.is_active(Atom::Button(3)));
    let keys = pressed(vec![DisplayServerEvent::ButtonPress(3)]);
    assert!(keys.is_active(Atom::Button(3)));
    let keys = pressed(vec![DisplayServerEvent::ButtonPress(CODE_P)]);
    assert!(!keys.is_active(Atom::Key(XK_P)));
}

#[test]
fn only_the_first_entry_of_an_atom_counts() {
    let keys = pressed(vec![DisplayServerEvent::KeyPress(99)]);
    assert!(!keys.is_active(Atom::Key(XK_P)));
    assert!(!keys.is_realized_by(DisplayServerEvent::KeyPress(99), Atom::Key(XK_P)));
}

#[test]
fn events_realize_the_atoms_of_their_code() {
    let keys = KeyState::new(table());
    assert!(keys.is_realized_by(DisplayServerEvent::KeyPress(CODE_L), Atom::Key(XK_L)));
    assert!(keys.is_realized_by(DisplayServerEvent::KeyRelease(200), Atom::Key(XK_L)));
    assert!(!keys.is_realized_by(DisplayServerEvent::KeyPress(CODE_L), Atom::Key(XK_P)));
    assert!(keys.is_realized_by(DisplayServerEvent::ButtonPress(3), Atom::Button(3)));
    assert!(!keys.is_realized_by(DisplayServerEvent::KeyPress(3), Atom::Button(3)));
    assert!(keys.is_realized_by(
        DisplayServerEvent::KeyPress(133),
        Atom::Modifier(Modifier::Mod4)
    ));
    assert!(!keys.is_realized_by(DisplayServerEvent::LayoutChanged, Atom::Key(XK_L)));
}

#[test]
fn remap_keeps_what_is_pressed() {
    let mut keys = pressed(vec![DisplayServerEvent::KeyPress(CODE_P)]);
    assert!(keys.is_active(Atom::Key(XK_P)));
    keys.remap(vec![AtomCodes { atom: Atom::Key(XK_L), codes: vec![CODE_P] }]);
    assert!(keys.is_key_pressed(CODE_P));
    assert!(!keys.is_active(Atom::Key(XK_P)));
    assert!(keys.is_active(Atom::Key(XK_L)));
    assert_eq!(keys.entries().len(), 1);
}

#[test]
fn a_leaf_matches_iff_its_atom_is_down() {
    let keys = pressed(vec![DisplayServerEvent::KeyPress(CODE_P)]);
    assert_eq!(evaluate(&key(XK_P), &keys), NodeOut::Matched { branch: 0, replay: false });
    assert_eq!(evaluate(&key(XK_L), &keys), NodeOut::Wait);
    assert_eq!(evaluate(&button(3), &keys), NodeOut::Wait);
    assert_eq!(evaluate(&modifier(Modifier::Mod4), &keys), NodeOut::Wait);
    let flagged = toggle_replay(key(XK_P)).unwrap();
    assert_eq!(evaluate(&flagged, &keys), NodeOut::Matched { branch: 0, replay: true });
}

#[test]
fn all_needs_both_sides() {
    let e = and(key(XK_P), key(XK_L));
    let keys = pressed(vec![DisplayServerEvent::KeyPress(CODE_P)]);
    assert_eq!(evaluate(&e, &keys), NodeOut::Wait);
    let keys = pressed(vec![
        DisplayServerEvent::KeyPress(CODE_P),
        DisplayServerEvent::KeyPress(CODE_L),
    ]);
    assert_eq!(evaluate(&e, &keys), NodeOut::Matched { branch: 0, replay: false });
}

#[test]
fn all_does_not_pass_the_replay_flag_on() {
    let e = and(toggle_replay(key(XK_P)).unwrap(), toggle_replay(key(XK_L)).unwrap());
    let keys = pressed(vec![
        DisplayServerEvent::KeyPress(CODE_P),
        DisplayServerEvent::KeyPress(CODE_L),
    ]);
    assert_eq!(evaluate(&e, &keys), NodeOut::Matched { branch: 0, replay: false });
}

#[test]
fn any_reports_the_right_branch_when_only_the_right_side_holds() {
    let e = or(key(XK_P), key(XK_L));
    let keys = pressed(vec![DisplayServerEvent::KeyPress(CODE_L)]);
    assert_eq!(evaluate(&e, &keys), NodeOut::Matched { branch: 2, replay: false });
    // the left side has three alternatives: the right one is the fourth
    let e = or(or(key(XK_P), or(key(XK_R), key(XK_N))), key(XK_L));
    assert_eq!(evaluate(&e, &keys), NodeOut::Matched { branch: 4, replay: false });
}

#[test]
fn any_prefers_the_left_branch() {
    let e = or(key(XK_P), key(XK_L));
    let keys = pressed(vec![
        DisplayServerEvent::KeyPress(CODE_L),
        DisplayServerEvent::KeyPress(CODE_P),
    ]);
    assert_eq!(evaluate(&e, &keys), NodeOut::Matched { branch: 1, replay: false });
}

#[test]
fn any_of_three_counts_from_left_to_right() {
    let left_nested = or(or(key(XK_P), key(XK_L)), key(XK_R));
    let right_nested = or(key(XK_P), or(key(XK_L), key(XK_R)));
    for e in [left_nested, right_nested] {
        let keys = pressed(vec![DisplayServerEvent::KeyPress(CODE_P)]);
        assert_eq!(evaluate(&e, &keys), NodeOut::Matched { branch: 1, replay: false });
        let keys = pressed(vec![DisplayServerEvent::KeyPress(CODE_L)]);
        assert_eq!(evaluate(&e, &keys), NodeOut::Matched { branch: 2, replay: false });
        let keys = pressed(vec![DisplayServerEvent::KeyPress(CODE_R)]);
        assert_eq!(evaluate(&e, &keys), NodeOut::Matched { branch: 3, replay: false });
        let keys = pressed(vec![]);
        assert_eq!(evaluate(&e, &keys), NodeOut::Wait);
    }
}

#[test]
fn a_conjunction_in_a_list_counts_once() {
    // alternatives: r, then (p or button) with l, then n
    let e = or(key(XK_R), or(and(or(key(XK_P), button(3)), key(XK_L)), key(XK_N)));
    let keys = pressed(vec![
        DisplayServerEvent::ButtonPress(3),
        DisplayServerEvent::KeyPress(CODE_L),
    ]);
    assert_eq!(evaluate(&e, &keys), NodeOut::Matched { branch: 2, replay: false });
    let keys = pressed(vec![
        DisplayServerEvent::KeyPress(CODE_P),
        DisplayServerEvent::KeyPress(CODE_L),
    ]);
    assert_eq!(evaluate(&e, &keys), NodeOut::Matched { branch: 2, replay: false });
}

#[test]
fn the_list_on_the_right_of_a_conjunction_gives_the_branch() {
    // like a modifier that has two keys, with a list of three
    let e = and(or(key(XK_P), button(3)), or(key(XK_L), or(key(XK_R), key(XK_N))));
    for first in [DisplayServerEvent::KeyPress(CODE_P), DisplayServerEvent::ButtonPress(3)] {
        let keys = pressed(vec![first, DisplayServerEvent::KeyPress(CODE_R)]);
        assert_eq!(evaluate(&e, &keys), NodeOut::Matched { branch: 2, replay: false });
        let keys = pressed(vec![first, DisplayServerEvent::KeyPress(CODE_L)]);
        assert_eq!(evaluate(&e, &keys), NodeOut::Matched { branch: 1, replay: false });
    }
}

#[test]
fn a_list_on_the_left_gives_the_branch_where_the_right_side_has_none() {
    let e = and(or(key(XK_P), button(3)), key(XK_L));
    let keys = pressed(vec![
        DisplayServerEvent::ButtonPress(3),
        DisplayServerEvent::KeyPress(CODE_L),
    ]);
    assert_eq!(evaluate(&e, &keys), NodeOut::Matched { branch: 2, replay: false });
    let e = and(key(XK_P), key(XK_L));
    let keys = pressed(vec![
        DisplayServerEvent::KeyPress(CODE_P),
        DisplayServerEvent::KeyPress(CODE_L),
    ]);
    assert_eq!(evaluate(&e, &keys), NodeOut::Matched { branch: 0, replay: false });
}

#[test]
fn a_sequence_advances_and_never_matches_at_once() {
    let e = sequence(key(XK_P), key(XK_L));
    let keys = pressed(vec![
        DisplayServerEvent::KeyPress(CODE_P),
        DisplayServerEvent::KeyPress(CODE_L),
    ]);
    assert_eq!(evaluate(&e, &keys), next(0, key(XK_L)));
    let keys = pressed(vec![DisplayServerEvent::KeyPress(CODE_L)]);
    assert_eq!(evaluate(&e, &keys), NodeOut::Wait);
}

#[test]
fn a_sequence_of_three_keeps_its_tail() {
    let e = sequence(sequence(key(XK_P), key(XK_L)), key(XK_R));
    let keys = pressed(vec![DisplayServerEvent::KeyPress(CODE_P)]);
    assert_eq!(evaluate(&e, &keys), next(0, sequence(key(XK_L), key(XK_R))));
}

#[test]
fn the_first_part_of_a_sequence_adds_nothing_to_the_branch() {
    let e = sequence(or(key(XK_P), button(3)), or(key(XK_L), key(XK_R)));
    let keys = pressed(vec![DisplayServerEvent::ButtonPress(3)]);
    assert_eq!(evaluate(&e, &keys), next(0, or(key(XK_L), key(XK_R))));
    let keys = pressed(vec![DisplayServerEvent::KeyPress(CODE_P)]);
    assert_eq!(evaluate(&e, &keys), next(0, or(key(XK_L), key(XK_R))));
}

#[test]
fn a_sequence_in_a_list_keeps_its_position() {
    // alternatives: p, then (l, r), then n
    let e = or(key(XK_P), or(sequence(key(XK_L), key(XK_R)), key(XK_N)));
    let keys = pressed(vec![DisplayServerEvent::KeyPress(CODE_L)]);
    assert_eq!(evaluate(&e, &keys), next(2, key(XK_R)));
}

#[test]
fn every_alternative_that_advances_stays() {
    // alternatives: (l, r), then p, then (l, p), then (button, p)
    let e = or(
        or(sequence(key(XK_L), key(XK_R)), key(XK_P)),
        or(sequence(key(XK_L), key(XK_P)), sequence(button(3), key(XK_P))),
    );
    let keys = pressed(vec![DisplayServerEvent::KeyPress(CODE_L)]);
    assert_eq!(
        evaluate(&e, &keys),
        NodeOut::Next(vec![
            Thread { branch: 1, rest: key(XK_R) },
            Thread { branch: 3, rest: key(XK_P) },
        ])
    );
}

#[test]
fn a_satisfied_alternative_wins_over_one_that_advances() {
    let e = or(sequence(key(XK_P), key(XK_L)), key(XK_P));
    let keys = pressed(vec![DisplayServerEvent::KeyPress(CODE_P)]);
    assert_eq!(evaluate(&e, &keys), NodeOut::Matched { branch: 2, replay: false });
}

#[test]
fn a_sequence_inside_all_never_holds() {
    let e = and(sequence(key(XK_P), key(XK_L)), key(XK_R));
    let keys = pressed(vec![
        DisplayServerEvent::KeyPress(CODE_P),
        DisplayServerEvent::KeyPress(CODE_L),
        DisplayServerEvent::KeyPress(CODE_R),
    ]);
    assert_eq!(evaluate(&e, &keys), NodeOut::Wait);
}

#[test]
fn handle_event_evaluates_from_the_root() {
    let b = bind(sequence(key(XK_P), or(key(XK_L), key(XK_R))));
    let keys = pressed(vec![DisplayServerEvent::KeyPress(CODE_P)]);
    assert_eq!(b.handle_event(&keys), next(0, or(key(XK_L), key(XK_R))));
}

#[test]
fn wants_replay_looks_for_a_flagged_leaf_of_the_event() {
    let keys = KeyState::new(table());
    let flagged: AST = sequence(key(XK_P), or(toggle_replay(key(XK_L)).unwrap(), key(XK_R)));
    assert!(wants_replay(&flagged, &keys, DisplayServerEvent::KeyPress(CODE_L)));
    assert!(wants_replay(&flagged, &keys, DisplayServerEvent::KeyRelease(200)));
    assert!(!wants_replay(&flagged, &keys, DisplayServerEvent::KeyPress(CODE_P)));
    assert!(!wants_replay(&flagged, &keys, DisplayServerEvent::KeyPress(CODE_R)));
    assert!(!wants_replay(&flagged, &keys, DisplayServerEvent::ButtonPress(CODE_L)));
    let plain = sequence(key(XK_P), key(XK_L));
    assert!(!wants_replay(&plain, &keys, DisplayServerEvent::KeyPress(CODE_L)));
}

#[test]
fn grab_keysym_keeps_the_granted_codes() {
    let results = vec![
        grab_keycode_checked(10, 0x8000, Ok(())),
        grab_keycode_checked(11, 0x8000, Err(ReplyError::GenericError(10))),
        grab_keycode_checked(12, 0x8000, Ok(())),
    ];
    let (entry, errors) = grab_keysym(XK_P, results);
    assert_eq!(entry, AtomCodes { atom: Atom::Key(XK_P), codes: vec![10, 12] });
    assert_eq!(errors.len(), 1);
    assert_eq!(errors[0].value, 11);
}
