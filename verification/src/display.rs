//! Plain values exchanged with a display server.

use vstd::prelude::*;
use vstd::string::StringExecFns;
use crate::text::{decimal, push_decimal};

verus! {

/// Symbolic name of a key, independent of the keyboard layout.
pub type Keysym = u32;

/// Hardware code of a key.
pub type Keycode = u8;

/// Code of a pointer button.
pub type Button = u8;

/// Modifier masks.
#[derive(Clone, Copy, Debug, PartialEq, Eq, Structural)]
pub enum Modifier {
    Mod1,
    Mod2,
    Mod3,
    Mod4,
    Mod5,
    Any,
    Control,
    Lock,
    Shift,
}

impl Modifier {
    /// The mask of the modifier in requests to the display server: one bit
    /// for each modifier, from `Shift` in bit 0 to `Mod5` in bit 7, and bit
    /// 15 for `Any`.
    pub open spec fn mask_value(self) -> u16 {
        match self {
            Modifier::Shift => 0x0001,
            Modifier::Lock => 0x0002,
            Modifier::Control => 0x0004,
            Modifier::Mod1 => 0x0008,
            Modifier::Mod2 => 0x0010,
            Modifier::Mod3 => 0x0020,
            Modifier::Mod4 => 0x0040,
            Modifier::Mod5 => 0x0080,
            Modifier::Any => 0x8000,
        }
    }

    /// The mask of the modifier.
    pub fn mask(self) -> (r: u16)
        ensures
            r == self.mask_value(),
    {
        match self {
            Modifier::Shift => 0x0001,
            Modifier::Lock => 0x0002,
            Modifier::Control => 0x0004,
            Modifier::Mod1 => 0x0008,
            Modifier::Mod2 => 0x0010,
            Modifier::Mod3 => 0x0020,
            Modifier::Mod4 => 0x0040,
            Modifier::Mod5 => 0x0080,
            Modifier::Any => 0x8000,
        }
    }

    /// The row of the modifier in the modifier map of the display server,
    /// which has the eight modifiers in the order of their bits. `Any` has
    /// no row.
    pub open spec fn row_value(self) -> Option<nat> {
        match self {
            Modifier::Shift => Some(0),
            Modifier::Lock => Some(1),
            Modifier::Control => Some(2),
            Modifier::Mod1 => Some(3),
            Modifier::Mod2 => Some(4),
            Modifier::Mod3 => Some(5),
            Modifier::Mod4 => Some(6),
            Modifier::Mod5 => Some(7),
            Modifier::Any => None,
        }
    }

    /// The row of the modifier in the modifier map.
    pub fn row(self) -> (r: Option<usize>)
        ensures
            match r {
                Some(row) => self.row_value() == Some(row as nat) && row < 8,
                None => self.row_value() is None,
            },
    {
        match self {
            Modifier::Shift => Some(0),
            Modifier::Lock => Some(1),
            Modifier::Control => Some(2),
            Modifier::Mod1 => Some(3),
            Modifier::Mod2 => Some(4),
            Modifier::Mod3 => Some(5),
            Modifier::Mod4 => Some(6),
            Modifier::Mod5 => Some(7),
            Modifier::Any => None,
        }
    }
}

/// The codes of `codes` that are not zero, in order.
pub open spec fn nonzero(codes: Seq<Keycode>) -> Seq<Keycode>
    decreases codes.len(),
{
    if codes.len() == 0 {
        Seq::empty()
    } else if codes.last() == 0 {
        nonzero(codes.drop_last())
    } else {
        nonzero(codes.drop_last()).push(codes.last())
    }
}

/// The key codes that realize `modifier` according to the modifier map
/// `map`, which holds `per_modifier` codes for each modifier, unused places
/// being zero. A map that is too short for the row gives no codes.
pub open spec fn modifier_row(map: Seq<Keycode>, per_modifier: nat, modifier: Modifier) -> Seq<
    Keycode,
> {
    match modifier.row_value() {
        Some(row) => if (row + 1) * per_modifier <= map.len() {
            nonzero(map.subrange((row * per_modifier) as int, ((row + 1) * per_modifier) as int))
        } else {
            Seq::empty()
        },
        None => Seq::empty(),
    }
}

/// Reads the key codes that realize `modifier` from the modifier map.
pub fn modifier_codes(map: &Vec<Keycode>, per_modifier: u8, modifier: Modifier) -> (r: Vec<Keycode>)
    ensures
        r@ == modifier_row(map@, per_modifier as nat, modifier),
{
    let mut out: Vec<Keycode> = Vec::new();
    let row = match modifier.row() {
        Some(row) => row,
        None => {
            return out;
        },
    };
    let per: usize = per_modifier as usize;
    assert(row * per <= 7 * 255 && (row + 1) * per <= 8 * 255 && row * per + per == (row + 1) * per)
        by (nonlinear_arith)
        requires
            row < 8,
            per <= 255,
    ;
    let from: usize = row * per;
    let to: usize = from + per;
    if to > map.len() {
        return out;
    }
    let ghost whole = map@.subrange(from as int, to as int);
    let mut i: usize = from;
    assert(whole.take(0) == Seq::<Keycode>::empty());
    while i < to
        invariant
            from <= i <= to <= map.len(),
            whole == map@.subrange(from as int, to as int),
            out@ == nonzero(whole.take(i - from)),
        decreases to - i,
    {
        assert(whole.take(i - from + 1).drop_last() == whole.take(i - from));
        assert(whole.take(i - from + 1).last() == map@[i as int]);
        if map[i] != 0 {
            out.push(map[i]);
        }
        i += 1;
    }
    assert(whole.take(to - from) == whole);
    out
}

/// A set of modifiers.
#[derive(Clone, Copy, Debug, PartialEq, Eq, Structural)]
pub struct Modifiers {
    pub mod1: bool,
    pub mod2: bool,
    pub mod3: bool,
    pub mod4: bool,
    pub mod5: bool,
    pub control: bool,
    pub lock: bool,
    pub shift: bool,
}

/// An input event delivered by the display server.
#[derive(Clone, Copy, Debug, PartialEq, Eq, Structural)]
pub enum DisplayServerEvent {
    KeyRelease(Keycode),
    KeyPress(Keycode),
    ButtonRelease(Button),
    ButtonPress(Button),
    /// The mapping from symbolic keys to hardware codes has changed.
    LayoutChanged,
}

/// What the display server does with an event once the engine is done with it.
#[derive(Clone, Copy, Debug, PartialEq, Eq, Structural)]
pub enum EventHandling {
    /// The event is delivered to the client that would have received it.
    Replay,
    /// The event is consumed by the daemon.
    Hide,
}

impl EventHandling {
    /// True exactly for `Replay`.
    pub open spec fn replays(self) -> bool {
        self == EventHandling::Replay
    }

    /// Reports whether the event is to be passed on.
    pub fn is_replay(self) -> (r: bool)
        ensures
            r == self.replays(),
    {
        matches!(self, EventHandling::Replay)
    }
}

/// How the display server is told to go on after a grabbed event.
#[derive(Clone, Copy, Debug, PartialEq, Eq, Structural)]
pub enum AllowMode {
    ReplayKeyboard,
    SyncKeyboard,
    ReplayPointer,
    SyncPointer,
}

/// The one decision owed to the display server for `event`: a key event is
/// replayed to, or hidden from, the keyboard's clients, a button event those
/// of the pointer. No decision is owed for an event that is no input event.
pub open spec fn allow_mode(event: DisplayServerEvent, handling: EventHandling) -> Option<
    AllowMode,
> {
    match (event, handling) {
        (DisplayServerEvent::KeyPress(_), EventHandling::Replay) => Some(AllowMode::ReplayKeyboard),
        (DisplayServerEvent::KeyRelease(_), EventHandling::Replay) => Some(
            AllowMode::ReplayKeyboard,
        ),
        (DisplayServerEvent::KeyPress(_), EventHandling::Hide) => Some(AllowMode::SyncKeyboard),
        (DisplayServerEvent::KeyRelease(_), EventHandling::Hide) => Some(AllowMode::SyncKeyboard),
        (DisplayServerEvent::ButtonPress(_), EventHandling::Replay) => Some(
            AllowMode::ReplayPointer,
        ),
        (DisplayServerEvent::ButtonRelease(_), EventHandling::Replay) => Some(
            AllowMode::ReplayPointer,
        ),
        (DisplayServerEvent::ButtonPress(_), EventHandling::Hide) => Some(AllowMode::SyncPointer),
        (DisplayServerEvent::ButtonRelease(_), EventHandling::Hide) => Some(AllowMode::SyncPointer),
        (DisplayServerEvent::LayoutChanged, _) => None,
    }
}

/// let other clients get the event
/// this must be called after every event
pub fn release_event(event: DisplayServerEvent, handling: EventHandling) -> (r: Option<AllowMode>)
    ensures
        r == allow_mode(event, handling),
        r is None <==> event is LayoutChanged,
{
    match (event, handling) {
        (
            DisplayServerEvent::KeyPress(_) | DisplayServerEvent::KeyRelease(_),
            EventHandling::Replay,
        ) => Some(AllowMode::ReplayKeyboard),
        (
            DisplayServerEvent::KeyPress(_) | DisplayServerEvent::KeyRelease(_),
            EventHandling::Hide,
        ) => Some(AllowMode::SyncKeyboard),
        (
            DisplayServerEvent::ButtonPress(_) | DisplayServerEvent::ButtonRelease(_),
            EventHandling::Replay,
        ) => Some(AllowMode::ReplayPointer),
        (
            DisplayServerEvent::ButtonPress(_) | DisplayServerEvent::ButtonRelease(_),
            EventHandling::Hide,
        ) => Some(AllowMode::SyncPointer),
        _ => {
            // only keyboard and pointer events could be allowed
            None
        },
    }
}

/// How a request to the display server failed.
#[derive(Clone, Copy, Debug, PartialEq, Eq, Structural)]
pub enum ReplyError {
    /// The server sent no answer.
    NullResponse,
    /// The server refused the request with this error code.
    GenericError(u8),
}

/// The error code with which the display server refuses a grab that another
/// client holds.
pub const ACCESS: u8 = 10;

/// The words for a failed request.
pub open spec fn error_text(reply_error: ReplyError) -> Seq<char> {
    match reply_error {
        ReplyError::GenericError(code) => if code == ACCESS {
            "WARN: the combination is already grabbed."@
        } else {
            "WARN: xcb request error number "@ + decimal(code as nat) + " encountered."@
        },
        ReplyError::NullResponse => Seq::empty(),
    }
}

pub fn fetch_error(reply_error: ReplyError) -> (r: String)
    ensures
        r@ == error_text(reply_error),
{
    match reply_error {
        ReplyError::GenericError(code) => {
            if code == ACCESS {
                String::from_str("WARN: the combination is already grabbed.")
            } else {
                let mut out = String::from_str("WARN: xcb request error number ");
                push_decimal(&mut out, code as usize);
                out.append(" encountered.");
                out
            }
        },
        ReplyError::NullResponse => String::new(),
    }
}

/// An error that raises when the display server couldn't give us keys.
#[derive(Debug, PartialEq, Eq)]
pub struct GrabError<T> {
    pub details: String,
    /// key | pointer button
    pub event_type: &'static str,
    pub value: T,
    pub modifiers: u16,
}

impl GrabError<u8> {
    /// The warning for the operator, as a sequence of characters.
    ///
    /// The kind of what was grabbed stands between double quotes as it is,
    /// without escapes. For the two kinds that this library writes, `key`
    /// and `button`, that is also their debug form; a kind that itself holds
    /// a quote, a backslash or a control character is not escaped.
    pub open spec fn warning(&self) -> Seq<char> {
        "WARN: Could not grab \""@ + self.event_type@ + "\" "@ + decimal(self.value as nat)
            + " with modifiers "@ + decimal(self.modifiers as nat) + ": "@ + self.details@
    }

    /// The warning for the operator.
    pub fn message(&self) -> (r: String)
        ensures
            r@ == self.warning(),
    {
        let mut out = String::from_str("WARN: Could not grab \"");
        out.append(self.event_type);
        out.append("\" ");
        push_decimal(&mut out, self.value as usize);
        out.append(" with modifiers ");
        push_decimal(&mut out, self.modifiers as usize);
        out.append(": ");
        out.append(self.details.as_str());
        out
    }
}

/// subscribe to key events
///
/// Takes the answer of the display server to the request for `keycode`.
pub fn grab_keycode_checked(keycode: Keycode, modifiers: u16, reply: Result<(), ReplyError>) -> (r:
    Result<Keycode, GrabError<Keycode>>)
    ensures
        reply is Ok ==> r == Ok::<Keycode, GrabError<Keycode>>(keycode),
        reply matches Err(e) ==> (r matches Err(g) && g.details@ == error_text(e) && g.event_type@
            == "key"@ && g.value == keycode && g.modifiers == modifiers),
{
    match reply {
        Ok(_) => Ok(keycode),
        Err(reply_error) => Err(
            GrabError {
                details: fetch_error(reply_error),
                event_type: "key",
                value: keycode,
                modifiers: modifiers,
            },
        ),
    }
}

/// subscribe to pointer events
///
/// Takes the answer of the display server to the request for `button`.
pub fn grab_button_checked(button: Button, modifiers: u16, reply: Result<(), ReplyError>) -> (r:
    Result<(), GrabError<Button>>)
    ensures
        reply is Ok ==> r is Ok,
        reply matches Err(e) ==> (r matches Err(g) && g.details@ == error_text(e) && g.event_type@
            == "button"@ && g.value == button && g.modifiers == modifiers),
{
    match reply {
        Ok(_) => Ok(()),
        Err(reply_error) => Err(
            GrabError {
                details: fetch_error(reply_error),
                event_type: "button",
                value: button,
                modifiers: modifiers,
            },
        ),
    }
}

/// The key codes that were granted, in order.
pub open spec fn granted(results: Seq<Result<Keycode, GrabError<Keycode>>>) -> Seq<Keycode>
    decreases results.len(),
{
    if results.len() == 0 {
        Seq::empty()
    } else {
        match results.last() {
            Ok(keycode) => granted(results.drop_last()).push(keycode),
            Err(_) => granted(results.drop_last()),
        }
    }
}

/// The refusals, in order.
pub open spec fn refused(results: Seq<Result<Keycode, GrabError<Keycode>>>) -> Seq<
    GrabError<Keycode>,
>
    decreases results.len(),
{
    if results.len() == 0 {
        Seq::empty()
    } else {
        match results.last() {
            Ok(_) => refused(results.drop_last()),
            Err(e) => refused(results.drop_last()).push(e),
        }
    }
}

/// subscribe to key events
///
/// Parts the outcomes of the requests for the key codes of one symbolic key
/// into the codes that were granted and the refusals.
pub fn grab_keysym_checked(results: Vec<Result<Keycode, GrabError<Keycode>>>) -> (r: (
    Vec<Keycode>,
    Vec<GrabError<Keycode>>,
))
    ensures
        r.0@ == granted(results@),
        r.1@ == refused(results@),
{
    let mut oks: Vec<Keycode> = Vec::new();
    let mut errs: Vec<GrabError<Keycode>> = Vec::new();
    let ghost all = results@;
    for result in it: results
        invariant
            it.seq() == all,
            oks@ == granted(all.take(it.index() as int)),
            errs@ == refused(all.take(it.index() as int)),
    {
        proof {
            let k = it.index() as int;
            assert(all.take(k + 1).drop_last() == all.take(k));
            assert(all.take(k + 1).last() == result);
        }
        match result {
            Ok(keycode) => {
                oks.push(keycode);
            },
            Err(e) => {
                errs.push(e);
            },
        }
    }
    assert(all.take(all.len() as int) == all);
    (oks, errs)
}

} // verus!
