//! An action that depends on the program whose window has the focus.

use vstd::prelude::*;
use vstd::string::StringExecFns;

verus! {

/// The command that prints the process of the focused window.
pub const FOCUSED_PROCESS_ID: &'static str = "xdotool getwindowfocus getwindowpid";

/// The command that prints the name of the focused window.
pub const FOCUSED_WINDOW_NAME: &'static str = "xdotool getwindowfocus getwindowname";

/// Which answer of the shell is awaited.
#[derive(Clone, Copy, Debug, PartialEq, Eq, Structural)]
pub enum Awaited {
    /// Nothing has been asked yet.
    Nothing,
    /// The process of the focused window.
    ProcessId,
    /// The name of that process.
    ProcessName,
    /// The name of the focused window.
    WindowName,
}

/// What the host does next.
#[derive(Debug, PartialEq, Eq)]
pub enum ContextStep {
    /// Run the command in the shell and come back with what it printed,
    /// awaiting `then`.
    Ask { command: String, then: Awaited },
    /// Call the action for the focused program, with the window's name.
    OnFocus(String),
    /// Call the other action.
    Otherwise,
    /// Nothing is left to do.
    Done,
}

/// A step over plain text.
pub enum Planned {
    Ask { command: Seq<char>, then: Awaited },
    OnFocus(Seq<char>),
    Otherwise,
    Done,
}

impl View for ContextStep {
    type V = Planned;

    open spec fn view(&self) -> Planned {
        match *self {
            ContextStep::Ask { command, then } => Planned::Ask { command: command@, then },
            ContextStep::OnFocus(window_name) => Planned::OnFocus(window_name@),
            ContextStep::Otherwise => Planned::Otherwise,
            ContextStep::Done => Planned::Done,
        }
    }
}

/// The command that prints the name of process `process_id`.
pub open spec fn process_name_command(process_id: Seq<char>) -> Seq<char> {
    "ps -p "@ + process_id + " -o comm="@
}

/// What follows the answer `answer` to what was `awaited`.
///
/// The questions run from the process of the focused window over its name
/// to the name of the window. Where the shell gave no answer nothing
/// happens. The action for the focused program is called only where the
/// process is called `focused_process_name` and the window's name could be
/// had; the other action where the process is called otherwise.
pub open spec fn context_step(
    focused_process_name: Seq<char>,
    awaited: Awaited,
    answer: Option<Seq<char>>,
) -> Planned {
    match (awaited, answer) {
        (Awaited::Nothing, _) => Planned::Ask {
            command: FOCUSED_PROCESS_ID@,
            then: Awaited::ProcessId,
        },
        (Awaited::ProcessId, Some(process_id)) => Planned::Ask {
            command: process_name_command(process_id),
            then: Awaited::ProcessName,
        },
        (Awaited::ProcessName, Some(process_name)) => if process_name == focused_process_name {
            Planned::Ask { command: FOCUSED_WINDOW_NAME@, then: Awaited::WindowName }
        } else {
            Planned::Otherwise
        },
        (Awaited::WindowName, Some(window_name)) => Planned::OnFocus(window_name),
        (_, None) => Planned::Done,
    }
}

/// Decides the next step of an action that depends on the focused program,
/// from what the shell answered to the step before.
pub fn context_run(focused_process_name: &str, awaited: Awaited, answer: Option<String>) -> (r:
    ContextStep)
    ensures
        r@ == context_step(
            focused_process_name@,
            awaited,
            match answer {
                Some(text) => Some(text@),
                None => None,
            },
        ),
{
    match awaited {
        Awaited::Nothing => ContextStep::Ask {
            command: String::from_str(FOCUSED_PROCESS_ID),
            then: Awaited::ProcessId,
        },
        Awaited::ProcessId => match answer {
            Some(process_id) => {
                let mut command = String::from_str("ps -p ");
                command.append(process_id.as_str());
                command.append(" -o comm=");
                ContextStep::Ask { command, then: Awaited::ProcessName }
            },
            None => ContextStep::Done,
        },
        Awaited::ProcessName => match answer {
            Some(process_name) => {
                if process_name == String::from_str(focused_process_name) {
                    ContextStep::Ask {
                        command: String::from_str(FOCUSED_WINDOW_NAME),
                        then: Awaited::WindowName,
                    }
                } else {
                    ContextStep::Otherwise
                }
            },
            None => ContextStep::Done,
        },
        Awaited::WindowName => match answer {
            Some(window_name) => ContextStep::OnFocus(window_name),
            None => ContextStep::Done,
        },
    }
}

} // verus!
