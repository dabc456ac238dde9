//! Small tools for actions: audio sinks, terminals, and actions that depend
//! on the focused window.

pub mod context_run;
pub mod sound;
pub mod urxvt;
