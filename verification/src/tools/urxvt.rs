//! The command line that opens a terminal.

use vstd::prelude::*;
use vstd::string::StringExecFns;
use crate::text::{decimal, push_decimal};

verus! {

/// The shell that a terminal runs where the environment names none.
pub const DEFAULT_SHELL: &'static str = "/bin/sh";

/// A color, as red, green and blue.
#[derive(Clone, Copy, Debug, PartialEq, Eq)]
pub struct Color(pub (u8, u8, u8));

impl Color {
    /// The color as the terminal takes it: `#` and the three parts in
    /// decimal.
    pub open spec fn text(self) -> Seq<char> {
        "#"@ + decimal(self.0.0 as nat) + decimal(self.0.1 as nat) + decimal(self.0.2 as nat)
    }

    /// Writes the color as the terminal takes it.
    pub fn to_text(&self) -> (r: String)
        ensures
            r@ == self.text(),
    {
        let mut out = String::from_str("#");
        push_decimal(&mut out, self.0.0 as usize);
        push_decimal(&mut out, self.0.1 as usize);
        push_decimal(&mut out, self.0.2 as usize);
        out
    }
}

#[derive(Debug, PartialEq, Eq)]
pub struct Urxvt {
    pub shell: String,
    pub path: Option<String>,
    pub bg: Option<Color>,
}

/// The option that sets the background, or nothing.
pub open spec fn background_text(bg: Option<Color>) -> Seq<char> {
    match bg {
        Some(color) => "--background-expr 'keep { solid \""@ + color.text() + "\" }' "@,
        None => Seq::empty(),
    }
}

/// The command that changes the directory, or nothing.
pub open spec fn path_text(path: Option<String>) -> Seq<char> {
    match path {
        Some(path) => "cd "@ + path@ + ";"@,
        None => Seq::empty(),
    }
}

impl Urxvt {
    /// A terminal that runs `shell`, or `DEFAULT_SHELL` where it is `None`.
    pub fn new(shell: Option<String>) -> (r: Self)
        ensures
            r.shell@ == match shell {
                Some(shell) => shell@,
                None => DEFAULT_SHELL@,
            },
            r.path is None,
            r.bg is None,
    {
        Urxvt {
            shell: match shell {
                Some(shell) => shell,
                None => String::from_str(DEFAULT_SHELL),
            },
            path: None,
            bg: None,
        }
    }

    pub fn path(self, path: &str) -> (r: Self)
        ensures
            r.shell == self.shell,
            r.bg == self.bg,
            r.path matches Some(p) && p@ == path@,
    {
        Urxvt { shell: self.shell, path: Some(String::from_str(path)), bg: self.bg }
    }

    pub fn bg(self, color: Color) -> (r: Self)
        ensures
            r.shell == self.shell,
            r.path == self.path,
            r.bg == Some(color),
    {
        Urxvt { shell: self.shell, path: self.path, bg: Some(color) }
    }

    /// The command line that opens the terminal.
    pub open spec fn command(self) -> Seq<char> {
        "urxvt "@ + background_text(self.bg) + " -e sh -c '"@ + path_text(self.path) + " "@
            + self.shell@ + "'"@
    }

    /// Gives the command line that opens the terminal, for the shell to run.
    pub fn run(self) -> (r: String)
        ensures
            r@ == self.command(),
    {
        let mut out = String::from_str("urxvt ");
        if let Some(color) = self.bg {
            out.append("--background-expr 'keep { solid \"");
            let text = color.to_text();
            out.append(text.as_str());
            out.append("\" }' ");
        }
        out.append(" -e sh -c '");
        if let Some(path) = &self.path {
            out.append("cd ");
            out.append(path.as_str());
            out.append(";");
        }
        out.append(" ");
        out.append(self.shell.as_str());
        out.append("'");
        assert(out@ == self.command());
        out
    }
}

} // verus!
