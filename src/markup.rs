//! The markup tree and click actions shared by every backend.
use vstd::prelude::*;
use vstd::string::*;

verus! {

broadcast use vstd::std_specs::vec::group_vec_axioms;

/// Where a region is meant to be placed on the bar.
#[derive(Clone, Copy, Debug, PartialEq, Eq, Structural)]
pub enum Alignment {
    Left,
    Center,
    Right,
}

/// A mouse button, as reported by the bar.
#[derive(Clone, Copy, Debug, PartialEq, Eq, Structural)]
pub enum MouseButton {
    Left,
    Middle,
    Right,
    ScrollUp,
    ScrollDown,
}

impl MouseButton {
    /// The numeric code the bars use for this button.
    pub open spec fn code(self) -> u8 {
        match self {
            MouseButton::Left => 1,
            MouseButton::Middle => 2,
            MouseButton::Right => 3,
            MouseButton::ScrollUp => 4,
            MouseButton::ScrollDown => 5,
        }
    }

    /// The code in decimal, as the markup backends write it.
    pub open spec fn code_text(self) -> Seq<char> {
        seq![(('0' as u8) + self.code()) as char]
    }

    /// The code in decimal.
    pub fn code_string(&self) -> (r: String)
        ensures
            r@ == self.code_text(),
    {
        let r = match self {
            MouseButton::Left => String::from_str("1"),
            MouseButton::Middle => String::from_str("2"),
            MouseButton::Right => String::from_str("3"),
            MouseButton::ScrollUp => String::from_str("4"),
            MouseButton::ScrollDown => String::from_str("5"),
        };
        proof {
            reveal_strlit("1");
            reveal_strlit("2");
            reveal_strlit("3");
            reveal_strlit("4");
            reveal_strlit("5");
            assert(r@ =~= self.code_text());
        }
        r
    }

    pub fn to_number(&self) -> (r: u8)
        ensures
            r == self.code(),
    {
        match self {
            MouseButton::Left => 1,
            MouseButton::Middle => 2,
            MouseButton::Right => 3,
            MouseButton::ScrollUp => 4,
            MouseButton::ScrollDown => 5,
        }
    }
}

/// What happens when a clickable region is activated with a button.
#[derive(Clone, Debug)]
pub enum ClickAction {
    /// Run a command through the shell.
    ShellCommand(MouseButton, String),
    /// Call the callback registered under this name.
    Function(MouseButton, String),
}

impl ClickAction {
    pub open spec fn button_spec(self) -> MouseButton {
        match self {
            ClickAction::ShellCommand(b, _) => b,
            ClickAction::Function(b, _) => b,
        }
    }

    pub fn button(&self) -> (r: MouseButton)
        ensures
            r == self.button_spec(),
    {
        match self {
            ClickAction::ShellCommand(b, _) => *b,
            ClickAction::Function(b, _) => *b,
        }
    }

    /// The text that names this action, as an instance of the JSON backend.
    pub open spec fn instance_text(self) -> Seq<char> {
        match self {
            ClickAction::ShellCommand(b, c) => "shell:"@ + b.code_text() + ":"@ + c@,
            ClickAction::Function(b, n) => "function:"@ + b.code_text() + ":"@ + n@,
        }
    }

    pub fn instance_name(&self) -> (r: String)
        ensures
            r@ == self.instance_text(),
    {
        match self {
            ClickAction::ShellCommand(b, c) => {
                let mut r = String::from_str("shell:");
                r.append(b.code_string().as_str());
                r.append(":");
                r.append(c.as_str());
                r
            },
            ClickAction::Function(b, n) => {
                let mut r = String::from_str("function:");
                r.append(b.code_string().as_str());
                r.append(":");
                r.append(n.as_str());
                r
            },
        }
    }

    /// An equal copy of the action.
    pub fn duplicate(&self) -> (r: ClickAction)
        ensures
            r == *self,
    {
        match self {
            ClickAction::ShellCommand(b, c) => ClickAction::ShellCommand(*b, c.clone()),
            ClickAction::Function(b, n) => ClickAction::Function(*b, n.clone()),
        }
    }
}

/// The markup tree.
#[derive(Debug)]
pub enum Format {
    /// Text emitted verbatim.
    UnescapedStr(String),
    /// Text that each backend escapes as its protocol needs.
    Str(String),
    /// The children, one after another.
    Concat(Vec<Format>),
    Align(Alignment, Box<Format>),
    FgColor(String, Box<Format>),
    BgColor(String, Box<Format>),
    NoSeparator(Box<Format>),
    /// A separator region of the given width instead of the default one.
    Padding(u64, Box<Format>),
    Clickable(ClickAction, Box<Format>),
}

/// A bar protocol that markup trees are rendered into; the backend is
/// picked at run time.
pub trait Formatter {
    /// Renders one tree as one line of output.
    fn format(&mut self, data: &Format) -> String;

    /// Renders a sequence of trees as one line of output.
    fn format_all(&mut self, data: &[Format]) -> String;
}

/// `s` with every occurrence of `c` replaced by `rep`.
pub open spec fn replace_char(s: Seq<char>, c: char, rep: Seq<char>) -> Seq<char>
    decreases s.len(),
{
    if s.len() == 0 {
        s
    } else {
        replace_char(s.drop_last(), c, rep) + if s.last() == c {
            rep
        } else {
            seq![s.last()]
        }
    }
}

/// Relies on `str::replace`: every occurrence of the character is replaced.
#[verifier::external_body]
pub(crate) fn replace_all(s: &str, c: char, rep: &str) -> (r: String)
    ensures
        r@ == replace_char(s@, c, rep@),
{
    s.replace(c, rep)
}

} // verus!
