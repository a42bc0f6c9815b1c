//! The caret-directive backend (`^fg(..)`, `^ca(..)`).
use vstd::prelude::*;
use vstd::string::*;
use crate::markup::{replace_all, replace_char, ClickAction, Format, Formatter};

verus! {

broadcast use vstd::std_specs::vec::group_vec_axioms;

/// Plain text with every `^` doubled.
pub open spec fn dzen2_escape(s: Seq<char>) -> Seq<char> {
    replace_char(s, '^', "^^"@)
}

/// What the caret-directive backend emits for a tree.
pub open spec fn dzen2_text(f: Format) -> Seq<char>
    decreases f,
{
    match f {
        Format::UnescapedStr(s) => s@,
        Format::Str(s) => dzen2_escape(s@),
        Format::Concat(fs) => dzen2_list(fs@),
        Format::Align(_, c) => dzen2_text(*c),
        Format::FgColor(col, c) => "^fg("@ + col@ + ")"@ + dzen2_text(*c) + "^fg()"@,
        Format::BgColor(col, c) => "^bg("@ + col@ + ")"@ + dzen2_text(*c) + "^bg()"@,
        Format::NoSeparator(c) => dzen2_text(*c),
        Format::Padding(_, c) => dzen2_text(*c),
        Format::Clickable(act, c) => match act {
            ClickAction::ShellCommand(b, cmd) => "^ca("@ + b.code_text() + ","@ + cmd@ + ")"@
                + dzen2_text(*c) + "^ca()"@,
            ClickAction::Function(_, _) => dzen2_text(*c),
        },
    }
}

/// The texts of the trees, one after another.
pub open spec fn dzen2_list(fs: Seq<Format>) -> Seq<char>
    decreases fs,
{
    if fs.len() == 0 {
        seq![]
    } else {
        dzen2_list(fs.drop_last()) + dzen2_text(fs.last())
    }
}

} // verus!

verus! {

/// Renders markup for bars that read caret directives.
#[derive(Default)]
pub struct Dzen2Formatter;

impl Dzen2Formatter {
    pub fn new() -> Dzen2Formatter {
        Dzen2Formatter
    }

    /// Renders one tree.
    pub fn format(&mut self, data: &Format) -> (r: String)
        ensures
            r@ == dzen2_text(*data),
        decreases data,
    {
        match data {
            Format::UnescapedStr(s) => s.clone(),
            Format::Str(s) => replace_all(s.as_str(), '^', "^^"),
            Format::Concat(fs) => {
                let mut out = String::new();
                let mut i: usize = 0;
                while i < fs.len()
                    invariant
                        i <= fs@.len(),
                        *data == Format::Concat(*fs),
                        out@ == dzen2_list(fs@.subrange(0, i as int)),
                    decreases fs@.len() - i,
                {
                    proof {
                        assert(fs@.subrange(0, i + 1).drop_last() =~= fs@.subrange(0, i as int));
                        assert(decreases_to!(*data => data->Concat_0));
                        assert(decreases_to!(*fs => fs@));
                        assert(decreases_to!(fs@ => fs@[i as int]));
                        assert(decreases_to!(*data => fs@[i as int]));
                    }
                    let part = self.format(&fs[i]);
                    out.append(part.as_str());
                    i = i + 1;
                }
                proof {
                    assert(fs@.subrange(0, fs@.len() as int) =~= fs@);
                }
                out
            },
            Format::Align(_, c) => self.format(c),
            Format::FgColor(col, c) => {
                let inner = self.format(c);
                let mut out = String::from_str("^fg(");
                out.append(col.as_str());
                out.append(")");
                out.append(inner.as_str());
                out.append("^fg()");
                out
            },
            Format::BgColor(col, c) => {
                let inner = self.format(c);
                let mut out = String::from_str("^bg(");
                out.append(col.as_str());
                out.append(")");
                out.append(inner.as_str());
                out.append("^bg()");
                out
            },
            Format::NoSeparator(c) => self.format(c),
            Format::Padding(_, c) => self.format(c),
            Format::Clickable(act, c) => match act {
                ClickAction::ShellCommand(b, cmd) => {
                    let inner = self.format(c);
                    let mut out = String::from_str("^ca(");
                    out.append(b.code_string().as_str());
                    out.append(",");
                    out.append(cmd.as_str());
                    out.append(")");
                    out.append(inner.as_str());
                    out.append("^ca()");
                    out
                },
                ClickAction::Function(_, _) => self.format(c),
            },
        }
    }

    /// Renders a sequence of trees, one after another.
    pub fn format_all(&mut self, data: &[Format]) -> (r: String)
        ensures
            r@ == dzen2_list(data@),
    {
        let mut out = String::new();
        let mut i: usize = 0;
        while i < data.len()
            invariant
                i <= data@.len(),
                out@ == dzen2_list(data@.subrange(0, i as int)),
            decreases data@.len() - i,
        {
            proof {
                assert(data@.subrange(0, i + 1).drop_last() =~= data@.subrange(0, i as int));
            }
            let part = self.format(&data[i]);
            out.append(part.as_str());
            i = i + 1;
        }
        proof {
            assert(data@.subrange(0, data@.len() as int) =~= data@);
        }
        out
    }
}

impl Formatter for Dzen2Formatter {
    fn format(&mut self, data: &Format) -> String {
        Dzen2Formatter::format(self, data)
    }

    fn format_all(&mut self, data: &[Format]) -> String {
        Dzen2Formatter::format_all(self, data)
    }
}

} // verus!
