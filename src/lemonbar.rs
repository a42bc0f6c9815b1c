//! The percent-brace backend (`%{F..}`, `%{A..}`).
use vstd::prelude::*;
use vstd::string::*;
use crate::markup::{replace_all, replace_char, Alignment, ClickAction, Format, Formatter};

verus! {

broadcast use vstd::std_specs::vec::group_vec_axioms;

/// Plain text, with every `%` doubled when `escape` is set.
pub open spec fn lemonbar_escape(s: Seq<char>, escape: bool) -> Seq<char> {
    if escape {
        replace_char(s, '%', "%%"@)
    } else {
        s
    }
}

/// A command with every `:` preceded by a backslash.
pub open spec fn lemonbar_command(s: Seq<char>) -> Seq<char> {
    replace_char(s, ':', "\\:"@)
}

/// The region tag of an alignment.
pub open spec fn align_tag(a: Alignment) -> Seq<char> {
    match a {
        Alignment::Left => "%{l}"@,
        Alignment::Center => "%{c}"@,
        Alignment::Right => "%{r}"@,
    }
}

/// What the percent-brace backend emits for a tree.
pub open spec fn lemonbar_text(f: Format, escape: bool) -> Seq<char>
    decreases f,
{
    match f {
        Format::UnescapedStr(s) => s@,
        Format::Str(s) => lemonbar_escape(s@, escape),
        Format::Concat(fs) => lemonbar_list(fs@, escape),
        Format::Align(a, c) => align_tag(a) + lemonbar_text(*c, escape),
        Format::FgColor(col, c) => "%{F"@ + col@ + "}"@ + lemonbar_text(*c, escape) + "%{F-}"@,
        Format::BgColor(col, c) => "%{B"@ + col@ + "}"@ + lemonbar_text(*c, escape) + "%{B-}"@,
        Format::NoSeparator(c) => lemonbar_text(*c, escape),
        Format::Padding(_, c) => lemonbar_text(*c, escape),
        Format::Clickable(act, c) => match act {
            ClickAction::ShellCommand(b, cmd) => "%{A"@ + b.code_text() + ":"@ + lemonbar_command(
                cmd@,
            ) + ":}"@ + lemonbar_text(*c, escape) + "%{A}"@,
            ClickAction::Function(_, _) => lemonbar_text(*c, escape),
        },
    }
}

/// The texts of the trees, one after another.
pub open spec fn lemonbar_list(fs: Seq<Format>, escape: bool) -> Seq<char>
    decreases fs,
{
    if fs.len() == 0 {
        seq![]
    } else {
        lemonbar_list(fs.drop_last(), escape) + lemonbar_text(fs.last(), escape)
    }
}

/// Renders markup for bars that read percent-brace tags.
pub struct LemonbarFormatter {
    escape: bool,
}

impl LemonbarFormatter {
    /// Whether `%` in plain text is doubled.
    pub closed spec fn escapes(&self) -> bool {
        self.escape
    }

    pub fn new() -> (r: LemonbarFormatter)
        ensures
            r.escapes(),
    {
        LemonbarFormatter { escape: true }
    }

    /// Turn off escaping, for bars that take plain text as it is.
    pub fn new_noescape() -> (r: LemonbarFormatter)
        ensures
            !r.escapes(),
    {
        LemonbarFormatter { escape: false }
    }

    /// Renders one tree.
    pub fn format(&mut self, data: &Format) -> (r: String)
        ensures
            r@ == lemonbar_text(*data, old(self).escapes()),
            *final(self) == *old(self),
        decreases data,
    {
        match data {
            Format::UnescapedStr(s) => s.clone(),
            Format::Str(s) => {
                if self.escape {
                    replace_all(s.as_str(), '%', "%%")
                } else {
                    s.clone()
                }
            },
            Format::Concat(fs) => {
                let mut out = String::new();
                let mut i: usize = 0;
                while i < fs.len()
                    invariant
                        i <= fs@.len(),
                        *data == Format::Concat(*fs),
                        *self == *old(self),
                        out@ == lemonbar_list(fs@.subrange(0, i as int), self.escape),
                    decreases fs@.len() - i,
                {
                    proof {
                        assert(fs@.subrange(0, i + 1).drop_last() =~= fs@.subrange(0, i as int));
                        assert(decreases_to!(*data => data->Concat_0));
                        assert(decreases_to!(*fs => fs@));
                        assert(decreases_to!(fs@ => fs@[i as int]));
                    }
                    let part = self.format(&fs[i]);
                    out.append(part.as_str());
                    i = i + 1;
                }
                proof {
                    assert(fs@.subrange(0, fs@.len() as int) =~= fs@);
                }
                out
            },
            Format::Align(a, c) => {
                let inner = self.format(c);
                let mut out = match a {
                    Alignment::Left => String::from_str("%{l}"),
                    Alignment::Center => String::from_str("%{c}"),
                    Alignment::Right => String::from_str("%{r}"),
                };
                out.append(inner.as_str());
                out
            },
            Format::FgColor(col, c) => {
                let inner = self.format(c);
                let mut out = String::from_str("%{F");
                out.append(col.as_str());
                out.append("}");
                out.append(inner.as_str());
                out.append("%{F-}");
                out
            },
            Format::BgColor(col, c) => {
                let inner = self.format(c);
                let mut out = String::from_str("%{B");
                out.append(col.as_str());
                out.append("}");
                out.append(inner.as_str());
                out.append("%{B-}");
                out
            },
            Format::NoSeparator(c) => self.format(c),
            Format::Padding(_, c) => self.format(c),
            Format::Clickable(act, c) => match act {
                ClickAction::ShellCommand(b, cmd) => {
                    let inner = self.format(c);
                    let mut out = String::from_str("%{A");
                    out.append(b.code_string().as_str());
                    out.append(":");
                    out.append(replace_all(cmd.as_str(), ':', "\\:").as_str());
                    out.append(":}");
                    out.append(inner.as_str());
                    out.append("%{A}");
                    out
                },
                ClickAction::Function(_, _) => self.format(c),
            },
        }
    }

    /// Renders a sequence of trees, one after another.
    pub fn format_all(&mut self, data: &[Format]) -> (r: String)
        ensures
            r@ == lemonbar_list(data@, old(self).escapes()),
            *final(self) == *old(self),
    {
        let mut out = String::new();
        let mut i: usize = 0;
        while i < data.len()
            invariant
                i <= data@.len(),
                *self == *old(self),
                out@ == lemonbar_list(data@.subrange(0, i as int), self.escape),
            decreases data@.len() - i,
        {
            proof {
                assert(data@.subrange(0, i + 1).drop_last() =~= data@.subrange(0, i as int));
            }
            let part = self.format(&data[i]);
            out.append(part.as_str());
            i = i + 1;
        }
        proof {
            assert(data@.subrange(0, data@.len() as int) =~= data@);
        }
        out
    }
}

impl Formatter for LemonbarFormatter {
    fn format(&mut self, data: &Format) -> String {
        LemonbarFormatter::format(self, data)
    }

    fn format_all(&mut self, data: &[Format]) -> String {
        LemonbarFormatter::format_all(self, data)
    }
}

impl Default for LemonbarFormatter {
    fn default() -> (r: Self)
        ensures
            r.escapes(),
    {
        Self::new()
    }
}

} // verus!
