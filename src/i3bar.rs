//! The JSON block-array backend, with click dispatch.
use vstd::prelude::*;
use vstd::string::*;
use crate::markup::{Alignment, ClickAction, Format, Formatter};

verus! {

broadcast use vstd::std_specs::vec::group_vec_axioms;

/// The attributes a block inherits from the nodes above it.
pub struct BlockAttrs {
    pub align: Option<Alignment>,
    pub color: Option<Seq<char>>,
    pub background: Option<Seq<char>>,
    pub separator: Option<bool>,
    pub separator_block_width: Option<u64>,
    pub instance: Option<Seq<char>>,
}

/// The dispatch table: instance names, each with its actions in the order
/// in which they were met.
pub type Table = Seq<(Seq<char>, Seq<ClickAction>)>;

/// A lowercase hexadecimal digit.
pub open spec fn hex_digit(n: int) -> char {
    seq!['0', '1', '2', '3', '4', '5', '6', '7', '8', '9', 'a', 'b', 'c', 'd', 'e', 'f'][n]
}

/// How serde_json writes one character inside a string literal: quote,
/// backslash and the named controls by a short escape, the other controls
/// as `\u00xx`, everything else as it is.
pub open spec fn json_escape_char(c: char) -> Seq<char> {
    if c == '"' {
        seq!['\\', '"']
    } else if c == '\\' {
        seq!['\\', '\\']
    } else if c == '\u{8}' {
        seq!['\\', 'b']
    } else if c == '\t' {
        seq!['\\', 't']
    } else if c == '\n' {
        seq!['\\', 'n']
    } else if c == '\u{c}' {
        seq!['\\', 'f']
    } else if c == '\r' {
        seq!['\\', 'r']
    } else if 0 <= (c as int) < 0x20 {
        seq!['\\', 'u', '0', '0', hex_digit(c as int / 16), hex_digit(c as int % 16)]
    } else {
        seq![c]
    }
}

/// The characters of `s`, each escaped.
pub open spec fn json_escape(s: Seq<char>) -> Seq<char>
    decreases s.len(),
{
    if s.len() == 0 {
        seq![]
    } else {
        json_escape(s.drop_last()) + json_escape_char(s.last())
    }
}

/// What serde_json writes for a string: the escaped characters in quotes.
pub open spec fn json_string_of(s: Seq<char>) -> Seq<char> {
    seq!['"'] + json_escape(s) + seq!['"']
}

/// `n` in decimal.
pub open spec fn decimal(n: nat) -> Seq<char>
    decreases n,
{
    if n < 10 {
        seq![(('0' as u8) + n) as char]
    } else {
        decimal(n / 10) + seq![(('0' as u8) + n % 10) as char]
    }
}

/// Relies on serde_json::to_string: the JSON literal of a string, written
/// with serde_json's escapes.
#[verifier::external_body]
fn json_string(s: &str) -> (r: String)
    ensures
        r@ == json_string_of(s@),
{
    serde_json::to_string(s).unwrap_or_default()
}

/// Relies on serde_json::Number's `Display`: an unsigned integer in decimal.
#[verifier::external_body]
fn json_number(n: u64) -> (r: String)
    ensures
        r@ == decimal(n as nat),
{
    serde_json::Number::from(n).to_string()
}

/// Relies on `String::pop`: removes the last character, if there is one.
#[verifier::external_body]
fn pop_char(s: &mut String)
    ensures
        final(s)@ == if old(s)@.len() == 0 {
            old(s)@
        } else {
            old(s)@.drop_last()
        },
{
    s.pop();
}

pub open spec fn align_name(a: Alignment) -> Seq<char> {
    match a {
        Alignment::Left => "left"@,
        Alignment::Center => "center"@,
        Alignment::Right => "right"@,
    }
}

pub open spec fn no_attrs() -> BlockAttrs {
    BlockAttrs {
        align: None,
        color: None,
        background: None,
        separator: None,
        separator_block_width: None,
        instance: None,
    }
}

/// One string-valued entry followed by a comma, if the value is there.
pub open spec fn str_entry(key: Seq<char>, v: Option<Seq<char>>) -> Seq<char> {
    match v {
        Some(c) => key + json_string_of(c) + ","@,
        None => seq![],
    }
}

/// The entries that come before the text, each followed by a comma.
pub open spec fn head_json(a: BlockAttrs) -> Seq<char> {
    str_entry("\"align\":"@, match a.align {
        Some(al) => Some(align_name(al)),
        None => None,
    }) + str_entry("\"background\":"@, a.background) + str_entry("\"color\":"@, a.color)
}

/// The entries that come after the text, each preceded by a comma.
pub open spec fn tail_json(a: BlockAttrs) -> Seq<char> {
    (match a.instance {
        Some(i) => ",\"instance\":"@ + json_string_of(i),
        None => seq![],
    }) + match a.separator {
        Some(b) => ",\"separator\":"@ + if b {
            "true"@
        } else {
            "false"@
        },
        None => seq![],
    } + match a.separator_block_width {
        Some(w) => ",\"separator_block_width\":"@ + decimal(w as nat),
        None => seq![],
    }
}

/// The JSON object of one block: its attributes in the order of their keys.
pub open spec fn block_json(a: BlockAttrs, text: Seq<char>) -> Seq<char> {
    "{"@ + head_json(a) + "\"full_text\":"@ + json_string_of(text) + tail_json(a) + "}"@
}

/// The attributes below a clickable node: the instance above it is kept,
/// else the action names one.
pub open spec fn with_instance(a: BlockAttrs, act: ClickAction) -> BlockAttrs {
    match a.instance {
        Some(_) => a,
        None => BlockAttrs { instance: Some(act.instance_text()), ..a },
    }
}

/// The blocks of a tree, each followed by a comma.
pub open spec fn i3_text(f: Format, a: BlockAttrs) -> Seq<char>
    decreases f,
{
    match f {
        Format::UnescapedStr(s) => block_json(a, s@) + ","@,
        Format::Str(s) => block_json(a, s@) + ","@,
        Format::Concat(fs) => i3_list(fs@, a),
        Format::Align(al, c) => i3_text(*c, BlockAttrs { align: Some(al), ..a }),
        Format::FgColor(col, c) => i3_text(*c, BlockAttrs { color: Some(col@), ..a }),
        Format::BgColor(col, c) => i3_text(*c, BlockAttrs { background: Some(col@), ..a }),
        Format::NoSeparator(c) => i3_text(*c, BlockAttrs { separator: Some(false), ..a }),
        Format::Padding(n, c) => i3_text(*c, BlockAttrs { separator_block_width: Some(n), ..a }),
        Format::Clickable(act, c) => i3_text(*c, with_instance(a, act)),
    }
}

/// The blocks of sibling trees, each tree starting from the same attributes.
pub open spec fn i3_list(fs: Seq<Format>, a: BlockAttrs) -> Seq<char>
    decreases fs,
{
    if fs.len() == 0 {
        seq![]
    } else {
        i3_list(fs.drop_last(), a) + i3_text(fs.last(), a)
    }
}

/// The blocks without the comma that follows the last of them.
pub open spec fn strip_last_comma(s: Seq<char>) -> Seq<char> {
    if s.len() > 0 {
        s.drop_last()
    } else {
        s
    }
}

/// The line written for a sequence of trees: one JSON array, then a comma.
pub open spec fn i3_line(fs: Seq<Format>) -> Seq<char> {
    "["@ + strip_last_comma(i3_list(fs, no_attrs())) + "],"@
}

/// Whether the table holds an entry for `k`.
pub open spec fn has_key(t: Table, k: Seq<char>) -> bool {
    exists|i: int| 0 <= i < t.len() && (#[trigger] t[i]).0 == k
}

/// No two entries of the table share an instance name.
pub open spec fn keys_unique(t: Table) -> bool {
    forall|i: int, j: int|
        0 <= i < t.len() && 0 <= j < t.len() && (#[trigger] t[i]).0 == (#[trigger] t[j]).0 ==> i
            == j
}

/// The index of the first entry for `k`.
pub open spec fn key_index(t: Table, k: Seq<char>) -> int {
    choose|i: int|
        0 <= i < t.len() && (#[trigger] t[i]).0 == k && forall|j: int|
            0 <= j < i ==> (#[trigger] t[j]).0 != k
}

/// The actions registered under `k`; none if there is no entry.
pub open spec fn table_get(t: Table, k: Seq<char>) -> Seq<ClickAction> {
    if has_key(t, k) {
        t[key_index(t, k)].1
    } else {
        seq![]
    }
}

/// `act` appended to the entry of `k`, which is made if it is missing.
pub open spec fn table_add(t: Table, k: Seq<char>, act: ClickAction) -> Table {
    if has_key(t, k) {
        t.update(key_index(t, k), (k, t[key_index(t, k)].1.push(act)))
    } else {
        t.push((k, seq![act]))
    }
}

/// The table after the clickable nodes of a tree have been visited.
pub open spec fn i3_table(f: Format, a: BlockAttrs, t: Table) -> Table
    decreases f,
{
    match f {
        Format::UnescapedStr(_) => t,
        Format::Str(_) => t,
        Format::Concat(fs) => i3_table_list(fs@, a, t),
        Format::Align(al, c) => i3_table(*c, BlockAttrs { align: Some(al), ..a }, t),
        Format::FgColor(col, c) => i3_table(*c, BlockAttrs { color: Some(col@), ..a }, t),
        Format::BgColor(col, c) => i3_table(*c, BlockAttrs { background: Some(col@), ..a }, t),
        Format::NoSeparator(c) => i3_table(*c, BlockAttrs { separator: Some(false), ..a }, t),
        Format::Padding(n, c) => i3_table(*c, BlockAttrs { separator_block_width: Some(n), ..a }, t),
        Format::Clickable(act, c) => {
            let b = with_instance(a, act);
            i3_table(*c, b, table_add(t, b.instance.unwrap(), act))
        },
    }
}

/// The table after sibling trees have been visited in order.
pub open spec fn i3_table_list(fs: Seq<Format>, a: BlockAttrs, t: Table) -> Table
    decreases fs,
{
    if fs.len() == 0 {
        t
    } else {
        i3_table(fs.last(), a, i3_table_list(fs.drop_last(), a, t))
    }
}

/// The actions among `acts` bound to button `code`, in their order.
pub open spec fn matching(acts: Seq<ClickAction>, code: u8) -> Seq<ClickAction>
    decreases acts.len(),
{
    if acts.len() == 0 {
        seq![]
    } else {
        matching(acts.drop_last(), code) + if acts.last().button_spec().code() == code {
            seq![acts.last()]
        } else {
            seq![]
        }
    }
}

} // verus!

verus! {

pub open spec fn opt_view(o: Option<String>) -> Option<Seq<char>> {
    match o {
        Some(s) => Some(s@),
        None => None,
    }
}

fn clone_opt(o: &Option<String>) -> (r: Option<String>)
    ensures
        r == *o,
{
    match o {
        Some(s) => Some(s.clone()),
        None => None,
    }
}

/// The attributes carried down the tree while it is rendered.
struct Attrs {
    align: Option<Alignment>,
    color: Option<String>,
    background: Option<String>,
    separator: Option<bool>,
    separator_block_width: Option<u64>,
    instance: Option<String>,
}

impl View for Attrs {
    type V = BlockAttrs;

    closed spec fn view(&self) -> BlockAttrs {
        BlockAttrs {
            align: self.align,
            color: opt_view(self.color),
            background: opt_view(self.background),
            separator: self.separator,
            separator_block_width: self.separator_block_width,
            instance: opt_view(self.instance),
        }
    }
}

impl Attrs {
    fn empty() -> (r: Attrs)
        ensures
            r@ == no_attrs(),
    {
        Attrs {
            align: None,
            color: None,
            background: None,
            separator: None,
            separator_block_width: None,
            instance: None,
        }
    }

    fn copy(&self) -> (r: Attrs)
        ensures
            r@ == self@,
    {
        Attrs {
            align: self.align,
            color: clone_opt(&self.color),
            background: clone_opt(&self.background),
            separator: self.separator,
            separator_block_width: self.separator_block_width,
            instance: clone_opt(&self.instance),
        }
    }
}

/// Appends one string-valued entry, if the value is there.
fn push_str_entry(line: &mut String, key: &str, v: Option<&str>)
    ensures
        final(line)@ == old(line)@ + str_entry(
            key@,
            match v {
                Some(c) => Some(c@),
                None => None,
            },
        ),
{
    match v {
        Some(c) => {
            line.append(key);
            line.append(json_string(c).as_str());
            line.append(",");
        },
        None => {},
    }
}

/// Frames the blocks as one JSON array followed by a comma.
fn close_line(blocks: String) -> (r: String)
    ensures
        r@ == "["@ + strip_last_comma(blocks@) + "],"@,
{
    let mut body = blocks;
    if !body.as_str().is_empty() {
        pop_char(&mut body);
    }
    let mut line = String::from_str("[");
    line.append(body.as_str());
    line.append("],");
    line
}

/// Appends the entries that come before the text.
fn push_head(line: &mut String, a: &Attrs)
    ensures
        final(line)@ == old(line)@ + head_json(a@),
{
    let ghost start = line@;
    let name = match a.align {
        Some(Alignment::Left) => Some("left"),
        Some(Alignment::Center) => Some("center"),
        Some(Alignment::Right) => Some("right"),
        None => None,
    };
    push_str_entry(line, "\"align\":", name);
    let background = match &a.background {
        Some(c) => Some(c.as_str()),
        None => None,
    };
    push_str_entry(line, "\"background\":", background);
    let color = match &a.color {
        Some(c) => Some(c.as_str()),
        None => None,
    };
    push_str_entry(line, "\"color\":", color);
    proof {
        assert(line@ =~= start + head_json(a@));
    }
}

/// Appends the entries that come after the text.
fn push_tail(line: &mut String, a: &Attrs)
    ensures
        final(line)@ == old(line)@ + tail_json(a@),
{
    let ghost start = line@;
    match &a.instance {
        Some(i) => {
            line.append(",\"instance\":");
            line.append(json_string(i.as_str()).as_str());
        },
        None => {},
    }
    match a.separator {
        Some(b) => {
            line.append(",\"separator\":");
            if b {
                line.append("true");
            } else {
                line.append("false");
            }
        },
        None => {},
    }
    match a.separator_block_width {
        Some(w) => {
            line.append(",\"separator_block_width\":");
            line.append(json_number(w).as_str());
        },
        None => {},
    }
    proof {
        assert(line@ =~= start + tail_json(a@));
    }
}

/// Appends one block and the comma after it.
fn push_block(line: &mut String, a: &Attrs, text: &str)
    ensures
        final(line)@ == old(line)@ + block_json(a@, text@) + ","@,
{
    let ghost start = line@;
    line.append("{");
    push_head(line, a);
    line.append("\"full_text\":");
    line.append(json_string(text).as_str());
    push_tail(line, a);
    line.append("}");
    line.append(",");
    proof {
        assert(line@ =~= start + block_json(a@, text@) + ","@);
    }
}

} // verus!

verus! {

pub open spec fn table_view(v: Seq<(String, Vec<ClickAction>)>) -> Table {
    v.map_values(|e: (String, Vec<ClickAction>)| (e.0@, e.1@))
}

/// Renders markup as the JSON block arrays of bars that send click events
/// back, and keeps what the last render bound to each instance.
pub struct I3BarFormatter {
    handlers: Vec<(String, Vec<ClickAction>)>,
}

impl I3BarFormatter {
    /// The dispatch table that the last render built.
    pub closed spec fn table(&self) -> Table {
        table_view(self.handlers@)
    }

    pub closed spec fn wf(&self) -> bool {
        keys_unique(self.table())
    }

    /// A formatter with an empty dispatch table. The bar expects
    /// `protocol_header` once before the first line.
    pub fn new() -> (r: I3BarFormatter)
        ensures
            r.wf(),
            r.table() == Seq::<(Seq<char>, Seq<ClickAction>)>::empty(),
    {
        let r = I3BarFormatter { handlers: Vec::new() };
        proof {
            assert(r.table() =~= Seq::<(Seq<char>, Seq<ClickAction>)>::empty());
        }
        r
    }

    /// Appends `act` to the entry of `k`, making the entry if it is missing.
    fn add_handler(&mut self, k: String, act: ClickAction)
        requires
            old(self).wf(),
        ensures
            final(self).wf(),
            final(self).table() == table_add(old(self).table(), k@, act),
    {
        let ghost t = self.table();
        let mut i: usize = 0;
        while i < self.handlers.len()
            invariant
                i <= self.handlers@.len(),
                self.table() == t,
                t == old(self).table(),
                keys_unique(t),
                forall|j: int| 0 <= j < i ==> (#[trigger] t[j]).0 != k@,
            decreases self.handlers@.len() - i,
        {
            if self.handlers[i].0 == k {
                proof {
                    assert(t[i as int].0 == k@);
                    assert(has_key(t, k@));
                    assert(key_index(t, k@) == i);
                }
                let ghost old_handlers = self.handlers@;
                let mut entry = (String::new(), Vec::new());
                self.handlers.set_and_swap(i, &mut entry);
                entry.1.push(act);
                self.handlers.set(i, entry);
                proof {
                    assert(self.handlers@ == old_handlers.update(i as int, entry));
                    assert(entry.0@ == k@);
                    assert(entry.1@ == t[i as int].1.push(act));
                    assert(self.table() =~= t.update(i as int, (k@, t[i as int].1.push(act))));
                    assert(self.wf());
                }
                return;
            }
            i = i + 1;
        }
        proof {
            assert(!has_key(t, k@));
        }
        let mut acts = Vec::new();
        acts.push(act);
        self.handlers.push((k, acts));
        proof {
            assert(self.table() =~= table_add(t, k@, act));
        }
    }

    /// Appends the blocks of `data` under the attributes `a`, and registers
    /// its clickable nodes.
    fn build(&mut self, line: &mut String, a: Attrs, data: &Format)
        requires
            old(self).wf(),
        ensures
            final(self).wf(),
            final(line)@ == old(line)@ + i3_text(*data, a@),
            final(self).table() == i3_table(*data, a@, old(self).table()),
        decreases data,
    {
        match data {
            Format::UnescapedStr(s) => push_block(line, &a, s.as_str()),
            Format::Str(s) => push_block(line, &a, s.as_str()),
            Format::Concat(fs) => {
                let ghost line0 = line@;
                let ghost t0 = self.table();
                let mut i: usize = 0;
                while i < fs.len()
                    invariant
                        i <= fs@.len(),
                        *data == Format::Concat(*fs),
                        self.wf(),
                        line@ == line0 + i3_list(fs@.subrange(0, i as int), a@),
                        self.table() == i3_table_list(fs@.subrange(0, i as int), a@, t0),
                    decreases fs@.len() - i,
                {
                    proof {
                        assert(fs@.subrange(0, i + 1).drop_last() =~= fs@.subrange(0, i as int));
                        assert(decreases_to!(*data => data->Concat_0));
                        assert(decreases_to!(*fs => fs@));
                        assert(decreases_to!(fs@ => fs@[i as int]));
                    }
                    let b = a.copy();
                    self.build(line, b, &fs[i]);
                    i = i + 1;
                }
                proof {
                    assert(fs@.subrange(0, fs@.len() as int) =~= fs@);
                }
            },
            Format::Align(al, c) => {
                let mut b = a;
                b.align = Some(*al);
                self.build(line, b, c);
            },
            Format::FgColor(col, c) => {
                let mut b = a;
                b.color = Some(col.clone());
                self.build(line, b, c);
            },
            Format::BgColor(col, c) => {
                let mut b = a;
                b.background = Some(col.clone());
                self.build(line, b, c);
            },
            Format::NoSeparator(c) => {
                let mut b = a;
                b.separator = Some(false);
                self.build(line, b, c);
            },
            Format::Padding(n, c) => {
                let mut b = a;
                b.separator_block_width = Some(*n);
                self.build(line, b, c);
            },
            Format::Clickable(act, c) => {
                let mut b = a;
                let inst = match &b.instance {
                    Some(i) => i.clone(),
                    None => act.instance_name(),
                };
                b.instance = Some(inst.clone());
                proof {
                    assert(b@ == with_instance(a@, *act));
                }
                self.add_handler(inst, act.duplicate());
                self.build(line, b, c);
            },
        }
    }

    /// Renders a sequence of trees as one line, and rebuilds the dispatch
    /// table from their clickable nodes alone.
    pub fn format_all(&mut self, data: &[Format]) -> (r: String)
        ensures
            r@ == i3_line(data@),
            final(self).wf(),
            final(self).table() == i3_table_list(data@, no_attrs(), seq![]),
    {
        self.handlers = Vec::new();
        proof {
            assert(self.table() =~= seq![]);
        }
        let mut line = String::new();
        let mut i: usize = 0;
        while i < data.len()
            invariant
                i <= data@.len(),
                self.wf(),
                line@ == i3_list(data@.subrange(0, i as int), no_attrs()),
                self.table() == i3_table_list(data@.subrange(0, i as int), no_attrs(), seq![]),
            decreases data@.len() - i,
        {
            proof {
                assert(data@.subrange(0, i + 1).drop_last() =~= data@.subrange(0, i as int));
            }
            self.build(&mut line, Attrs::empty(), &data[i]);
            i = i + 1;
        }
        proof {
            assert(data@.subrange(0, data@.len() as int) =~= data@);
        }
        close_line(line)
    }

    /// Renders one tree as one line; the same as `format_all` on a
    /// sequence that holds it alone.
    pub fn format(&mut self, data: &Format) -> (r: String)
        ensures
            r@ == i3_line(seq![*data]),
            final(self).wf(),
            final(self).table() == i3_table_list(seq![*data], no_attrs(), seq![]),
    {
        self.handlers = Vec::new();
        let ghost one = seq![*data];
        proof {
            assert(self.table() =~= seq![]);
            assert(one.drop_last() =~= Seq::<Format>::empty());
            assert(one.last() == *data);
            assert(i3_list(one.drop_last(), no_attrs()) == Seq::<char>::empty());
            assert(i3_table_list(one.drop_last(), no_attrs(), seq![]) == self.table());
        }
        let mut line = String::new();
        self.build(&mut line, Attrs::empty(), data);
        proof {
            assert(i3_list(one, no_attrs()) == i3_list(one.drop_last(), no_attrs()) + i3_text(
                *data,
                no_attrs(),
            ));
            assert(line@ =~= i3_list(seq![*data], no_attrs()));
        }
        close_line(line)
    }

    /// The actions that the last render bound to `instance` for the button
    /// with code `button`, in the order in which they were met.
    pub fn dispatch(&self, instance: &str, button: u8) -> (r: Vec<ClickAction>)
        ensures
            r@ == matching(table_get(self.table(), instance@), button),
    {
        let ghost t = self.table();
        let key = String::from_str(instance);
        let mut i: usize = 0;
        while i < self.handlers.len()
            invariant
                i <= self.handlers@.len(),
                key@ == instance@,
                t == self.table(),
                forall|j: int| 0 <= j < i ==> (#[trigger] t[j]).0 != instance@,
            decreases self.handlers@.len() - i,
        {
            if self.handlers[i].0 == key {
                proof {
                    assert(t[i as int].0 == instance@);
                    assert(has_key(t, instance@));
                    assert(key_index(t, instance@) == i);
                }
                return select_button(&self.handlers[i].1, button);
            }
            i = i + 1;
        }
        proof {
            assert(!has_key(t, instance@));
        }
        Vec::new()
    }
}

/// The actions among `acts` bound to the button with code `button`.
pub fn select_button(acts: &Vec<ClickAction>, button: u8) -> (r: Vec<ClickAction>)
    ensures
        r@ == matching(acts@, button),
{
    let mut r = Vec::new();
    let mut i: usize = 0;
    while i < acts.len()
        invariant
            i <= acts@.len(),
            r@ == matching(acts@.subrange(0, i as int), button),
        decreases acts@.len() - i,
    {
        proof {
            assert(acts@.subrange(0, i + 1).drop_last() =~= acts@.subrange(0, i as int));
        }
        if acts[i].button().to_number() == button {
            r.push(acts[i].duplicate());
        }
        proof {
            assert(r@ =~= matching(acts@.subrange(0, i + 1), button));
        }
        i = i + 1;
    }
    proof {
        assert(acts@.subrange(0, acts@.len() as int) =~= acts@);
    }
    r
}

} // verus!

verus! {

/// The instance text and the button number that serde_json finds in a JSON
/// text: a string field `instance` and an unsigned integer field `button`.
pub uninterp spec fn click_fields_of(s: Seq<char>) -> Option<(Seq<char>, u64)>;

/// Relies on serde_json::from_str, then Value::pointer with Value::as_str and
/// Value::as_u64: the two fields of a click event, if the text holds them.
#[verifier::external_body]
fn read_click_fields(s: &str) -> (r: Option<(String, u64)>)
    ensures
        match r {
            Some(p) => click_fields_of(s@) == Some((p.0@, p.1)),
            None => click_fields_of(s@).is_none(),
        },
{
    let v: serde_json::Value = serde_json::from_str(s).ok()?;
    let instance = v.pointer("/instance")?.as_str()?;
    let button = v.pointer("/button")?.as_u64()?;
    Some((instance.to_string(), button))
}

/// `s` without the commas at either end.
pub open spec fn trim_commas(s: Seq<char>) -> Seq<char>
    decreases s.len(),
{
    if s.len() > 0 && s[0] == ',' {
        trim_commas(s.drop_first())
    } else if s.len() > 0 && s.last() == ',' {
        trim_commas(s.drop_last())
    } else {
        s
    }
}

/// Relies on `str::trim_matches`: every leading and trailing comma removed.
#[verifier::external_body]
fn strip_commas(s: &str) -> (r: &str)
    ensures
        r@ == trim_commas(s@),
{
    s.trim_matches(',')
}

impl Formatter for I3BarFormatter {
    fn format(&mut self, data: &Format) -> String {
        I3BarFormatter::format(self, data)
    }

    fn format_all(&mut self, data: &[Format]) -> String {
        I3BarFormatter::format_all(self, data)
    }
}

/// A click reported by the bar: the instance of the block and the button code.
pub struct ClickEvent {
    pub instance: String,
    pub button: u8,
}

/// The click that an input line holds: its instance and button code. The
/// line may carry commas at either end, and a button number that does not
/// fit in a byte is no click.
pub open spec fn click_of(line: Seq<char>) -> Option<(Seq<char>, u8)> {
    match click_fields_of(trim_commas(line)) {
        Some((i, b)) => if b <= 255 {
            Some((i, b as u8))
        } else {
            None
        },
        None => None,
    }
}

/// Reads the click event that one input line holds.
pub fn parse_click(line: &str) -> (r: Option<ClickEvent>)
    ensures
        match r {
            Some(c) => click_of(line@) == Some((c.instance@, c.button)),
            None => click_of(line@).is_none(),
        },
{
    match read_click_fields(strip_commas(line)) {
        Some((instance, code)) => {
            if code <= 255 {
                Some(ClickEvent { instance, button: code as u8 })
            } else {
                None
            }
        },
        None => None,
    }
}

/// The two lines the bar expects once, before the first rendered line:
/// the protocol declaration, then the opening of the endless array.
pub fn protocol_header() -> (r: String)
    ensures
        r@ == "{\"version\":1,\"click_events\":true}\n[\n"@,
{
    String::from_str("{\"version\":1,\"click_events\":true}\n[\n")
}

impl I3BarFormatter {
    /// The actions that one input line triggers: what `dispatch` gives for
    /// the click the line holds, and none where it holds no click.
    pub fn handle_input_line(&self, line: &str) -> (r: Vec<ClickAction>)
        ensures
            r@ == match click_of(line@) {
                Some(c) => matching(table_get(self.table(), c.0), c.1),
                None => Seq::<ClickAction>::empty(),
            },
    {
        match parse_click(line) {
            Some(click) => self.dispatch(click.instance.as_str(), click.button),
            None => Vec::new(),
        }
    }
}

} // verus!

verus! {

/// Two sibling clickable blocks with the same action get the same instance,
/// and a render that starts from an empty table binds both clicks to that
/// one entry.
pub proof fn lemma_sibling_clicks_share_instance(
    a: BlockAttrs,
    act: ClickAction,
    s1: String,
    s2: String,
)
    ensures
        ({
            let f1 = Format::Clickable(act, Box::new(Format::Str(s1)));
            let f2 = Format::Clickable(act, Box::new(Format::Str(s2)));
            let b = with_instance(a, act);
            &&& i3_list(seq![f1, f2], a) == block_json(b, s1@) + ","@ + block_json(b, s2@) + ","@
            &&& i3_table_list(seq![f1, f2], a, seq![]) == seq![(b.instance.unwrap(), seq![act, act])]
        }),
{
    let f1 = Format::Clickable(act, Box::new(Format::Str(s1)));
    let f2 = Format::Clickable(act, Box::new(Format::Str(s2)));
    let b = with_instance(a, act);
    let k = b.instance.unwrap();
    let fs = seq![f1, f2];
    assert(fs.drop_last() =~= seq![f1]);
    assert(fs.drop_last().drop_last() =~= Seq::<Format>::empty());
    let t0: Table = seq![];
    assert(!has_key(t0, k));
    let t1 = table_add(t0, k, act);
    assert(t1 == seq![(k, seq![act])]);
    assert(t1[0].0 == k);
    assert(has_key(t1, k));
    assert(key_index(t1, k) == 0);
    assert(seq![act].push(act) =~= seq![act, act]);
    assert(table_add(t1, k, act) =~= seq![(k, seq![act, act])]);
    assert(fs.last() == f2);
    assert(seq![f1].last() == f1);
    assert(seq![f1].drop_last() =~= Seq::<Format>::empty());
    assert(i3_list(Seq::<Format>::empty(), a) == Seq::<char>::empty());
    assert(i3_text(Format::Str(s1), b) == block_json(b, s1@) + ","@);
    assert(i3_text(Format::Str(s2), b) == block_json(b, s2@) + ","@);
    assert(i3_text(f1, a) == block_json(b, s1@) + ","@);
    assert(i3_text(f2, a) == block_json(b, s2@) + ","@);
    assert(i3_list(seq![f1], a) =~= block_json(b, s1@) + ","@);
    assert(i3_list(fs, a) == i3_list(seq![f1], a) + i3_text(f2, a));
    assert(i3_list(fs, a) =~= block_json(b, s1@) + ","@ + block_json(b, s2@) + ","@);
    assert(i3_table_list(Seq::<Format>::empty(), a, t0) == t0);
    assert(i3_table(Format::Str(s1), b, t1) == t1);
    assert(i3_table(f1, a, t0) == t1);
    assert(i3_table_list(seq![f1], a, t0) == t1);
    let t2 = table_add(t1, k, act);
    assert(i3_table(Format::Str(s2), b, t2) == t2);
    assert(i3_table(f2, a, t1) == t2);
    assert(i3_table_list(fs, a, t0) == i3_table(f2, a, i3_table_list(seq![f1], a, t0)));
}

/// After a render, an instance that the rendered trees did not bind has no
/// actions left, whatever earlier renders had bound to it.
pub proof fn lemma_render_forgets_instances(fs: Seq<Format>, k: Seq<char>, button: u8)
    requires
        !has_key(i3_table_list(fs, no_attrs(), seq![]), k),
    ensures
        matching(table_get(i3_table_list(fs, no_attrs(), seq![]), k), button) == Seq::<
            ClickAction,
        >::empty(),
{
}

/// `n` commas.
pub open spec fn commas(n: nat) -> Seq<char> {
    Seq::new(n, |i: int| ',')
}

proof fn lemma_trim_leading(p: nat, s: Seq<char>)
    ensures
        trim_commas(commas(p) + s) == trim_commas(s),
    decreases p,
{
    if p > 0 {
        let t = commas((p - 1) as nat) + s;
        assert((commas(p) + s).drop_first() =~= t);
        assert((commas(p) + s)[0] == ',');
        lemma_trim_leading((p - 1) as nat, s);
    } else {
        assert(commas(p) + s =~= s);
    }
}

proof fn lemma_trim_trailing_comma(s: Seq<char>)
    ensures
        trim_commas(s + seq![',']) == trim_commas(s),
    decreases s.len(),
{
    let t = s + seq![','];
    if s.len() == 0 {
        assert(t.drop_first() =~= s);
    } else if s[0] == ',' {
        assert(t.drop_first() =~= s.drop_first() + seq![',']);
        lemma_trim_trailing_comma(s.drop_first());
    } else {
        assert(t.drop_last() =~= s);
    }
}

proof fn lemma_trim_trailing(q: nat, s: Seq<char>)
    ensures
        trim_commas(s + commas(q)) == trim_commas(s),
    decreases q,
{
    if q > 0 {
        let u = s + commas((q - 1) as nat);
        assert(s + commas(q) =~= u + seq![',']);
        lemma_trim_trailing_comma(u);
        lemma_trim_trailing((q - 1) as nat, s);
    } else {
        assert(s + commas(q) =~= s);
    }
}

/// Commas around an input line, as the streaming framing puts them, do not
/// change the click it holds.
pub proof fn lemma_framing_commas_ignored(line: Seq<char>, p: nat, q: nat)
    ensures
        click_of(commas(p) + line + commas(q)) == click_of(line),
{
    lemma_trim_leading(p, line + commas(q));
    lemma_trim_trailing(q, line);
    assert(commas(p) + line + commas(q) =~= commas(p) + (line + commas(q)));
}

/// No line feed in `s`.
pub open spec fn single_line(s: Seq<char>) -> bool {
    forall|i: int| 0 <= i < s.len() ==> s[i] != '\n'
}

proof fn lemma_escape_single_line(s: Seq<char>)
    ensures
        single_line(json_escape(s)),
    decreases s.len(),
{
    if s.len() > 0 {
        lemma_escape_single_line(s.drop_last());
        let c = s.last();
        let e = json_escape_char(c);
        let digits = seq!['0', '1', '2', '3', '4', '5', '6', '7', '8', '9', 'a', 'b', 'c', 'd', 'e', 'f'];
        assert(forall|n: int| 0 <= n < 16 ==> #[trigger] digits[n] != '\n');
        if 0 <= (c as int) < 0x20 && c != '\u{8}' && c != '\t' && c != '\n' && c != '\u{c}'
            && c != '\r' && c != '"' && c != '\\' {
            assert(e[4] == digits[c as int / 16]);
            assert(e[5] == digits[c as int % 16]);
        }
        assert(single_line(e));
        assert(json_escape(s) =~= json_escape(s.drop_last()) + e);
    }
}

/// The block of a leaf with no attributes above it.
pub open spec fn leaf_json(text: Seq<char>) -> Seq<char> {
    seq!['{'] + "\"full_text\":"@ + json_string_of(text) + seq!['}']
}

/// The text of a leaf.
pub open spec fn leaf_text(l: Format) -> Seq<char> {
    match l {
        Format::Str(s) => s@,
        Format::UnescapedStr(s) => s@,
        _ => seq![],
    }
}

proof fn lemma_leaf_block(l: Format)
    requires
        l is Str || l is UnescapedStr,
    ensures
        i3_text(l, no_attrs()) == leaf_json(leaf_text(l)) + seq![','],
{
    reveal_strlit("{");
    reveal_strlit("}");
    reveal_strlit(",");
    let a = no_attrs();
    assert(head_json(a) =~= seq![]);
    assert(tail_json(a) =~= seq![]);
    assert(block_json(a, leaf_text(l)) =~= leaf_json(leaf_text(l)));
}

proof fn lemma_leaf_json_single_line(t: Seq<char>)
    ensures
        single_line(leaf_json(t)),
{
    reveal_strlit("\"full_text\":");
    lemma_escape_single_line(t);
    assert(leaf_json(t) =~= seq!['{', '"', 'f', 'u', 'l', 'l', '_', 't', 'e', 'x', 't', '"', ':', '"']
        + json_escape(t) + seq!['"', '}']);
}

/// Two leaves render as one line: an array of two blocks that hold their
/// texts alone, with no comma before the closing bracket and one after it,
/// and no line feed anywhere.
pub proof fn lemma_two_leaves_line(l1: Format, l2: Format)
    requires
        l1 is Str || l1 is UnescapedStr,
        l2 is Str || l2 is UnescapedStr,
    ensures
        i3_line(seq![l1, l2]) == seq!['['] + leaf_json(leaf_text(l1)) + seq![','] + leaf_json(
            leaf_text(l2),
        ) + seq![']', ','],
        single_line(i3_line(seq![l1, l2])),
{
    let a = no_attrs();
    let j1 = leaf_json(leaf_text(l1));
    let j2 = leaf_json(leaf_text(l2));
    lemma_leaf_block(l1);
    lemma_leaf_block(l2);
    let fs = seq![l1, l2];
    assert(fs.drop_last() =~= seq![l1]);
    assert(fs.last() == l2);
    assert(seq![l1].drop_last() =~= Seq::<Format>::empty());
    assert(seq![l1].last() == l1);
    assert(i3_list(Seq::<Format>::empty(), a) == Seq::<char>::empty());
    assert(i3_list(seq![l1], a) =~= j1 + seq![',']);
    let body = j1 + seq![','] + j2 + seq![','];
    assert(i3_list(fs, a) =~= body);
    assert(strip_last_comma(body) =~= j1 + seq![','] + j2);
    reveal_strlit("[");
    reveal_strlit("],");
    let line = i3_line(fs);
    assert(line =~= seq!['['] + j1 + seq![','] + j2 + seq![']', ',']);
    lemma_leaf_json_single_line(leaf_text(l1));
    lemma_leaf_json_single_line(leaf_text(l2));
    assert forall|i: int| 0 <= i < line.len() implies line[i] != '\n' by {
        if 1 <= i < 1 + j1.len() {
            assert(line[i] == j1[i - 1]);
        } else if 2 + j1.len() <= i < 2 + j1.len() + j2.len() {
            assert(line[i] == j2[i - 2 - j1.len()]);
        }
    }
}

/// An instance bound to one action answers a click of that action's button
/// with exactly that action, and a click of any other button with none.
pub proof fn lemma_dispatch_selects_button(t: Table, i: int, k: Seq<char>, act: ClickAction, button: u8)
    requires
        keys_unique(t),
        0 <= i < t.len(),
        t[i] == (k, seq![act]),
    ensures
        button == act.button_spec().code() ==> matching(table_get(t, k), button) == seq![act],
        button != act.button_spec().code() ==> matching(table_get(t, k), button) == Seq::<
            ClickAction,
        >::empty(),
{
    assert(has_key(t, k));
    assert(key_index(t, k) == i);
    let acts = seq![act];
    assert(acts.drop_last() =~= Seq::<ClickAction>::empty());
    assert(matching(acts, button) =~= matching(acts.drop_last(), button) + if act.button_spec().code() == button {
        seq![act]
    } else {
        seq![]
    });
}

} // verus!
