//! Decisions of the interactive REPL: meta-command parsing and session
//! settings. Reading lines and printing happen outside the library.

use vstd::prelude::*;

use crate::output::OutputFormat;
use crate::text::push_char;
use crate::text::{chars_of, eq_word, split_words, string_of, trim, trim_spec, words};
use crate::topics::{
    lemma_insert_multiset, lemma_lt_total, lemma_lt_transitive, lemma_sorted_insert, lt, name_le,
    name_lt, names_sorted,
};

verus! {

broadcast use vstd::seq_lib::group_to_multiset_ensures;

/// The ASCII lowercase of `c`.
pub open spec fn ascii_lower(c: char) -> char {
    if 'A' <= c && c <= 'Z' {
        ((c as u32) + 32) as char
    } else {
        c
    }
}

/// `s` with ASCII letters lowercased.
pub open spec fn lower_seq(s: Seq<char>) -> Seq<char> {
    s.map_values(|c: char| ascii_lower(c))
}

/// Whether `s` equals the lowercase word `word` up to ASCII case.
fn matches_word(s: &Vec<char>, word: &str) -> (r: bool)
    ensures
        r == (lower_seq(s@) == word@),
{
    let w = chars_of(word);
    if s.len() != w.len() {
        proof {
            assert(lower_seq(s@).len() != word@.len());
        }
        return false;
    }
    let mut i: usize = 0;
    while i < s.len()
        invariant
            i <= s@.len(),
            s@.len() == w@.len(),
            w@ == word@,
            forall|k: int| 0 <= k < i ==> ascii_lower(s@[k]) == w@[k],
        decreases s@.len() - i,
    {
        let c = s[i];
        let l = if 'A' <= c && c <= 'Z' {
            ((c as u8) + 32) as char
        } else {
            c
        };
        assert(l == ascii_lower(c));
        if l != w[i] {
            assert(lower_seq(s@)[i as int] != word@[i as int]);
            return false;
        }
        i = i + 1;
    }
    assert(lower_seq(s@) =~= word@);
    true
}

/// The output format a `\format` argument names, ignoring ASCII case.
/// (Lowercasing other characters can yield an ASCII letter only for the
/// Kelvin sign, and no format name holds a `k`.)
pub open spec fn format_spec(s: Seq<char>) -> Option<OutputFormat> {
    let l = lower_seq(s);
    if l == "table"@ {
        Some(OutputFormat::Table)
    } else if l == "json"@ {
        Some(OutputFormat::Json)
    } else if l == "ndjson"@ {
        Some(OutputFormat::Ndjson)
    } else if l == "csv"@ {
        Some(OutputFormat::Csv)
    } else {
        None
    }
}

/// Parses a `\format` argument.
pub fn parse_format(s: &str) -> (r: Option<OutputFormat>)
    ensures
        r == format_spec(s@),
{
    let cs = chars_of(s);
    if matches_word(&cs, "table") {
        Some(OutputFormat::Table)
    } else if matches_word(&cs, "json") {
        Some(OutputFormat::Json)
    } else if matches_word(&cs, "ndjson") {
        Some(OutputFormat::Ndjson)
    } else if matches_word(&cs, "csv") {
        Some(OutputFormat::Csv)
    } else {
        None
    }
}

/// The switch an `on`/`off` argument names, ignoring ASCII case.
pub open spec fn on_off_spec(s: Option<Seq<char>>) -> Option<bool> {
    match s {
        Some(x) => {
            let l = lower_seq(x);
            if l == "on"@ || l == "true"@ || l == "1"@ || l == "yes"@ {
                Some(true)
            } else if l == "off"@ || l == "false"@ || l == "0"@ || l == "no"@ {
                Some(false)
            } else {
                None
            }
        },
        None => None,
    }
}

/// The view of an optional argument.
pub open spec fn opt_str_view(s: Option<&str>) -> Option<Seq<char>> {
    match s {
        Some(x) => Some(x@),
        None => None,
    }
}

/// Parses an `on|off` argument (`on/true/1/yes`, `off/false/0/no`).
pub fn parse_on_off(s: Option<&str>) -> (r: Option<bool>)
    ensures
        r == on_off_spec(opt_str_view(s)),
{
    match s {
        None => None,
        Some(x) => {
            let cs = chars_of(x);
            if matches_word(&cs, "on") || matches_word(&cs, "true") || matches_word(&cs, "1")
                || matches_word(&cs, "yes") {
                Some(true)
            } else if matches_word(&cs, "off") || matches_word(&cs, "false") || matches_word(
                &cs,
                "0",
            ) || matches_word(&cs, "no") {
                Some(false)
            } else {
                None
            }
        },
    }
}

/// `"on"` or `"off"`.
pub open spec fn on_off_word(b: bool) -> Seq<char> {
    if b {
        "on"@
    } else {
        "off"@
    }
}

/// Renders a switch as `on` or `off`.
pub fn on_off(b: bool) -> (r: &'static str)
    ensures
        r@ == on_off_word(b),
{
    if b {
        "on"
    } else {
        "off"
    }
}

/// What `on_off` prints, `parse_on_off` reads back.
pub proof fn lemma_on_off_round_trip(b: bool)
    ensures
        on_off_spec(Some(on_off_word(b))) == Some(b),
{
    reveal_strlit("on");
    reveal_strlit("off");
    reveal_strlit("true");
    reveal_strlit("1");
    reveal_strlit("yes");
    reveal_strlit("false");
    reveal_strlit("0");
    reveal_strlit("no");
    let w = on_off_word(b);
    assert(lower_seq(w) =~= w);
    if b {
        assert(w =~= "on"@);
    } else {
        assert(w.len() == 3 && w[0] == 'o');
        assert(w != "on"@);
        assert(w != "true"@);
        assert(w != "1"@);
        assert("yes"@[0] == 'y');
        assert(w != "yes"@);
        assert(w =~= "off"@);
    }
}


/// Mutable settings of a REPL session.
#[derive(Debug, Clone, Copy, PartialEq, Eq, Structural)]
pub struct SessionFlags {
    pub format: OutputFormat,
    pub timing: bool,
    pub reuse: bool,
}

/// What a meta command asks the REPL to do or print.
#[derive(Debug, Clone, PartialEq, Eq)]
pub enum MetaAction {
    /// Leave the REPL.
    Quit,
    /// List the registered tables.
    ListTables,
    /// Print the schema of the named table.
    DescribeTable(String),
    /// The output format was set from the given argument.
    FormatSet(String),
    /// The argument names no output format.
    FormatUnknown(String),
    /// Print the current output format.
    FormatShow,
    /// Timing is now on or off.
    TimingSet(bool),
    /// Cache reuse is now on or off.
    ReuseSet(bool),
    /// Print the list of meta commands.
    Help,
    /// The command word is not known.
    Unknown(String),
}

/// What a meta command (the text after `\\`) comes to, with the session
/// settings it leaves behind.
pub open spec fn meta_spec(cmd: Seq<char>, s: SessionFlags) -> (MetaActionView, SessionFlags) {
    let ws = words(cmd);
    let head = if ws.len() > 0 {
        ws[0]
    } else {
        Seq::empty()
    };
    let arg = if ws.len() > 1 {
        Some(ws[1])
    } else {
        None
    };
    if head == "q"@ || head == "quit"@ || head == "exit"@ {
        (MetaActionView::Quit, s)
    } else if head == "d"@ {
        match arg {
            None => (MetaActionView::ListTables, s),
            Some(a) => (MetaActionView::DescribeTable(a), s),
        }
    } else if head == "format"@ {
        match arg {
            None => (MetaActionView::FormatShow, s),
            Some(a) => match format_spec(a) {
                Some(f) => (MetaActionView::FormatSet(a), SessionFlags { format: f, ..s }),
                None => (MetaActionView::FormatUnknown(a), s),
            },
        }
    } else if head == "timing"@ {
        let t = match on_off_spec(arg) {
            Some(b) => b,
            None => !s.timing,
        };
        (MetaActionView::TimingSet(t), SessionFlags { timing: t, ..s })
    } else if head == "reuse"@ {
        let t = match on_off_spec(arg) {
            Some(b) => b,
            None => !s.reuse,
        };
        (MetaActionView::ReuseSet(t), SessionFlags { reuse: t, ..s })
    } else if head == "h"@ || head == "help"@ || head == "?"@ {
        (MetaActionView::Help, s)
    } else {
        (MetaActionView::Unknown(head), s)
    }
}

/// What `\\<word> [on|off]` does to a switch that was `before` and is
/// `after`: an argument that reads as on or off sets the switch to it, no
/// or another argument flips it.
pub open spec fn switch_law(cmd: Seq<char>, word: Seq<char>, before: bool, after: bool) -> bool {
    let ws = words(cmd);
    ws.len() > 0 && ws[0] == word ==> if ws.len() > 1 && on_off_spec(Some(ws[1])) is Some {
        after == on_off_spec(Some(ws[1]))->Some_0
    } else {
        after == !before
    }
}

/// `\\reuse` and `\\timing` with `on`/`off` set the switch to what the
/// argument says (so `off` always turns it off), without one they flip it,
/// and no other command touches them.
pub proof fn lemma_meta_switches(cmd: Seq<char>, s: SessionFlags)
    ensures
        switch_law(cmd, "reuse"@, s.reuse, meta_spec(cmd, s).1.reuse),
        switch_law(cmd, "timing"@, s.timing, meta_spec(cmd, s).1.timing),
        !(words(cmd).len() > 0 && words(cmd)[0] == "reuse"@) ==> meta_spec(cmd, s).1.reuse
            == s.reuse,
        !(words(cmd).len() > 0 && words(cmd)[0] == "timing"@) ==> meta_spec(cmd, s).1.timing
            == s.timing,
        words(cmd).len() > 0 && words(cmd)[0] == "reuse"@ ==> meta_spec(cmd, s).0
            == MetaActionView::ReuseSet(meta_spec(cmd, s).1.reuse) && meta_spec(cmd, s).1.timing
            == s.timing && meta_spec(cmd, s).1.format == s.format,
        words(cmd).len() > 0 && words(cmd)[0] == "timing"@ ==> meta_spec(cmd, s).0
            == MetaActionView::TimingSet(meta_spec(cmd, s).1.timing) && meta_spec(cmd, s).1.reuse
            == s.reuse && meta_spec(cmd, s).1.format == s.format,
{
    reveal_strlit("reuse");
    reveal_strlit("timing");
    reveal_strlit("q");
    reveal_strlit("quit");
    reveal_strlit("exit");
    reveal_strlit("d");
    reveal_strlit("format");
    assert("reuse"@.len() == 5 && "timing"@.len() == 6 && "q"@.len() == 1 && "quit"@.len() == 4
        && "exit"@.len() == 4 && "d"@.len() == 1 && "format"@.len() == 6);
    assert("reuse"@ != "timing"@ && "reuse"@ != "q"@ && "reuse"@ != "quit"@ && "reuse"@
        != "exit"@ && "reuse"@ != "d"@ && "reuse"@ != "format"@);
    assert("timing"@[0] == 't' && "format"@[0] == 'f');
    assert("timing"@ != "q"@ && "timing"@ != "quit"@ && "timing"@ != "exit"@ && "timing"@
        != "d"@ && "timing"@ != "format"@);
}

/// A [`MetaAction`] with its text as character sequences.
pub enum MetaActionView {
    Quit,
    ListTables,
    DescribeTable(Seq<char>),
    FormatSet(Seq<char>),
    FormatUnknown(Seq<char>),
    FormatShow,
    TimingSet(bool),
    ReuseSet(bool),
    Help,
    Unknown(Seq<char>),
}

impl View for MetaAction {
    type V = MetaActionView;

    open spec fn view(&self) -> MetaActionView {
        match self {
            MetaAction::Quit => MetaActionView::Quit,
            MetaAction::ListTables => MetaActionView::ListTables,
            MetaAction::DescribeTable(t) => MetaActionView::DescribeTable(t@),
            MetaAction::FormatSet(t) => MetaActionView::FormatSet(t@),
            MetaAction::FormatUnknown(t) => MetaActionView::FormatUnknown(t@),
            MetaAction::FormatShow => MetaActionView::FormatShow,
            MetaAction::TimingSet(b) => MetaActionView::TimingSet(*b),
            MetaAction::ReuseSet(b) => MetaActionView::ReuseSet(*b),
            MetaAction::Help => MetaActionView::Help,
            MetaAction::Unknown(t) => MetaActionView::Unknown(t@),
        }
    }
}

/// Interprets a meta command (the text after the backslash), updating the
/// session settings it changes.
pub fn handle_meta(cmd: &str, session: &mut SessionFlags) -> (r: MetaAction)
    ensures
        (r@, *final(session)) == meta_spec(cmd@, *old(session)),
        switch_law(cmd@, "reuse"@, old(session).reuse, final(session).reuse),
        switch_law(cmd@, "timing"@, old(session).timing, final(session).timing),
        words(cmd@).len() > 0 && words(cmd@)[0] == "reuse"@ ==> r@ == MetaActionView::ReuseSet(
            final(session).reuse,
        ) && final(session).timing == old(session).timing && final(session).format == old(
            session,
        ).format,
        words(cmd@).len() > 0 && words(cmd@)[0] == "timing"@ ==> r@ == MetaActionView::TimingSet(
            final(session).timing,
        ) && final(session).reuse == old(session).reuse && final(session).format == old(
            session,
        ).format,
        !(words(cmd@).len() > 0 && words(cmd@)[0] == "reuse"@) ==> final(session).reuse == old(
            session,
        ).reuse,
        !(words(cmd@).len() > 0 && words(cmd@)[0] == "timing"@) ==> final(session).timing == old(
            session,
        ).timing,
{
    proof {
        lemma_meta_switches(cmd@, *old(session));
    }
    let cs = chars_of(cmd);
    let parts = split_words(&cs);
    let empty: Vec<char> = Vec::new();
    let head: &Vec<char> = if parts.len() > 0 {
        &parts[0]
    } else {
        &empty
    };
    assert(head@ == (if words(cmd@).len() > 0 {
        words(cmd@)[0]
    } else {
        Seq::<char>::empty()
    }));
    let arg: Option<&Vec<char>> = if parts.len() > 1 {
        Some(&parts[1])
    } else {
        None
    };
    if eq_word(head, "q") || eq_word(head, "quit") || eq_word(head, "exit") {
        MetaAction::Quit
    } else if eq_word(head, "d") {
        match arg {
            None => MetaAction::ListTables,
            Some(a) => MetaAction::DescribeTable(string_of(a)),
        }
    } else if eq_word(head, "format") {
        match arg {
            None => MetaAction::FormatShow,
            Some(a) => {
                let text = string_of(a);
                match parse_format(text.as_str()) {
                    Some(f) => {
                        session.format = f;
                        MetaAction::FormatSet(text)
                    },
                    None => MetaAction::FormatUnknown(text),
                }
            },
        }
    } else if eq_word(head, "timing") {
        let t = match arg {
            Some(a) => {
                let text = string_of(a);
                parse_on_off(Some(text.as_str()))
            },
            None => None,
        };
        let v = match t {
            Some(b) => b,
            None => !session.timing,
        };
        session.timing = v;
        MetaAction::TimingSet(v)
    } else if eq_word(head, "reuse") {
        let t = match arg {
            Some(a) => {
                let text = string_of(a);
                parse_on_off(Some(text.as_str()))
            },
            None => None,
        };
        let v = match t {
            Some(b) => b,
            None => !session.reuse,
        };
        session.reuse = v;
        MetaAction::ReuseSet(v)
    } else if eq_word(head, "h") || eq_word(head, "help") || eq_word(head, "?") {
        MetaAction::Help
    } else {
        MetaAction::Unknown(string_of(head))
    }
}


/// What the REPL does with one line of input.
#[derive(Debug, Clone, PartialEq, Eq)]
pub enum LineAction {
    /// The line is blank: prompt again.
    Skip,
    /// A meta command: the text after the leading backslash.
    Meta(String),
    /// SQL to run: the line without surrounding whitespace.
    Query(String),
}

/// A [`LineAction`] with its text as a character sequence.
pub enum LineActionView {
    Skip,
    Meta(Seq<char>),
    Query(Seq<char>),
}

impl View for LineAction {
    type V = LineActionView;

    open spec fn view(&self) -> LineActionView {
        match self {
            LineAction::Skip => LineActionView::Skip,
            LineAction::Meta(t) => LineActionView::Meta(t@),
            LineAction::Query(t) => LineActionView::Query(t@),
        }
    }
}

/// How a line is read: blank lines are skipped, a line that starts with a
/// backslash (after trimming) is a meta command, anything else is SQL.
pub open spec fn line_spec(line: Seq<char>) -> LineActionView {
    let t = trim_spec(line);
    if t.len() == 0 {
        LineActionView::Skip
    } else if t[0] == '\\' {
        LineActionView::Meta(t.drop_first())
    } else {
        LineActionView::Query(t)
    }
}

/// Sorts one input line into a blank line, a meta command or a query.
pub fn classify_line(line: &str) -> (r: LineAction)
    ensures
        r@ == line_spec(line@),
{
    let t = trim(line);
    let cs = chars_of(t.as_str());
    if cs.len() == 0 {
        return LineAction::Skip;
    }
    if cs[0] != '\\' {
        return LineAction::Query(t);
    }
    let mut rest: Vec<char> = Vec::new();
    let mut i: usize = 1;
    while i < cs.len()
        invariant
            1 <= i <= cs@.len(),
            rest@ == cs@.subrange(1, i as int),
        decreases cs@.len() - i,
    {
        rest.push(cs[i]);
        assert(cs@.subrange(1, i + 1) =~= cs@.subrange(1, i as int).push(cs@[i as int]));
        i = i + 1;
    }
    assert(rest@ =~= cs@.drop_first());
    LineAction::Meta(string_of(&rest))
}

/// The digit `d` (below ten) as a character.
pub open spec fn digit_char(d: nat) -> char {
    (48 + d) as char
}

/// `n` in decimal, without leading zeros.
pub open spec fn decimal(n: nat) -> Seq<char>
    decreases n,
{
    if n < 10 {
        seq![digit_char(n)]
    } else {
        decimal(n / 10).push(digit_char(n % 10))
    }
}

/// Writes `n` in decimal.
pub fn decimal_string(n: usize) -> (r: String)
    ensures
        r@ == decimal(n as nat),
{
    let mut m: usize = n;
    let mut acc: Vec<char> = Vec::new();
    while m >= 10
        invariant
            decimal(n as nat) == decimal(m as nat) + acc@,
        decreases m,
    {
        let d: usize = m % 10;
        let c = ((48 + d) as u8) as char;
        assert(c == digit_char((m % 10) as nat));
        let ghost before = acc@;
        acc.insert(0, c);
        assert(decimal(m as nat) == decimal((m / 10) as nat).push(c));
        assert(decimal((m / 10) as nat).push(c) + before =~= decimal((m / 10) as nat) + acc@);
        m = m / 10;
    }
    let c = ((48 + m) as u8) as char;
    assert(c == digit_char(m as nat));
    let ghost before = acc@;
    acc.insert(0, c);
    assert(acc@ =~= seq![c] + before);
    string_of(&acc)
}

/// The names of a list of tables.
pub open spec fn table_names(t: Seq<(String, usize)>) -> Seq<Seq<char>> {
    t.map_values(|e: (String, usize)| e.0@)
}

/// The tables with their names as character sequences.
pub open spec fn tables_view(t: Seq<(String, usize)>) -> Seq<(Seq<char>, usize)> {
    t.map_values(|e: (String, usize)| (e.0@, e.1))
}

/// Orders the registered tables (name, column count) by name, for `\d`.
pub fn sort_tables(tables: &Vec<(String, usize)>) -> (r: Vec<(String, usize)>)
    ensures
        names_sorted(table_names(r@)),
        tables_view(r@).to_multiset() == tables_view(tables@).to_multiset(),
{
    let mut out: Vec<(String, usize)> = Vec::new();
    let mut i: usize = 0;
    assert(tables_view(tables@.take(0)) =~= Seq::<(Seq<char>, usize)>::empty());
    assert(tables_view(out@) =~= Seq::<(Seq<char>, usize)>::empty());
    while i < tables.len()
        invariant
            i <= tables@.len(),
            names_sorted(table_names(out@)),
            tables_view(out@).to_multiset() == tables_view(tables@.take(i as int)).to_multiset(),
        decreases tables@.len() - i,
    {
        let name = tables[i].0.clone();
        let cols = tables[i].1;
        let mut k: usize = 0;
        while k < out.len() && !lt(&name, &out[k].0)
            invariant
                k <= out@.len(),
                forall|j: int| 0 <= j < k ==> !name_lt(name@, #[trigger] out@[j].0@),
            decreases out@.len() - k,
        {
            k = k + 1;
        }
        let ghost names_before = table_names(out@);
        let ghost view_before = tables_view(out@);
        let ghost x = name@;
        proof {
            assert forall|j: int| 0 <= j < k implies name_le(#[trigger] names_before[j], x) by {
                lemma_lt_total(names_before[j], x);
            }
            assert forall|j: int| k <= j < names_before.len() implies name_le(
                x,
                #[trigger] names_before[j],
            ) by {
                assert(name_lt(x, names_before[k as int]));
                if j > k {
                    assert(name_le(names_before[k as int], names_before[j]));
                    if name_lt(names_before[k as int], names_before[j]) {
                        lemma_lt_transitive(x, names_before[k as int], names_before[j]);
                    }
                }
            }
            lemma_sorted_insert(names_before, k as int, x);
            lemma_insert_multiset(view_before, k as int, (x, cols));
        }
        out.insert(k, (name, cols));
        proof {
            assert(table_names(out@) =~= names_before.insert(k as int, x));
            assert(tables_view(out@) =~= view_before.insert(k as int, (x, cols)));
            assert(tables@.take(i + 1) =~= tables@.take(i as int).push(tables@[i as int]));
            assert(tables_view(tables@.take(i + 1)) =~= tables_view(tables@.take(i as int)).push(
                (x, cols),
            ));
            vstd::seq_lib::lemma_multiset_commutative(
                tables_view(tables@.take(i as int)),
                seq![(x, cols)],
            );
            assert(tables_view(tables@.take(i as int)).push((x, cols)) =~= tables_view(
                tables@.take(i as int),
            ) + seq![(x, cols)]);
        }
        i = i + 1;
    }
    assert(tables@.take(tables@.len() as int) =~= tables@);
    out
}

/// The `\d` line of a table: its name, a tab, its column count and ` cols`.
pub open spec fn table_line(name: Seq<char>, cols: nat) -> Seq<char> {
    name + seq!['\t'] + decimal(cols) + " cols"@
}

/// The `\d` lines for the tables in the order given: `(no tables)` when
/// there is none.
pub open spec fn listing_spec(t: Seq<(String, usize)>) -> Seq<Seq<char>> {
    if t.len() == 0 {
        seq!["(no tables)"@]
    } else {
        t.map_values(|e: (String, usize)| table_line(e.0@, e.1 as nat))
    }
}

/// The lines that `\d` prints for the (sorted) tables.
pub fn table_lines(tables: &Vec<(String, usize)>) -> (r: Vec<String>)
    ensures
        r@.map_values(|s: String| s@) == listing_spec(tables@),
{
    let mut out: Vec<String> = Vec::new();
    if tables.len() == 0 {
        out.push(String::from_str("(no tables)"));
        assert(out@.map_values(|s: String| s@) =~= listing_spec(tables@));
        return out;
    }
    let mut i: usize = 0;
    while i < tables.len()
        invariant
            i <= tables@.len(),
            tables@.len() > 0,
            out@.map_values(|s: String| s@) == tables@.take(i as int).map_values(
                |e: (String, usize)| table_line(e.0@, e.1 as nat),
            ),
        decreases tables@.len() - i,
    {
        let mut line = tables[i].0.clone();
        push_char(&mut line, '\t');
        let digits = decimal_string(tables[i].1);
        line.append(digits.as_str());
        line.append(" cols");
        proof {
            reveal_strlit(" cols");
        }
        assert(line@ =~= table_line(tables@[i as int].0@, tables@[i as int].1 as nat));
        let ghost before = out@;
        let ghost lv = line@;
        out.push(line);
        assert(out@.map_values(|s: String| s@) =~= before.map_values(|s: String| s@).push(lv));
        assert(tables@.take(i + 1) =~= tables@.take(i as int).push(tables@[i as int]));
        assert(out@.map_values(|s: String| s@) =~= tables@.take(i + 1).map_values(
            |e: (String, usize)| table_line(e.0@, e.1 as nat),
        ));
        i = i + 1;
    }
    assert(tables@.take(tables@.len() as int) =~= tables@);
    out
}

} // verus!
