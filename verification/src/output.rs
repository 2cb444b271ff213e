//! Output formats of query results.

use vstd::prelude::*;

use comfy_table::presets::UTF8_BORDERS_ONLY;
use comfy_table::Table;

use crate::repl::{decimal, decimal_string};
use crate::text::{chars_of, push_char};
use vstd::utf8::encode_utf8;

verus! {

/// How result batches are rendered.
#[derive(Debug, Clone, Copy, PartialEq, Eq, Structural)]
pub enum OutputFormat {
    Table,
    Json,
    Ndjson,
    Csv,
}

/// The width of a text column: the longest of the cell widths `lens`, or
/// `empty` when the column has no cell.
pub fn column_width(lens: &Vec<usize>, empty: usize) -> (r: usize)
    ensures
        lens@.len() == 0 ==> r == empty,
        lens@.len() > 0 ==> lens@.contains(r) && forall|i: int|
            0 <= i < lens@.len() ==> lens@[i] <= r,
{
    if lens.len() == 0 {
        return empty;
    }
    let mut best: usize = lens[0];
    let mut i: usize = 1;
    assert(lens@.subrange(0, 1)[0] == best);
    while i < lens.len()
        invariant
            1 <= i <= lens@.len(),
            lens@.subrange(0, i as int).contains(best),
            forall|k: int| 0 <= k < i ==> lens@[k] <= best,
        decreases lens@.len() - i,
    {
        if lens[i] > best {
            best = lens[i];
            assert(lens@.subrange(0, i + 1)[i as int] == best);
        } else {
            let ghost j = choose|j: int| 0 <= j < i && lens@.subrange(0, i as int)[j] == best;
            assert(lens@.subrange(0, i + 1)[j] == best);
        }
        i = i + 1;
    }
    assert(lens@.subrange(0, lens@.len() as int) =~= lens@);
    best
}

/// The views of a list of strings.
pub open spec fn strings_view(v: Seq<String>) -> Seq<Seq<char>> {
    v.map_values(|s: String| s@)
}

/// The views of a list of rows of strings.
pub open spec fn rows_view(v: Seq<Vec<String>>) -> Seq<Seq<Seq<char>>> {
    v.map_values(|r: Vec<String>| strings_view(r@))
}

/// Name for what `comfy_table` renders for a table with the
/// `UTF8_BORDERS_ONLY` preset, the given header and the given rows (the
/// table's `Display`).
pub uninterp spec fn utf8_borders_table(header: Seq<Seq<char>>, rows: Seq<Seq<Seq<char>>>) -> Seq<
    char,
>;

/// Renders a table with `comfy_table` (`Table::new`, `load_preset` with
/// `UTF8_BORDERS_ONLY`, `set_header`, `add_row` per row, then `Display`).
/// Claimed: the text is the named [`utf8_borders_table`] of the header and
/// rows; with no width constraint and no cell style set it depends on them
/// alone.
#[verifier::external_body]
fn render_comfy_table(header: &Vec<String>, rows: &Vec<Vec<String>>) -> (r: String)
    ensures
        r@ == utf8_borders_table(strings_view(header@), rows_view(rows@)),
{
    let mut table = Table::new();
    table.load_preset(UTF8_BORDERS_ONLY);
    table.set_header(header.clone());
    for row in rows {
        table.add_row(row.clone());
    }
    table.to_string()
}

/// The text of a cell: a null cell shows as nothing.
pub open spec fn cell_text(c: Option<String>) -> Seq<char> {
    match c {
        Some(s) => s@,
        None => Seq::empty(),
    }
}

/// The cell texts of the rows.
pub open spec fn cells_view(rows: Seq<Vec<Option<String>>>) -> Seq<Seq<Seq<char>>> {
    rows.map_values(|r: Vec<Option<String>>| r@.map_values(|c: Option<String>| cell_text(c)))
}

/// The text of a table result: `(empty result)` when there is no header
/// (no batch), else the bordered table of the header and the cells; each
/// followed by a newline.
pub open spec fn table_text(header: Option<Seq<Seq<char>>>, rows: Seq<Vec<Option<String>>>) -> Seq<
    char,
> {
    match header {
        None => "(empty result)\n"@,
        Some(h) => utf8_borders_table(h, cells_view(rows)) + seq!['\n'],
    }
}

/// Renders query results as a bordered text table. `header` holds the
/// column names of the first batch, `None` when there is no batch; a
/// `None` cell is a null and shows as nothing.
pub fn render_table(header: Option<&Vec<String>>, rows: &Vec<Vec<Option<String>>>) -> (r: String)
    ensures
        r@ == table_text(
            match header {
                Some(h) => Some(strings_view(h@)),
                None => None,
            },
            rows@,
        ),
{
    let h = match header {
        None => {
            let s = String::from_str("(empty result)\n");
            proof {
                reveal_strlit("(empty result)\n");
            }
            return s;
        },
        Some(h) => h,
    };
    let mut cells: Vec<Vec<String>> = Vec::new();
    let mut i: usize = 0;
    while i < rows.len()
        invariant
            i <= rows@.len(),
            rows_view(cells@) == cells_view(rows@.take(i as int)),
        decreases rows@.len() - i,
    {
        let row = &rows[i];
        let mut texts: Vec<String> = Vec::new();
        let mut j: usize = 0;
        while j < row.len()
            invariant
                j <= row@.len(),
                strings_view(texts@) == row@.take(j as int).map_values(
                    |c: Option<String>| cell_text(c),
                ),
            decreases row@.len() - j,
        {
            let t = match &row[j] {
                Some(s) => s.clone(),
                None => String::new(),
            };
            assert(t@ == cell_text(row@[j as int]));
            let ghost before = texts@;
            texts.push(t);
            assert(texts@ == before.push(t));
            assert(strings_view(texts@) =~= strings_view(before).push(t@));
            assert(row@.take(j + 1) =~= row@.take(j as int).push(row@[j as int]));
            assert(strings_view(texts@) =~= row@.take(j + 1).map_values(
                |c: Option<String>| cell_text(c),
            ));
            j = j + 1;
        }
        assert(row@.take(row@.len() as int) =~= row@);
        let ghost before_rows = cells@;
        cells.push(texts);
        assert(rows_view(cells@) =~= rows_view(before_rows).push(strings_view(texts@)));
        assert(rows@.take(i + 1) =~= rows@.take(i as int).push(rows@[i as int]));
        assert(rows_view(cells@) =~= cells_view(rows@.take(i + 1)));
        i = i + 1;
    }
    assert(rows@.take(rows@.len() as int) =~= rows@);
    let mut out = render_comfy_table(h, &cells);
    push_char(&mut out, '\n');
    out
}

/// The largest of `s`, or `d` when `s` is empty.
pub open spec fn seq_max_or(s: Seq<usize>, d: usize) -> usize
    decreases s.len(),
{
    if s.len() == 0 {
        d
    } else if s.len() == 1 {
        s[0]
    } else {
        let m = seq_max_or(s.drop_last(), d);
        if m >= s.last() {
            m
        } else {
            s.last()
        }
    }
}

proof fn lemma_seq_max(s: Seq<usize>, d: usize)
    requires
        s.len() > 0,
    ensures
        s.contains(seq_max_or(s, d)),
        forall|i: int| 0 <= i < s.len() ==> s[i] <= seq_max_or(s, d),
    decreases s.len(),
{
    if s.len() == 1 {
        assert(s[0] == seq_max_or(s, d));
    } else {
        let t = s.drop_last();
        lemma_seq_max(t, d);
        let k = choose|k: int| 0 <= k < t.len() && t[k] == seq_max_or(t, d);
        assert(s[k] == t[k]);
        assert(s[s.len() - 1] == s.last());
        assert forall|i: int| 0 <= i < s.len() implies s[i] <= seq_max_or(s, d) by {
            if i < s.len() - 1 {
                assert(s[i] == t[i]);
            }
        }
    }
}

/// What [`column_width`] returns is [`seq_max_or`].
proof fn lemma_width_is_max(s: Seq<usize>, d: usize, r: usize)
    requires
        s.len() == 0 ==> r == d,
        s.len() > 0 ==> s.contains(r) && forall|i: int| 0 <= i < s.len() ==> s[i] <= r,
    ensures
        r == seq_max_or(s, d),
{
    if s.len() > 0 {
        lemma_seq_max(s, d);
        let k = choose|k: int| 0 <= k < s.len() && s[k] == r;
        let j = choose|j: int| 0 <= j < s.len() && s[j] == seq_max_or(s, d);
        assert(s[k] <= seq_max_or(s, d));
        assert(s[j] <= r);
    }
}

/// Bytes of a string, as `str::len` counts them.
pub open spec fn str_bytes(s: String) -> usize {
    encode_utf8(s@).len() as usize
}

/// The byte lengths of the field names.
pub open spec fn name_lens(f: Seq<(String, String, bool)>) -> Seq<usize> {
    f.map_values(|e: (String, String, bool)| str_bytes(e.0))
}

/// The byte lengths of the type names.
pub open spec fn type_lens(f: Seq<(String, String, bool)>) -> Seq<usize> {
    f.map_values(|e: (String, String, bool)| str_bytes(e.1))
}

/// `s` padded with spaces on the right to `w` characters (as `{:<w}` does).
pub open spec fn pad_to(s: Seq<char>, w: nat) -> Seq<char> {
    if s.len() < w {
        s + Seq::new((w - s.len()) as nat, |i: int| ' ')
    } else {
        s
    }
}

/// One row of the schema table: two spaces, the padded name and type, each
/// followed by two spaces, then the last column.
pub open spec fn schema_row(a: Seq<char>, b: Seq<char>, c: Seq<char>, nc: nat, tc: nat) -> Seq<
    char,
> {
    "  "@ + pad_to(a, nc) + "  "@ + pad_to(b, tc) + "  "@ + c
}

/// The lines of `kqr schema`: a title with the sample count, a header, a
/// rule of dashes as wide as the table, and one row per field (name, type,
/// `yes`/`no` for nullable). The name column is as wide as the longest name
/// in bytes (4 without fields), the type column as the longest type (8).
pub open spec fn schema_text(sampled: nat, f: Seq<(String, String, bool)>) -> Seq<Seq<char>> {
    let nc = seq_max_or(name_lens(f), 4) as nat;
    let tc = seq_max_or(type_lens(f), 8) as nat;
    seq![
        "inferred from "@ + decimal(sampled) + " samples:"@,
        schema_row("field"@, "type"@, "nullable"@, nc, tc),
        "  "@ + Seq::new(nc + tc + 12, |i: int| '-'),
    ] + f.map_values(
        |e: (String, String, bool)|
            schema_row(
                e.0@,
                e.1@,
                if e.2 {
                    "yes"@
                } else {
                    "no"@
                },
                nc,
                tc,
            ),
    )
}

/// Appends `c` to `out` `n` times.
fn push_repeat(out: &mut String, c: char, n: usize)
    ensures
        final(out)@ == old(out)@ + Seq::new(n as nat, |i: int| c),
{
    let mut k: usize = 0;
    while k < n
        invariant
            k <= n,
            out@ == old(out)@ + Seq::new(k as nat, |i: int| c),
        decreases n - k,
    {
        push_char(out, c);
        assert(old(out)@ + Seq::new((k + 1) as nat, |i: int| c) =~= old(out)@ + Seq::new(
            k as nat,
            |i: int| c,
        ) + seq![c]);
        k = k + 1;
    }
}

/// Appends `s` padded to `w` characters.
fn push_padded(out: &mut String, s: &str, w: usize)
    ensures
        final(out)@ == old(out)@ + pad_to(s@, w as nat),
{
    let n = chars_of(s).len();
    out.append(s);
    if n < w {
        push_repeat(out, ' ', w - n);
        assert(old(out)@ + s@ + Seq::new((w - n) as nat, |i: int| ' ') =~= old(out)@ + pad_to(
            s@,
            w as nat,
        ));
    } else {
        assert(old(out)@ + s@ =~= old(out)@ + pad_to(s@, w as nat));
    }
}

/// Builds one schema row.
fn schema_row_string(a: &str, b: &str, c: &str, nc: usize, tc: usize) -> (r: String)
    ensures
        r@ == schema_row(a@, b@, c@, nc as nat, tc as nat),
{
    let mut out = String::new();
    out.append("  ");
    push_padded(&mut out, a, nc);
    out.append("  ");
    push_padded(&mut out, b, tc);
    out.append("  ");
    out.append(c);
    proof {
        reveal_strlit("  ");
    }
    assert(out@ =~= schema_row(a@, b@, c@, nc as nat, tc as nat));
    out
}

/// The lines `kqr schema` prints for `fields` (name, type, nullable)
/// inferred from `sampled` messages.
pub fn schema_lines(sampled: usize, fields: &Vec<(String, String, bool)>) -> (r: Vec<String>)
    requires
        forall|i: int|
            0 <= i < fields@.len() ==> str_bytes(#[trigger] fields@[i].0) <= usize::MAX / 4
                && str_bytes(fields@[i].1) <= usize::MAX / 4,
    ensures
        r@.map_values(|s: String| s@) == schema_text(sampled as nat, fields@),
{
    let mut nl: Vec<usize> = Vec::new();
    let mut tl: Vec<usize> = Vec::new();
    let mut i: usize = 0;
    while i < fields.len()
        invariant
            i <= fields@.len(),
            nl@ == name_lens(fields@).take(i as int),
            tl@ == type_lens(fields@).take(i as int),
            forall|m: int|
                0 <= m < fields@.len() ==> str_bytes(#[trigger] fields@[m].0) <= usize::MAX / 4
                    && str_bytes(fields@[m].1) <= usize::MAX / 4,
            forall|m: int| 0 <= m < i ==> #[trigger] nl@[m] <= usize::MAX / 4,
            forall|m: int| 0 <= m < i ==> #[trigger] tl@[m] <= usize::MAX / 4,
        decreases fields@.len() - i,
    {
        assert(str_bytes(fields@[i as int].0) <= usize::MAX / 4);
        nl.push(fields[i].0.as_str().len());
        tl.push(fields[i].1.as_str().len());
        assert(name_lens(fields@).take(i + 1) =~= name_lens(fields@).take(i as int).push(
            str_bytes(fields@[i as int].0),
        ));
        assert(type_lens(fields@).take(i + 1) =~= type_lens(fields@).take(i as int).push(
            str_bytes(fields@[i as int].1),
        ));
        i = i + 1;
    }
    assert(nl@ =~= name_lens(fields@));
    assert(tl@ =~= type_lens(fields@));
    let nc = column_width(&nl, 4);
    let tc = column_width(&tl, 8);
    proof {
        lemma_width_is_max(nl@, 4, nc);
        lemma_width_is_max(tl@, 8, tc);
        if nl@.len() > 0 {
            let k = choose|k: int| 0 <= k < nl@.len() && nl@[k] == nc;
            assert(nl@[k] <= usize::MAX / 4);
        }
        if tl@.len() > 0 {
            let j = choose|j: int| 0 <= j < tl@.len() && tl@[j] == tc;
            assert(tl@[j] <= usize::MAX / 4);
        }
    }
    assert(nc <= usize::MAX / 4 && tc <= usize::MAX / 4);
    let mut out: Vec<String> = Vec::new();
    let mut title = String::from_str("inferred from ");
    let digits = decimal_string(sampled);
    title.append(digits.as_str());
    title.append(" samples:");
    proof {
        reveal_strlit("inferred from ");
        reveal_strlit(" samples:");
    }
    let ghost t0 = title@;
    assert(t0 == "inferred from "@ + decimal(sampled as nat) + " samples:"@);
    out.push(title);
    let header = schema_row_string("field", "type", "nullable", nc, tc);
    let ghost t1 = header@;
    out.push(header);
    let mut rule = String::from_str("  ");
    proof {
        reveal_strlit("  ");
    }
    push_repeat(&mut rule, '-', nc + tc + 12);
    let ghost t2 = rule@;
    assert(t2 =~= "  "@ + Seq::new((nc + tc + 12) as nat, |i: int| '-'));
    out.push(rule);
    let ghost head = out@;
    assert(head[0]@ == t0 && head[1]@ == t1 && head[2]@ == t2);
    let mut k: usize = 0;
    while k < fields.len()
        invariant
            k <= fields@.len(),
            out@.len() == 3 + k,
            forall|m: int| 0 <= m < 3 ==> out@[m] == head[m],
            forall|m: int|
                0 <= m < k ==> (#[trigger] out@[3 + m])@ == schema_row(
                    fields@[m].0@,
                    fields@[m].1@,
                    if fields@[m].2 {
                        "yes"@
                    } else {
                        "no"@
                    },
                    nc as nat,
                    tc as nat,
                ),
        decreases fields@.len() - k,
    {
        let f = &fields[k];
        let last = if f.2 {
            "yes"
        } else {
            "no"
        };
        let row = schema_row_string(f.0.as_str(), f.1.as_str(), last, nc, tc);
        out.push(row);
        k = k + 1;
    }
    let ghost nc_n = seq_max_or(name_lens(fields@), 4) as nat;
    let ghost tc_n = seq_max_or(type_lens(fields@), 8) as nat;
    assert(nc_n == nc as nat && tc_n == tc as nat);
    let ghost text = schema_text(sampled as nat, fields@);
    assert(text.len() == out@.len());
    assert forall|m: int| 0 <= m < out@.len() implies (#[trigger] out@[m])@ == text[m] by {
        if m >= 3 {
            assert(out@[3 + (m - 3)] == out@[m]);
        }
    }
    assert(out@.map_values(|s: String| s@) =~= text);
    out
}

} // verus!
