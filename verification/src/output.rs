//! Text renderings of the source list and the sample headers: CSV, JSON
//! and aligned tables.

use vstd::prelude::*;

use crate::cli::StreamFormat;
use crate::proto::Source;
use crate::text::{chars_of, decimal, push_char, push_decimal, push_str};

verus! {

/// `parts` joined with `sep` between each two.
pub open spec fn joined(parts: Seq<Seq<char>>, sep: Seq<char>) -> Seq<char>
    decreases parts.len(),
{
    if parts.len() == 0 {
        Seq::empty()
    } else if parts.len() == 1 {
        parts[0]
    } else {
        joined(parts.drop_last(), sep) + sep + parts.last()
    }
}

/// `true` or `false`.
pub open spec fn bool_text(b: bool) -> Seq<char> {
    if b {
        "true"@
    } else {
        "false"@
    }
}

/// Appends `true` or `false`.
fn push_bool(s: &mut String, b: bool)
    ensures
        final(s)@ == old(s)@ + bool_text(b),
{
    if b {
        push_str(s, "true");
    } else {
        push_str(s, "false");
    }
}

/// Characters that force a CSV field into quotes.
pub open spec fn csv_special(c: char) -> bool {
    c == ',' || c == '"' || c == '\n' || c == '\r'
}

/// Whether a CSV field must be quoted.
pub open spec fn needs_csv_quotes(v: Seq<char>) -> bool {
    exists|i: int| 0 <= i < v.len() && csv_special(#[trigger] v[i])
}

/// `v` with every double quote doubled.
pub open spec fn double_quotes(v: Seq<char>) -> Seq<char>
    decreases v.len(),
{
    if v.len() == 0 {
        Seq::empty()
    } else if v.last() == '"' {
        double_quotes(v.drop_last()) + "\"\""@
    } else {
        double_quotes(v.drop_last()).push(v.last())
    }
}

/// A CSV field: quoted, with inner quotes doubled, when it holds a comma,
/// a quote or a line break; else as it is.
pub open spec fn spec_csv_escape(v: Seq<char>) -> Seq<char> {
    if needs_csv_quotes(v) {
        "\""@ + double_quotes(v) + "\""@
    } else {
        v
    }
}

/// Renders `value` as a CSV field.
pub fn csv_escape(value: &str) -> (r: String)
    ensures
        r@ == spec_csv_escape(value@),
{
    let v = chars_of(value);
    let n = v.len();
    let mut special = false;
    let mut i: usize = 0;
    while i < n
        invariant
            i <= n,
            n == v@.len(),
            special == exists|j: int| 0 <= j < i && csv_special(#[trigger] v@[j]),
        decreases n - i,
    {
        let c = v[i];
        if c == ',' || c == '"' || c == '\n' || c == '\r' {
            special = true;
        }
        i += 1;
        assert(special == exists|j: int| 0 <= j < i && csv_special(#[trigger] v@[j])) by {
            if csv_special(v@[i - 1]) {
                assert(csv_special(v@[i - 1]));
            }
        }
    }
    if !special {
        return value.to_string();
    }
    let mut s = String::new();
    push_str(&mut s, "\"");
    assert(v@.take(0) =~= Seq::<char>::empty());
    assert(s@ =~= "\""@ + double_quotes(v@.take(0)));
    let mut k: usize = 0;
    while k < n
        invariant
            k <= n,
            n == v@.len(),
            s@ == "\""@ + double_quotes(v@.take(k as int)),
        decreases n - k,
    {
        let c = v[k];
        assert(v@.take(k + 1).drop_last() =~= v@.take(k as int));
        assert(v@.take(k + 1).last() == c);
        if c == '"' {
            push_str(&mut s, "\"\"");
        } else {
            push_char(&mut s, c);
        }
        k += 1;
        assert(s@ =~= "\""@ + double_quotes(v@.take(k as int)));
    }
    assert(v@.take(n as int) =~= v@);
    push_str(&mut s, "\"");
    assert(s@ =~= "\""@ + double_quotes(v@) + "\""@);
    s
}

/// One source as a CSV row.
pub open spec fn source_csv_row(s: Source) -> Seq<char> {
    decimal(s.source_id as nat) + ","@ + spec_csv_escape(s.name@) + ","@ + spec_csv_escape(s.kind@)
        + ","@ + spec_csv_escape(s.unit@) + ","@ + bool_text(s.available)
}

/// The CSV header followed by one row per source, one per line.
pub open spec fn spec_sources_csv(sources: Seq<Source>) -> Seq<char>
    decreases sources.len(),
{
    if sources.len() == 0 {
        "id,name,kind,unit,available"@
    } else {
        spec_sources_csv(sources.drop_last()) + "\n"@ + source_csv_row(sources.last())
    }
}

/// Renders the sources as CSV.
pub fn format_sources_csv(sources: &[Source]) -> (r: String)
    ensures
        r@ == spec_sources_csv(sources@),
{
    let mut s = "id,name,kind,unit,available".to_string();
    let mut i: usize = 0;
    while i < sources.len()
        invariant
            i <= sources@.len(),
            s@ == spec_sources_csv(sources@.take(i as int)),
        decreases sources@.len() - i,
    {
        let source = &sources[i];
        assert(sources@.take(i + 1).drop_last() =~= sources@.take(i as int));
        assert(sources@.take(i + 1).last() == *source);
        push_str(&mut s, "\n");
        push_decimal(&mut s, source.source_id as u64);
        push_str(&mut s, ",");
        let name = csv_escape(source.name.as_str());
        push_str(&mut s, name.as_str());
        push_str(&mut s, ",");
        let kind = csv_escape(source.kind.as_str());
        push_str(&mut s, kind.as_str());
        push_str(&mut s, ",");
        let unit = csv_escape(source.unit.as_str());
        push_str(&mut s, unit.as_str());
        push_str(&mut s, ",");
        push_bool(&mut s, source.available);
        i += 1;
        assert(s@ =~= spec_sources_csv(sources@.take(i as int)));
    }
    assert(sources@.take(i as int) =~= sources@);
    s
}

/// The header line of CSV samples.
pub open spec fn sample_csv_header() -> Seq<char> {
    "elapsed_s,source_id,source_name,energy_j,delta_j,power_w,interval_ns,counter_wrap"@
}

/// The header line of CSV samples.
pub fn format_sample_csv_header() -> (r: String)
    ensures
        r@ == sample_csv_header(),
{
    "elapsed_s,source_id,source_name,energy_j,delta_j,power_w,interval_ns,counter_wrap".to_string()
}

/// Unicode control characters (general category Cc), as
/// `char::is_control` decides them.
pub open spec fn is_control(c: char) -> bool {
    (c as u32) <= 0x1f || (0x7f <= (c as u32) && (c as u32) <= 0x9f)
}

/// The lower-case hexadecimal digit for `n < 16`.
pub open spec fn hex_digit(n: nat) -> char {
    if n < 10 {
        ((48 + n) as u8) as char
    } else {
        ((87 + n) as u8) as char
    }
}

/// `\u` and four lower-case hexadecimal digits of `n`.
pub open spec fn unicode_escape(n: nat) -> Seq<char> {
    "\\u"@ + seq![
        hex_digit((n / 4096) % 16),
        hex_digit((n / 256) % 16),
        hex_digit((n / 16) % 16),
        hex_digit(n % 16),
    ]
}

/// One character inside a JSON string.
pub open spec fn json_escape_char(c: char) -> Seq<char> {
    if c == '"' {
        "\\\""@
    } else if c == '\\' {
        "\\\\"@
    } else if c == '\n' {
        "\\n"@
    } else if c == '\r' {
        "\\r"@
    } else if c == '\t' {
        "\\t"@
    } else if is_control(c) {
        unicode_escape((c as u32) as nat)
    } else {
        seq![c]
    }
}

/// `v` as the inside of a JSON string.
pub open spec fn spec_json_escape(v: Seq<char>) -> Seq<char>
    decreases v.len(),
{
    if v.len() == 0 {
        Seq::empty()
    } else {
        spec_json_escape(v.drop_last()) + json_escape_char(v.last())
    }
}

/// Appends the lower-case hexadecimal digit for `n < 16`.
fn push_hex_digit(s: &mut String, n: u32)
    requires
        n < 16,
    ensures
        final(s)@ == old(s)@.push(hex_digit(n as nat)),
{
    if n < 10 {
        push_char(s, (48u8 + n as u8) as char);
    } else {
        push_char(s, (87u8 + n as u8) as char);
    }
}

/// Escapes `value` for a JSON string.
pub fn json_escape(value: &str) -> (r: String)
    ensures
        r@ == spec_json_escape(value@),
{
    let v = chars_of(value);
    let n = v.len();
    let mut s = String::new();
    let mut i: usize = 0;
    while i < n
        invariant
            i <= n,
            n == v@.len(),
            s@ == spec_json_escape(v@.take(i as int)),
        decreases n - i,
    {
        let c = v[i];
        let ghost prev = s@;
        assert(v@.take(i + 1).drop_last() =~= v@.take(i as int));
        assert(v@.take(i + 1).last() == c);
        assert(spec_json_escape(v@.take(i + 1)) == prev + json_escape_char(c));
        if c == '"' {
            push_str(&mut s, "\\\"");
        } else if c == '\\' {
            push_str(&mut s, "\\\\");
        } else if c == '\n' {
            push_str(&mut s, "\\n");
        } else if c == '\r' {
            push_str(&mut s, "\\r");
        } else if c == '\t' {
            push_str(&mut s, "\\t");
        } else if (c as u32) <= 0x1f || (0x7f <= (c as u32) && (c as u32) <= 0x9f) {
            let code = c as u32;
            assert(is_control(c));
            push_str(&mut s, "\\u");
            push_hex_digit(&mut s, (code / 4096) % 16);
            push_hex_digit(&mut s, (code / 256) % 16);
            push_hex_digit(&mut s, (code / 16) % 16);
            push_hex_digit(&mut s, code % 16);
        } else {
            assert(!is_control(c));
            push_char(&mut s, c);
        }
        assert(s@ =~= prev + json_escape_char(c));
        i += 1;
        assert(s@ =~= spec_json_escape(v@.take(i as int)));
    }
    assert(v@.take(n as int) =~= v@);
    s
}

/// One source as an indented JSON object.
pub open spec fn source_json_object(s: Source) -> Seq<char> {
    "  {\n    \"id\": "@ + decimal(s.source_id as nat) + ",\n    \"name\": \""@ + spec_json_escape(
        s.name@,
    ) + "\",\n    \"kind\": \""@ + spec_json_escape(s.kind@) + "\",\n    \"unit\": \""@
        + spec_json_escape(s.unit@) + "\",\n    \"available\": "@ + bool_text(s.available)
        + "\n  }"@
}

/// The sources as a JSON array, one object after another.
pub open spec fn spec_sources_json(sources: Seq<Source>) -> Seq<char> {
    "[\n"@ + joined(sources.map_values(|s: Source| source_json_object(s)), ",\n"@) + "\n]"@
}

proof fn lemma_joined_push(parts: Seq<Seq<char>>, sep: Seq<char>, p: Seq<char>)
    ensures
        joined(parts.push(p), sep) == if parts.len() == 0 {
            p
        } else {
            joined(parts, sep) + sep + p
        },
{
    assert(parts.push(p).drop_last() =~= parts);
    if parts.len() == 0 {
        assert(parts.push(p)[0] == p);
    }
}

/// Appends one source as an indented JSON object.
fn push_source_json_object(s: &mut String, source: &Source)
    ensures
        final(s)@ == old(s)@ + source_json_object(*source),
{
    let ghost start = s@;
    push_str(s, "  {\n    \"id\": ");
    push_decimal(s, source.source_id as u64);
    push_str(s, ",\n    \"name\": \"");
    let name = json_escape(source.name.as_str());
    push_str(s, name.as_str());
    push_str(s, "\",\n    \"kind\": \"");
    let kind = json_escape(source.kind.as_str());
    push_str(s, kind.as_str());
    push_str(s, "\",\n    \"unit\": \"");
    let unit = json_escape(source.unit.as_str());
    push_str(s, unit.as_str());
    push_str(s, "\",\n    \"available\": ");
    push_bool(s, source.available);
    push_str(s, "\n  }");
    assert(s@ =~= start + source_json_object(*source));
}

/// Renders the sources as a JSON array.
pub fn format_sources_json(sources: &[Source]) -> (r: String)
    ensures
        r@ == spec_sources_json(sources@),
{
    let ghost objects = sources@.map_values(|s: Source| source_json_object(s));
    let mut body = String::new();
    let mut i: usize = 0;
    while i < sources.len()
        invariant
            i <= sources@.len(),
            objects == sources@.map_values(|s: Source| source_json_object(s)),
            body@ == joined(objects.take(i as int), ",\n"@),
        decreases sources@.len() - i,
    {
        let source = &sources[i];
        if i > 0 {
            push_str(&mut body, ",\n");
        }
        push_source_json_object(&mut body, source);
        proof {
            assert(objects.take(i + 1) =~= objects.take(i as int).push(objects[i as int]));
            lemma_joined_push(objects.take(i as int), ",\n"@, objects[i as int]);
        }
        i += 1;
        assert(body@ =~= joined(objects.take(i as int), ",\n"@));
    }
    assert(objects.take(i as int) =~= objects);
    let mut s = "[\n".to_string();
    push_str(&mut s, body.as_str());
    push_str(&mut s, "\n]");
    s
}

/// The byte length `str::len` reports for text `v`.
pub open spec fn byte_len(v: Seq<char>) -> nat {
    (vstd::utf8::encode_utf8(v).len() as usize) as nat
}

/// The widest byte length of column `j` over `rows`.
pub open spec fn col_width(rows: Seq<Seq<Seq<char>>>, j: int) -> nat
    decreases rows.len(),
{
    if rows.len() == 0 {
        0
    } else {
        let w = col_width(rows.drop_last(), j);
        let r = rows.last();
        if 0 <= j < r.len() && byte_len(r[j]) > w {
            byte_len(r[j])
        } else {
            w
        }
    }
}

/// `n` spaces.
pub open spec fn spaces(n: nat) -> Seq<char> {
    Seq::new(n, |_i: int| ' ')
}

/// A cell left-aligned in `width` characters, unless it ends its row.
pub open spec fn render_cell(v: Seq<char>, width: nat, ends_row: bool) -> Seq<char> {
    if ends_row || v.len() >= width {
        v
    } else {
        v + spaces((width - v.len()) as nat)
    }
}

/// The cells of row `r` of table `rows`, aligned.
pub open spec fn render_cells(rows: Seq<Seq<Seq<char>>>, r: Seq<Seq<char>>) -> Seq<Seq<char>> {
    Seq::new(r.len(), |j: int| render_cell(r[j], col_width(rows, j), j + 1 == r.len()))
}

/// A table: each column as wide as its widest cell (in bytes), cells two
/// spaces apart, the last cell of each row unpadded, rows on their own
/// lines.
pub open spec fn spec_render_rows(rows: Seq<Seq<Seq<char>>>) -> Seq<char> {
    joined(rows.map_values(|r: Seq<Seq<char>>| joined(render_cells(rows, r), "  "@)), "\n"@)
}

/// The text of table cells.
pub open spec fn rows_view(rows: Seq<Vec<String>>) -> Seq<Seq<Seq<char>>> {
    rows.map_values(|r: Vec<String>| r@.map_values(|s: String| s@))
}

/// Appends `n` spaces.
fn push_spaces(s: &mut String, n: usize)
    ensures
        final(s)@ == old(s)@ + spaces(n as nat),
{
    let ghost start = s@;
    let mut k: usize = 0;
    while k < n
        invariant
            k <= n,
            s@ == start + spaces(k as nat),
        decreases n - k,
    {
        push_char(s, ' ');
        k += 1;
        assert(s@ =~= start + spaces(k as nat));
    }
}

/// Renders rows of cells as an aligned table.
pub fn render_rows(rows: &[Vec<String>]) -> (r: String)
    ensures
        r@ == spec_render_rows(rows_view(rows@)),
{
    let ghost view = rows_view(rows@);
    if rows.len() == 0 {
        return String::new();
    }
    let mut column_count: usize = 0;
    let mut i: usize = 0;
    while i < rows.len()
        invariant
            i <= rows@.len(),
            forall|k: int| 0 <= k < i ==> rows@[k]@.len() <= column_count,
        decreases rows@.len() - i,
    {
        if rows[i].len() > column_count {
            column_count = rows[i].len();
        }
        i += 1;
    }
    let mut widths: Vec<usize> = Vec::new();
    let mut j: usize = 0;
    while j < column_count
        invariant
            j <= column_count,
            widths@.len() == j,
            forall|k: int| 0 <= k < j ==> widths@[k] == 0,
        decreases column_count - j,
    {
        widths.push(0);
        j += 1;
    }
    let mut i: usize = 0;
    while i < rows.len()
        invariant
            i <= rows@.len(),
            view == rows_view(rows@),
            widths@.len() == column_count,
            forall|k: int| 0 <= k < rows@.len() ==> rows@[k]@.len() <= column_count,
            forall|c: int| 0 <= c < column_count ==> widths@[c] == col_width(view.take(i as int), c),
        decreases rows@.len() - i,
    {
        let row = &rows[i];
        let ghost done = view.take(i as int);
        assert(view.take(i + 1).drop_last() =~= done);
        assert(view.take(i + 1).last() == view[i as int]);
        assert(view[i as int] == row@.map_values(|s: String| s@));
        let mut k: usize = 0;
        while k < row.len()
            invariant
                k <= row@.len(),
                row@.len() <= column_count,
                widths@.len() == column_count,
                view == rows_view(rows@),
                i < rows@.len(),
                *row == rows@[i as int],
                view[i as int] == row@.map_values(|s: String| s@),
                done == view.take(i as int),
                view.take(i + 1).drop_last() == done,
                view.take(i + 1).last() == view[i as int],
                forall|c: int|
                    0 <= c < column_count ==> widths@[c] == if c < k {
                        col_width(view.take(i + 1), c)
                    } else {
                        col_width(done, c)
                    },
            decreases row@.len() - k,
        {
            let len = row[k].as_str().len();
            assert(view[i as int][k as int] == row@[k as int]@);
            assert(len as nat == byte_len(view[i as int][k as int]));
            if len > widths[k] {
                widths.set(k, len);
            }
            k += 1;
        }
        i += 1;
    }
    assert(view.take(rows@.len() as int) =~= view);
    let mut s = String::new();
    let mut i: usize = 0;
    let ghost lines = view.map_values(|r: Seq<Seq<char>>| joined(render_cells(view, r), "  "@));
    while i < rows.len()
        invariant
            i <= rows@.len(),
            view == rows_view(rows@),
            widths@.len() == column_count,
            forall|k: int| 0 <= k < rows@.len() ==> rows@[k]@.len() <= column_count,
            forall|c: int| 0 <= c < column_count ==> widths@[c] == col_width(view, c),
            lines == view.map_values(|r: Seq<Seq<char>>| joined(render_cells(view, r), "  "@)),
            s@ == joined(lines.take(i as int), "\n"@),
        decreases rows@.len() - i,
    {
        let row = &rows[i];
        let ghost cells = render_cells(view, view[i as int]);
        assert(view[i as int] == row@.map_values(|s: String| s@));
        let mut line = String::new();
        let mut k: usize = 0;
        while k < row.len()
            invariant
                k <= row@.len(),
                row@.len() <= column_count,
                widths@.len() == column_count,
                *row == rows@[i as int],
                view[i as int] == row@.map_values(|s: String| s@),
                cells == render_cells(view, view[i as int]),
                forall|c: int| 0 <= c < column_count ==> widths@[c] == col_width(view, c),
                line@ == joined(cells.take(k as int), "  "@),
            decreases row@.len() - k,
        {
            let value = &row[k];
            let ghost before = line@;
            if k > 0 {
                push_str(&mut line, "  ");
            }
            push_str(&mut line, value.as_str());
            if k + 1 != row.len() {
                let count = chars_of(value.as_str()).len();
                if count < widths[k] {
                    push_spaces(&mut line, widths[k] - count);
                }
            }
            proof {
                assert(cells[k as int] == render_cell(
                    value@,
                    col_width(view, k as int),
                    k + 1 == row@.len(),
                ));
                assert(cells.take(k + 1) =~= cells.take(k as int).push(cells[k as int]));
                lemma_joined_push(cells.take(k as int), "  "@, cells[k as int]);
            }
            k += 1;
            assert(line@ =~= joined(cells.take(k as int), "  "@));
        }
        assert(cells.take(k as int) =~= cells);
        if i > 0 {
            push_str(&mut s, "\n");
        }
        push_str(&mut s, line.as_str());
        proof {
            assert(lines[i as int] == joined(cells, "  "@));
            assert(lines.take(i + 1) =~= lines.take(i as int).push(lines[i as int]));
            lemma_joined_push(lines.take(i as int), "\n"@, lines[i as int]);
        }
        i += 1;
        assert(s@ =~= joined(lines.take(i as int), "\n"@));
    }
    assert(lines.take(i as int) =~= lines);
    s
}

} // verus!

verus! {

/// `yes` or `no`.
pub open spec fn yes_no(b: bool) -> Seq<char> {
    if b {
        "yes"@
    } else {
        "no"@
    }
}

/// The source table's cells: a header row, then one row per source.
pub open spec fn sources_table_rows(sources: Seq<Source>) -> Seq<Seq<Seq<char>>> {
    seq![seq!["ID"@, "NAME"@, "KIND"@, "UNIT"@, "AVAILABLE"@]] + sources.map_values(
        |s: Source| seq![decimal(s.source_id as nat), s.name@, s.kind@, s.unit@, yes_no(s.available)],
    )
}

/// A row of five cells.
fn row_of_five(a: String, b: String, c: String, d: String, e: String) -> (r: Vec<String>)
    ensures
        r@.map_values(|s: String| s@) == seq![a@, b@, c@, d@, e@],
{
    let mut row: Vec<String> = Vec::new();
    row.push(a);
    row.push(b);
    row.push(c);
    row.push(d);
    row.push(e);
    assert(row@.map_values(|s: String| s@) =~= seq![a@, b@, c@, d@, e@]);
    row
}

/// Renders the sources as an aligned table.
pub fn format_sources_table(sources: &[Source]) -> (r: String)
    ensures
        r@ == spec_render_rows(sources_table_rows(sources@)),
{
    let mut rows: Vec<Vec<String>> = Vec::new();
    rows.push(
        row_of_five(
            "ID".to_string(),
            "NAME".to_string(),
            "KIND".to_string(),
            "UNIT".to_string(),
            "AVAILABLE".to_string(),
        ),
    );
    let ghost table = sources_table_rows(sources@);
    assert(rows_view(rows@) =~= table.take(1));
    let mut i: usize = 0;
    while i < sources.len()
        invariant
            i <= sources@.len(),
            table == sources_table_rows(sources@),
            rows_view(rows@) == table.take(i + 1),
        decreases sources@.len() - i,
    {
        let source = &sources[i];
        let mut id = String::new();
        push_decimal(&mut id, source.source_id as u64);
        let available = if source.available {
            "yes".to_string()
        } else {
            "no".to_string()
        };
        let row = row_of_five(
            id,
            source.name.clone(),
            source.kind.clone(),
            source.unit.clone(),
            available,
        );
        let ghost before = rows@;
        let ghost row_cells = row@.map_values(|s: String| s@);
        rows.push(row);
        assert(rows_view(rows@) =~= rows_view(before).push(row_cells));
        assert(table.take(i + 2) =~= table.take(i + 1).push(table[i + 1]));
        assert(table[i + 1] == seq![
            decimal(source.source_id as nat),
            source.name@,
            source.kind@,
            source.unit@,
            yes_no(source.available),
        ]);
        assert(rows_view(rows@) =~= table.take(i + 2));
        i += 1;
    }
    assert(table.take(i + 1) =~= table);
    render_rows(rows.as_slice())
}

/// The header of the sample table.
pub open spec fn sample_table_header_rows() -> Seq<Seq<Seq<char>>> {
    seq![seq!["TIME"@, "SOURCE"@, "ENERGY_J"@, "DELTA_J"@, "POWER_W"@]]
}

/// Renders the header line of the sample table.
pub fn format_sample_table_header() -> (r: String)
    ensures
        r@ == spec_render_rows(sample_table_header_rows()),
{
    let mut rows: Vec<Vec<String>> = Vec::new();
    rows.push(
        row_of_five(
            "TIME".to_string(),
            "SOURCE".to_string(),
            "ENERGY_J".to_string(),
            "DELTA_J".to_string(),
            "POWER_W".to_string(),
        ),
    );
    assert(rows_view(rows@) =~= sample_table_header_rows());
    render_rows(rows.as_slice())
}

/// The line a sample stream starts with in `format`, if any: the column
/// header of the CSV and table formats.
pub fn stream_header(format: StreamFormat) -> (r: Option<String>)
    ensures
        format == StreamFormat::Csv ==> (r matches Some(h) && h@ == sample_csv_header()),
        format == StreamFormat::Table ==> (r matches Some(h) && h@ == spec_render_rows(
            sample_table_header_rows(),
        )),
        format == StreamFormat::Line || format == StreamFormat::Jsonl ==> r is None,
{
    match format {
        StreamFormat::Csv => Some(format_sample_csv_header()),
        StreamFormat::Table => Some(format_sample_table_header()),
        StreamFormat::Line | StreamFormat::Jsonl => None,
    }
}

} // verus!

verus! {

proof fn lemma_escape_char_printable(c: char)
    ensures
        forall|i: int|
            0 <= i < json_escape_char(c).len() ==> !is_control(#[trigger] json_escape_char(c)[i]),
{
    reveal_strlit("\\\"");
    reveal_strlit("\\\\");
    reveal_strlit("\\n");
    reveal_strlit("\\r");
    reveal_strlit("\\t");
    reveal_strlit("\\u");
    let e = json_escape_char(c);
    if c != '"' && c != '\\' && c != '\n' && c != '\r' && c != '\t' && is_control(c) {
        let n = (c as u32) as nat;
        assert forall|i: int| 0 <= i < e.len() implies !is_control(#[trigger] e[i]) by {
            if i >= 2 {
                let d = if i == 2 {
                    (n / 4096) % 16
                } else if i == 3 {
                    (n / 256) % 16
                } else if i == 4 {
                    (n / 16) % 16
                } else {
                    n % 16
                };
                assert(e[i] == hex_digit(d));
            }
        }
    }
}

/// JSON-escaped text holds no control character.
pub proof fn lemma_json_escape_has_no_controls(v: Seq<char>)
    ensures
        forall|i: int|
            0 <= i < spec_json_escape(v).len() ==> !is_control(#[trigger] spec_json_escape(v)[i]),
    decreases v.len(),
{
    if v.len() > 0 {
        lemma_json_escape_has_no_controls(v.drop_last());
        lemma_escape_char_printable(v.last());
        let a = spec_json_escape(v.drop_last());
        let b = json_escape_char(v.last());
        assert forall|i: int| 0 <= i < spec_json_escape(v).len() implies !is_control(
            #[trigger] spec_json_escape(v)[i],
        ) by {
            if i < a.len() {
                assert(spec_json_escape(v)[i] == a[i]);
            } else {
                assert(spec_json_escape(v)[i] == b[i - a.len()]);
            }
        }
    }
}

} // verus!

verus! {

/// Doubling quotes never shortens a text.
proof fn lemma_double_quotes_len(v: Seq<char>)
    ensures
        double_quotes(v).len() >= v.len(),
    decreases v.len(),
{
    if v.len() > 0 {
        reveal_strlit("\"\"");
        lemma_double_quotes_len(v.drop_last());
    }
}

/// A CSV field holding a comma, a double quote or a line break is written
/// inside double quotes, so it stays one field: it starts and ends with
/// `"` and is at least two characters longer than the field.
pub proof fn lemma_csv_quotes_special_fields(v: Seq<char>, i: int)
    requires
        0 <= i < v.len(),
        v[i] == ',' || v[i] == '"' || v[i] == '\n' || v[i] == '\r',
    ensures
        spec_csv_escape(v).len() >= v.len() + 2,
        spec_csv_escape(v)[0] == '"',
        spec_csv_escape(v)[spec_csv_escape(v).len() - 1] == '"',
{
    assert(csv_special(v[i]));
    assert(needs_csv_quotes(v));
    lemma_double_quotes_len(v);
    let q = double_quotes(v);
    let e = spec_csv_escape(v);
    reveal_strlit("\"");
    assert(e == "\""@ + q + "\""@);
    assert(e[0] == '"');
    assert(e[e.len() - 1] == '"');
}

/// Doubling quotes adds one character per double quote and changes
/// nothing in a text without double quotes.
pub proof fn lemma_double_quotes_doubles_each_quote(v: Seq<char>)
    ensures
        double_quotes(v).len() == v.len() + v.filter(|c: char| c == '"').len(),
        v.filter(|c: char| c == '"').len() == 0 ==> double_quotes(v) == v,
    decreases v.len(),
{
    let pred = |c: char| c == '"';
    reveal_with_fuel(Seq::filter, 1);
    if v.len() == 0 {
        assert(v.filter(pred) =~= Seq::<char>::empty());
    } else {
        reveal_strlit("\"\"");
        let init = v.drop_last();
        lemma_double_quotes_doubles_each_quote(init);
        assert(v.filter(pred) == if pred(v.last()) {
            init.filter(pred).push(v.last())
        } else {
            init.filter(pred)
        });
        if v.filter(pred).len() == 0 && !pred(v.last()) {
            assert(double_quotes(v) =~= init.push(v.last()));
            assert(init.push(v.last()) =~= v);
        }
    }
}

/// A field with a comma or a line break but no double quote is written
/// as itself between two double quotes.
pub proof fn lemma_csv_quotes_without_doubling(v: Seq<char>, i: int)
    requires
        0 <= i < v.len(),
        v[i] == ',' || v[i] == '\n' || v[i] == '\r',
        forall|k: int| 0 <= k < v.len() ==> #[trigger] v[k] != '"',
    ensures
        spec_csv_escape(v) == seq!['"'] + v + seq!['"'],
{
    assert(csv_special(v[i]));
    assert(v.filter(|c: char| c == '"') =~= Seq::<char>::empty()) by {
        lemma_filter_none(v);
    }
    lemma_double_quotes_doubles_each_quote(v);
    reveal_strlit("\"");
    assert("\""@ =~= seq!['"']);
}

proof fn lemma_filter_none(v: Seq<char>)
    requires
        forall|k: int| 0 <= k < v.len() ==> #[trigger] v[k] != '"',
    ensures
        v.filter(|c: char| c == '"') =~= Seq::<char>::empty(),
    decreases v.len(),
{
    reveal_with_fuel(Seq::filter, 1);
    if v.len() > 0 {
        let init = v.drop_last();
        assert forall|k: int| 0 <= k < init.len() implies #[trigger] init[k] != '"' by {
            assert(init[k] == v[k]);
        }
        lemma_filter_none(init);
        assert(v[v.len() - 1] != '"');
    }
}

/// A CSV field with no comma, double quote or line break is written as
/// it is.
pub proof fn lemma_csv_plain_field_unchanged(v: Seq<char>)
    requires
        forall|i: int|
            0 <= i < v.len() ==> #[trigger] v[i] != ',' && v[i] != '"' && v[i] != '\n' && v[i]
                != '\r',
    ensures
        spec_csv_escape(v) == v,
{
}

/// Every cell is at most as wide (in bytes) as its column.
proof fn lemma_col_width_bounds(rows: Seq<Seq<Seq<char>>>, j: int)
    ensures
        forall|i: int|
            0 <= i < rows.len() && 0 <= j < rows[i].len() ==> col_width(rows, j) >= byte_len(
                #[trigger] rows[i][j],
            ),
    decreases rows.len(),
{
    if rows.len() > 0 {
        let init = rows.drop_last();
        lemma_col_width_bounds(init, j);
        assert forall|i: int|
            0 <= i < rows.len() && 0 <= j < rows[i].len() implies col_width(rows, j) >= byte_len(
            #[trigger] rows[i][j],
        ) by {
            if i < rows.len() - 1 {
                assert(rows[i] == init[i]);
            }
        }
    }
}

/// In a rendered table, a cell that does not end its row is its text
/// followed only by spaces, and is at least as long as the byte length of
/// every cell of its column, in every row, the first (header) row
/// included; the cell that ends a row is its text, unpadded.
pub proof fn lemma_table_cells_fill_their_column(rows: Seq<Seq<Seq<char>>>, i: int, j: int)
    requires
        0 <= i < rows.len(),
        0 <= j < rows[i].len(),
    ensures
        j + 1 == rows[i].len() ==> render_cells(rows, rows[i])[j] == rows[i][j],
        j + 1 < rows[i].len() ==> {
            let cell = render_cells(rows, rows[i])[j];
            &&& cell.take(rows[i][j].len() as int) == rows[i][j]
            &&& forall|p: int| rows[i][j].len() <= p < cell.len() ==> #[trigger] cell[p] == ' '
            &&& forall|k: int|
                0 <= k < rows.len() && j < rows[k].len() ==> cell.len() >= byte_len(
                    #[trigger] rows[k][j],
                )
        },
{
    lemma_col_width_bounds(rows, j);
    let v = rows[i][j];
    let w = col_width(rows, j);
    let cell = render_cells(rows, rows[i])[j];
    assert(cell == render_cell(v, w, j + 1 == rows[i].len()));
    if j + 1 < rows[i].len() {
        if v.len() < w {
            assert(cell == v + spaces((w - v.len()) as nat));
            assert(cell.take(v.len() as int) =~= v);
        } else {
            assert(cell.take(v.len() as int) =~= v);
        }
    }
}

} // verus!
