//! The page that shows a sheet.
use vstd::prelude::*;

use crate::html::{escape, escape_html};
use crate::link::{
    cell_html, domain_column, lowered_is_domain, lowered_is_twitter, render_cell,
    twitter_column, twitter_columns_are_named_so, twitter_heading,
};
use crate::lowercase::{lowercase, to_lowercase};
use crate::numeral::{decimal, push_decimal};
use crate::sheet::{parse_sheet, parsed, rows_view, ParsedSheet, SheetModel};
use crate::text::{
    contains, ends_with, occurs_at, optional_text, starts_with, str_contains, texts,
    texts_contain_their_parts,
};

verus! {

/// The page up to the first table.
pub const PAGE_HEAD: &'static str =
    "<!doctype html><html><head><meta charset=\"utf-8\">\
     <meta name=\"viewport\" content=\"width=device-width, initial-scale=1\">\
     <title>Spreadsheet Viewer</title>\
     <style>\
     body{font-family:system-ui,-apple-system,Segoe UI,Roboto,sans-serif;margin:24px;line-height:1.4}\
     table{border-collapse:collapse;width:100%;font-size:14px}\
     th,td{border:1px solid #d0d7de;padding:8px;vertical-align:top;text-align:left}\
     th{background:#f6f8fa;position:sticky;top:0}\
     .rownum{background:#f6f8fa;width:64px;white-space:nowrap;font-variant-numeric:tabular-nums}\
     .wrap{overflow-x:auto}\
     .meta{margin:0 0 16px 0}\
     .field{color:#57606a;font-size:12px;margin-left:6px}\
     .cell-link{text-decoration:none;color:#0969da}\
     .actions{margin:0 0 16px 0}\
     button{padding:8px 12px;border:1px solid #d0d7de;background:#f6f8fa;border-radius:6px;cursor:pointer}\
     </style></head><body><h1>Spreadsheet Viewer</h1><div class=\"actions\"><form method=\"post\" action=\"/sync\"><button type=\"submit\">Sync snapshot to git</button></form></div><div class=\"wrap\"><table>";

/// The end of the page.
pub const PAGE_TAIL: &'static str = "</table></div></body></html>";

/// The name of the field that a column with the lower-case heading `lower` holds, if it is one
/// that is shown.
pub open spec fn field_name(lower: Seq<char>) -> Option<Seq<char>> {
    if twitter_column(lower) {
        Some("twitter"@)
    } else if domain_column(lower) {
        Some("domain"@)
    } else if contains(lower, "link"@) || contains(lower, "url"@) || contains(lower, "website"@) {
        Some("url"@)
    } else {
        None
    }
}

/// The name of the field under a heading that is given in lower case.
pub fn lowered_field(lower: &str) -> (r: Option<&'static str>)
    ensures
        optional_text(r) == field_name(lower@),
{
    if lowered_is_twitter(lower) {
        Some("twitter")
    } else if lowered_is_domain(lower) {
        Some("domain")
    } else if str_contains(lower, "link") || str_contains(lower, "url") || str_contains(
        lower,
        "website",
    ) {
        Some("url")
    } else {
        None
    }
}

/// The heading as it is shown, and the name of the field under it.
pub fn annotate_header(header: &str) -> (r: (String, Option<&'static str>))
    ensures
        r.0@ == header@,
        optional_text(r.1) == field_name(lowercase(header@)),
{
    let lower: String = to_lowercase(header);
    (header.to_owned(), lowered_field(lower.as_str()))
}

/// The cells of a metadata row.
pub open spec fn metadata_cells(row: Seq<Seq<char>>) -> Seq<char>
    decreases row.len(),
{
    if row.len() == 0 {
        Seq::empty()
    } else {
        metadata_cells(row.drop_last()) + "<td>"@ + escape(row.last()) + "</td>"@
    }
}

/// A metadata row.
pub open spec fn metadata_row(row: Seq<Seq<char>>) -> Seq<char> {
    "<tr>"@ + metadata_cells(row) + "</tr>"@
}

/// The metadata rows.
pub open spec fn metadata_html(rows: Seq<Seq<Seq<char>>>) -> Seq<char>
    decreases rows.len(),
{
    if rows.len() == 0 {
        Seq::empty()
    } else {
        metadata_html(rows.drop_last()) + metadata_row(rows.last())
    }
}

/// The table of the metadata; nothing if there are no such rows.
pub open spec fn metadata_section(rows: Seq<Seq<Seq<char>>>) -> Seq<char> {
    if rows.len() == 0 {
        Seq::empty()
    } else {
        "</table></div><div class=\"meta\"><table>"@ + metadata_html(rows)
            + "</table></div><div class=\"wrap\"><table>"@
    }
}

/// The name of the field under a heading, as it is shown.
pub open spec fn field_html(field: Option<Seq<char>>) -> Seq<char> {
    match field {
        Some(f) => "<span class=\"field\">"@ + escape(f) + "</span>"@,
        None => Seq::empty(),
    }
}

/// The headings.
pub open spec fn heading_cells(headers: Seq<Seq<char>>) -> Seq<char>
    decreases headers.len(),
{
    if headers.len() == 0 {
        Seq::empty()
    } else {
        heading_cells(headers.drop_last()) + "<th>"@ + escape(headers.last()) + field_html(
            field_name(lowercase(headers.last())),
        ) + "</th>"@
    }
}

/// The row of headings; nothing if there are none.
pub open spec fn heading_section(headers: Seq<Seq<char>>) -> Seq<char> {
    if headers.len() == 0 {
        Seq::empty()
    } else {
        "<tr><th class=\"rownum\">#</th>"@ + heading_cells(headers) + "</tr>"@
    }
}

/// The heading of column `i`, if it has one.
pub open spec fn heading_of(headers: Seq<Seq<char>>, i: int) -> Option<Seq<char>> {
    if 0 <= i < headers.len() {
        Some(headers[i])
    } else {
        None
    }
}

/// The cells of a data row, each under its heading.
pub open spec fn data_cells(row: Seq<Seq<char>>, headers: Seq<Seq<char>>) -> Seq<char>
    decreases row.len(),
{
    if row.len() == 0 {
        Seq::empty()
    } else {
        data_cells(row.drop_last(), headers) + "<td>"@ + cell_html(
            row.last(),
            twitter_heading(heading_of(headers, row.len() - 1)),
        ) + "</td>"@
    }
}

/// A data row under its number.
pub open spec fn data_row(row: Seq<Seq<char>>, number: nat, headers: Seq<Seq<char>>) -> Seq<char> {
    "<tr><th class=\"rownum\">"@ + decimal(number) + "</th>"@ + data_cells(row, headers) + "</tr>"@
}

/// The data rows, numbered from one.
pub open spec fn data_html(rows: Seq<Seq<Seq<char>>>, headers: Seq<Seq<char>>) -> Seq<char>
    decreases rows.len(),
{
    if rows.len() == 0 {
        Seq::empty()
    } else {
        data_html(rows.drop_last(), headers) + data_row(rows.last(), rows.len(), headers)
    }
}

/// The page that shows the sheet.
pub open spec fn sheet_page(sheet: SheetModel) -> Seq<char> {
    PAGE_HEAD@ + metadata_section(sheet.metadata_rows) + heading_section(sheet.headers) + data_html(
        sheet.data_rows,
        sheet.headers,
    ) + PAGE_TAIL@
}

/// The cells of a metadata row.
fn render_metadata_cells(row: &Vec<String>) -> (r: String)
    ensures
        r@ == metadata_cells(texts(row@)),
{
    let mut out: String = String::new();
    let mut i: usize = 0;
    while i < row.len()
        invariant
            i <= row@.len(),
            out@ == metadata_cells(texts(row@).take(i as int)),
        decreases row@.len() - i,
    {
        out.append("<td>");
        out.append(escape_html(row[i].as_str()).as_str());
        out.append("</td>");
        proof {
            assert(texts(row@).take(i + 1).drop_last() =~= texts(row@).take(i as int));
        }
        i = i + 1;
    }
    proof {
        assert(texts(row@).take(i as int) =~= texts(row@));
    }
    out
}

/// The table of the metadata; nothing if there are no such rows.
fn render_metadata(rows: &Vec<Vec<String>>) -> (r: String)
    ensures
        r@ == metadata_section(rows_view(rows@)),
{
    if rows.len() == 0 {
        return String::new();
    }
    let mut body: String = String::new();
    let mut i: usize = 0;
    while i < rows.len()
        invariant
            i <= rows@.len(),
            body@ == metadata_html(rows_view(rows@).take(i as int)),
        decreases rows@.len() - i,
    {
        let ghost before = body@;
        body.append("<tr>");
        body.append(render_metadata_cells(&rows[i]).as_str());
        body.append("</tr>");
        proof {
            assert(body@ =~= before + metadata_row(texts(rows@[i as int]@)));
            assert(rows_view(rows@).take(i + 1).drop_last() =~= rows_view(rows@).take(i as int));
        }
        i = i + 1;
    }
    proof {
        assert(rows_view(rows@).take(i as int) =~= rows_view(rows@));
    }
    let mut out: String = "</table></div><div class=\"meta\"><table>".to_owned();
    out.append(body.as_str());
    out.append("</table></div><div class=\"wrap\"><table>");
    out
}

/// The row of headings; nothing if there are none.
fn render_headings(headers: &Vec<String>) -> (r: String)
    ensures
        r@ == heading_section(texts(headers@)),
{
    if headers.len() == 0 {
        return String::new();
    }
    let mut cells: String = String::new();
    let mut i: usize = 0;
    while i < headers.len()
        invariant
            i <= headers@.len(),
            cells@ == heading_cells(texts(headers@).take(i as int)),
        decreases headers@.len() - i,
    {
        let (label, field) = annotate_header(headers[i].as_str());
        cells.append("<th>");
        cells.append(escape_html(label.as_str()).as_str());
        let field_text: String = match field {
            Some(f) => {
                let mut text: String = "<span class=\"field\">".to_owned();
                text.append(escape_html(f).as_str());
                text.append("</span>");
                text
            },
            None => String::new(),
        };
        cells.append(field_text.as_str());
        cells.append("</th>");
        proof {
            assert(texts(headers@).take(i + 1).drop_last() =~= texts(headers@).take(
                i as int,
            ));
        }
        i = i + 1;
    }
    proof {
        assert(texts(headers@).take(i as int) =~= texts(headers@));
    }
    let mut out: String = "<tr><th class=\"rownum\">#</th>".to_owned();
    out.append(cells.as_str());
    out.append("</tr>");
    out
}

/// The cells of a data row, each under its heading.
fn render_data_cells(row: &Vec<String>, headers: &Vec<String>) -> (r: String)
    ensures
        r@ == data_cells(texts(row@), texts(headers@)),
{
    let mut out: String = String::new();
    let mut i: usize = 0;
    while i < row.len()
        invariant
            i <= row@.len(),
            out@ == data_cells(texts(row@).take(i as int), texts(headers@)),
        decreases row@.len() - i,
    {
        let header: Option<&str> = if i < headers.len() {
            Some(headers[i].as_str())
        } else {
            None
        };
        out.append("<td>");
        out.append(render_cell(row[i].as_str(), header).as_str());
        out.append("</td>");
        proof {
            assert(texts(row@).take(i + 1).drop_last() =~= texts(row@).take(i as int));
            assert(optional_text(header) == heading_of(texts(headers@), i as int));
        }
        i = i + 1;
    }
    proof {
        assert(texts(row@).take(i as int) =~= texts(row@));
    }
    out
}

/// The data rows, numbered from one.
fn render_data(rows: &Vec<Vec<String>>, headers: &Vec<String>) -> (r: String)
    ensures
        r@ == data_html(rows_view(rows@), texts(headers@)),
{
    let mut out: String = String::new();
    let mut i: usize = 0;
    while i < rows.len()
        invariant
            i <= rows@.len(),
            out@ == data_html(rows_view(rows@).take(i as int), texts(headers@)),
        decreases rows@.len() - i,
    {
        let ghost before = out@;
        out.append("<tr><th class=\"rownum\">");
        push_decimal(&mut out, i as u128 + 1);
        out.append("</th>");
        out.append(render_data_cells(&rows[i], headers).as_str());
        out.append("</tr>");
        proof {
            assert(out@ =~= before + data_row(
                texts(rows@[i as int]@),
                (i + 1) as nat,
                texts(headers@),
            ));
            assert(rows_view(rows@).take(i + 1).drop_last() =~= rows_view(rows@).take(i as int));
        }
        i = i + 1;
    }
    proof {
        assert(rows_view(rows@).take(i as int) =~= rows_view(rows@));
    }
    out
}

/// The page that shows a sheet which was taken apart.
pub fn render_parsed_sheet(sheet: &ParsedSheet) -> (r: String)
    ensures
        r@ == sheet_page(sheet@),
{
    let mut out: String = PAGE_HEAD.to_owned();
    out.append(render_metadata(&sheet.metadata_rows).as_str());
    out.append(render_headings(&sheet.headers).as_str());
    out.append(render_data(&sheet.data_rows, &sheet.headers).as_str());
    out.append(PAGE_TAIL);
    out
}

/// The page that shows the sheet of the given rows.
pub fn render_sheet_page(rows: &Vec<Vec<String>>) -> (r: String)
    ensures
        r@ == sheet_page(parsed(rows_view(rows@))),
{
    render_parsed_sheet(&parse_sheet(rows))
}

/// What stands in a part of a text stands in the text.
proof fn lemma_contains_in_sum(a: Seq<char>, b: Seq<char>, c: Seq<char>, p: Seq<char>)
    requires
        contains(b, p),
    ensures
        contains(a + b + c, p),
{
    let s = a + b + c;
    let i = choose|i: int| occurs_at(b, p, i);
    assert(s.subrange(a.len() + i, a.len() + i + p.len()) =~= b.subrange(i, i + p.len()));
    assert(occurs_at(s, p, a.len() + i));
}

/// A text stands in itself.
proof fn lemma_contains_itself(p: Seq<char>)
    ensures
        contains(p, p),
{
    assert(p.subrange(0, p.len() as int) =~= p);
    assert(occurs_at(p, p, 0));
}

/// A row stands among the metadata rows.
proof fn lemma_metadata_row_stands(rows: Seq<Seq<Seq<char>>>, i: int)
    requires
        0 <= i < rows.len(),
    ensures
        contains(metadata_html(rows), metadata_row(rows[i])),
    decreases rows.len(),
{
    let front = metadata_html(rows.drop_last());
    let last = metadata_row(rows.last());
    let none = Seq::<char>::empty();
    if i == rows.len() - 1 {
        lemma_contains_itself(last);
        lemma_contains_in_sum(front, last, none, last);
        assert(front + last + none =~= front + last);
    } else {
        lemma_metadata_row_stands(rows.drop_last(), i);
        lemma_contains_in_sum(none, front, last, metadata_row(rows[i]));
        assert(none + front + last =~= front + last);
    }
}

/// A row stands among the data rows, under its number.
proof fn lemma_data_row_stands(rows: Seq<Seq<Seq<char>>>, headers: Seq<Seq<char>>, i: int)
    requires
        0 <= i < rows.len(),
    ensures
        contains(data_html(rows, headers), data_row(rows[i], (i + 1) as nat, headers)),
    decreases rows.len(),
{
    let front = data_html(rows.drop_last(), headers);
    let last = data_row(rows.last(), rows.len(), headers);
    let none = Seq::<char>::empty();
    if i == rows.len() - 1 {
        lemma_contains_itself(last);
        lemma_contains_in_sum(front, last, none, last);
        assert(front + last + none =~= front + last);
    } else {
        lemma_data_row_stands(rows.drop_last(), headers, i);
        lemma_contains_in_sum(none, front, last, data_row(rows[i], (i + 1) as nat, headers));
        assert(none + front + last =~= front + last);
    }
}

/// Each metadata row is shown.
pub proof fn every_metadata_row_is_shown(sheet: SheetModel, i: int)
    requires
        0 <= i < sheet.metadata_rows.len(),
    ensures
        contains(sheet_page(sheet), metadata_row(sheet.metadata_rows[i])),
{
    let rows = sheet.metadata_rows;
    let p = metadata_row(rows[i]);
    let open = "</table></div><div class=\"meta\"><table>"@;
    let close = "</table></div><div class=\"wrap\"><table>"@;
    let headings = heading_section(sheet.headers);
    let data = data_html(sheet.data_rows, sheet.headers);
    lemma_metadata_row_stands(rows, i);
    lemma_contains_in_sum(open, metadata_html(rows), close, p);
    lemma_contains_in_sum(PAGE_HEAD@, metadata_section(rows), headings + data + PAGE_TAIL@, p);
    assert(sheet_page(sheet) =~= PAGE_HEAD@ + metadata_section(rows) + (headings + data
        + PAGE_TAIL@));
}

/// The headings are shown, if there are any.
pub proof fn headings_are_shown(sheet: SheetModel)
    ensures
        contains(sheet_page(sheet), heading_section(sheet.headers)),
{
    let p = heading_section(sheet.headers);
    let data = data_html(sheet.data_rows, sheet.headers);
    let before = PAGE_HEAD@ + metadata_section(sheet.metadata_rows);
    lemma_contains_itself(p);
    lemma_contains_in_sum(before, p, data + PAGE_TAIL@, p);
    assert(sheet_page(sheet) =~= before + p + (data + PAGE_TAIL@));
}

/// Each data row is shown under its number, which counts from one.
pub proof fn every_data_row_is_shown_under_its_number(sheet: SheetModel, i: int)
    requires
        0 <= i < sheet.data_rows.len(),
    ensures
        contains(
            sheet_page(sheet),
            data_row(sheet.data_rows[i], (i + 1) as nat, sheet.headers),
        ),
{
    let p = data_row(sheet.data_rows[i], (i + 1) as nat, sheet.headers);
    let data = data_html(sheet.data_rows, sheet.headers);
    let before = PAGE_HEAD@ + metadata_section(sheet.metadata_rows) + heading_section(
        sheet.headers,
    );
    lemma_data_row_stands(sheet.data_rows, sheet.headers, i);
    lemma_contains_in_sum(before, data, PAGE_TAIL@, p);
}

/// Which name is shown beside a heading: that of handles first, then that of domains, then that
/// of addresses; none beside any other.
pub proof fn headings_are_named_by_their_words(lower: Seq<char>)
    ensures
        contains(lower, "twitter"@) || lower == "x"@ ==> field_name(lower) == Some("twitter"@),
        !contains(lower, "twitter"@) && lower != "x"@ && contains(lower, "domain"@) ==> field_name(
            lower,
        ) == Some("domain"@),
        !contains(lower, "twitter"@) && lower != "x"@ && !contains(lower, "domain"@) && (contains(
            lower,
            "link"@,
        ) || contains(lower, "url"@) || contains(lower, "website"@)) ==> field_name(lower) == Some(
            "url"@,
        ),
        !contains(lower, "twitter"@) && lower != "x"@ && !contains(lower, "domain"@) && !contains(
            lower,
            "link"@,
        ) && !contains(lower, "url"@) && !contains(lower, "website"@) ==> field_name(lower) is None,
{
    twitter_columns_are_named_so(lower);
}

/// Behind the others, one more text.
proof fn lemma_flatten_last(parts: Seq<Seq<char>>)
    requires
        parts.len() > 0,
    ensures
        parts.flatten() == parts.drop_last().flatten() + parts.last(),
{
    parts.lemma_flatten_and_flatten_alt_are_equivalent();
    parts.drop_last().lemma_flatten_and_flatten_alt_are_equivalent();
}

/// A data row is shown as one cell of the table for each of its own, in order and under its
/// heading, whether or not it holds anything.
pub proof fn data_rows_have_a_cell_for_each_column(
    row: Seq<Seq<char>>,
    headers: Seq<Seq<char>>,
    parts: Seq<Seq<char>>,
)
    requires
        parts.len() == row.len(),
        forall|i: int|
            0 <= i < row.len() ==> #[trigger] parts[i] == "<td>"@ + cell_html(
                row[i],
                twitter_heading(
                    if i < headers.len() {
                        Some(headers[i])
                    } else {
                        None
                    },
                ),
            ) + "</td>"@,
    ensures
        data_cells(row, headers) == parts.flatten(),
    decreases row.len(),
{
    if row.len() > 0 {
        let front = parts.drop_last();
        assert forall|i: int| 0 <= i < row.drop_last().len() implies #[trigger] front[i] == "<td>"@
            + cell_html(
            row.drop_last()[i],
            twitter_heading(
                if i < headers.len() {
                    Some(headers[i])
                } else {
                    None
                },
            ),
        ) + "</td>"@ by {
            assert(front[i] == parts[i]);
        }
        data_rows_have_a_cell_for_each_column(row.drop_last(), headers, front);
        lemma_flatten_last(parts);
        assert(parts[row.len() - 1] == parts.last());
        assert(data_cells(row, headers) =~= data_cells(row.drop_last(), headers) + parts.last());
    }
}

/// One more cell in a data row is one more in the table, under its heading, the empty cell too.
pub proof fn one_more_cell_is_shown(
    row: Seq<Seq<char>>,
    cell: Seq<char>,
    headers: Seq<Seq<char>>,
)
    ensures
        data_cells(row.push(cell), headers) == data_cells(row, headers) + "<td>"@ + cell_html(
            cell,
            twitter_heading(
                if row.len() < headers.len() {
                    Some(headers[row.len() as int])
                } else {
                    None
                },
            ),
        ) + "</td>"@,
        data_cells(Seq::empty(), headers) == Seq::<char>::empty(),
        metadata_cells(row.push(cell)) == metadata_cells(row) + "<td>"@ + escape(cell) + "</td>"@,
        metadata_cells(Seq::empty()) == Seq::<char>::empty(),
{
    assert(row.push(cell).drop_last() =~= row);
}

/// A metadata row is shown as one cell of the table for each of its own, in order.
pub proof fn metadata_rows_have_a_cell_for_each_column(
    row: Seq<Seq<char>>,
    parts: Seq<Seq<char>>,
)
    requires
        parts.len() == row.len(),
        forall|i: int|
            0 <= i < row.len() ==> #[trigger] parts[i] == "<td>"@ + escape(row[i]) + "</td>"@,
    ensures
        metadata_cells(row) == parts.flatten(),
    decreases row.len(),
{
    if row.len() > 0 {
        let front = parts.drop_last();
        assert forall|i: int| 0 <= i < row.drop_last().len() implies #[trigger] front[i] == "<td>"@
            + escape(row.drop_last()[i]) + "</td>"@ by {
            assert(front[i] == parts[i]);
        }
        metadata_rows_have_a_cell_for_each_column(row.drop_last(), front);
        lemma_flatten_last(parts);
        assert(parts[row.len() - 1] == parts.last());
        assert(metadata_cells(row) =~= metadata_cells(row.drop_last()) + parts.last());
    }
}

/// How a heading is shown: its text, and the name beside it if there is one.
pub open spec fn heading_cell(header: Seq<char>) -> Seq<char> {
    "<th>"@ + escape(header) + match field_name(lowercase(header)) {
        Some(name) => "<span class=\"field\">"@ + escape(name) + "</span>"@,
        None => Seq::empty(),
    } + "</th>"@
}

proof fn lemma_heading_cells(headers: Seq<Seq<char>>, parts: Seq<Seq<char>>)
    requires
        parts.len() == headers.len(),
        forall|i: int| 0 <= i < headers.len() ==> #[trigger] parts[i] == heading_cell(headers[i]),
    ensures
        heading_cells(headers) == parts.flatten(),
    decreases headers.len(),
{
    if headers.len() > 0 {
        let front = parts.drop_last();
        assert forall|i: int| 0 <= i < headers.drop_last().len() implies #[trigger] front[i]
            == heading_cell(headers.drop_last()[i]) by {
            assert(front[i] == parts[i]);
        }
        lemma_heading_cells(headers.drop_last(), front);
        lemma_flatten_last(parts);
        assert(parts[headers.len() - 1] == parts.last());
        assert(heading_cells(headers) =~= heading_cells(headers.drop_last()) + parts.last());
    }
}

proof fn lemma_metadata_html(rows: Seq<Seq<Seq<char>>>, parts: Seq<Seq<char>>)
    requires
        parts.len() == rows.len(),
        forall|i: int|
            0 <= i < rows.len() ==> #[trigger] parts[i] == "<tr>"@ + metadata_cells(rows[i])
                + "</tr>"@,
    ensures
        metadata_html(rows) == parts.flatten(),
    decreases rows.len(),
{
    if rows.len() > 0 {
        let front = parts.drop_last();
        assert forall|i: int| 0 <= i < rows.drop_last().len() implies #[trigger] front[i] == "<tr>"@
            + metadata_cells(rows.drop_last()[i]) + "</tr>"@ by {
            assert(front[i] == parts[i]);
        }
        lemma_metadata_html(rows.drop_last(), front);
        lemma_flatten_last(parts);
        assert(parts[rows.len() - 1] == parts.last());
    }
}

proof fn lemma_data_html(
    rows: Seq<Seq<Seq<char>>>,
    headers: Seq<Seq<char>>,
    parts: Seq<Seq<char>>,
)
    requires
        parts.len() == rows.len(),
        forall|i: int|
            0 <= i < rows.len() ==> #[trigger] parts[i] == "<tr><th class=\"rownum\">"@ + decimal(
                (i + 1) as nat,
            ) + "</th>"@ + data_cells(rows[i], headers) + "</tr>"@,
    ensures
        data_html(rows, headers) == parts.flatten(),
    decreases rows.len(),
{
    if rows.len() > 0 {
        let front = parts.drop_last();
        assert forall|i: int| 0 <= i < rows.drop_last().len() implies #[trigger] front[i]
            == "<tr><th class=\"rownum\">"@ + decimal((i + 1) as nat) + "</th>"@ + data_cells(
            rows.drop_last()[i],
            headers,
        ) + "</tr>"@ by {
            assert(front[i] == parts[i]);
        }
        lemma_data_html(rows.drop_last(), headers, front);
        lemma_flatten_last(parts);
        assert(parts[rows.len() - 1] == parts.last());
    }
}

/// The page is the table of the metadata, if there is any, the row of headings, if there are any,
/// and the data rows numbered from one, each in its order and with nothing between them.
pub proof fn the_page_shows_the_rows_in_their_order(
    sheet: SheetModel,
    metadata: Seq<Seq<char>>,
    headings: Seq<Seq<char>>,
    data: Seq<Seq<char>>,
)
    requires
        metadata.len() == sheet.metadata_rows.len(),
        headings.len() == sheet.headers.len(),
        data.len() == sheet.data_rows.len(),
        forall|i: int|
            0 <= i < metadata.len() ==> #[trigger] metadata[i] == "<tr>"@ + metadata_cells(
                sheet.metadata_rows[i],
            ) + "</tr>"@,
        forall|i: int|
            0 <= i < headings.len() ==> #[trigger] headings[i] == heading_cell(sheet.headers[i]),
        forall|i: int|
            0 <= i < data.len() ==> #[trigger] data[i] == "<tr><th class=\"rownum\">"@ + decimal(
                (i + 1) as nat,
            ) + "</th>"@ + data_cells(sheet.data_rows[i], sheet.headers) + "</tr>"@,
    ensures
        sheet_page(sheet) == PAGE_HEAD@ + (if metadata.len() > 0 {
            "</table></div><div class=\"meta\"><table>"@ + metadata.flatten()
                + "</table></div><div class=\"wrap\"><table>"@
        } else {
            Seq::empty()
        }) + (if headings.len() > 0 {
            "<tr><th class=\"rownum\">#</th>"@ + headings.flatten() + "</tr>"@
        } else {
            Seq::empty()
        }) + data.flatten() + "</table></div></body></html>"@,
{
    lemma_metadata_html(sheet.metadata_rows, metadata);
    lemma_heading_cells(sheet.headers, headings);
    lemma_data_html(sheet.data_rows, sheet.headers, data);
}

/// Whatever the sheet, the page begins with its styles and the button that asks for a sync, above
/// the tables, and ends by closing what was opened.
pub proof fn every_page_has_the_button(sheet: SheetModel)
    ensures
        starts_with(
            sheet_page(sheet),
            "<!doctype html><html><head><meta charset=\"utf-8\">\
     <meta name=\"viewport\" content=\"width=device-width, initial-scale=1\">\
     <title>Spreadsheet Viewer</title>\
     <style>\
     body{font-family:system-ui,-apple-system,Segoe UI,Roboto,sans-serif;margin:24px;line-height:1.4}\
     table{border-collapse:collapse;width:100%;font-size:14px}\
     th,td{border:1px solid #d0d7de;padding:8px;vertical-align:top;text-align:left}\
     th{background:#f6f8fa;position:sticky;top:0}\
     .rownum{background:#f6f8fa;width:64px;white-space:nowrap;font-variant-numeric:tabular-nums}\
     .wrap{overflow-x:auto}\
     .meta{margin:0 0 16px 0}\
     .field{color:#57606a;font-size:12px;margin-left:6px}\
     .cell-link{text-decoration:none;color:#0969da}\
     .actions{margin:0 0 16px 0}\
     button{padding:8px 12px;border:1px solid #d0d7de;background:#f6f8fa;border-radius:6px;cursor:pointer}\
     </style></head><body><h1>Spreadsheet Viewer</h1><div class=\"actions\"><form method=\"post\" action=\"/sync\"><button type=\"submit\">Sync snapshot to git</button></form></div><div class=\"wrap\"><table>"@,
        ),
        ends_with(sheet_page(sheet), "</table></div></body></html>"@),
{
    let rest = metadata_section(sheet.metadata_rows) + heading_section(sheet.headers) + data_html(
        sheet.data_rows,
        sheet.headers,
    ) + PAGE_TAIL@;
    assert(sheet_page(sheet) =~= PAGE_HEAD@ + rest);
    texts_contain_their_parts(Seq::empty(), PAGE_HEAD@, rest);
    let before = PAGE_HEAD@ + metadata_section(sheet.metadata_rows) + heading_section(
        sheet.headers,
    ) + data_html(sheet.data_rows, sheet.headers);
    texts_contain_their_parts(before, PAGE_TAIL@, Seq::empty());
}

} // verus!
