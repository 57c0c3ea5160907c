//! The sheet: which of its rows are metadata, headings and data.
use vstd::prelude::*;

use crate::lowercase::{lowercase, to_lowercase};
use crate::text::{
    contains, str_contains, str_trim, texts, texts_contain_their_parts, trim,
    trimming_twice_is_trimming_once,
};

verus! {

/// The rows of a sheet by the characters of their cells.
pub open spec fn rows_view(rows: Seq<Vec<String>>) -> Seq<Seq<Seq<char>>> {
    rows.map_values(|r: Vec<String>| texts(r@))
}

/// A sheet taken apart.
pub struct ParsedSheet {
    /// The rows above the headings, without blank ones.
    pub metadata_rows: Vec<Vec<String>>,
    /// The headings; empty if the sheet has none.
    pub headers: Vec<String>,
    /// The rows below the headings, without blank ones.
    pub data_rows: Vec<Vec<String>>,
}

/// A sheet taken apart, by the characters of its cells.
#[verifier::ext_equal]
pub struct SheetModel {
    pub metadata_rows: Seq<Seq<Seq<char>>>,
    pub headers: Seq<Seq<char>>,
    pub data_rows: Seq<Seq<Seq<char>>>,
}

impl View for ParsedSheet {
    type V = SheetModel;

    open spec fn view(&self) -> SheetModel {
        SheetModel {
            metadata_rows: rows_view(self.metadata_rows@),
            headers: texts(self.headers@),
            data_rows: rows_view(self.data_rows@),
        }
    }
}

/// The row with each cell trimmed.
pub open spec fn trimmed_row(row: Seq<Seq<char>>) -> Seq<Seq<char>> {
    row.map_values(|c: Seq<char>| trim(c))
}

/// The rows with each cell trimmed.
pub open spec fn trimmed_rows(rows: Seq<Seq<Seq<char>>>) -> Seq<Seq<Seq<char>>> {
    rows.map_values(|r: Seq<Seq<char>>| trimmed_row(r))
}

/// The row with each cell in lower case.
pub open spec fn lowered_row(row: Seq<Seq<char>>) -> Seq<Seq<char>> {
    row.map_values(|c: Seq<char>| lowercase(c))
}

/// No cell of the row holds anything.
pub open spec fn blank(row: Seq<Seq<char>>) -> bool {
    forall|i: int| 0 <= i < row.len() ==> (#[trigger] row[i]).len() == 0
}

/// The rows that are not blank, in their order.
pub open spec fn nonblank_rows(rows: Seq<Seq<Seq<char>>>) -> Seq<Seq<Seq<char>>>
    decreases rows.len(),
{
    if rows.len() == 0 {
        Seq::empty()
    } else if blank(rows.last()) {
        nonblank_rows(rows.drop_last())
    } else {
        nonblank_rows(rows.drop_last()).push(rows.last())
    }
}

/// The lower-case text `lower` holds a word that headings are known by.
pub open spec fn has_keyword(lower: Seq<char>) -> bool {
    ||| contains(lower, "date"@)
    ||| contains(lower, "amount"@)
    ||| contains(lower, "grantee"@)
    ||| contains(lower, "twitter"@)
    ||| contains(lower, "x"@)
    ||| contains(lower, "link"@)
    ||| contains(lower, "why"@)
    ||| contains(lower, "domain"@)
    ||| contains(lower, "url"@)
}

/// How many of the lower-case cells hold such a word.
pub open spec fn keyword_cells(lower: Seq<Seq<char>>) -> nat
    decreases lower.len(),
{
    if lower.len() == 0 {
        0
    } else {
        keyword_cells(lower.drop_last()) + if has_keyword(lower.last()) {
            1nat
        } else {
            0nat
        }
    }
}

/// The row holds headings: two of its cells or more hold such a word.
pub open spec fn heading_row(row: Seq<Seq<char>>) -> bool {
    keyword_cells(lowered_row(row)) >= 2
}

/// The position of the first row of headings, or the number of rows if there is none.
pub open spec fn first_heading(rows: Seq<Seq<Seq<char>>>) -> nat
    decreases rows.len(),
{
    if rows.len() == 0 || heading_row(rows.first()) {
        0
    } else {
        1 + first_heading(rows.drop_first())
    }
}

/// The sheet of trimmed cells taken apart at its first row of headings.
pub open spec fn parted(cells: Seq<Seq<Seq<char>>>) -> SheetModel {
    let h = first_heading(cells) as int;
    if h < cells.len() {
        SheetModel {
            metadata_rows: nonblank_rows(cells.take(h)),
            headers: cells[h],
            data_rows: nonblank_rows(cells.skip(h + 1)),
        }
    } else {
        SheetModel {
            metadata_rows: nonblank_rows(cells),
            headers: Seq::empty(),
            data_rows: Seq::empty(),
        }
    }
}

/// The sheet taken apart.
pub open spec fn parsed(rows: Seq<Seq<Seq<char>>>) -> SheetModel {
    parted(trimmed_rows(rows))
}

/// Whether the lower-case text `lower` holds a word that headings are known by.
pub fn lowered_has_keyword(lower: &str) -> (r: bool)
    ensures
        r == has_keyword(lower@),
{
    str_contains(lower, "date") || str_contains(lower, "amount") || str_contains(lower, "grantee")
        || str_contains(lower, "twitter") || str_contains(lower, "x") || str_contains(lower, "link")
        || str_contains(lower, "why") || str_contains(lower, "domain") || str_contains(
        lower,
        "url",
    )
}

/// Whether a row is one of headings, by its cells in lower case.
pub fn lowered_is_header_row(lower: &Vec<String>) -> (r: bool)
    ensures
        r == (keyword_cells(texts(lower@)) >= 2),
{
    let mut score: usize = 0;
    let mut i: usize = 0;
    while i < lower.len()
        invariant
            score <= i <= lower@.len(),
            score == keyword_cells(texts(lower@).take(i as int)),
        decreases lower@.len() - i,
    {
        proof {
            assert(texts(lower@).take(i + 1).drop_last() =~= texts(lower@).take(i as int));
        }
        if lowered_has_keyword(lower[i].as_str()) {
            score = score + 1;
        }
        i = i + 1;
    }
    proof {
        assert(texts(lower@).take(i as int) =~= texts(lower@));
    }
    score >= 2
}

/// Whether a row is one of headings.
pub fn is_header_row(cells: &Vec<String>) -> (r: bool)
    ensures
        r == heading_row(texts(cells@)),
{
    let mut lower: Vec<String> = Vec::new();
    let mut i: usize = 0;
    while i < cells.len()
        invariant
            i <= cells@.len(),
            texts(lower@) == lowered_row(texts(cells@)).take(i as int),
        decreases cells@.len() - i,
    {
        let ghost before = lower@;
        lower.push(to_lowercase(cells[i].as_str()));
        proof {
            let target = lowered_row(texts(cells@));
            assert(texts(lower@) =~= texts(before).push(target[i as int]));
            assert(target.take(i + 1) =~= target.take(i as int).push(target[i as int]));
        }
        i = i + 1;
    }
    proof {
        let target = lowered_row(texts(cells@));
        assert(target.take(i as int) =~= target);
    }
    lowered_is_header_row(&lower)
}

/// Whether no cell of the row holds anything.
fn is_blank(row: &Vec<String>) -> (r: bool)
    ensures
        r == blank(texts(row@)),
{
    let mut i: usize = 0;
    while i < row.len()
        invariant
            i <= row@.len(),
            forall|j: int| 0 <= j < i ==> (#[trigger] texts(row@)[j]).len() == 0,
        decreases row@.len() - i,
    {
        if !row[i].as_str().is_empty() {
            proof {
                assert(texts(row@)[i as int].len() > 0);
            }
            return false;
        }
        i = i + 1;
    }
    true
}

/// The row with each cell trimmed.
fn trim_row(row: &Vec<String>) -> (r: Vec<String>)
    ensures
        texts(r@) == trimmed_row(texts(row@)),
{
    let mut cells: Vec<String> = Vec::new();
    let mut i: usize = 0;
    while i < row.len()
        invariant
            i <= row@.len(),
            texts(cells@) == trimmed_row(texts(row@)).take(i as int),
        decreases row@.len() - i,
    {
        let ghost before = cells@;
        cells.push(str_trim(row[i].as_str()).to_owned());
        proof {
            let target = trimmed_row(texts(row@));
            assert(texts(cells@) =~= texts(before).push(target[i as int]));
            assert(target.take(i + 1) =~= target.take(i as int).push(target[i as int]));
        }
        i = i + 1;
    }
    proof {
        let target = trimmed_row(texts(row@));
        assert(target.take(i as int) =~= target);
    }
    cells
}

/// The first row of headings is found where one stands and nowhere before.
proof fn lemma_first_heading(rows: Seq<Seq<Seq<char>>>)
    ensures
        first_heading(rows) <= rows.len(),
        first_heading(rows) < rows.len() ==> heading_row(rows[first_heading(rows) as int]),
        forall|i: int| 0 <= i < first_heading(rows) ==> !heading_row(#[trigger] rows[i]),
    decreases rows.len(),
{
    if rows.len() > 0 && !heading_row(rows.first()) {
        let t = rows.drop_first();
        lemma_first_heading(t);
        assert forall|i: int| 0 <= i < first_heading(rows) implies !heading_row(
            #[trigger] rows[i],
        ) by {
            if i > 0 {
                assert(rows[i] == t[i - 1]);
            }
        }
    }
}

/// The first row of headings is where a row of headings follows rows of none.
proof fn lemma_heading_is_first(rows: Seq<Seq<Seq<char>>>, h: int)
    requires
        0 <= h <= rows.len(),
        h < rows.len() ==> heading_row(rows[h]),
        forall|i: int| 0 <= i < h ==> !heading_row(#[trigger] rows[i]),
    ensures
        first_heading(rows) == h,
{
    lemma_first_heading(rows);
    if first_heading(rows) < h {
        assert(!heading_row(rows[first_heading(rows) as int]));
    }
    if h < first_heading(rows) {
        assert(!heading_row(rows[h]));
    }
}

/// Takes a sheet apart at its first row of headings.
pub fn parse_sheet(rows: &Vec<Vec<String>>) -> (r: ParsedSheet)
    ensures
        r@ == parsed(rows_view(rows@)),
{
    let mut metadata_rows: Vec<Vec<String>> = Vec::new();
    let mut headers: Vec<String> = Vec::new();
    let mut data_rows: Vec<Vec<String>> = Vec::new();
    let mut header_found: bool = false;
    let ghost all = trimmed_rows(rows_view(rows@));
    let ghost mut h: int = 0;
    let mut i: usize = 0;
    while i < rows.len()
        invariant
            i <= rows@.len(),
            all == trimmed_rows(rows_view(rows@)),
            header_found ==> {
                &&& 0 <= h < i
                &&& heading_row(all[h])
                &&& texts(headers@) == all[h]
                &&& rows_view(metadata_rows@) == nonblank_rows(all.take(h))
                &&& rows_view(data_rows@) == nonblank_rows(all.subrange(h + 1, i as int))
            },
            !header_found ==> {
                &&& h == i
                &&& headers@.len() == 0
                &&& data_rows@.len() == 0
                &&& rows_view(metadata_rows@) == nonblank_rows(all.take(i as int))
            },
            forall|j: int| 0 <= j < h ==> !heading_row(#[trigger] all[j]),
        decreases rows@.len() - i,
    {
        let cells: Vec<String> = trim_row(&rows[i]);
        let ghost row = all[i as int];
        proof {
            assert(texts(cells@) == row);
        }
        if !header_found && is_header_row(&cells) {
            headers = cells;
            header_found = true;
            proof {
                assert(all.subrange(h + 1, i + 1) =~= Seq::empty());
                assert(rows_view(data_rows@) =~= Seq::empty());
            }
        } else if header_found {
            let ghost before = data_rows@;
            proof {
                assert(all.subrange(h + 1, i + 1).drop_last() =~= all.subrange(h + 1, i as int));
            }
            if !is_blank(&cells) {
                data_rows.push(cells);
                proof {
                    assert(rows_view(data_rows@) =~= rows_view(before).push(row));
                }
            }
        } else {
            let ghost before = metadata_rows@;
            proof {
                assert(all.take(i + 1).drop_last() =~= all.take(i as int));
                h = i + 1;
            }
            if !is_blank(&cells) {
                metadata_rows.push(cells);
                proof {
                    assert(rows_view(metadata_rows@) =~= rows_view(before).push(row));
                }
            }
        }
        i = i + 1;
    }
    proof {
        lemma_heading_is_first(all, h);
        assert(all.take(all.len() as int) =~= all);
        assert(all.subrange(h + 1, all.len() as int) =~= all.skip(h + 1));
        assert(texts(headers@) =~= parted(all).headers);
        assert(rows_view(data_rows@) =~= parted(all).data_rows);
    }
    ParsedSheet { metadata_rows, headers, data_rows }
}

/// The rows that are not blank, of two sheets one below the other.
proof fn lemma_nonblank_rows_of_sum(a: Seq<Seq<Seq<char>>>, b: Seq<Seq<Seq<char>>>)
    ensures
        nonblank_rows(a + b) == nonblank_rows(a) + nonblank_rows(b),
    decreases b.len(),
{
    if b.len() == 0 {
        assert(a + b =~= a);
        assert(nonblank_rows(a) + nonblank_rows(b) =~= nonblank_rows(a));
    } else {
        lemma_nonblank_rows_of_sum(a, b.drop_last());
        assert((a + b).drop_last() =~= a + b.drop_last());
        assert((a + b).last() == b.last());
        assert(nonblank_rows(a) + nonblank_rows(b.drop_last()).push(b.last()) =~= (nonblank_rows(a)
            + nonblank_rows(b.drop_last())).push(b.last()));
    }
}

/// An empty cell holds none of the words that headings are known by.
proof fn lemma_empty_cell_has_no_keyword(c: Seq<char>)
    requires
        c.len() == 0,
    ensures
        !has_keyword(lowercase(c)),
{
    reveal_strlit("date");
    reveal_strlit("amount");
    reveal_strlit("grantee");
    reveal_strlit("twitter");
    reveal_strlit("x");
    reveal_strlit("link");
    reveal_strlit("why");
    reveal_strlit("domain");
    reveal_strlit("url");
}

/// A blank row holds none of the words that headings are known by.
proof fn lemma_blank_row_has_no_keyword(row: Seq<Seq<char>>)
    requires
        blank(row),
    ensures
        keyword_cells(lowered_row(row)) == 0,
    decreases row.len(),
{
    if row.len() > 0 {
        assert(blank(row.drop_last()));
        lemma_blank_row_has_no_keyword(row.drop_last());
        assert(lowered_row(row).drop_last() =~= lowered_row(row.drop_last()));
        assert(row[row.len() - 1].len() == 0);
        lemma_empty_cell_has_no_keyword(row.last());
    }
}

/// A row that is not blank belongs to the rows that are not blank, and nothing else does.
proof fn lemma_nonblank_rows_come_from_the_sheet(rows: Seq<Seq<Seq<char>>>, i: int)
    requires
        0 <= i < nonblank_rows(rows).len(),
    ensures
        rows.contains(nonblank_rows(rows)[i]),
        !blank(nonblank_rows(rows)[i]),
    decreases rows.len(),
{
    let front = rows.drop_last();
    if !blank(rows.last()) && i == nonblank_rows(front).len() {
        assert(rows[rows.len() - 1] == nonblank_rows(rows)[i]);
    } else {
        lemma_nonblank_rows_come_from_the_sheet(front, i);
        let j = choose|j: int| 0 <= j < front.len() && front[j] == nonblank_rows(front)[i];
        assert(rows[j] == nonblank_rows(rows)[i]);
    }
}

/// No row is lost, doubled or moved: the metadata rows, the headings and the data rows, one
/// after the other, are the rows of the sheet that are not blank.
pub proof fn every_row_is_kept_in_order(rows: Seq<Seq<Seq<char>>>)
    ensures
        nonblank_rows(trimmed_rows(rows)) == if parsed(rows).headers.len() > 0 {
            parsed(rows).metadata_rows.push(parsed(rows).headers) + parsed(rows).data_rows
        } else {
            parsed(rows).metadata_rows
        },
{
    let cells = trimmed_rows(rows);
    let h = first_heading(cells) as int;
    lemma_first_heading(cells);
    if h < cells.len() {
        let heading = cells[h];
        if blank(heading) {
            lemma_blank_row_has_no_keyword(heading);
        }
        let upper = cells.take(h).push(heading);
        assert(upper.drop_last() =~= cells.take(h));
        assert(cells =~= upper + cells.skip(h + 1));
        lemma_nonblank_rows_of_sum(upper, cells.skip(h + 1));
    }
}

/// Above the headings no row is one of headings: they are the first such row of the sheet.
pub proof fn headings_are_the_first_heading_row(rows: Seq<Seq<Seq<char>>>)
    ensures
        parsed(rows).headers.len() > 0 ==> heading_row(parsed(rows).headers),
        forall|i: int|
            0 <= i < parsed(rows).metadata_rows.len() ==> !heading_row(
                #[trigger] parsed(rows).metadata_rows[i],
            ),
{
    let cells = trimmed_rows(rows);
    let h = first_heading(cells) as int;
    lemma_first_heading(cells);
    let above = cells.take(h);
    assert(h == cells.len() ==> above =~= cells);
    assert forall|i: int| 0 <= i < parsed(rows).metadata_rows.len() implies !heading_row(
        #[trigger] parsed(rows).metadata_rows[i],
    ) by {
        lemma_nonblank_rows_come_from_the_sheet(above, i);
        let j = choose|j: int| 0 <= j < above.len() && above[j] == nonblank_rows(above)[i];
        assert(cells[j] == above[j]);
    }
}

/// A sheet in which no row holds headings is shown as metadata alone.
pub proof fn without_headings_all_is_metadata(rows: Seq<Seq<Seq<char>>>)
    requires
        forall|i: int| 0 <= i < rows.len() ==> !heading_row(trimmed_row(#[trigger] rows[i])),
    ensures
        parsed(rows).headers.len() == 0,
        parsed(rows).data_rows.len() == 0,
{
    let cells = trimmed_rows(rows);
    lemma_first_heading(cells);
    let h = first_heading(cells) as int;
    if h < cells.len() {
        assert(cells[h] == trimmed_row(rows[h]));
    }
}

/// Whatever rows a sheet is taken apart into, none is blank.
pub proof fn no_blank_row_is_kept(rows: Seq<Seq<Seq<char>>>)
    ensures
        forall|i: int|
            0 <= i < parsed(rows).metadata_rows.len() ==> !blank(
                #[trigger] parsed(rows).metadata_rows[i],
            ),
        forall|i: int|
            0 <= i < parsed(rows).data_rows.len() ==> !blank(#[trigger] parsed(rows).data_rows[i]),
{
    let cells = trimmed_rows(rows);
    let h = first_heading(cells) as int;
    lemma_first_heading(cells);
    let above = cells.take(h);
    assert(h == cells.len() ==> above =~= cells);
    assert forall|i: int| 0 <= i < parsed(rows).metadata_rows.len() implies !blank(
        #[trigger] parsed(rows).metadata_rows[i],
    ) by {
        lemma_nonblank_rows_come_from_the_sheet(above, i);
    }
    assert forall|i: int| 0 <= i < parsed(rows).data_rows.len() implies !blank(
        #[trigger] parsed(rows).data_rows[i],
    ) by {
        lemma_nonblank_rows_come_from_the_sheet(cells.skip(h + 1), i);
    }
}

/// White space around a cell does not matter: a sheet whose cells are trimmed beforehand is
/// taken apart in the same way.
pub proof fn white_space_around_cells_does_not_matter(rows: Seq<Seq<Seq<char>>>)
    ensures
        parsed(trimmed_rows(rows)) == parsed(rows),
{
    let once = trimmed_rows(rows);
    let twice = trimmed_rows(once);
    assert forall|i: int| 0 <= i < once.len() implies twice[i] == once[i] by {
        assert forall|j: int| 0 <= j < once[i].len() implies twice[i][j] == once[i][j] by {
            trimming_twice_is_trimming_once(rows[i][j]);
        }
        assert(twice[i] =~= once[i]);
    }
    assert(twice =~= once);
}

/// How many cells hold a word that headings are known by, and which do.
proof fn lemma_keyword_cells(lower: Seq<Seq<char>>)
    ensures
        keyword_cells(lower) >= 1 <==> exists|i: int|
            0 <= i < lower.len() && has_keyword(#[trigger] lower[i]),
        keyword_cells(lower) >= 2 <==> exists|i: int, j: int|
            0 <= i < j < lower.len() && has_keyword(#[trigger] lower[i]) && has_keyword(
                #[trigger] lower[j],
            ),
    decreases lower.len(),
{
    if lower.len() > 0 {
        let front = lower.drop_last();
        let last = lower.len() - 1;
        lemma_keyword_cells(front);
        if keyword_cells(front) >= 1 {
            let i = choose|i: int| 0 <= i < front.len() && has_keyword(#[trigger] front[i]);
            assert(has_keyword(lower[i]));
            if has_keyword(lower[last]) {
                assert(0 <= i < last < lower.len() && has_keyword(lower[i]) && has_keyword(
                    lower[last],
                ));
            }
        } else if has_keyword(lower.last()) {
            assert(has_keyword(lower[last]));
        }
        if keyword_cells(front) >= 2 {
            let (i, j) = choose|i: int, j: int|
                0 <= i < j < front.len() && has_keyword(#[trigger] front[i]) && has_keyword(
                    #[trigger] front[j],
                );
            assert(has_keyword(lower[i]) && has_keyword(lower[j]));
        }
        if exists|i: int| 0 <= i < lower.len() && has_keyword(#[trigger] lower[i]) {
            let i = choose|i: int| 0 <= i < lower.len() && has_keyword(#[trigger] lower[i]);
            if i < last {
                assert(has_keyword(front[i]));
            }
        }
        if exists|i: int, j: int|
            0 <= i < j < lower.len() && has_keyword(#[trigger] lower[i]) && has_keyword(
                #[trigger] lower[j],
            ) {
            let (i, j) = choose|i: int, j: int|
                0 <= i < j < lower.len() && has_keyword(#[trigger] lower[i]) && has_keyword(
                    #[trigger] lower[j],
                );
            assert(has_keyword(front[i]));
            if j < last {
                assert(has_keyword(front[j]));
            }
        }
    }
}

/// A text holds a word that headings are known by exactly if one of the nine stands in it,
/// wherever and between whatever that is.
pub proof fn nine_words_mark_headings(a: Seq<char>, b: Seq<char>, s: Seq<char>)
    ensures
        has_keyword(a + "date"@ + b),
        has_keyword(a + "amount"@ + b),
        has_keyword(a + "grantee"@ + b),
        has_keyword(a + "twitter"@ + b),
        has_keyword(a + "x"@ + b),
        has_keyword(a + "link"@ + b),
        has_keyword(a + "why"@ + b),
        has_keyword(a + "domain"@ + b),
        has_keyword(a + "url"@ + b),
        has_keyword(s) ==> contains(s, "date"@) || contains(s, "amount"@) || contains(s, "grantee"@)
            || contains(s, "twitter"@) || contains(s, "x"@) || contains(s, "link"@) || contains(
            s,
            "why"@,
        ) || contains(s, "domain"@) || contains(s, "url"@),
{
    texts_contain_their_parts(a, "date"@, b);
    texts_contain_their_parts(a, "amount"@, b);
    texts_contain_their_parts(a, "grantee"@, b);
    texts_contain_their_parts(a, "twitter"@, b);
    texts_contain_their_parts(a, "x"@, b);
    texts_contain_their_parts(a, "link"@, b);
    texts_contain_their_parts(a, "why"@, b);
    texts_contain_their_parts(a, "domain"@, b);
    texts_contain_their_parts(a, "url"@, b);
}

/// A row holds headings exactly if two different cells of it hold, in lower case, a word that
/// headings are known by, however many others do.
pub proof fn two_keyword_cells_make_headings(row: Seq<Seq<char>>)
    ensures
        heading_row(row) <==> exists|i: int, j: int|
            0 <= i < j < row.len() && has_keyword(lowercase(#[trigger] row[i])) && has_keyword(
                lowercase(#[trigger] row[j]),
            ),
{
    let lower = lowered_row(row);
    lemma_keyword_cells(lower);
    if heading_row(row) {
        let (i, j) = choose|i: int, j: int|
            0 <= i < j < lower.len() && has_keyword(#[trigger] lower[i]) && has_keyword(
                #[trigger] lower[j],
            );
        assert(has_keyword(lowercase(row[i])) && has_keyword(lowercase(row[j])));
    }
    if exists|i: int, j: int|
        0 <= i < j < row.len() && has_keyword(lowercase(#[trigger] row[i])) && has_keyword(
            lowercase(#[trigger] row[j]),
        ) {
        let (i, j) = choose|i: int, j: int|
            0 <= i < j < row.len() && has_keyword(lowercase(#[trigger] row[i])) && has_keyword(
                lowercase(#[trigger] row[j]),
            );
        assert(has_keyword(lower[i]) && has_keyword(lower[j]));
    }
}

/// A row of headings stays one whatever cells are put before, behind or between its own: nothing
/// is taken from it by more of them.
pub proof fn more_cells_keep_headings(
    a: Seq<Seq<char>>,
    left: Seq<Seq<char>>,
    b: Seq<Seq<char>>,
    right: Seq<Seq<char>>,
    c: Seq<Seq<char>>,
)
    requires
        heading_row(left + right),
    ensures
        heading_row(a + left + b + right + c),
{
    let row = left + right;
    let wide = a + left + b + right + c;
    two_keyword_cells_make_headings(row);
    two_keyword_cells_make_headings(wide);
    let (i, j) = choose|i: int, j: int|
        0 <= i < j < row.len() && has_keyword(lowercase(#[trigger] row[i])) && has_keyword(
            lowercase(#[trigger] row[j]),
        );
    let p = if i < left.len() {
        a.len() + i
    } else {
        a.len() + b.len() + i
    };
    let q = if j < left.len() {
        a.len() + j
    } else {
        a.len() + b.len() + j
    };
    assert(wide[p] == row[i]);
    assert(wide[q] == row[j]);
}

/// One more row at the end of a sheet: below headings it is data, above them it is metadata, and
/// the first one with headings is the headings; a blank row is left out, and what was there
/// before stays as it is. The cells are shown trimmed, each in its column.
pub proof fn each_row_goes_to_its_place(
    rows: Seq<Seq<Seq<char>>>,
    row: Seq<Seq<char>>,
    cells: Seq<Seq<char>>,
)
    requires
        cells.len() == row.len(),
        forall|j: int| 0 <= j < row.len() ==> #[trigger] cells[j] == trim(row[j]),
    ensures
        ({
            let before = parsed(rows);
            let after = parsed(rows.push(row));
            let filled = exists|j: int| 0 <= j < cells.len() && (#[trigger] cells[j]).len() > 0;
            if before.headers.len() > 0 {
                &&& after.headers == before.headers
                &&& after.metadata_rows == before.metadata_rows
                &&& filled ==> after.data_rows == before.data_rows.push(cells)
                &&& !filled ==> after.data_rows == before.data_rows
            } else if heading_row(cells) {
                &&& after.headers == cells
                &&& after.metadata_rows == before.metadata_rows
                &&& after.data_rows.len() == 0
            } else {
                &&& after.headers.len() == 0
                &&& filled ==> after.metadata_rows == before.metadata_rows.push(cells)
                &&& !filled ==> after.metadata_rows == before.metadata_rows
                &&& after.data_rows.len() == 0
            }
        }),
{
    let all = trimmed_rows(rows);
    let more = trimmed_rows(rows.push(row));
    let h = first_heading(all) as int;
    assert(trimmed_row(row) =~= cells);
    assert(more =~= all.push(cells));
    lemma_first_heading(all);
    assert forall|i: int| 0 <= i < h implies !heading_row(#[trigger] more[i]) by {
        assert(more[i] == all[i]);
    }
    if h < all.len() {
        two_keyword_cells_make_headings(all[h]);
        assert(more[h] == all[h]);
        lemma_heading_is_first(more, h);
        assert(more.take(h) =~= all.take(h));
        assert(more.skip(h + 1).drop_last() =~= all.skip(h + 1));
        assert(more.skip(h + 1).last() == cells);
    } else {
        assert(all.take(h) =~= all);
        if heading_row(cells) {
            lemma_heading_is_first(more, h);
            assert(more.take(h) =~= all);
            assert(more.skip(h + 1) =~= Seq::empty());
        } else {
            assert forall|i: int| 0 <= i < more.len() implies !heading_row(#[trigger] more[i]) by {
                if i < h {
                    assert(more[i] == all[i]);
                }
            }
            lemma_heading_is_first(more, more.len() as int);
            assert(more.drop_last() =~= all);
        }
    }
}

/// A sheet without rows has nothing to show.
pub proof fn empty_sheets_have_no_rows()
    ensures
        parsed(Seq::empty()).metadata_rows.len() == 0,
        parsed(Seq::empty()).headers.len() == 0,
        parsed(Seq::empty()).data_rows.len() == 0,
{
}

/// A sheet that was taken apart is seen cell by cell.
pub proof fn sheets_are_seen_cell_by_cell(sheet: ParsedSheet)
    ensures
        sheet@.headers == texts(sheet.headers@),
        sheet@.metadata_rows.len() == sheet.metadata_rows@.len(),
        sheet@.data_rows.len() == sheet.data_rows@.len(),
        forall|i: int|
            0 <= i < sheet.metadata_rows@.len() ==> #[trigger] sheet@.metadata_rows[i] == texts(
                sheet.metadata_rows@[i]@,
            ),
        forall|i: int|
            0 <= i < sheet.data_rows@.len() ==> #[trigger] sheet@.data_rows[i] == texts(
                sheet.data_rows@[i]@,
            ),
{
}

/// The cells that hold such a word are counted one by one.
pub proof fn keyword_cells_are_counted(lower: Seq<Seq<char>>, cell: Seq<char>)
    ensures
        keyword_cells(Seq::empty()) == 0,
        has_keyword(cell) ==> keyword_cells(lower.push(cell)) == keyword_cells(lower) + 1,
        !has_keyword(cell) ==> keyword_cells(lower.push(cell)) == keyword_cells(lower),
{
    assert(lower.push(cell).drop_last() =~= lower);
}

} // verus!
