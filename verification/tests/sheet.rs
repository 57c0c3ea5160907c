use startsmall::page::{annotate_header, lowered_field, render_sheet_page, PAGE_HEAD};
use startsmall::sheet::{is_header_row, lowered_has_keyword, lowered_is_header_row, parse_sheet};

fn row(cells: &[&str]) -> Vec<String> {
    cells.iter().map(|c| c.to_string()).collect()
}

#[test]
fn heading_rows_hold_two_keywords() {
    assert!(is_header_row(&row(&["Date", "Amount"])));
    assert!(is_header_row(&row(&["", "GRANTEE", "Why?"])));
    assert!(is_header_row(&row(&["Url", "x"])));
    assert!(!is_header_row(&row(&["Date", "Sum"])));
    assert!(!is_header_row(&row(&["date amount"])));
    assert!(!is_header_row(&row(&[])));
    assert!(is_header_row(&row(&["LIN\u{212a}", "Tax"])));
    assert!(lowered_is_header_row(&row(&["date", "amount"])));
    assert!(!lowered_is_header_row(&row(&["Date", "Amount"])));
    assert!(lowered_has_keyword("my links"));
    assert!(!lowered_has_keyword("sum"));
}

#[test]
fn sheets_are_taken_apart() {
    let sheet = parse_sheet(&vec![
        row(&[" Grants ", ""]),
        row(&["", "  "]),
        row(&["Date", " Amount "]),
        row(&["", ""]),
        row(&["2024", " 5 "]),
        row(&["date", "amount"]),
    ]);
    assert_eq!(sheet.metadata_rows, vec![row(&["Grants", ""])]);
    assert_eq!(sheet.headers, row(&["Date", "Amount"]));
    assert_eq!(sheet.data_rows, vec![row(&["2024", "5"]), row(&["date", "amount"])]);
}

#[test]
fn sheets_without_headings_are_metadata() {
    let sheet = parse_sheet(&vec![row(&["a", "b"]), row(&["", ""]), row(&["c", "d"])]);
    assert_eq!(sheet.metadata_rows, vec![row(&["a", "b"]), row(&["c", "d"])]);
    assert!(sheet.headers.is_empty());
    assert!(sheet.data_rows.is_empty());
}

#[test]
fn rows_are_kept_in_order() {
    let rows = vec![row(&["m1"]), row(&["m2"]), row(&["date", "x"]), row(&["d1"]), row(&["d2"])];
    let sheet = parse_sheet(&rows);
    let mut all = sheet.metadata_rows;
    all.push(sheet.headers);
    all.extend(sheet.data_rows);
    assert_eq!(all, rows);
}

#[test]
fn headings_are_annotated() {
    assert_eq!(annotate_header("Twitter"), ("Twitter".to_string(), Some("twitter")));
    assert_eq!(annotate_header("X"), ("X".to_string(), Some("twitter")));
    assert_eq!(annotate_header("Domain"), ("Domain".to_string(), Some("domain")));
    assert_eq!(annotate_header("Link"), ("Link".to_string(), Some("url")));
    assert_eq!(annotate_header("URL"), ("URL".to_string(), Some("url")));
    assert_eq!(annotate_header("Website"), ("Website".to_string(), Some("url")));
    assert_eq!(annotate_header("Amount"), ("Amount".to_string(), None));
    assert_eq!(annotate_header("lin\u{212a}"), ("lin\u{212a}".to_string(), Some("url")));
    assert_eq!(lowered_field("website"), Some("url"));
    assert_eq!(lowered_field("Website"), None);
}

#[test]
fn pages_show_the_sheet() {
    let page = render_sheet_page(&vec![
        row(&["A & B", ""]),
        row(&["Date", "Twitter"]),
        row(&["2024", "jack", "a.b"]),
        row(&["<2025>"]),
    ]);
    let expected = format!(
        "{}{}",
        PAGE_HEAD,
        "</table></div><div class=\"meta\"><table><tr><td>A &amp; B</td><td></td></tr>\
         </table></div><div class=\"wrap\"><table>\
         <tr><th class=\"rownum\">#</th><th>Date</th>\
         <th>Twitter<span class=\"field\">twitter</span></th></tr>\
         <tr><th class=\"rownum\">1</th><td>2024</td><td>\
         <a class=\"cell-link\" href=\"https://x.com/jack\" target=\"_blank\" rel=\"noreferrer\">@jack</a>\
         </td><td>\
         <a class=\"cell-link\" href=\"https://a.b\" target=\"_blank\" rel=\"noreferrer\">a.b</a>\
         </td></tr>\
         <tr><th class=\"rownum\">2</th><td>&lt;2025&gt;</td></tr>\
         </table></div></body></html>"
    );
    assert_eq!(page, expected);
}

#[test]
fn empty_sheets_have_an_empty_page() {
    assert_eq!(render_sheet_page(&vec![]), format!("{PAGE_HEAD}</table></div></body></html>"));
}

#[test]
fn the_page_has_a_button_to_sync() {
    assert!(PAGE_HEAD.starts_with("<!doctype html><html><head><meta charset=\"utf-8\"><meta name="));
    assert!(PAGE_HEAD.contains("<form method=\"post\" action=\"/sync\">"));
    assert!(!PAGE_HEAD.contains('\n'));
}
