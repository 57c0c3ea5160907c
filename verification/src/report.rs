//! What is printed on the terminal.
use vstd::prelude::*;

use crate::numeral::{decimal, push_decimal};
use crate::sync::{SyncResult, SyncResultModel};
use crate::text::{optional_text, texts};

verus! {

/// Puts a line at the end of the list.
fn push_text(lines: &mut Vec<String>, line: String)
    ensures
        texts(final(lines)@) == texts(old(lines)@).push(line@),
{
    lines.push(line);
    proof {
        assert(texts(lines@) =~= texts(old(lines)@).push(line@));
    }
}

/// Puts a line of two parts at the end of the list.
fn push_line(lines: &mut Vec<String>, label: &str, text: &str)
    ensures
        texts(final(lines)@) == texts(old(lines)@).push(label@ + text@),
{
    let mut line: String = label.to_owned();
    line.append(text);
    push_text(lines, line);
}

/// What is printed when the server has started.
pub open spec fn banner_lines(
    listen_addr: Option<Seq<char>>,
    addr: Seq<char>,
    sheet_url: Seq<char>,
) -> Seq<Seq<char>> {
    seq![
        match listen_addr {
            Some(a) => "Serving spreadsheet viewer at http://"@ + a,
            None => "Serving spreadsheet viewer on "@ + addr,
        },
        "Fetching data from "@ + sheet_url,
        "POST /sync to snapshot the sheet into git"@,
    ]
}

/// What is printed when the server has started. `listen_addr` is the address that it listens on
/// if that is one of the internet, `addr` the one that it was given.
pub fn serve_banner(listen_addr: Option<&str>, addr: &str, sheet_url: &str) -> (r: Vec<String>)
    ensures
        texts(r@) == banner_lines(optional_text(listen_addr), addr@, sheet_url@),
{
    let mut lines: Vec<String> = Vec::new();
    match listen_addr {
        Some(a) => push_line(&mut lines, "Serving spreadsheet viewer at http://", a),
        None => push_line(&mut lines, "Serving spreadsheet viewer on ", addr),
    }
    push_line(&mut lines, "Fetching data from ", sheet_url);
    push_text(&mut lines, "POST /sync to snapshot the sheet into git".to_owned());
    proof {
        assert(texts(lines@) =~= banner_lines(optional_text(listen_addr), addr@, sheet_url@));
    }
    lines
}

/// A line on an event that was published, in a list; an empty list if none was.
pub open spec fn event_lines(label: Seq<char>, id: Option<Seq<char>>) -> Seq<Seq<char>> {
    match id {
        Some(i) => seq![label + i],
        None => Seq::empty(),
    }
}

/// What is printed on a sync.
pub open spec fn report_lines(result: SyncResultModel, sheet_url: Seq<char>) -> Seq<Seq<char>> {
    seq![
        "Fetched "@ + decimal(result.snapshot.rows) + " rows from "@ + sheet_url,
        "Snapshot hash: "@ + result.snapshot.sha256,
        "Commit: "@ + result.commit_id,
    ] + event_lines("Nostr event: "@, result.nostr_event_id) + event_lines(
        "NIP-34 event: "@,
        result.nip34_event_id,
    ) + seq![
        if result.changed {
            "Committed snapshot to git."@
        } else {
            "No content change; repository already matched the sheet."@
        },
    ]
}

/// What is printed on a sync.
pub fn sync_report(result: &SyncResult, sheet_url: &str) -> (r: Vec<String>)
    ensures
        texts(r@) == report_lines(result@, sheet_url@),
{
    let mut lines: Vec<String> = Vec::new();
    let mut first: String = "Fetched ".to_owned();
    push_decimal(&mut first, result.snapshot.rows as u128);
    first.append(" rows from ");
    first.append(sheet_url);
    push_text(&mut lines, first);
    push_line(&mut lines, "Snapshot hash: ", result.snapshot.sha256.as_str());
    push_line(&mut lines, "Commit: ", result.commit_id.as_str());
    match &result.nostr_event_id {
        Some(id) => push_line(&mut lines, "Nostr event: ", id.as_str()),
        None => {},
    }
    match &result.nip34_event_id {
        Some(id) => push_line(&mut lines, "NIP-34 event: ", id.as_str()),
        None => {},
    }
    if result.changed {
        push_text(&mut lines, "Committed snapshot to git.".to_owned());
    } else {
        push_text(
            &mut lines,
            "No content change; repository already matched the sheet.".to_owned(),
        );
    }
    proof {
        assert(texts(lines@) =~= report_lines(result@, sheet_url@));
    }
    lines
}

/// The banner says where the server listens, where the sheet comes from and how to sync.
pub proof fn the_banner_says_where_the_server_listens(
    listen: Seq<char>,
    addr: Seq<char>,
    sheet_url: Seq<char>,
)
    ensures
        banner_lines(Some(listen), addr, sheet_url).len() == 3,
        banner_lines(Some(listen), addr, sheet_url)[0] == "Serving spreadsheet viewer at http://"@
            + listen,
        banner_lines(None, addr, sheet_url)[0] == "Serving spreadsheet viewer on "@ + addr,
        banner_lines(Some(listen), addr, sheet_url)[1] == "Fetching data from "@ + sheet_url,
        banner_lines(Some(listen), addr, sheet_url)[2]
            == "POST /sync to snapshot the sheet into git"@,
        banner_lines(None, addr, sheet_url).skip(1) == banner_lines(
            Some(listen),
            addr,
            sheet_url,
        ).skip(1),
{
    assert(banner_lines(None, addr, sheet_url).skip(1) =~= banner_lines(
        Some(listen),
        addr,
        sheet_url,
    ).skip(1));
}

/// The report begins with the rows, the digest and the commit, goes on with the events that were
/// published, in order, and ends with whether a commit was made.
pub proof fn the_report_tells_of_the_result(result: SyncResultModel, sheet_url: Seq<char>)
    ensures
        ({
            let lines = report_lines(result, sheet_url);
            let notes = if result.nostr_event_id is Some {
                1int
            } else {
                0int
            };
            let announcements = if result.nip34_event_id is Some {
                1int
            } else {
                0int
            };
            &&& lines.len() == 4 + notes + announcements
            &&& lines[0] == "Fetched "@ + decimal(result.snapshot.rows) + " rows from "@ + sheet_url
            &&& lines[1] == "Snapshot hash: "@ + result.snapshot.sha256
            &&& lines[2] == "Commit: "@ + result.commit_id
            &&& result.nostr_event_id matches Some(id) ==> lines[3] == "Nostr event: "@ + id
            &&& result.nip34_event_id matches Some(id) ==> lines[3 + notes] == "NIP-34 event: "@
                + id
            &&& lines.last() == if result.changed {
                "Committed snapshot to git."@
            } else {
                "No content change; repository already matched the sheet."@
            }
        }),
{
}

} // verus!
