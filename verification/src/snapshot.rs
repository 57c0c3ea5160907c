//! Snapshots of a sheet: their digest, their metadata and the texts that announce them.
use vstd::prelude::*;
use vstd::utf8::encode_utf8;

use crate::numeral::{
    decimal, hex_has_two_digits_per_byte, hex_is_injective, hex_lower, is_hex_digit, push_decimal,
    to_hex_lower,
};
use crate::records::{collected, csv_records, read_rows};
use crate::text::{
    find_char, lemma_find_char, split_char, texts_are_cut_at_the_first_separator,
};

verus! {

/// The directory of the snapshot files, below the root of the working tree.
pub const SNAPSHOT_DIR: &'static str = "sheet-snapshots";

/// The file that holds the sheet.
pub const SNAPSHOT_CSV: &'static str = "sheet-snapshots/google-sheet.csv";

/// The file that holds the metadata.
pub const SNAPSHOT_META: &'static str = "sheet-snapshots/google-sheet.meta";

/// The SHA-256 digest of the data.
pub uninterp spec fn sha256_digest(data: Seq<u8>) -> Seq<u8>;

/// The SHA-256 digest of the data, by `sha2::Sha256::digest`.
///
/// Taken on trust: the digest depends on the data alone and has 32 bytes. The function itself
/// is not spelled out.
#[verifier::external_body]
fn sha256(data: &[u8]) -> (r: Vec<u8>)
    ensures
        r@ == sha256_digest(data@),
        r@.len() == 32,
{
    <sha2::Sha256 as sha2::Digest>::digest(data).to_vec()
}

/// A sheet as it was fetched, with what is recorded of it.
pub struct Snapshot {
    /// The sheet, as it came.
    pub csv: String,
    /// The metadata, but for the time.
    pub meta: String,
    /// How many rows the sheet has.
    pub rows: usize,
    /// The digest of the sheet, in hexadecimal.
    pub sha256: String,
}

/// The metadata of a sheet, but for the time.
pub open spec fn meta_text(url: Seq<char>, sha256: Seq<char>, rows: nat) -> Seq<char> {
    "source_url="@ + url + "\nsha256="@ + sha256 + "\nrows="@ + decimal(rows) + "\n"@
}

/// The digest of a sheet, in hexadecimal.
pub open spec fn body_hash(body: Seq<char>) -> Seq<char> {
    hex_lower(sha256_digest(encode_utf8(body)))
}

/// A snapshot by its characters.
pub struct SnapshotModel {
    pub csv: Seq<char>,
    pub meta: Seq<char>,
    pub rows: nat,
    pub sha256: Seq<char>,
}

impl View for Snapshot {
    type V = SnapshotModel;

    open spec fn view(&self) -> SnapshotModel {
        SnapshotModel {
            csv: self.csv@,
            meta: self.meta@,
            rows: self.rows as nat,
            sha256: self.sha256@,
        }
    }
}

/// The snapshot of the sheet `body` from `url`, with so many rows, under the digest `sha256`.
pub open spec fn snapshot_under(
    url: Seq<char>,
    body: Seq<char>,
    rows: nat,
    sha256: Seq<char>,
) -> SnapshotModel {
    SnapshotModel { csv: body, meta: meta_text(url, sha256, rows), rows, sha256 }
}

/// The snapshot of a sheet of so many rows with the given digest.
pub fn snapshot_with_digest(url: &str, body: String, rows: usize, digest: &Vec<u8>) -> (r: Snapshot)
    ensures
        r@ == snapshot_under(url@, body@, rows as nat, hex_lower(digest@)),
{
    let sha256: String = to_hex_lower(digest);
    let mut meta: String = "source_url=".to_owned();
    meta.append(url);
    meta.append("\nsha256=");
    meta.append(sha256.as_str());
    meta.append("\nrows=");
    push_decimal(&mut meta, rows as u128);
    meta.append("\n");
    Snapshot { csv: body, meta, rows, sha256 }
}

/// The snapshot of the sheet `body` from `url`, or the text of the first error in the sheet.
pub open spec fn snapshot_of(url: Seq<char>, body: Seq<char>) -> Result<SnapshotModel, Seq<char>> {
    match collected(csv_records(body)) {
        Ok(rows) => Ok(snapshot_under(url, body, rows.len(), body_hash(body))),
        Err(message) => Err(message),
    }
}

/// A snapshot, or the text of an error, by its characters.
pub open spec fn snapshot_result_view(result: Result<Snapshot, String>) -> Result<
    SnapshotModel,
    Seq<char>,
> {
    match result {
        Ok(snapshot) => Ok(snapshot@),
        Err(message) => Err(message@),
    }
}

/// The snapshot of the sheet `body`, fetched from `url`; or the text of the first error in it.
pub fn take_snapshot(url: &str, body: String) -> (r: Result<Snapshot, String>)
    ensures
        snapshot_result_view(r) == snapshot_of(url@, body@),
        r matches Ok(snapshot) ==> snapshot.sha256@.len() == 64,
        r matches Ok(snapshot) ==> snapshot.csv@ == body@ && snapshot.sha256@ == hex_lower(
            sha256_digest(encode_utf8(body@)),
        ),
        r matches Ok(snapshot) ==> (collected(csv_records(body@)) matches Ok(rows) && snapshot.rows
            == rows.len()),
        r matches Ok(snapshot) ==> snapshot.meta@ == "source_url="@ + url@ + "\nsha256="@ + hex_lower(
            sha256_digest(encode_utf8(body@)),
        ) + "\nrows="@ + decimal(snapshot.rows as nat) + "\n"@,
        r matches Err(message) ==> collected(csv_records(body@)) == Err::<
            Seq<Seq<Seq<char>>>,
            Seq<char>,
        >(message@),
{
    match read_rows(body.as_str()) {
        Ok(rows) => {
            let digest: Vec<u8> = sha256(body.as_str().as_bytes());
            proof {
                hex_has_two_digits_per_byte(digest@);
            }
            Ok(snapshot_with_digest(url, body, rows.len(), &digest))
        },
        Err(message) => Err(message),
    }
}

/// The contents of the metadata file: what is recorded of the sheet, and the time.
pub open spec fn meta_file(meta: Seq<char>, synced_at_unix_ns: nat) -> Seq<char> {
    meta + "synced_at_unix_ns="@ + decimal(synced_at_unix_ns) + "\n"@
}

/// The contents of the metadata file.
pub fn render_meta_file(snapshot: &Snapshot, synced_at_unix_ns: u128) -> (r: String)
    ensures
        r@ == meta_file(snapshot.meta@, synced_at_unix_ns as nat),
{
    let mut out: String = snapshot.meta.clone();
    out.append("synced_at_unix_ns=");
    push_decimal(&mut out, synced_at_unix_ns);
    out.append("\n");
    out
}

/// The message of the commit that records a snapshot.
pub open spec fn commit_text(
    sha256: Seq<char>,
    rows: nat,
    url: Seq<char>,
    synced_at_unix_ns: nat,
) -> Seq<char> {
    "sync: snapshot Google Sheet document\n\nsha256: "@ + sha256 + "\nrows: "@ + decimal(rows)
        + "\nsource: "@ + url + "\nfile: "@ + SNAPSHOT_CSV@ + "\nmeta: "@ + SNAPSHOT_META@
        + "\nsynced_at_unix_ns: "@ + decimal(synced_at_unix_ns)
}

/// The message of the commit that records a snapshot.
pub fn render_commit_message(snapshot: &Snapshot, url: &str, synced_at_unix_ns: u128) -> (r: String)
    ensures
        r@ == commit_text(
            snapshot.sha256@,
            snapshot.rows as nat,
            url@,
            synced_at_unix_ns as nat,
        ),
{
    let mut out: String = "sync: snapshot Google Sheet document\n\nsha256: ".to_owned();
    out.append(snapshot.sha256.as_str());
    out.append("\nrows: ");
    push_decimal(&mut out, snapshot.rows as u128);
    out.append("\nsource: ");
    out.append(url);
    out.append("\nfile: ");
    out.append(SNAPSHOT_CSV);
    out.append("\nmeta: ");
    out.append(SNAPSHOT_META);
    out.append("\nsynced_at_unix_ns: ");
    push_decimal(&mut out, synced_at_unix_ns);
    out
}

/// The note that announces a snapshot.
pub open spec fn note_text(
    commit_id: Seq<char>,
    sha256: Seq<char>,
    rows: nat,
    source_url: Seq<char>,
) -> Seq<char> {
    "StartSmall snapshot synced\ncommit: "@ + commit_id + "\nsha256: "@ + sha256 + "\nrows: "@
        + decimal(rows) + "\nsource: "@ + source_url
}

/// The note that announces a snapshot.
pub fn render_note(snapshot: &Snapshot, commit_id: &str, source_url: &str) -> (r: String)
    ensures
        r@ == note_text(commit_id@, snapshot.sha256@, snapshot.rows as nat, source_url@),
{
    let mut out: String = "StartSmall snapshot synced\ncommit: ".to_owned();
    out.append(commit_id);
    out.append("\nsha256: ");
    out.append(snapshot.sha256.as_str());
    out.append("\nrows: ");
    push_decimal(&mut out, snapshot.rows as u128);
    out.append("\nsource: ");
    out.append(source_url);
    out
}

/// A line in front of a text is the first of its parts.
proof fn lemma_split_line(line: Seq<char>, rest: Seq<char>)
    requires
        !line.contains('\n'),
    ensures
        split_char(line + seq!['\n'] + rest, '\n') == seq![line] + split_char(rest, '\n'),
{
    let s = line + seq!['\n'] + rest;
    lemma_find_char(s, '\n');
    let i = find_char(s, '\n') as int;
    assert(s[line.len() as int] == '\n');
    if i < line.len() {
        assert(s[i] == line[i]);
        assert(line.contains(line[i]));
    }
    assert(i == line.len());
    assert(s.take(i) =~= line);
    assert(s.skip(i + 1) =~= rest);
}

/// A numeral holds digits only.
proof fn lemma_decimal_has_no_newline(n: nat)
    ensures
        !decimal(n).contains('\n'),
    decreases n,
{
    if n >= 10 {
        lemma_decimal_has_no_newline(n / 10);
        let front = decimal(n / 10);
        if decimal(n).contains('\n') {
            let i = choose|i: int| 0 <= i < decimal(n).len() && decimal(n)[i] == '\n';
            if i < front.len() {
                assert(front[i] == '\n');
            }
        }
    }
}

/// Where neither part holds a line end, the sum holds none.
proof fn lemma_no_newline_in_sum(a: Seq<char>, b: Seq<char>)
    requires
        !a.contains('\n'),
        !b.contains('\n'),
    ensures
        !(a + b).contains('\n'),
{
    if (a + b).contains('\n') {
        let i = choose|i: int| 0 <= i < (a + b).len() && (a + b)[i] == '\n';
        if i < a.len() {
            assert(a[i] == '\n');
        } else {
            assert(b[i - a.len()] == '\n');
        }
    }
}

/// The metadata file has one line for each key, in this order, and each line ends with a line
/// end. (A line end inside the address would split its line.)
pub proof fn meta_file_has_one_line_per_key(
    url: Seq<char>,
    digest: Seq<u8>,
    rows: nat,
    synced_at_unix_ns: nat,
)
    requires
        !url.contains('\n'),
    ensures
        split_char(meta_file(meta_text(url, hex_lower(digest), rows), synced_at_unix_ns), '\n')
            == seq![
            "source_url="@ + url,
            "sha256="@ + hex_lower(digest),
            "rows="@ + decimal(rows),
            "synced_at_unix_ns="@ + decimal(synced_at_unix_ns),
            Seq::<char>::empty(),
        ],
{
    let nl = seq!['\n'];
    let sha = hex_lower(digest);
    reveal_strlit("source_url=");
    reveal_strlit("\nsha256=");
    reveal_strlit("sha256=");
    reveal_strlit("\nrows=");
    reveal_strlit("rows=");
    reveal_strlit("\n");
    reveal_strlit("synced_at_unix_ns=");
    assert("\nsha256="@ =~= nl + "sha256="@);
    assert("\nrows="@ =~= nl + "rows="@);
    assert("\n"@ =~= nl);
    let l1 = "source_url="@ + url;
    let l2 = "sha256="@ + sha;
    let l3 = "rows="@ + decimal(rows);
    let l4 = "synced_at_unix_ns="@ + decimal(synced_at_unix_ns);
    let none = Seq::<char>::empty();
    assert(meta_file(meta_text(url, sha, rows), synced_at_unix_ns) =~= l1 + nl + (l2 + nl + (l3 + nl
        + (l4 + nl + none))));
    hex_has_two_digits_per_byte(digest);
    assert(!sha.contains('\n')) by {
        if sha.contains('\n') {
            let i = choose|i: int| 0 <= i < sha.len() && sha[i] == '\n';
            assert(is_hex_digit(sha[i]));
        }
    }
    lemma_decimal_has_no_newline(rows);
    lemma_decimal_has_no_newline(synced_at_unix_ns);
    lemma_no_newline_in_sum("source_url="@, url);
    lemma_no_newline_in_sum("sha256="@, sha);
    lemma_no_newline_in_sum("rows="@, decimal(rows));
    lemma_no_newline_in_sum("synced_at_unix_ns="@, decimal(synced_at_unix_ns));
    lemma_split_line(l4, none);
    lemma_split_line(l3, l4 + nl + none);
    lemma_split_line(l2, l3 + nl + (l4 + nl + none));
    lemma_split_line(l1, l2 + nl + (l3 + nl + (l4 + nl + none)));
    assert(split_char(none, '\n') =~= seq![none]);
    assert(seq![l1] + (seq![l2] + (seq![l3] + (seq![l4] + seq![none]))) =~= seq![
        l1,
        l2,
        l3,
        l4,
        none,
    ]);
}

/// A snapshot holds the sheet as it came, the digest of all of it and the number of its rows. A
/// sheet has one exactly if its records can be read; else it is refused with their first error.
pub proof fn snapshots_hold_the_whole_sheet(url: Seq<char>, body: Seq<char>)
    ensures
        collected(csv_records(body)) matches Ok(rows) ==> (snapshot_of(url, body) matches Ok(
            snapshot,
        ) && {
            &&& snapshot.csv == body
            &&& snapshot.sha256 == hex_lower(sha256_digest(encode_utf8(body)))
            &&& snapshot.rows == rows.len()
            &&& snapshot.meta == "source_url="@ + url + "\nsha256="@ + hex_lower(
                sha256_digest(encode_utf8(body)),
            ) + "\nrows="@ + decimal(rows.len()) + "\n"@
        }),
        collected(csv_records(body)) matches Err(message) ==> snapshot_of(url, body) == Err::<
            SnapshotModel,
            Seq<char>,
        >(message),
{
}

/// Two sheets have the same digest in their snapshots only if the digests of their bytes, all of
/// them, are the same.
pub proof fn digests_differ_where_those_of_the_sheets_do(
    url: Seq<char>,
    a: Seq<char>,
    b: Seq<char>,
)
    requires
        snapshot_of(url, a) is Ok,
        snapshot_of(url, b) is Ok,
        sha256_digest(encode_utf8(a)) != sha256_digest(encode_utf8(b)),
    ensures
        snapshot_of(url, a)->Ok_0.sha256 != snapshot_of(url, b)->Ok_0.sha256,
{
    if snapshot_of(url, a)->Ok_0.sha256 == snapshot_of(url, b)->Ok_0.sha256 {
        hex_is_injective(sha256_digest(encode_utf8(a)), sha256_digest(encode_utf8(b)));
    }
}

/// A line without a line end is the only part of itself.
proof fn lemma_last_line(line: Seq<char>)
    requires
        !line.contains('\n'),
    ensures
        split_char(line, '\n') == seq![line],
{
    texts_are_cut_at_the_first_separator(line, '\n', Seq::empty());
}

/// The commit message has these lines, in this order. (A line end inside the address would split
/// its line.)
pub proof fn commit_messages_have_one_line_per_fact(
    digest: Seq<u8>,
    rows: nat,
    url: Seq<char>,
    synced_at_unix_ns: nat,
)
    requires
        !url.contains('\n'),
    ensures
        split_char(commit_text(hex_lower(digest), rows, url, synced_at_unix_ns), '\n') == seq![
            "sync: snapshot Google Sheet document"@,
            Seq::<char>::empty(),
            "sha256: "@ + hex_lower(digest),
            "rows: "@ + decimal(rows),
            "source: "@ + url,
            "file: sheet-snapshots/google-sheet.csv"@,
            "meta: sheet-snapshots/google-sheet.meta"@,
            "synced_at_unix_ns: "@ + decimal(synced_at_unix_ns),
        ],
{
    let nl = seq!['\n'];
    let sha = hex_lower(digest);
    let none = Seq::<char>::empty();
    reveal_strlit("sync: snapshot Google Sheet document\n\nsha256: ");
    reveal_strlit("sync: snapshot Google Sheet document");
    reveal_strlit("sha256: ");
    reveal_strlit("\nrows: ");
    reveal_strlit("rows: ");
    reveal_strlit("\nsource: ");
    reveal_strlit("source: ");
    reveal_strlit("\nfile: ");
    reveal_strlit("sheet-snapshots/google-sheet.csv");
    reveal_strlit("file: sheet-snapshots/google-sheet.csv");
    reveal_strlit("\nmeta: ");
    reveal_strlit("sheet-snapshots/google-sheet.meta");
    reveal_strlit("meta: sheet-snapshots/google-sheet.meta");
    reveal_strlit("\nsynced_at_unix_ns: ");
    reveal_strlit("synced_at_unix_ns: ");
    assert("sync: snapshot Google Sheet document\n\nsha256: "@
        =~= "sync: snapshot Google Sheet document"@ + nl + (none + nl + "sha256: "@));
    assert("\nrows: "@ =~= nl + "rows: "@);
    assert("\nsource: "@ =~= nl + "source: "@);
    assert("\nfile: "@ + SNAPSHOT_CSV@ =~= nl + "file: sheet-snapshots/google-sheet.csv"@);
    assert("\nmeta: "@ + SNAPSHOT_META@ =~= nl + "meta: sheet-snapshots/google-sheet.meta"@);
    assert("\nsynced_at_unix_ns: "@ =~= nl + "synced_at_unix_ns: "@);
    let l1 = "sync: snapshot Google Sheet document"@;
    let l3 = "sha256: "@ + sha;
    let l4 = "rows: "@ + decimal(rows);
    let l5 = "source: "@ + url;
    let l6 = "file: sheet-snapshots/google-sheet.csv"@;
    let l7 = "meta: sheet-snapshots/google-sheet.meta"@;
    let l8 = "synced_at_unix_ns: "@ + decimal(synced_at_unix_ns);
    let r7 = l7 + nl + l8;
    let r6 = l6 + nl + r7;
    let r5 = l5 + nl + r6;
    let r4 = l4 + nl + r5;
    let r3 = l3 + nl + r4;
    let r2 = none + nl + r3;
    let text = commit_text(sha, rows, url, synced_at_unix_ns);
    assert(text =~= l1 + nl + r2) by {
        assert(text =~= "sync: snapshot Google Sheet document\n\nsha256: "@ + sha + ("\nrows: "@
            + decimal(rows)) + ("\nsource: "@ + url) + ("\nfile: "@ + SNAPSHOT_CSV@) + ("\nmeta: "@
            + SNAPSHOT_META@) + ("\nsynced_at_unix_ns: "@ + decimal(synced_at_unix_ns)));
    }
    lemma_hex_has_no_newline(digest);
    lemma_decimal_has_no_newline(rows);
    lemma_decimal_has_no_newline(synced_at_unix_ns);
    lemma_no_newline_in_sum("sha256: "@, sha);
    lemma_no_newline_in_sum("rows: "@, decimal(rows));
    lemma_no_newline_in_sum("source: "@, url);
    lemma_no_newline_in_sum("synced_at_unix_ns: "@, decimal(synced_at_unix_ns));
    lemma_last_line(l8);
    lemma_split_line(l7, l8);
    lemma_split_line(l6, r7);
    lemma_split_line(l5, r6);
    lemma_split_line(l4, r5);
    lemma_split_line(l3, r4);
    lemma_split_line(none, r3);
    lemma_split_line(l1, r2);
    assert(seq![l1] + (seq![none] + (seq![l3] + (seq![l4] + (seq![l5] + (seq![l6] + (seq![l7]
        + seq![l8])))))) =~= seq![l1, none, l3, l4, l5, l6, l7, l8]);
}

/// Hexadecimal holds no line end.
proof fn lemma_hex_has_no_newline(digest: Seq<u8>)
    ensures
        !hex_lower(digest).contains('\n'),
{
    let sha = hex_lower(digest);
    hex_has_two_digits_per_byte(digest);
    if sha.contains('\n') {
        let i = choose|i: int| 0 <= i < sha.len() && sha[i] == '\n';
        assert(is_hex_digit(sha[i]));
    }
}

/// The note has these lines, in this order. (A line end inside the address or the name of the
/// commit would split its line.)
pub proof fn notes_have_one_line_per_fact(
    commit_id: Seq<char>,
    digest: Seq<u8>,
    rows: nat,
    source_url: Seq<char>,
)
    requires
        !commit_id.contains('\n'),
        !source_url.contains('\n'),
    ensures
        split_char(note_text(commit_id, hex_lower(digest), rows, source_url), '\n') == seq![
            "StartSmall snapshot synced"@,
            "commit: "@ + commit_id,
            "sha256: "@ + hex_lower(digest),
            "rows: "@ + decimal(rows),
            "source: "@ + source_url,
        ],
{
    let nl = seq!['\n'];
    let sha = hex_lower(digest);
    reveal_strlit("StartSmall snapshot synced\ncommit: ");
    reveal_strlit("StartSmall snapshot synced");
    reveal_strlit("commit: ");
    reveal_strlit("\nsha256: ");
    reveal_strlit("sha256: ");
    reveal_strlit("\nrows: ");
    reveal_strlit("rows: ");
    reveal_strlit("\nsource: ");
    reveal_strlit("source: ");
    assert("StartSmall snapshot synced\ncommit: "@ =~= "StartSmall snapshot synced"@ + nl
        + "commit: "@);
    assert("\nsha256: "@ =~= nl + "sha256: "@);
    assert("\nrows: "@ =~= nl + "rows: "@);
    assert("\nsource: "@ =~= nl + "source: "@);
    let l1 = "StartSmall snapshot synced"@;
    let l2 = "commit: "@ + commit_id;
    let l3 = "sha256: "@ + sha;
    let l4 = "rows: "@ + decimal(rows);
    let l5 = "source: "@ + source_url;
    let r4 = l4 + nl + l5;
    let r3 = l3 + nl + r4;
    let r2 = l2 + nl + r3;
    assert(note_text(commit_id, sha, rows, source_url) =~= l1 + nl + r2);
    lemma_hex_has_no_newline(digest);
    lemma_decimal_has_no_newline(rows);
    lemma_no_newline_in_sum("commit: "@, commit_id);
    lemma_no_newline_in_sum("sha256: "@, sha);
    lemma_no_newline_in_sum("rows: "@, decimal(rows));
    lemma_no_newline_in_sum("source: "@, source_url);
    lemma_last_line(l5);
    lemma_split_line(l4, l5);
    lemma_split_line(l3, r4);
    lemma_split_line(l2, r3);
    lemma_split_line(l1, r2);
    assert(seq![l1] + (seq![l2] + (seq![l3] + (seq![l4] + seq![l5]))) =~= seq![
        l1,
        l2,
        l3,
        l4,
        l5,
    ]);
}

/// A snapshot is seen as what its fields hold.
pub proof fn snapshots_are_seen_by_their_fields(snapshot: Snapshot)
    ensures
        snapshot@.csv == snapshot.csv@,
        snapshot@.meta == snapshot.meta@,
        snapshot@.rows == snapshot.rows,
        snapshot@.sha256 == snapshot.sha256@,
{
}

/// What the metadata file, the commit message and the note say, word for word.
pub proof fn texts_of_snapshots_are_these(
    meta: Seq<char>,
    commit_id: Seq<char>,
    sha256: Seq<char>,
    rows: nat,
    url: Seq<char>,
    synced_at_unix_ns: nat,
)
    ensures
        meta_text(url, sha256, rows) == "source_url="@ + url + "\nsha256="@ + sha256 + "\nrows="@
            + decimal(rows) + "\n"@,
        meta_file(meta, synced_at_unix_ns) == meta + "synced_at_unix_ns="@ + decimal(
            synced_at_unix_ns,
        ) + "\n"@,
        commit_text(sha256, rows, url, synced_at_unix_ns)
            == "sync: snapshot Google Sheet document\n\nsha256: "@ + sha256 + "\nrows: "@ + decimal(
            rows,
        ) + "\nsource: "@ + url + "\nfile: "@ + "sheet-snapshots/google-sheet.csv"@ + "\nmeta: "@
            + "sheet-snapshots/google-sheet.meta"@ + "\nsynced_at_unix_ns: "@ + decimal(
            synced_at_unix_ns,
        ),
        note_text(commit_id, sha256, rows, url) == "StartSmall snapshot synced\ncommit: "@
            + commit_id + "\nsha256: "@ + sha256 + "\nrows: "@ + decimal(rows) + "\nsource: "@ + url,
{
}

} // verus!
