//! The web interface: which requests there are, who is served, and what is answered.
use vstd::prelude::*;

use crate::auth::{authorized, headers_view, sync_request_authorized, HeaderModel, RequestHeader};
use crate::html::{escape, escape_html};
use crate::numeral::{decimal, push_decimal};
use crate::page::{render_sheet_page, sheet_page};
use crate::records::{collected, csv_records, read_rows};
use crate::sheet::parsed;
use crate::sync::{SyncResult, SyncResultModel};
use crate::text::{contains, optional_string, optional_text, str_eq, texts_contain_their_parts};

verus! {

/// How many requests are handled at one time at most.
pub const MAX_CONCURRENT_REQUESTS: usize = 16;

/// The page for requests that are not authorized.
pub const UNAUTHORIZED_PAGE: &'static str =
    "<!doctype html><html><head><meta charset=\"utf-8\"><title>Forbidden</title></head>\
     <body><h1>Sync forbidden</h1><p>Use localhost or provide a valid SYNC_TOKEN.</p></body></html>";

/// The answer to requests for anything else.
pub const NOT_FOUND: &'static str = "Not found";

/// The answer to requests that are too many.
pub const BUSY: &'static str = "Service Unavailable";

/// The method of a request, as far as it matters.
#[derive(Clone, Copy, PartialEq, Eq, Structural)]
pub enum Method {
    Get,
    Post,
    Other,
}

/// What a request asks for.
#[derive(Clone, Copy, PartialEq, Eq, Structural)]
pub enum Route {
    /// The page that shows the sheet.
    Sheet,
    /// A sync.
    Sync,
    /// Nothing that there is.
    NotFound,
}

/// What a request with this method for this path asks for.
pub open spec fn route_of(method: Method, path: Seq<char>) -> Route {
    if method == Method::Get && path == "/"@ {
        Route::Sheet
    } else if method == Method::Post && path == "/sync"@ {
        Route::Sync
    } else {
        Route::NotFound
    }
}

/// What a request with this method for this path asks for.
pub fn route(method: Method, path: &str) -> (r: Route)
    ensures
        r == route_of(method, path@),
{
    match method {
        Method::Get => if str_eq(path, "/") {
            Route::Sheet
        } else {
            Route::NotFound
        },
        Method::Post => if str_eq(path, "/sync") {
            Route::Sync
        } else {
            Route::NotFound
        },
        Method::Other => Route::NotFound,
    }
}

/// Whether a request is handled now.
#[derive(Clone, Copy, PartialEq, Eq, Structural)]
pub enum Admission {
    /// It is handled.
    Handle,
    /// It is handled when another is done.
    Wait,
    /// It is refused.
    Refuse,
}

/// Counts the requests that are being handled.
pub struct RequestGate {
    active: usize,
}

impl RequestGate {
    /// How many requests are being handled.
    pub closed spec fn active(&self) -> nat {
        self.active as nat
    }

    /// There are never more than the maximum.
    #[verifier::type_invariant]
    spec fn within_the_maximum(&self) -> bool {
        self.active <= MAX_CONCURRENT_REQUESTS
    }

    /// No request is being handled.
    pub fn new() -> (r: RequestGate)
        ensures
            r.active() == 0,
    {
        RequestGate { active: 0 }
    }

    /// Whether a request is handled now; if it is, it is counted. While the maximum is reached a
    /// sync is refused and anything else waits.
    pub fn enter(&mut self, route: Route) -> (r: Admission)
        ensures
            final(self).active() <= MAX_CONCURRENT_REQUESTS,
            old(self).active() < MAX_CONCURRENT_REQUESTS ==> r == Admission::Handle,
            old(self).active() < MAX_CONCURRENT_REQUESTS ==> final(self).active()
                == old(self).active() + 1,
            old(self).active() >= MAX_CONCURRENT_REQUESTS ==> r == if route == Route::Sync {
                Admission::Refuse
            } else {
                Admission::Wait
            },
            old(self).active() >= MAX_CONCURRENT_REQUESTS ==> final(self).active()
                == old(self).active(),
    {
        proof {
            use_type_invariant(&*self);
        }
        if self.active < MAX_CONCURRENT_REQUESTS {
            self.active = self.active + 1;
            Admission::Handle
        } else if route == Route::Sync {
            Admission::Refuse
        } else {
            Admission::Wait
        }
    }

    /// A request that was counted is done. Without any, nothing changes.
    pub fn leave(&mut self)
        ensures
            final(self).active() == if old(self).active() > 0 {
                old(self).active() - 1
            } else {
                0
            },
    {
        proof {
            use_type_invariant(&*self);
        }
        if self.active > 0 {
            self.active = self.active - 1;
        }
    }
}

/// An answer.
pub struct Reply {
    /// The status code.
    pub status: u16,
    /// Whether the body is HTML; else it is plain text.
    pub html: bool,
    /// The body.
    pub body: String,
}

/// An answer by its characters.
pub struct ReplyModel {
    pub status: u16,
    pub html: bool,
    pub body: Seq<char>,
}

impl View for Reply {
    type V = ReplyModel;

    open spec fn view(&self) -> ReplyModel {
        ReplyModel { status: self.status, html: self.html, body: self.body@ }
    }
}

/// A page that is answered in the ordinary way.
pub open spec fn page_reply(body: Seq<char>) -> ReplyModel {
    ReplyModel { status: 200, html: true, body }
}

/// A page that is answered in the ordinary way.
pub fn html_response(body: String) -> (r: Reply)
    ensures
        r@ == page_reply(body@),
{
    Reply { status: 200, html: true, body }
}

/// The page that tells of an error.
pub open spec fn error_page(message: Seq<char>) -> Seq<char> {
    "<!doctype html><html><head><meta charset=\"utf-8\"><title>Error</title></head>\
     <body><h1>Failed to load spreadsheet</h1><pre>"@
        + escape(message) + "</pre></body></html>"@
}

/// The page that tells of an error.
pub fn render_error_page(message: &str) -> (r: String)
    ensures
        r@ == error_page(message@),
{
    let mut out: String =
        "<!doctype html><html><head><meta charset=\"utf-8\"><title>Error</title></head>\
     <body><h1>Failed to load spreadsheet</h1><pre>".to_owned();
    out.append(escape_html(message).as_str());
    out.append("</pre></body></html>");
    out
}

/// The page for requests that are not authorized.
pub fn render_unauthorized_page() -> (r: String)
    ensures
        r@ == UNAUTHORIZED_PAGE@,
{
    UNAUTHORIZED_PAGE.to_owned()
}

/// A line on an event that was published; nothing if none was.
pub open spec fn event_line(label: Seq<char>, id: Option<Seq<char>>) -> Seq<char> {
    match id {
        Some(i) => "<p>"@ + label + ": <code>"@ + escape(i) + "</code></p>"@,
        None => Seq::empty(),
    }
}

/// A line on an event that was published; nothing if none was.
fn render_event_line(label: &str, id: &Option<String>) -> (r: String)
    ensures
        r@ == event_line(label@, optional_string(*id)),
{
    match id {
        Some(i) => {
            let mut out: String = "<p>".to_owned();
            out.append(label);
            out.append(": <code>");
            out.append(escape_html(i.as_str()).as_str());
            out.append("</code></p>");
            out
        },
        None => String::new(),
    }
}

/// The page that tells of a sync.
pub open spec fn sync_page(result: SyncResultModel) -> Seq<char> {
    "<!doctype html><html><head><meta charset=\"utf-8\"><title>Synced</title></head>\
     <body><h1>Snapshot synced</h1><p>Commit: <code>"@
        + escape(result.commit_id) + "</code></p><p>SHA-256: <code>"@ + escape(
        result.snapshot.sha256,
    ) + "</code></p><p>Rows: "@ + decimal(result.snapshot.rows) + "</p>"@ + event_line(
        "Nostr event"@,
        result.nostr_event_id,
    ) + event_line("NIP-34 event"@, result.nip34_event_id)
        + "<p><a href=\"/\">Back</a></p></body></html>"@
}

/// The page that tells of a sync.
pub fn render_sync_page(result: &SyncResult) -> (r: String)
    ensures
        r@ == sync_page(result@),
{
    let mut out: String =
        "<!doctype html><html><head><meta charset=\"utf-8\"><title>Synced</title></head>\
     <body><h1>Snapshot synced</h1><p>Commit: <code>".to_owned();
    out.append(escape_html(result.commit_id.as_str()).as_str());
    out.append("</code></p><p>SHA-256: <code>");
    out.append(escape_html(result.snapshot.sha256.as_str()).as_str());
    out.append("</code></p><p>Rows: ");
    push_decimal(&mut out, result.snapshot.rows as u128);
    out.append("</p>");
    out.append(render_event_line("Nostr event", &result.nostr_event_id).as_str());
    out.append(render_event_line("NIP-34 event", &result.nip34_event_id).as_str());
    out.append("<p><a href=\"/\">Back</a></p></body></html>");
    out
}

/// The page that shows the sheet of a CSV text, or the text of the first error in it.
pub open spec fn sheet_html(body: Seq<char>) -> Result<Seq<char>, Seq<char>> {
    match collected(csv_records(body)) {
        Ok(rows) => Ok(sheet_page(parsed(rows))),
        Err(message) => Err(message),
    }
}

/// A text, or the text of an error, by its characters.
pub open spec fn text_result_view(result: Result<String, String>) -> Result<Seq<char>, Seq<char>> {
    match result {
        Ok(text) => Ok(text@),
        Err(message) => Err(message@),
    }
}

/// The page that shows the sheet of a CSV text, or the text of the first error in it.
pub fn render_sheet_html(body: &str) -> (r: Result<String, String>)
    ensures
        text_result_view(r) == sheet_html(body@),
{
    match read_rows(body) {
        Ok(rows) => Ok(render_sheet_page(&rows)),
        Err(message) => Err(message),
    }
}

/// The answer to a request for the page, given the page or what went wrong.
pub open spec fn page_or_error(page: Result<Seq<char>, Seq<char>>) -> ReplyModel {
    match page {
        Ok(html) => page_reply(html),
        Err(message) => page_reply(error_page(message)),
    }
}

/// The answer to a request for the page, given the page or what went wrong.
pub fn page_response(page: Result<String, String>) -> (r: Reply)
    ensures
        r@ == page_or_error(text_result_view(page)),
{
    match page {
        Ok(html) => html_response(html),
        Err(message) => html_response(render_error_page(message.as_str())),
    }
}

/// The answer to a request for the page, given the sheet as it was fetched or why it was not.
pub fn sheet_response(fetched: Result<String, String>) -> (r: Reply)
    ensures
        r@ == page_or_error(
            match fetched {
                Ok(body) => sheet_html(body@),
                Err(message) => Err(message@),
            },
        ),
        r.status == 200 && r.html,
{
    match fetched {
        Ok(body) => page_response(render_sheet_html(body.as_str())),
        Err(message) => page_response(Err(message)),
    }
}

/// The answer to a request for a sync, given what it has come to.
pub fn sync_response(outcome: Result<SyncResult, String>) -> (r: Reply)
    ensures
        r@ == match outcome {
            Ok(result) => page_reply(sync_page(result@)),
            Err(message) => page_reply(error_page(message@)),
        },
{
    match outcome {
        Ok(result) => html_response(render_sync_page(&result)),
        Err(message) => html_response(render_error_page(message.as_str())),
    }
}

/// The answer to a request for a sync that is refused because there are too many.
pub fn busy_response() -> (r: Reply)
    ensures
        r@ == (ReplyModel { status: 503, html: false, body: BUSY@ }),
{
    Reply { status: 503, html: false, body: BUSY.to_owned() }
}

/// What is to be done for a request.
pub enum RequestStep {
    /// Fetch the sheet and show it.
    ShowSheet,
    /// Run a sync and tell of it.
    RunSync,
    /// Answer.
    Answer { reply: Reply },
}

/// What is to be done for a request, by its characters.
pub enum RequestStepModel {
    ShowSheet,
    RunSync,
    Answer { reply: ReplyModel },
}

impl View for RequestStep {
    type V = RequestStepModel;

    open spec fn view(&self) -> RequestStepModel {
        match self {
            RequestStep::ShowSheet => RequestStepModel::ShowSheet,
            RequestStep::RunSync => RequestStepModel::RunSync,
            RequestStep::Answer { reply } => RequestStepModel::Answer { reply: reply@ },
        }
    }
}

/// What is to be done for a request: the sheet is shown to anyone, a sync is run for those who
/// are authorized.
pub open spec fn request_step(
    method: Method,
    path: Seq<char>,
    loopback: bool,
    token: Option<Seq<char>>,
    headers: Seq<HeaderModel>,
) -> RequestStepModel {
    match route_of(method, path) {
        Route::Sheet => RequestStepModel::ShowSheet,
        Route::Sync => if authorized(loopback, token, headers) {
            RequestStepModel::RunSync
        } else {
            RequestStepModel::Answer {
                reply: ReplyModel { status: 403, html: true, body: UNAUTHORIZED_PAGE@ },
            }
        },
        Route::NotFound => RequestStepModel::Answer {
            reply: ReplyModel { status: 404, html: false, body: NOT_FOUND@ },
        },
    }
}

/// What is to be done for a request.
pub fn route_request(
    method: Method,
    path: &str,
    loopback: bool,
    sync_token: Option<&str>,
    headers: &Vec<RequestHeader>,
) -> (r: RequestStep)
    ensures
        r@ == request_step(
            method,
            path@,
            loopback,
            optional_text(sync_token),
            headers_view(headers@),
        ),
{
    match route(method, path) {
        Route::Sheet => RequestStep::ShowSheet,
        Route::Sync => if sync_request_authorized(loopback, sync_token, headers) {
            RequestStep::RunSync
        } else {
            let page: Reply = html_response(render_unauthorized_page());
            RequestStep::Answer { reply: Reply { status: 403, html: page.html, body: page.body } }
        },
        Route::NotFound => RequestStep::Answer {
            reply: Reply { status: 404, html: false, body: NOT_FOUND.to_owned() },
        },
    }
}

/// A sync is run for requests `POST /sync` only, and only if they are authorized; one that is
/// not is forbidden.
pub proof fn syncs_are_run_for_the_authorized_only(
    method: Method,
    path: Seq<char>,
    loopback: bool,
    token: Option<Seq<char>>,
    headers: Seq<HeaderModel>,
)
    ensures
        request_step(method, path, loopback, token, headers) is RunSync <==> method == Method::Post
            && path == "/sync"@ && authorized(loopback, token, headers),
        method == Method::Post && path == "/sync"@ && !authorized(loopback, token, headers) ==> (
        request_step(method, path, loopback, token, headers) matches RequestStepModel::Answer {
            reply,
        } && reply.status == 403),
{
}

/// Anyone is shown the sheet.
pub proof fn anyone_is_shown_the_sheet(
    loopback: bool,
    token: Option<Seq<char>>,
    headers: Seq<HeaderModel>,
)
    ensures
        request_step(Method::Get, "/"@, loopback, token, headers) is ShowSheet,
{
}

/// Whatever goes wrong, a request for the page is answered with a page.
pub proof fn the_browser_always_gets_a_page(page: Result<Seq<char>, Seq<char>>)
    ensures
        page_or_error(page).status == 200 && page_or_error(page).html,
{
}

/// There are two requests that are served, `GET /` and `POST /sync`; any other is answered that
/// nothing was found.
pub proof fn two_requests_are_served(
    method: Method,
    path: Seq<char>,
    loopback: bool,
    token: Option<Seq<char>>,
    headers: Seq<HeaderModel>,
)
    ensures
        route_of(method, path) is Sheet <==> method is Get && path == "/"@,
        route_of(method, path) is Sync <==> method is Post && path == "/sync"@,
        request_step(method, path, loopback, token, headers) is ShowSheet <==> method is Get && path
            == "/"@,
        !(method is Get && path == "/"@) && !(method is Post && path == "/sync"@) ==> request_step(
            method,
            path,
            loopback,
            token,
            headers,
        ) == (RequestStepModel::Answer {
            reply: ReplyModel { status: 404, html: false, body: "Not found"@ },
        }),
        method is Post && path == "/sync"@ && !authorized(loopback, token, headers) ==> (
        request_step(method, path, loopback, token, headers) matches RequestStepModel::Answer {
            reply,
        } && reply.status == 403 && reply.html && reply.body
            == "<!doctype html><html><head><meta charset=\"utf-8\"><title>Forbidden</title></head>\
     <body><h1>Sync forbidden</h1><p>Use localhost or provide a valid SYNC_TOKEN.</p></body></html>"@),
{
}

/// A page is answered as it is, with the status of success; an error with the page that tells of
/// it.
pub proof fn pages_are_answered_as_they_are(html: Seq<char>, message: Seq<char>)
    ensures
        page_reply(html) == (ReplyModel { status: 200, html: true, body: html }),
        page_or_error(Ok(html)) == (ReplyModel { status: 200, html: true, body: html }),
        page_or_error(Err(message)) == (ReplyModel {
            status: 200,
            html: true,
            body: error_page(message),
        }),
{
}

/// The page that is shown is that of all the rows of the sheet that was fetched; a sheet whose
/// records cannot be read is answered with their first error.
pub proof fn the_fetched_sheet_is_shown(body: Seq<char>)
    ensures
        collected(csv_records(body)) matches Ok(rows) ==> sheet_html(body) == Ok::<
            Seq<char>,
            Seq<char>,
        >(sheet_page(parsed(rows))),
        collected(csv_records(body)) matches Err(message) ==> sheet_html(body) == Err::<
            Seq<char>,
            Seq<char>,
        >(message),
{
}

/// A text with the part in its middle contains it.
proof fn lemma_contains_middle(s: Seq<char>, a: Seq<char>, p: Seq<char>, b: Seq<char>)
    requires
        s == a + p + b,
    ensures
        contains(s, p),
{
    texts_contain_their_parts(a, p, b);
}

/// The page that tells of an error shows the whole message, escaped.
pub proof fn error_pages_show_the_message(message: Seq<char>)
    ensures
        contains(error_page(message), "<pre>"@ + escape(message) + "</pre>"@),
        contains(error_page(message), "<h1>Failed to load spreadsheet</h1>"@),
{
    let head =
        "<!doctype html><html><head><meta charset=\"utf-8\"><title>Error</title></head>\
     <body><h1>Failed to load spreadsheet</h1><pre>"@;
    let tail = "</pre></body></html>"@;
    reveal_strlit(
        "<!doctype html><html><head><meta charset=\"utf-8\"><title>Error</title></head>\
     <body><h1>Failed to load spreadsheet</h1><pre>",
    );
    reveal_strlit("</pre></body></html>");
    reveal_strlit("<pre>");
    reveal_strlit("</pre>");
    reveal_strlit("<h1>Failed to load spreadsheet</h1>");
    let n = head.len() as int;
    assert(head.skip(n - 5) =~= "<pre>"@);
    assert(tail.take(6) =~= "</pre>"@);
    assert(error_page(message) =~= head.take(n - 5) + ("<pre>"@ + escape(message) + "</pre>"@)
        + tail.skip(6));
    lemma_contains_middle(
        error_page(message),
        head.take(n - 5),
        "<pre>"@ + escape(message) + "</pre>"@,
        tail.skip(6),
    );
    let h = "<h1>Failed to load spreadsheet</h1>"@;
    let m = n - 5 - h.len();
    assert(head.subrange(m, n - 5) =~= h);
    assert(error_page(message) =~= head.take(m) + h + (head.skip(n - 5) + escape(message) + tail));
    lemma_contains_middle(
        error_page(message),
        head.take(m),
        h,
        head.skip(n - 5) + escape(message) + tail,
    );
}

/// A line on an event names it and shows its id in whole, escaped.
proof fn lemma_event_lines(id: Seq<char>)
    ensures
        event_line("Nostr event"@, Some(id)) == "<p>Nostr event: <code>"@ + escape(id)
            + "</code></p>"@,
        event_line("NIP-34 event"@, Some(id)) == "<p>NIP-34 event: <code>"@ + escape(id)
            + "</code></p>"@,
{
    reveal_strlit("<p>");
    reveal_strlit("Nostr event");
    reveal_strlit("NIP-34 event");
    reveal_strlit(": <code>");
    reveal_strlit("<p>Nostr event: <code>");
    reveal_strlit("<p>NIP-34 event: <code>");
    assert("<p>"@ + "Nostr event"@ + ": <code>"@ =~= "<p>Nostr event: <code>"@);
    assert("<p>"@ + "NIP-34 event"@ + ": <code>"@ =~= "<p>NIP-34 event: <code>"@);
}

/// The page that tells of a sync shows the commit, the digest and the number of rows, and each
/// event exactly if it was published, all in whole and escaped, in this order and with nothing
/// between them.
pub proof fn sync_pages_show_the_result(result: SyncResultModel, note: Seq<char>, other: Seq<char>)
    requires
        note == match result.nostr_event_id {
            Some(id) => "<p>Nostr event: <code>"@ + escape(id) + "</code></p>"@,
            None => Seq::empty(),
        },
        other == match result.nip34_event_id {
            Some(id) => "<p>NIP-34 event: <code>"@ + escape(id) + "</code></p>"@,
            None => Seq::empty(),
        },
    ensures
        sync_page(result)
            == "<!doctype html><html><head><meta charset=\"utf-8\"><title>Synced</title></head>\
     <body><h1>Snapshot synced</h1><p>Commit: <code>"@
            + escape(result.commit_id) + "</code></p><p>SHA-256: <code>"@ + escape(
            result.snapshot.sha256,
        ) + "</code></p><p>Rows: "@ + decimal(result.snapshot.rows) + "</p>"@ + note + other
            + "<p><a href=\"/\">Back</a></p></body></html>"@,
{
    if let Some(id) = result.nostr_event_id {
        lemma_event_lines(id);
    }
    if let Some(id) = result.nip34_event_id {
        lemma_event_lines(id);
    }
}

/// An answer is seen as what its fields hold.
pub proof fn replies_are_seen_by_their_fields(reply: Reply)
    ensures
        reply@.status == reply.status,
        reply@.html == reply.html,
        reply@.body == reply.body@,
{
}

} // verus!
