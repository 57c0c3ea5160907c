use startsmall::auth::RequestHeader;
use startsmall::http::{
    busy_response, html_response, page_response, render_error_page, render_sheet_html,
    render_sync_page, render_unauthorized_page, route, route_request, sheet_response,
    sync_response, Admission, Method, Reply, RequestGate, RequestStep, Route,
    MAX_CONCURRENT_REQUESTS,
};
use startsmall::page::render_sheet_page;
use startsmall::snapshot::snapshot_with_digest;
use startsmall::sync::SyncResult;

fn result(note: Option<&str>, announcement: Option<&str>) -> SyncResult {
    SyncResult {
        snapshot: snapshot_with_digest("u", String::new(), 7, &vec![0xab]),
        commit_id: "c<0>".to_string(),
        changed: true,
        nostr_event_id: note.map(|s| s.to_string()),
        nip34_event_id: announcement.map(|s| s.to_string()),
    }
}

fn answer(step: RequestStep) -> Reply {
    match step {
        RequestStep::Answer { reply } => reply,
        _ => panic!("no answer"),
    }
}

#[test]
fn requests_are_routed() {
    assert!(route(Method::Get, "/") == Route::Sheet);
    assert!(route(Method::Post, "/sync") == Route::Sync);
    assert!(route(Method::Get, "/sync") == Route::NotFound);
    assert!(route(Method::Post, "/") == Route::NotFound);
    assert!(route(Method::Other, "/") == Route::NotFound);
    assert!(route(Method::Get, "/?q") == Route::NotFound);
    assert!(route(Method::Post, "/sync/") == Route::NotFound);
}

#[test]
fn the_sheet_is_shown_to_anyone() {
    let step = route_request(Method::Get, "/", false, None, &vec![]);
    assert!(matches!(step, RequestStep::ShowSheet));
}

#[test]
fn syncs_are_for_the_authorized() {
    let step = route_request(Method::Post, "/sync", true, None, &vec![]);
    assert!(matches!(step, RequestStep::RunSync));
    let headers =
        vec![RequestHeader { field: "X-Sync-Token".to_string(), value: "t".to_string() }];
    let step = route_request(Method::Post, "/sync", false, Some("t"), &headers);
    assert!(matches!(step, RequestStep::RunSync));
    let reply = answer(route_request(Method::Post, "/sync", false, None, &headers));
    assert_eq!((reply.status, reply.html), (403, true));
    assert_eq!(
        reply.body,
        "<!doctype html><html><head><meta charset=\"utf-8\"><title>Forbidden</title></head>\
         <body><h1>Sync forbidden</h1><p>Use localhost or provide a valid SYNC_TOKEN.</p></body></html>"
    );
    assert_eq!(reply.body, render_unauthorized_page());
}

#[test]
fn anything_else_is_not_found() {
    let reply = answer(route_request(Method::Get, "/favicon.ico", true, None, &vec![]));
    assert_eq!((reply.status, reply.html, reply.body.as_str()), (404, false, "Not found"));
}

#[test]
fn too_many_syncs_are_refused() {
    assert_eq!(MAX_CONCURRENT_REQUESTS, 16);
    let mut gate = RequestGate::new();
    for _ in 0..16 {
        assert!(gate.enter(Route::Sheet) == Admission::Handle);
    }
    assert!(gate.enter(Route::Sync) == Admission::Refuse);
    assert!(gate.enter(Route::Sheet) == Admission::Wait);
    assert!(gate.enter(Route::NotFound) == Admission::Wait);
    gate.leave();
    assert!(gate.enter(Route::Sync) == Admission::Handle);
    assert!(gate.enter(Route::Sync) == Admission::Refuse);
    let mut idle = RequestGate::new();
    idle.leave();
    for _ in 0..16 {
        assert!(idle.enter(Route::Sync) == Admission::Handle);
    }
    assert!(idle.enter(Route::Sync) == Admission::Refuse);
    let reply = busy_response();
    assert_eq!((reply.status, reply.html), (503, false));
    assert_eq!(reply.body, "Service Unavailable");
}

#[test]
fn errors_are_shown_on_a_page() {
    assert_eq!(
        render_error_page("<oops>"),
        "<!doctype html><html><head><meta charset=\"utf-8\"><title>Error</title></head>\
         <body><h1>Failed to load spreadsheet</h1><pre>&lt;oops&gt;</pre></body></html>"
    );
    let reply = sheet_response(Err("down".to_string()));
    assert_eq!((reply.status, reply.html), (200, true));
    assert_eq!(reply.body, render_error_page("down"));
    let reply = sync_response(Err("broken".to_string()));
    assert_eq!((reply.status, reply.html), (200, true));
    assert_eq!(reply.body, render_error_page("broken"));
    let reply = page_response(Err("bad".to_string()));
    assert_eq!(reply.body, render_error_page("bad"));
}

#[test]
fn the_sheet_is_shown_on_a_page() {
    let rows = vec![
        vec!["date".to_string(), "amount".to_string()],
        vec!["1".to_string(), "2".to_string()],
    ];
    let page = render_sheet_page(&rows);
    assert_eq!(render_sheet_html("date,amount\n1,2\n").unwrap(), page);
    let reply = sheet_response(Ok("date,amount\n1,2\n".to_string()));
    assert_eq!((reply.status, reply.html, reply.body), (200, true, page));
    let broken = sheet_response(Ok("a,b\nc\n".to_string()));
    assert_eq!(broken.status, 200);
    assert!(broken.body.contains("Failed to load spreadsheet"));
    assert!(render_sheet_html("a,b\nc\n").is_err());
    assert_eq!(html_response("x".to_string()).body, "x");
}

#[test]
fn syncs_are_told_of_on_a_page() {
    assert_eq!(
        render_sync_page(&result(Some("n"), Some("&"))),
        "<!doctype html><html><head><meta charset=\"utf-8\"><title>Synced</title></head>\
         <body><h1>Snapshot synced</h1><p>Commit: <code>c&lt;0&gt;</code></p>\
         <p>SHA-256: <code>ab</code></p>\
         <p>Rows: 7</p><p>Nostr event: <code>n</code></p><p>NIP-34 event: <code>&amp;</code></p>\
         <p><a href=\"/\">Back</a></p></body></html>"
    );
    let reply = sync_response(Ok(result(None, None)));
    assert_eq!((reply.status, reply.html), (200, true));
    assert!(reply.body.contains("<p>Rows: 7</p><p><a href=\"/\">Back</a></p>"));
}
