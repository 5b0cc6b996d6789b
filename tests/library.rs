use hofmeister_lsp::analyzer::{analyze, DiagnosticKind, Position, Severity, Span};
use hofmeister_lsp::capabilities::negotiate;
use hofmeister_lsp::dispatcher::{
    completion, dispatch, hover, DispatchError, Request, RequestKind, Response,
};
use hofmeister_lsp::publisher::Debouncer;
use hofmeister_lsp::session::Session;
use hofmeister_lsp::store::{DocumentStore, StoreError};

fn chars(s: &str) -> Vec<char> {
    s.chars().collect()
}

fn pos(line: u32, character: u32) -> Position {
    Position { line, character }
}

#[test]
fn open_main_reports_one_construct_and_no_diagnostics() {
    let mut store = DocumentStore::new();
    assert_eq!(store.open("doc.txt".to_string(), "fn main() {}".to_string(), 1), Ok(()));
    let snap = store.snapshot(&"doc.txt".to_string()).unwrap();
    let model = analyze(&snap.text, snap.version).unwrap();
    assert_eq!(model.version, 1);
    assert_eq!(model.constructs.len(), 1);
    assert_eq!(model.constructs[0].span, Span { start: pos(0, 0), end: pos(0, 9) });
    assert_eq!(model.constructs[0].name, chars("main"));
    assert_eq!(model.constructs[0].header, chars("fn main()"));
    assert!(model.diagnostics.is_empty());
}

#[test]
fn change_with_older_version_is_a_regression() {
    let mut store = DocumentStore::new();
    let uri = "a.rs".to_string();
    store.open(uri.clone(), "one".to_string(), 3).unwrap();
    assert_eq!(
        store.apply_full_change(&uri, "two".to_string(), 0),
        Err(StoreError::VersionRegression)
    );
    assert_eq!(
        store.apply_full_change(&uri, "two".to_string(), 3),
        Err(StoreError::VersionRegression)
    );
    let snap = store.snapshot(&uri).unwrap();
    assert_eq!(snap.text, "one");
    assert_eq!(snap.version, 3);
}

#[test]
fn change_with_newer_version_replaces_text() {
    let mut store = DocumentStore::new();
    let uri = "a.rs".to_string();
    store.open(uri.clone(), "one".to_string(), 3).unwrap();
    assert_eq!(store.apply_full_change(&uri, "two".to_string(), 4), Ok(()));
    let snap = store.snapshot(&uri).unwrap();
    assert_eq!(snap.text, "two");
    assert_eq!(snap.version, 4);
}

#[test]
fn close_unopened_is_unknown() {
    let mut store = DocumentStore::new();
    assert_eq!(store.close(&"nowhere.rs".to_string()), Err(StoreError::UnknownDocument));
}

#[test]
fn store_errors() {
    let mut store = DocumentStore::new();
    let uri = "x".to_string();
    assert_eq!(
        store.apply_full_change(&uri, String::new(), 1),
        Err(StoreError::UnknownDocument)
    );
    assert!(matches!(store.snapshot(&uri), Err(StoreError::UnknownDocument)));
    store.open(uri.clone(), String::new(), 1).unwrap();
    assert_eq!(store.open(uri.clone(), String::new(), 2), Err(StoreError::AlreadyOpen));
    store.open("y".to_string(), "y text".to_string(), 7).unwrap();
    assert_eq!(store.close(&uri), Ok(()));
    assert!(store.snapshot(&uri).is_err());
    assert_eq!(store.snapshot(&"y".to_string()).unwrap().text, "y text");
    assert_eq!(store.close(&uri), Err(StoreError::UnknownDocument));
}

#[test]
fn hover_outside_any_construct_is_empty() {
    let model = analyze("fn main() {}\n\nlet x = 1;", 1).unwrap();
    assert!(hover(&model, pos(1, 0)).is_none());
    assert!(hover(&model, pos(2, 3)).is_none());
    assert!(hover(&model, pos(0, 9)).is_none());
    let h = hover(&model, pos(0, 4)).unwrap();
    assert_eq!(h.span, Span { start: pos(0, 0), end: pos(0, 9) });
    assert_eq!(h.text, chars("fn main()"));
}

#[test]
fn rapid_changes_publish_only_the_last_version() {
    let mut store = DocumentStore::new();
    let uri = "doc.rs".to_string();
    store.open(uri.clone(), "fn a() {}".to_string(), 4).unwrap();
    let mut d = Debouncer::new(100);
    store.apply_full_change(&uri, "fn\n".to_string(), 5).unwrap();
    d.on_change(5, 1000);
    store.apply_full_change(&uri, "fn b(\n".to_string(), 6).unwrap();
    d.on_change(6, 1050);
    let snap = store.snapshot(&uri).unwrap();
    assert!(d.poll(1100, &snap).is_none());
    let p = d.poll(1150, &snap).unwrap();
    assert_eq!(p.version, 6);
    assert_eq!(p.diagnostics.len(), 1);
    assert_eq!(p.diagnostics[0].kind, DiagnosticKind::MissingCloseParen);
    assert!(d.poll(5000, &snap).is_none());
    assert_eq!(d.last_published, Some(6));
}

#[test]
fn publication_replaces_previous_set() {
    let mut d = Debouncer::new(0);
    let mut store = DocumentStore::new();
    let uri = "r.rs".to_string();
    store.open(uri.clone(), "fn\nfn x\n".to_string(), 1).unwrap();
    d.on_change(1, 0);
    let first = d.poll(0, &store.snapshot(&uri).unwrap()).unwrap();
    assert_eq!(first.diagnostics.len(), 1);
    assert_eq!(d.shown.len(), 1);
    store.apply_full_change(&uri, "fn ok() {}\n".to_string(), 2).unwrap();
    d.on_change(2, 10);
    let second = d.poll(10, &store.snapshot(&uri).unwrap()).unwrap();
    assert_eq!(second.version, 2);
    assert!(second.diagnostics.is_empty());
    assert!(d.shown.is_empty());
}

#[test]
fn published_versions_never_go_back() {
    let mut d = Debouncer::new(0);
    let mut store = DocumentStore::new();
    let uri = "m.rs".to_string();
    store.open(uri.clone(), "x".to_string(), 9).unwrap();
    d.on_change(9, 0);
    assert_eq!(d.poll(0, &store.snapshot(&uri).unwrap()).unwrap().version, 9);
    let mut older = DocumentStore::new();
    older.open(uri.clone(), "y".to_string(), 8).unwrap();
    d.on_change(8, 1);
    assert!(d.poll(1, &older.snapshot(&uri).unwrap()).is_none());
    assert_eq!(d.last_published, Some(9));
    assert!(d.pending.is_none());
}

#[test]
fn close_clears_published_diagnostics() {
    let mut d = Debouncer::new(5);
    d.on_change(1, 0);
    let cleared = d.on_close();
    assert!(cleared.is_empty());
    assert!(d.pending.is_none());
    assert!(d.shown.is_empty());
}

#[test]
fn due_time_saturates() {
    let mut d = Debouncer::new(10);
    d.on_change(1, u64::MAX - 3);
    assert_eq!(d.pending.unwrap().due, u64::MAX);
}

#[test]
fn analysis_is_deterministic() {
    let text = "fn a(x) {}\n  fn b()\nfn\tc( \nfn (\n";
    let m1 = analyze(text, 2).unwrap();
    let m2 = analyze(text, 2).unwrap();
    assert_eq!(m1.constructs.len(), m2.constructs.len());
    for (a, b) in m1.constructs.iter().zip(m2.constructs.iter()) {
        assert_eq!(a.name, b.name);
        assert_eq!(a.header, b.header);
        assert_eq!(a.span, b.span);
    }
    assert_eq!(m1.diagnostics, m2.diagnostics);
}

#[test]
fn malformed_declarations_become_hints() {
    let m = analyze("fn a(x) {}\n  fn b()\nfn\tc( \nfn (\nfn x y\n", 1).unwrap();
    assert_eq!(m.constructs.len(), 2);
    assert_eq!(m.constructs[1].name, chars("b"));
    assert_eq!(m.constructs[1].span, Span { start: pos(1, 2), end: pos(1, 8) });
    let kinds: Vec<DiagnosticKind> = m.diagnostics.iter().map(|d| d.kind).collect();
    assert_eq!(
        kinds,
        vec![
            DiagnosticKind::MissingCloseParen,
            DiagnosticKind::MissingName,
            DiagnosticKind::MissingOpenParen
        ]
    );
    assert!(m.diagnostics.iter().all(|d| d.severity == Severity::Hint));
    assert_eq!(m.diagnostics[0].span, Span { start: pos(2, 0), end: pos(2, 6) });
    assert_eq!(m.diagnostics[0].message(), "parameter list is not closed");
    assert_eq!(m.diagnostics[1].message(), "declaration without a name");
    assert_eq!(m.diagnostics[2].message(), "declaration without a parameter list");
}

#[test]
fn empty_text_has_empty_model() {
    let m = analyze("", 0).unwrap();
    assert!(m.constructs.is_empty());
    assert!(m.diagnostics.is_empty());
}

#[test]
fn columns_count_utf16_units() {
    let m = analyze("\u{1F600} fn é() {}", 1).unwrap();
    assert_eq!(m.constructs.len(), 0);
    let m = analyze("\t fn é() {}", 1).unwrap();
    assert_eq!(m.constructs.len(), 0);
    let m = analyze("fn f(\u{1F600}) {}", 1).unwrap();
    assert_eq!(m.constructs[0].span, Span { start: pos(0, 0), end: pos(0, 8) });
}

#[test]
fn completion_orders_by_proximity_and_dedups() {
    let text = "fn a() {}\nfn b() {}\nfn a() {}\nx\nfn c() {}\nfn d() {}\n";
    let model = analyze(text, 1).unwrap();
    let names = completion(&model, pos(3, 0));
    assert_eq!(names, vec![chars("a"), chars("c"), chars("b"), chars("d")]);
    let names = completion(&model, pos(0, 0));
    assert_eq!(names, vec![chars("a"), chars("b"), chars("c"), chars("d")]);
    let names = completion(&model, pos(1, 0));
    assert_eq!(names, vec![chars("b"), chars("a"), chars("c"), chars("d")]);
    assert!(completion(&analyze("", 1).unwrap(), pos(0, 0)).is_empty());
}

#[test]
fn completion_prefers_nearer_declaration_below() {
    let model = analyze("fn a() {}\n\n\n\n\n\nfn b() {}", 1).unwrap();
    assert_eq!(completion(&model, pos(5, 0)), vec![chars("b"), chars("a")]);
    assert_eq!(completion(&model, pos(3, 0)), vec![chars("a"), chars("b")]);
}

#[test]
fn dispatch_answers_against_current_version() {
    let mut store = DocumentStore::new();
    let uri = "d.rs".to_string();
    store.open(uri.clone(), "fn old() {}".to_string(), 1).unwrap();
    store.apply_full_change(&uri, "\nfn new() {}".to_string(), 2).unwrap();
    let req = Request {
        kind: RequestKind::Hover,
        uri: uri.clone(),
        version_at_receipt: 1,
        position: pos(1, 4),
        cancelled: false,
    };
    let answer = dispatch(&store, &req).unwrap();
    assert_eq!(answer.version, 2);
    match answer.response {
        Response::Hover(Some(h)) => assert_eq!(h.text, chars("fn new()")),
        _ => panic!("expected a hover"),
    }
    let stale = Request { position: pos(0, 4), ..req };
    match dispatch(&store, &stale).unwrap().response {
        Response::Hover(h) => assert!(h.is_none()),
        _ => panic!("expected a hover"),
    }
}

#[test]
fn dispatch_errors() {
    let mut store = DocumentStore::new();
    let req = Request {
        kind: RequestKind::Completion,
        uri: "q.rs".to_string(),
        version_at_receipt: 1,
        position: pos(0, 0),
        cancelled: false,
    };
    assert!(matches!(dispatch(&store, &req), Err(DispatchError::UnknownDocument)));
    store.open("q.rs".to_string(), "fn z() {}".to_string(), 1).unwrap();
    match dispatch(&store, &req).unwrap().response {
        Response::Completion(c) => assert_eq!(c, vec![chars("z")]),
        _ => panic!("expected completions"),
    }
    let cancelled = Request { cancelled: true, ..req };
    assert!(matches!(dispatch(&store, &cancelled), Err(DispatchError::Cancelled)));
}

#[test]
fn capabilities_advertise_implemented_features() {
    let c = negotiate();
    assert!(c.hover && c.completion && c.full_document_sync && c.diagnostics_push);
}

#[test]
fn session_publishes_after_debounce() {
    let mut s = Session::new(50);
    let uri = "s.rs".to_string();
    assert_eq!(s.did_open(uri.clone(), "fn main() {}".to_string(), 1, 0), Ok(()));
    assert!(s.poll(&uri, 10).is_none());
    let p = s.poll(&uri, 50).unwrap();
    assert_eq!(p.version, 1);
    assert!(p.diagnostics.is_empty());
    assert!(s.poll(&uri, 60).is_none());
    assert_eq!(s.version_of(&uri), Some(1));
}

#[test]
fn session_coalesces_rapid_changes() {
    let mut s = Session::new(100);
    let uri = "c.rs".to_string();
    s.did_open(uri.clone(), "x".to_string(), 4, 0).unwrap();
    assert_eq!(s.poll(&uri, 100).unwrap().version, 4);
    s.did_change(&uri, "fn (\n".to_string(), 5, 200).unwrap();
    s.did_change(&uri, "fn q(\n".to_string(), 6, 250).unwrap();
    assert!(s.poll(&uri, 300).is_none());
    let p = s.poll(&uri, 350).unwrap();
    assert_eq!(p.version, 6);
    assert_eq!(p.diagnostics.len(), 1);
    assert_eq!(p.diagnostics[0].kind, DiagnosticKind::MissingCloseParen);
    assert!(s.poll(&uri, 1000).is_none());
}

#[test]
fn session_errors_and_close() {
    let mut s = Session::new(0);
    let uri = "e.rs".to_string();
    assert_eq!(s.did_close(&uri).err(), Some(StoreError::UnknownDocument));
    assert_eq!(s.did_change(&uri, String::new(), 1, 0), Err(StoreError::UnknownDocument));
    s.did_open(uri.clone(), String::new(), 3, 0).unwrap();
    assert_eq!(
        s.did_open(uri.clone(), String::new(), 4, 0),
        Err(StoreError::AlreadyOpen)
    );
    assert_eq!(s.did_change(&uri, "t".to_string(), 0, 0), Err(StoreError::VersionRegression));
    assert_eq!(s.version_of(&uri), Some(3));
    assert!(s.did_close(&uri).unwrap().is_empty());
    assert_eq!(s.version_of(&uri), None);
    assert!(s.poll(&uri, 10).is_none());
}

#[test]
fn session_answers_requests() {
    let mut s = Session::new(0);
    let uri = "h.rs".to_string();
    s.did_open(uri.clone(), "fn one() {}".to_string(), 1, 0).unwrap();
    s.did_change(&uri, "fn two() {}".to_string(), 2, 0).unwrap();
    let req = Request {
        kind: RequestKind::Completion,
        uri: uri.clone(),
        version_at_receipt: 1,
        position: pos(0, 0),
        cancelled: false,
    };
    let a = s.request(&req).unwrap();
    assert_eq!(a.version, 2);
    match a.response {
        Response::Completion(c) => assert_eq!(c, vec![chars("two")]),
        _ => panic!("expected completions"),
    }
}
