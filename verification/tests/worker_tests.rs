use native_worker::NativeWorker;
use native_worker::hello_rust;
use native_worker::rule::apply;

#[test]
fn pool_size_defaults_to_four() {
    let w = NativeWorker::new(None);
    assert_eq!(w.get_pool_size(), 4);
}

#[test]
fn pool_size_stored_as_given() {
    let w = NativeWorker::new(Some(7));
    assert_eq!(w.get_pool_size(), 7);
}

#[test]
fn pool_size_zero_accepted() {
    let w = NativeWorker::new(Some(0));
    assert_eq!(w.get_pool_size(), 0);
}

#[test]
fn replaces_every_occurrence() {
    let w = NativeWorker::new(None);
    let out = w.transform_sync(
        "console.log('x'); console.log('y');".to_string(),
        "a.js".to_string(),
    );
    assert_eq!(out, "console.debug('x'); console.debug('y');");
}

#[test]
fn replaces_adjacent_occurrences() {
    let w = NativeWorker::new(None);
    let out = w.transform_sync("console.logconsole.log".to_string(), "b.js".to_string());
    assert_eq!(out, "console.debugconsole.debug");
}

#[test]
fn leaves_text_without_marker_unchanged() {
    let w = NativeWorker::new(None);
    let text = "let x = 1; console.warn('z'); // nothing to rewrite";
    let out = w.transform_sync(text.to_string(), "c.js".to_string());
    assert_eq!(out, text);
}

#[test]
fn empty_input_stays_empty() {
    let w = NativeWorker::new(None);
    let out = w.transform_sync(String::new(), String::new());
    assert_eq!(out, "");
}

#[test]
fn partial_marker_not_replaced() {
    let w = NativeWorker::new(None);
    let out = w.transform_sync("console.lo console.logg".to_string(), "d.js".to_string());
    assert_eq!(out, "console.lo console.debugg");
}

#[test]
fn unicode_text_around_marker_preserved() {
    let w = NativeWorker::new(None);
    let out = w.transform_sync("héllo ✓ console.log('ü');".to_string(), "e.js".to_string());
    assert_eq!(out, "héllo ✓ console.debug('ü');");
}

#[test]
fn result_ignores_id() {
    let w = NativeWorker::new(None);
    let code = "console.log(1)".to_string();
    let a = w.transform_sync(code.clone(), "first.js".to_string());
    let b = w.transform_sync(code, "second.js".to_string());
    assert_eq!(a, b);
}

#[test]
fn transform_matches_transform_sync() {
    let w = NativeWorker::new(None);
    let code = "console.log('x'); rest".to_string();
    let id = "f.js".to_string();
    let sync_out = w.transform_sync(code.clone(), id.clone());
    let out = w.transform(code, id).unwrap();
    assert_eq!(out, sync_out);
}

#[test]
fn transform_reports_success() {
    let w = NativeWorker::new(Some(2));
    assert!(w.transform("anything".to_string(), "g.js".to_string()).is_ok());
}

#[test]
fn hello_constant_across_calls() {
    assert_eq!(hello_rust(), "Hello from Rust Native Worker!");
    assert_eq!(hello_rust(), hello_rust());
}

#[test]
fn apply_rewrites_directly() {
    assert_eq!(apply("console.log"), "console.debug");
    assert_eq!(apply("a console.log b"), "a console.debug b");
}

#[test]
fn marker_inside_longer_word_still_replaced() {
    let w = NativeWorker::new(None);
    let out = w.transform_sync("xconsole.logx".to_string(), "h.js".to_string());
    assert_eq!(out, "xconsole.debugx");
}
