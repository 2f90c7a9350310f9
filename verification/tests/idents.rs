use proc_macro_srv::bridge::{self, Level, LineColumn};
use proc_macro_srv::diagnostic::Diagnostic;
use proc_macro_srv::interner::{IdentData, IdentInterner};
use proc_macro_srv::server::Rustc;
use proc_macro_srv::tt::{Ident, Leaf, TokenId, TokenTree};

fn data(text: &str, id: u32) -> IdentData {
    IdentData(Ident { text: text.to_string(), id: TokenId(id) })
}

#[test]
fn interning_numbers_in_order() {
    let mut interner = IdentInterner::default();
    assert!(!interner.contains(0));
    assert_eq!(interner.intern(&data("a", 1)), 0);
    assert_eq!(interner.intern(&data("b", 1)), 1);
    assert_eq!(interner.intern(&data("a", 2)), 2);
    assert_eq!(interner.intern(&data("a", 3)), 3);
    // Each keeps its number.
    assert_eq!(interner.intern(&data("a", 1)), 0);
    assert_eq!(interner.intern(&data("a", 2)), 2);
    assert_eq!(interner.intern(&data("b", 1)), 1);
    assert_eq!(interner.get(0), &data("a", 1));
    assert_eq!(interner.get(2), &data("a", 2));
    assert_eq!(interner.get(3), &data("a", 3));
    assert!(interner.contains(3));
    assert!(!interner.contains(4));
}

#[test]
fn many_identifiers_of_one_text() {
    let mut interner = IdentInterner::default();
    for id in 0..300u32 {
        assert_eq!(interner.intern(&data("x", id)), id);
    }
    for id in 0..300u32 {
        assert_eq!(interner.intern(&data("x", id)), id);
        assert_eq!(interner.get(id), &data("x", id));
    }
}

#[test]
fn identifiers_read_back() {
    let mut srv = Rustc::default();
    let a = srv.ident_new("a", TokenId(1), false);
    assert_eq!(srv.ident_span(a), TokenId(1));
    assert_eq!(srv.ident_new("a", TokenId(1), true), a);
    let stream = srv.from_token_tree(bridge::TokenTree::Ident(a));
    assert_eq!(
        stream.token_trees,
        vec![TokenTree::Leaf(Leaf::Ident(Ident { text: "a".to_string(), id: TokenId(1) }))]
    );
}

#[test]
fn identifiers_keep_their_number_through_a_change_of_span() {
    let mut srv = Rustc::default();
    let a = srv.ident_new("a", TokenId(1), false);
    let moved = srv.ident_with_span(a, TokenId(2));
    assert_ne!(moved, a);
    assert_eq!(srv.ident_span(moved), TokenId(2));
    assert_eq!(srv.ident_span(a), TokenId(1));
    assert_eq!(srv.ident_with_span(moved, TokenId(1)), a);
    let stream = srv.from_token_tree(bridge::TokenTree::Ident(moved));
    assert_eq!(srv.token_stream_to_string(&stream), "a");
    assert!(srv.has_ident(moved));
    let mut fresh = Rustc::default();
    assert!(!fresh.has_ident(a));
    fresh.ident_new("b", TokenId(1), false);
    assert!(fresh.has_ident(a));
}

#[test]
fn spans_carry_no_more_than_a_number() {
    let mut srv = Rustc::default();
    let span = TokenId(42);
    assert_eq!(srv.debug(span), "42");
    assert_eq!(srv.debug(TokenId::unspecified()), "4294967295");
    assert_eq!(srv.debug(TokenId(0)), "0");
    assert_eq!(srv.def_site(), TokenId::unspecified());
    assert_eq!(srv.call_site(), TokenId::unspecified());
    assert_eq!(srv.mixed_site(), TokenId::unspecified());
    assert_eq!(srv.source_text(span), None);
    assert_eq!(srv.parent(span), None);
    assert_eq!(srv.source(span), span);
    assert_eq!(srv.start(span), LineColumn { line: 0, column: 0 });
    assert_eq!(srv.end(span), LineColumn { line: 0, column: 0 });
    assert_eq!(srv.join(span, TokenId(1)), Some(span));
    assert_eq!(srv.resolved_at(span, TokenId(1)), TokenId::unspecified());
    srv.track_env_var("PATH", Some("x"));
}

#[test]
fn multi_spans_collect_spans() {
    let mut srv = Rustc::default();
    let mut spans = srv.multi_span_new();
    srv.multi_span_push(&mut spans, TokenId(1));
    srv.multi_span_push(&mut spans, TokenId(2));
    assert_eq!(spans, vec![TokenId(1), TokenId(2)]);
}

#[test]
fn diagnostics_hold_what_they_were_given() {
    let mut srv = Rustc::default();
    let mut diag = srv.diagnostic_new(Level::Warning, "look", vec![TokenId(3)]);
    let expected = "Diagnostic { level: Warning, message: \"look\", spans: [TokenId(3)], \
                    children: [] }";
    assert_eq!(format!("{:?}", diag), expected);
    srv.sub(&mut diag, Level::Note, "more", vec![]);
    assert_eq!(format!("{:?}", diag), expected);
    assert_eq!(format!("{:?}", diag.clone()), expected);
    srv.emit(diag);

    let plain = Diagnostic::new(Level::Error, String::from("bad"));
    assert_eq!(
        format!("{:?}", plain),
        "Diagnostic { level: Error, message: \"bad\", spans: [], children: [] }"
    );
}
