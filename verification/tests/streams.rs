use proc_macro_srv::bridge;
use proc_macro_srv::server::{
    delim_to_external, delim_to_internal, spacing_to_external, spacing_to_internal, Rustc,
};
use proc_macro_srv::token_stream::{
    subtree_replace_token_ids_with_unspecified, TokenStream, TokenStreamBuilder,
};
use proc_macro_srv::tt::{
    pretty, Delimiter, DelimiterKind, Ident, Leaf, Literal, Punct, Spacing, Subtree, TokenId,
    TokenTree,
};

fn ident(text: &str, id: u32) -> TokenTree {
    TokenTree::Leaf(Leaf::Ident(Ident { text: text.to_string(), id: TokenId(id) }))
}

fn literal(text: &str) -> TokenTree {
    TokenTree::Leaf(Leaf::Literal(Literal { text: text.to_string(), id: TokenId(9) }))
}

fn punct(char: char, spacing: Spacing) -> TokenTree {
    TokenTree::Leaf(Leaf::Punct(Punct { char, spacing, id: TokenId(8) }))
}

fn subtree(kind: Option<DelimiterKind>, token_trees: Vec<TokenTree>) -> Subtree {
    Subtree { delimiter: kind.map(|kind| Delimiter { id: TokenId(7), kind }), token_trees }
}

fn group(kind: Option<DelimiterKind>, token_trees: Vec<TokenTree>) -> TokenTree {
    TokenTree::Subtree(subtree(kind, token_trees))
}

#[test]
fn new_streams_are_empty() {
    let mut srv = Rustc::default();
    assert!(TokenStream::new().is_empty());
    let stream = srv.token_stream_new();
    assert!(srv.token_stream_is_empty(&stream));
    assert!(!TokenStream::from(ident("a", 1)).is_empty());
}

#[test]
fn a_delimited_subtree_is_one_tree_of_its_stream() {
    let stream = TokenStream::with_subtree(subtree(
        Some(DelimiterKind::Brace),
        vec![ident("a", 1), ident("b", 2)],
    ));
    assert_eq!(
        stream.token_trees,
        vec![group(Some(DelimiterKind::Brace), vec![ident("a", 1), ident("b", 2)])]
    );
}

#[test]
fn streams_survive_subtrees() {
    let stream = TokenStream::with_subtree(subtree(None, vec![ident("a", 1), ident("b", 2)]));
    assert_eq!(stream.token_trees.len(), 2);
    let subtree = stream.clone().into_subtree();
    assert_eq!(subtree.delimiter, None);
    assert_eq!(TokenStream::with_subtree(subtree).token_trees, stream.token_trees);
}

#[test]
fn collecting_flattens_groups_without_delimiters() {
    let trees = vec![
        ident("a", 1),
        group(None, vec![ident("b", 2), group(None, vec![ident("c", 3)])]),
        group(Some(DelimiterKind::Bracket), vec![ident("d", 4)]),
        group(None, vec![]),
    ];
    let expected = vec![
        ident("a", 1),
        ident("b", 2),
        group(None, vec![ident("c", 3)]),
        group(Some(DelimiterKind::Bracket), vec![ident("d", 4)]),
    ];
    assert_eq!(TokenStream::from_trees(trees.clone()).token_trees, expected);

    let mut stream = TokenStream::from(literal("0"));
    stream.extend_trees(trees.clone());
    assert_eq!(stream.token_trees[0], literal("0"));
    assert_eq!(stream.token_trees[1..], expected[..]);

    let halves = vec![
        TokenStream { token_trees: trees[..2].to_vec() },
        TokenStream { token_trees: trees[2..].to_vec() },
    ];
    assert_eq!(TokenStream::from_iter(halves.clone()).token_trees, expected);
    let mut stream = TokenStream::new();
    stream.extend(halves);
    assert_eq!(stream.token_trees, expected);
}

#[test]
fn builders_collect_piece_by_piece() {
    let mut srv = Rustc::default();
    let mut builder = srv.token_stream_builder_new();
    srv.token_stream_builder_push(&mut builder, TokenStream::from(ident("a", 1)));
    srv.token_stream_builder_push(
        &mut builder,
        TokenStream::from(group(None, vec![ident("b", 2), ident("c", 3)])),
    );
    let stream = srv.build(builder);
    assert_eq!(stream.token_trees, vec![ident("a", 1), ident("b", 2), ident("c", 3)]);

    let mut builder = TokenStreamBuilder::new();
    builder.push(stream.clone());
    assert_eq!(builder.build().token_trees, stream.token_trees);
}

#[test]
fn iteration_is_shallow() {
    let inner = group(Some(DelimiterKind::Parenthesis), vec![ident("a", 1)]);
    let stream = TokenStream { token_trees: vec![inner.clone(), literal("1")] };
    let trees: Vec<TokenTree> = stream.into_iter().collect();
    assert_eq!(trees, vec![inner, literal("1")]);
}

#[test]
fn pretty_separates_all_but_joint_punctuation() {
    let trees = vec![
        ident("a", 1),
        punct('-', Spacing::Joint),
        punct('>', Spacing::Alone),
        group(
            Some(DelimiterKind::Parenthesis),
            vec![literal("1"), punct(',', Spacing::Alone), literal("2")],
        ),
        group(Some(DelimiterKind::Bracket), vec![]),
        group(None, vec![ident("b", 2), ident("c", 3)]),
    ];
    assert_eq!(pretty(&trees), "a -> (1 , 2) [] b c");
    assert_eq!(pretty(&vec![]), "");
    assert_eq!(pretty(&vec![group(None, vec![]), ident("a", 1)]), " a");
}

#[test]
fn replacing_ids_keeps_text_and_is_done_once() {
    let before = subtree(
        Some(DelimiterKind::Brace),
        vec![
            ident("a", 1),
            punct('+', Spacing::Joint),
            group(Some(DelimiterKind::Bracket), vec![literal("1")]),
            group(None, vec![]),
        ],
    );
    let after = subtree_replace_token_ids_with_unspecified(before.clone());
    let text = |subtree: &Subtree| pretty(&subtree.token_trees);
    assert_eq!(text(&after), text(&before));
    assert_eq!(
        after.delimiter,
        Some(Delimiter { id: TokenId::unspecified(), kind: DelimiterKind::Brace })
    );
    assert_eq!(after.token_trees[0], ident("a", u32::MAX));
    match &after.token_trees[2] {
        TokenTree::Subtree(inner) => {
            assert_eq!(inner.delimiter.unwrap().id, TokenId::unspecified());
            assert_eq!(
                inner.token_trees[0],
                TokenTree::Leaf(Leaf::Literal(Literal {
                    text: "1".to_string(),
                    id: TokenId::unspecified()
                }))
            );
        }
        other => panic!("{:?}", other),
    }
    assert_eq!(after.token_trees[3], group(None, vec![]));
    assert_eq!(subtree_replace_token_ids_with_unspecified(after.clone()), after);
}

#[test]
fn delimiters_and_spacing_cross_the_bridge() {
    for d in [
        bridge::Delimiter::Parenthesis,
        bridge::Delimiter::Brace,
        bridge::Delimiter::Bracket,
        bridge::Delimiter::Invisible,
    ] {
        assert_eq!(delim_to_external(delim_to_internal(d)), d);
    }
    assert_eq!(delim_to_internal(bridge::Delimiter::Invisible), None);
    assert_eq!(
        delim_to_internal(bridge::Delimiter::Brace),
        Some(Delimiter { id: TokenId::unspecified(), kind: DelimiterKind::Brace })
    );
    for s in [bridge::Spacing::Alone, bridge::Spacing::Joint] {
        assert_eq!(spacing_to_external(spacing_to_internal(s)), s);
    }
    assert_eq!(spacing_to_internal(bridge::Spacing::Joint), Spacing::Joint);
}

#[test]
fn groups_read_back() {
    let mut srv = Rustc::default();
    let stream = TokenStream::from(ident("a", 1));
    let mut group = srv.group_new(bridge::Delimiter::Bracket, stream.clone());
    assert_eq!(srv.delimiter(&group), bridge::Delimiter::Bracket);
    assert_eq!(srv.stream(&group).token_trees, stream.token_trees);
    assert_eq!(srv.group_span(&group), TokenId::unspecified());
    srv.group_set_span(&mut group, TokenId(5));
    assert_eq!(srv.group_span(&group), TokenId(5));
    assert_eq!(srv.span_open(&group), TokenId(5));
    assert_eq!(srv.span_close(&group), TokenId(5));
    assert_eq!(srv.delimiter(&group), bridge::Delimiter::Bracket);

    let mut bare = srv.group_new(bridge::Delimiter::Invisible, stream);
    srv.group_set_span(&mut bare, TokenId(5));
    assert_eq!(srv.group_span(&bare), TokenId::unspecified());
}

#[test]
fn punctuation_reads_back() {
    let mut srv = Rustc::default();
    let punct = srv.punct_new('+', bridge::Spacing::Joint);
    assert_eq!(srv.as_char(punct), '+');
    assert_eq!(srv.spacing(punct), bridge::Spacing::Joint);
    assert_eq!(srv.punct_span(punct), TokenId::unspecified());
    let moved = srv.punct_with_span(punct, TokenId(4));
    assert_eq!(srv.punct_span(moved), TokenId(4));
    assert_eq!(srv.as_char(moved), '+');
    assert_eq!(srv.spacing(moved), bridge::Spacing::Joint);
}

#[test]
fn streams_survive_the_bridge() {
    let mut srv = Rustc::default();
    let trees = vec![
        ident("a", 1),
        punct('+', Spacing::Alone),
        ident("a", 2),
        literal("1"),
        group(Some(DelimiterKind::Parenthesis), vec![ident("b", 3)]),
        ident("a", 1),
    ];
    let mut iter = srv.into_iter(TokenStream { token_trees: trees.clone() });
    let mut read: Vec<bridge::TokenTree> = vec![];
    while let Some(tree) = srv.next(&mut iter) {
        read.push(tree);
    }
    assert_eq!(srv.next(&mut iter), None);
    assert_eq!(read.len(), 6);
    assert_eq!(read[0], read[5]);
    assert_ne!(read[0], read[2]);

    let mut builder = srv.token_stream_builder_new();
    for tree in read {
        let stream = srv.from_token_tree(tree);
        srv.token_stream_builder_push(&mut builder, stream);
    }
    assert_eq!(srv.build(builder).token_trees, trees);
}

#[test]
fn iterators_can_be_copied() {
    let mut srv = Rustc::default();
    let mut iter = srv.into_iter(TokenStream { token_trees: vec![literal("1"), literal("2")] });
    srv.next(&mut iter);
    let mut copy = iter.clone();
    assert_eq!(srv.next(&mut copy), srv.next(&mut iter));
    assert_eq!(srv.next(&mut copy), None);
}

#[test]
fn a_group_without_delimiters_is_written_as_its_trees() {
    let mut srv = Rustc::default();
    let inner = vec![ident("a", 1), literal("2")];
    let stream = srv.from_token_tree(bridge::TokenTree::Group(subtree(None, inner.clone())));
    assert_eq!(stream.token_trees, inner);
}
