use proc_macro_srv::server::Rustc;
use proc_macro_srv::token_stream::TokenStream;
use proc_macro_srv::tt;

#[test]
fn test_rustc_server_literals() {
    let mut srv = Rustc::default();
    assert_eq!(srv.integer("1234").text, "1234");

    assert_eq!(srv.typed_integer("12", "u8").text, "12u8");
    assert_eq!(srv.typed_integer("255", "u16").text, "255u16");
    assert_eq!(srv.typed_integer("1234", "u32").text, "1234u32");
    assert_eq!(srv.typed_integer("15846685", "u64").text, "15846685u64");
    assert_eq!(srv.typed_integer("15846685258", "u128").text, "15846685258u128");
    assert_eq!(srv.typed_integer("156788984", "usize").text, "156788984usize");
    assert_eq!(srv.typed_integer("127", "i8").text, "127i8");
    assert_eq!(srv.typed_integer("255", "i16").text, "255i16");
    assert_eq!(srv.typed_integer("1234", "i32").text, "1234i32");
    assert_eq!(srv.typed_integer("15846685", "i64").text, "15846685i64");
    assert_eq!(srv.typed_integer("15846685258", "i128").text, "15846685258i128");
    assert_eq!(srv.float_literal(&"0".parse::<f64>().unwrap().to_string()).text, "0.0");
    assert_eq!(srv.float_literal(&"15684.5867".parse::<f64>().unwrap().to_string()).text, "15684.5867");
    assert_eq!(
        srv.f32_literal(&"15684.58".parse::<f32>().unwrap().to_string()).text,
        "15684.58f32"
    );
    assert_eq!(
        srv.f64_literal(&"15684.58".parse::<f64>().unwrap().to_string()).text,
        "15684.58f64"
    );

    assert_eq!(srv.string("hello_world").text, "\"hello_world\"");
    assert_eq!(srv.character('c').text, "'c'");
    assert_eq!(srv.byte_string(b"1234586\x88").text, "b\"1234586\\x88\"");

    // u128::max
    assert_eq!(
        srv.integer("340282366920938463463374607431768211455").text,
        "340282366920938463463374607431768211455"
    );
    // i128::min
    assert_eq!(
        srv.integer("-170141183460469231731687303715884105728").text,
        "-170141183460469231731687303715884105728"
    );
}

#[test]
fn test_rustc_server_to_string() {
    let s = TokenStream {
        token_trees: vec![
            tt::TokenTree::Leaf(tt::Leaf::Ident(tt::Ident {
                text: "struct".into(),
                id: tt::TokenId::unspecified(),
            })),
            tt::TokenTree::Leaf(tt::Leaf::Ident(tt::Ident {
                text: "T".into(),
                id: tt::TokenId::unspecified(),
            })),
            tt::TokenTree::Subtree(tt::Subtree {
                delimiter: Some(tt::Delimiter {
                    id: tt::TokenId::unspecified(),
                    kind: tt::DelimiterKind::Brace,
                }),
                token_trees: vec![],
            }),
        ],
    };

    assert_eq!(s.to_string(), "struct T {}");
}

/// What a parser makes of the texts used below. It numbers the tokens.
fn parse(src: &str) -> Option<tt::Subtree> {
    let ident = |text: &str, id: u32| {
        tt::TokenTree::Leaf(tt::Leaf::Ident(tt::Ident { text: text.into(), id: tt::TokenId(id) }))
    };
    let paren_a = || tt::Subtree {
        delimiter: Some(tt::Delimiter {
            id: tt::TokenId(0),
            kind: tt::DelimiterKind::Parenthesis,
        }),
        token_trees: vec![ident("a", 1)],
    };
    match src {
        "(a)" => Some(paren_a()),
        "(a);" => Some(tt::Subtree {
            delimiter: None,
            token_trees: vec![
                tt::TokenTree::Subtree(paren_a()),
                tt::TokenTree::Leaf(tt::Leaf::Punct(tt::Punct {
                    char: ';',
                    spacing: tt::Spacing::Alone,
                    id: tt::TokenId(2),
                })),
            ],
        }),
        "_" => Some(tt::Subtree { delimiter: None, token_trees: vec![ident("_", 0)] }),
        _ => None,
    }
}

#[test]
fn test_rustc_server_from_str() {
    let subtree_paren_a = tt::TokenTree::Subtree(tt::Subtree {
        delimiter: Some(tt::Delimiter {
            id: tt::TokenId::unspecified(),
            kind: tt::DelimiterKind::Parenthesis,
        }),
        token_trees: vec![tt::TokenTree::Leaf(tt::Leaf::Ident(tt::Ident {
            text: "a".into(),
            id: tt::TokenId::unspecified(),
        }))],
    });

    let t1 = TokenStream::from_str("(a)", parse).unwrap();
    assert_eq!(t1.token_trees.len(), 1);
    assert_eq!(t1.token_trees[0], subtree_paren_a);

    let t2 = TokenStream::from_str("(a);", parse).unwrap();
    assert_eq!(t2.token_trees.len(), 2);
    assert_eq!(t2.token_trees[0], subtree_paren_a);

    let underscore = TokenStream::from_str("_", parse).unwrap();
    assert_eq!(
        underscore.token_trees[0],
        tt::TokenTree::Leaf(tt::Leaf::Ident(tt::Ident {
            text: "_".into(),
            id: tt::TokenId::unspecified(),
        }))
    );
}

#[test]
fn text_that_does_not_parse_is_an_error() {
    assert_eq!(TokenStream::from_str("(", parse).unwrap_err(), "Failed to parse from mbe");
    assert_eq!(TokenStream::from_parsed(None).unwrap_err(), "Failed to parse from mbe");
}

#[test]
fn parsed_streams_have_call_site_spans_and_keep_their_text() {
    let mut srv = Rustc::default();
    let call_site = srv.call_site();
    let stream = srv.token_stream_from_str("(a);", parse);
    assert_eq!(srv.token_stream_to_string(&stream), "(a) ;");
    match &stream.token_trees[1] {
        tt::TokenTree::Leaf(tt::Leaf::Punct(punct)) => assert_eq!(punct.id, call_site),
        other => panic!("{:?}", other),
    }
}
