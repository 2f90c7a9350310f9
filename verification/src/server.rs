//! The server: what the compiler asks for across the bridge.

use vstd::prelude::*;

use crate::bridge;
use crate::bridge::LineColumn;
use crate::interner::{
    intern_index, interned, IdentData, IdentId, IdentInterner,
};
use crate::numeral::{decimal, u32_text};
use crate::token_stream::{
    spliced, spliced_one, spliced_tree, subtree_as_stream, subtree_without_ids, TokenStream,
    TokenStreamBuilder, TokenStreamIter,
};
use crate::tt;
use crate::tt::{
    pretty_text, trees_view, IdentView, LeafView, SubtreeView, TokenId, TokenTree, TokenTreeView,
};

verus! {

/// Stands for what the bridge asks of no token in particular.
pub struct FreeFunctions;

/// The server. All it remembers is the identifiers it has numbered.
pub struct Rustc {
    ident_interner: IdentInterner,
}

impl View for Rustc {
    type V = Seq<IdentView>;

    /// The identifiers by their numbers.
    closed spec fn view(&self) -> Seq<IdentView> {
        self.ident_interner@
    }
}

impl Default for Rustc {
    fn default() -> (server: Self)
        ensures
            server.wf(),
            server@ == Seq::<IdentView>::empty(),
    {
        Rustc { ident_interner: IdentInterner::default() }
    }
}

/// The delimiters of a subtree, as the bridge asks for them.
pub open spec fn internal_delimiter(d: bridge::Delimiter) -> Option<tt::Delimiter> {
    match d {
        bridge::Delimiter::Parenthesis => Some(
            tt::Delimiter { id: tt::unspecified_id(), kind: tt::DelimiterKind::Parenthesis },
        ),
        bridge::Delimiter::Brace => Some(
            tt::Delimiter { id: tt::unspecified_id(), kind: tt::DelimiterKind::Brace },
        ),
        bridge::Delimiter::Bracket => Some(
            tt::Delimiter { id: tt::unspecified_id(), kind: tt::DelimiterKind::Bracket },
        ),
        bridge::Delimiter::Invisible => None,
    }
}

/// The delimiters of a subtree, as the bridge is told of them.
pub open spec fn external_delimiter(d: Option<tt::Delimiter>) -> bridge::Delimiter {
    match d {
        Some(delimiter) => match delimiter.kind {
            tt::DelimiterKind::Parenthesis => bridge::Delimiter::Parenthesis,
            tt::DelimiterKind::Brace => bridge::Delimiter::Brace,
            tt::DelimiterKind::Bracket => bridge::Delimiter::Bracket,
        },
        None => bridge::Delimiter::Invisible,
    }
}

pub open spec fn internal_spacing(spacing: bridge::Spacing) -> tt::Spacing {
    match spacing {
        bridge::Spacing::Alone => tt::Spacing::Alone,
        bridge::Spacing::Joint => tt::Spacing::Joint,
    }
}

pub open spec fn external_spacing(spacing: tt::Spacing) -> bridge::Spacing {
    match spacing {
        tt::Spacing::Alone => bridge::Spacing::Alone,
        tt::Spacing::Joint => bridge::Spacing::Joint,
    }
}

pub fn delim_to_internal(d: bridge::Delimiter) -> (res: Option<tt::Delimiter>)
    ensures
        res == internal_delimiter(d),
{
    let kind = match d {
        bridge::Delimiter::Parenthesis => tt::DelimiterKind::Parenthesis,
        bridge::Delimiter::Brace => tt::DelimiterKind::Brace,
        bridge::Delimiter::Bracket => tt::DelimiterKind::Bracket,
        bridge::Delimiter::Invisible => return None,
    };
    Some(tt::Delimiter { id: TokenId::unspecified(), kind })
}

pub fn delim_to_external(d: Option<tt::Delimiter>) -> (res: bridge::Delimiter)
    ensures
        res == external_delimiter(d),
{
    match d {
        Some(it) => match it.kind {
            tt::DelimiterKind::Parenthesis => bridge::Delimiter::Parenthesis,
            tt::DelimiterKind::Brace => bridge::Delimiter::Brace,
            tt::DelimiterKind::Bracket => bridge::Delimiter::Bracket,
        },
        None => bridge::Delimiter::Invisible,
    }
}

pub fn spacing_to_internal(spacing: bridge::Spacing) -> (res: tt::Spacing)
    ensures
        res == internal_spacing(spacing),
{
    match spacing {
        bridge::Spacing::Alone => tt::Spacing::Alone,
        bridge::Spacing::Joint => tt::Spacing::Joint,
    }
}

pub fn spacing_to_external(spacing: tt::Spacing) -> (res: bridge::Spacing)
    ensures
        res == external_spacing(spacing),
{
    match spacing {
        tt::Spacing::Alone => bridge::Spacing::Alone,
        tt::Spacing::Joint => bridge::Spacing::Joint,
    }
}

/// Whether the identifier a tree names, if it names one, is among `names`.
pub open spec fn tree_is_known(names: Seq<IdentView>, tree: bridge::TokenTreeView) -> bool {
    tree matches bridge::TokenTreeView::Ident(ident) ==> ident@ < names.len()
}

/// The tree that the bridge means, given the identifiers by their numbers.
pub open spec fn internal_tree(
    names: Seq<IdentView>,
    tree: bridge::TokenTreeView,
) -> TokenTreeView {
    match tree {
        bridge::TokenTreeView::Group(group) => TokenTreeView::Subtree(group),
        bridge::TokenTreeView::Ident(ident) => TokenTreeView::Leaf(
            LeafView::Ident(names[ident@ as int]),
        ),
        bridge::TokenTreeView::Literal(literal) => TokenTreeView::Leaf(LeafView::Literal(literal)),
        bridge::TokenTreeView::Punct(punct) => TokenTreeView::Leaf(LeafView::Punct(punct)),
    }
}

/// The identifiers after a tree was handed to the bridge: its own is added if
/// the tree is one.
pub open spec fn names_after(names: Seq<IdentView>, tree: TokenTreeView) -> Seq<IdentView> {
    match tree {
        TokenTreeView::Leaf(LeafView::Ident(ident)) => interned(names, ident),
        _ => names,
    }
}

/// Whether the bridge was told of a tree rightly: an identifier by its number,
/// anything else as it is.
pub open spec fn is_external_tree(
    names: Seq<IdentView>,
    tree: TokenTreeView,
    external: bridge::TokenTreeView,
) -> bool {
    match tree {
        TokenTreeView::Subtree(group) => external == bridge::TokenTreeView::Group(group),
        TokenTreeView::Leaf(LeafView::Ident(ident)) => external matches bridge::TokenTreeView::Ident(
            id,
        ) && id@ == intern_index(names, ident),
        TokenTreeView::Leaf(LeafView::Literal(literal)) => external
            == bridge::TokenTreeView::Literal(literal),
        TokenTreeView::Leaf(LeafView::Punct(punct)) => external == bridge::TokenTreeView::Punct(
            punct,
        ),
    }
}

/// The span of a group: that of its delimiters.
pub open spec fn span_of_group(group: SubtreeView) -> TokenId {
    match group.delimiter {
        Some(delimiter) => delimiter.id,
        None => tt::unspecified_id(),
    }
}

impl Rustc {
    /// The identifiers are in order.
    pub closed spec fn wf(&self) -> bool {
        self.ident_interner.wf()
    }

    /// No identifier has two numbers.
    pub proof fn lemma_wf(&self)
        requires
            self.wf(),
        ensures
            self@.no_duplicates(),
    {
        self.ident_interner.lemma_wf();
    }

    /// Whether the server has given out this number.
    pub fn has_ident(&self, ident: IdentId) -> (res: bool)
        ensures
            res == (ident@ < self@.len()),
    {
        self.ident_interner.contains(ident.index())
    }

    pub fn track_env_var(&mut self, _var: &str, _value: Option<&str>)
        ensures
            *final(self) == *old(self),
    {
    }

    pub fn token_stream_new(&mut self) -> (stream: TokenStream)
        ensures
            stream@ == Seq::<TokenTreeView>::empty(),
            *final(self) == *old(self),
    {
        TokenStream::new()
    }

    pub fn token_stream_is_empty(&mut self, stream: &TokenStream) -> (res: bool)
        ensures
            res == (stream@.len() == 0),
            *final(self) == *old(self),
    {
        stream.is_empty()
    }

    /// The stream of a source text, which has to be one that `parse` accepts.
    pub fn token_stream_from_str<F: Fn(&str) -> Option<tt::Subtree>>(
        &mut self,
        src: &str,
        parse: F,
    ) -> (stream: TokenStream)
        requires
            call_requires(parse, (src,)),
            forall|parsed: Option<tt::Subtree>| #[trigger]
                call_ensures(parse, (src,), parsed) ==> parsed is Some,
        ensures
            exists|subtree: tt::Subtree| #[trigger]
                call_ensures(parse, (src,), Some(subtree)) && stream@ == subtree_as_stream(
                    subtree_without_ids(subtree@),
                ),
            *final(self) == *old(self),
    {
        TokenStream::from_str(src, parse).expect("cannot parse string")
    }

    pub fn token_stream_to_string(&mut self, stream: &TokenStream) -> (text: String)
        ensures
            text@ == pretty_text(stream@),
            *final(self) == *old(self),
    {
        stream.to_string()
    }

    /// The stream of one tree.
    pub fn from_token_tree(&mut self, tree: bridge::TokenTree) -> (stream: TokenStream)
        requires
            tree_is_known(old(self)@, tree@),
        ensures
            stream@ == spliced_tree(internal_tree(old(self)@, tree@)),
            *final(self) == *old(self),
    {
        let tree = match tree {
            bridge::TokenTree::Group(group) => TokenTree::Subtree(group),
            bridge::TokenTree::Ident(ident) => {
                let IdentData(ident) = self.ident_interner.get(ident.index()).clone();
                TokenTree::Leaf(tt::Leaf::Ident(ident))
            },
            bridge::TokenTree::Literal(literal) => TokenTree::Leaf(tt::Leaf::Literal(literal)),
            bridge::TokenTree::Punct(p) => TokenTree::Leaf(tt::Leaf::Punct(p)),
        };
        let trees = vec![tree];
        proof {
            assert(trees_view(trees@) =~= seq![tree@]);
            spliced_one(tree@);
        }
        TokenStream::from_trees(trees)
    }

    /// Starts to read a stream.
    pub fn into_iter(&mut self, stream: TokenStream) -> (iter: TokenStreamIter)
        ensures
            iter@ == stream@,
            *final(self) == *old(self),
    {
        TokenStreamIter::new(stream)
    }

    pub fn token_stream_builder_new(&mut self) -> (builder: TokenStreamBuilder)
        ensures
            builder@ == Seq::<TokenTreeView>::empty(),
            *final(self) == *old(self),
    {
        TokenStreamBuilder::new()
    }

    pub fn token_stream_builder_push(
        &mut self,
        builder: &mut TokenStreamBuilder,
        stream: TokenStream,
    )
        ensures
            final(builder)@ == old(builder)@ + spliced(stream@),
            *final(self) == *old(self),
    {
        builder.push(stream)
    }

    pub fn build(&mut self, builder: TokenStreamBuilder) -> (stream: TokenStream)
        ensures
            stream@ == builder@,
            *final(self) == *old(self),
    {
        builder.build()
    }

    /// The next tree of a stream that is being read.
    pub fn next(&mut self, iter: &mut TokenStreamIter) -> (res: Option<bridge::TokenTree>)
        requires
            old(self).wf(),
        ensures
            final(self).wf(),
            match res {
                Some(tree) => {
                    &&& old(iter)@.len() > 0
                    &&& final(iter)@ == old(iter)@.drop_first()
                    &&& is_external_tree(old(self)@, old(iter)@[0], tree@)
                    &&& final(self)@ == names_after(old(self)@, old(iter)@[0])
                },
                None => {
                    &&& old(iter)@.len() == 0
                    &&& final(iter)@ == old(iter)@
                    &&& final(self)@ == old(self)@
                },
            },
    {
        match iter.next_tree() {
            Some(TokenTree::Subtree(group)) => Some(bridge::TokenTree::Group(group)),
            Some(TokenTree::Leaf(tt::Leaf::Ident(ident))) => Some(
                bridge::TokenTree::Ident(
                    IdentId::from_index(self.ident_interner.intern(&IdentData(ident))),
                ),
            ),
            Some(TokenTree::Leaf(tt::Leaf::Literal(literal))) => Some(
                bridge::TokenTree::Literal(literal),
            ),
            Some(TokenTree::Leaf(tt::Leaf::Punct(punct))) => Some(bridge::TokenTree::Punct(punct)),
            None => None,
        }
    }

    pub fn group_new(&mut self, delimiter: bridge::Delimiter, stream: TokenStream) -> (group:
        tt::Subtree)
        ensures
            group@ == (SubtreeView {
                delimiter: internal_delimiter(delimiter),
                token_trees: stream@,
            }),
            *final(self) == *old(self),
    {
        tt::Subtree { delimiter: delim_to_internal(delimiter), token_trees: stream.token_trees }
    }

    pub fn delimiter(&mut self, group: &tt::Subtree) -> (res: bridge::Delimiter)
        ensures
            res == external_delimiter(group@.delimiter),
            *final(self) == *old(self),
    {
        delim_to_external(group.delimiter)
    }

    /// What is in a group, without the delimiters.
    pub fn stream(&mut self, group: &tt::Subtree) -> (stream: TokenStream)
        ensures
            stream@ == group@.token_trees,
            *final(self) == *old(self),
    {
        TokenStream { token_trees: tt::clone_trees(&group.token_trees) }
    }

    pub fn group_span(&mut self, group: &tt::Subtree) -> (span: TokenId)
        ensures
            span == span_of_group(group@),
            *final(self) == *old(self),
    {
        match group.delimiter {
            Some(it) => it.id,
            None => TokenId::unspecified(),
        }
    }

    pub fn group_set_span(&mut self, group: &mut tt::Subtree, span: TokenId)
        ensures
            final(group)@ == (SubtreeView {
                delimiter: match old(group)@.delimiter {
                    Some(delimiter) => Some(tt::Delimiter { id: span, kind: delimiter.kind }),
                    None => None,
                },
                token_trees: old(group)@.token_trees,
            }),
            *final(self) == *old(self),
    {
        if let Some(delim) = &mut group.delimiter {
            delim.id = span;
        }
    }

    /// One identity is kept for both delimiters.
    pub fn span_open(&mut self, group: &tt::Subtree) -> (span: TokenId)
        ensures
            span == span_of_group(group@),
            *final(self) == *old(self),
    {
        self.group_span(group)
    }

    /// One identity is kept for both delimiters.
    pub fn span_close(&mut self, group: &tt::Subtree) -> (span: TokenId)
        ensures
            span == span_of_group(group@),
            *final(self) == *old(self),
    {
        self.group_span(group)
    }

    pub fn punct_new(&mut self, ch: char, spacing: bridge::Spacing) -> (punct: tt::Punct)
        ensures
            punct == (tt::Punct {
                char: ch,
                spacing: internal_spacing(spacing),
                id: tt::unspecified_id(),
            }),
            *final(self) == *old(self),
    {
        tt::Punct {
            char: ch,
            spacing: spacing_to_internal(spacing),
            id: TokenId::unspecified(),
        }
    }

    pub fn as_char(&mut self, punct: tt::Punct) -> (ch: char)
        ensures
            ch == punct.char,
            *final(self) == *old(self),
    {
        punct.char
    }

    pub fn spacing(&mut self, punct: tt::Punct) -> (res: bridge::Spacing)
        ensures
            res == external_spacing(punct.spacing),
            *final(self) == *old(self),
    {
        spacing_to_external(punct.spacing)
    }

    pub fn punct_span(&mut self, punct: tt::Punct) -> (span: TokenId)
        ensures
            span == punct.id,
            *final(self) == *old(self),
    {
        punct.id
    }

    pub fn punct_with_span(&mut self, punct: tt::Punct, span: TokenId) -> (res: tt::Punct)
        ensures
            res == (tt::Punct { char: punct.char, spacing: punct.spacing, id: span }),
            *final(self) == *old(self),
    {
        tt::Punct { id: span, ..punct }
    }

    pub fn ident_new(&mut self, string: &str, span: TokenId, _is_raw: bool) -> (ident: IdentId)
        requires
            old(self).wf(),
        ensures
            final(self).wf(),
            final(self)@ == interned(old(self)@, IdentView { text: string@, id: span }),
            ident@ == intern_index(old(self)@, IdentView { text: string@, id: span }),
    {
        let data = IdentData(tt::Ident { text: string.to_owned(), id: span });
        IdentId::from_index(self.ident_interner.intern(&data))
    }

    pub fn ident_span(&mut self, ident: IdentId) -> (span: TokenId)
        requires
            ident@ < old(self)@.len(),
        ensures
            span == old(self)@[ident@ as int].id,
            *final(self) == *old(self),
    {
        self.ident_interner.get(ident.index()).0.id
    }

    pub fn ident_with_span(&mut self, ident: IdentId, span: TokenId) -> (res: IdentId)
        requires
            old(self).wf(),
            ident@ < old(self)@.len(),
        ensures
            final(self).wf(),
            ({
                let moved = IdentView { text: old(self)@[ident@ as int].text, id: span };
                &&& final(self)@ == interned(old(self)@, moved)
                &&& res@ == intern_index(old(self)@, moved)
            }),
    {
        let data = self.ident_interner.get(ident.index());
        let new = IdentData(tt::Ident { id: span, ..data.0.clone() });
        IdentId::from_index(self.ident_interner.intern(&new))
    }

    /// The number of a span, as text.
    pub fn debug(&mut self, span: TokenId) -> (text: String)
        ensures
            text@ == decimal(span.0 as int),
            *final(self) == *old(self),
    {
        u32_text(span.0)
    }

    pub fn def_site(&mut self) -> (span: TokenId)
        ensures
            span == tt::unspecified_id(),
            *final(self) == *old(self),
    {
        TokenId::unspecified()
    }

    pub fn call_site(&mut self) -> (span: TokenId)
        ensures
            span == tt::unspecified_id(),
            *final(self) == *old(self),
    {
        TokenId::unspecified()
    }

    pub fn mixed_site(&mut self) -> (span: TokenId)
        ensures
            span == tt::unspecified_id(),
            *final(self) == *old(self),
    {
        TokenId::unspecified()
    }

    pub fn source_text(&mut self, _span: TokenId) -> (text: Option<String>)
        ensures
            text is None,
            *final(self) == *old(self),
    {
        None
    }

    pub fn parent(&mut self, _span: TokenId) -> (span: Option<TokenId>)
        ensures
            span is None,
            *final(self) == *old(self),
    {
        None
    }

    pub fn source(&mut self, span: TokenId) -> (res: TokenId)
        ensures
            res == span,
            *final(self) == *old(self),
    {
        span
    }

    pub fn start(&mut self, _span: TokenId) -> (res: LineColumn)
        ensures
            res == (LineColumn { line: 0, column: 0 }),
            *final(self) == *old(self),
    {
        LineColumn { line: 0, column: 0 }
    }

    pub fn end(&mut self, _span: TokenId) -> (res: LineColumn)
        ensures
            res == (LineColumn { line: 0, column: 0 }),
            *final(self) == *old(self),
    {
        LineColumn { line: 0, column: 0 }
    }

    /// The first span again, because some macros will unwrap the result.
    pub fn join(&mut self, first: TokenId, _second: TokenId) -> (res: Option<TokenId>)
        ensures
            res == Some(first),
            *final(self) == *old(self),
    {
        Some(first)
    }

    pub fn resolved_at(&mut self, _span: TokenId, _at: TokenId) -> (res: TokenId)
        ensures
            res == tt::unspecified_id(),
            *final(self) == *old(self),
    {
        TokenId::unspecified()
    }

    pub fn multi_span_new(&mut self) -> (spans: Vec<TokenId>)
        ensures
            spans@ == Seq::<TokenId>::empty(),
            *final(self) == *old(self),
    {
        Vec::new()
    }

    pub fn multi_span_push(&mut self, other: &mut Vec<TokenId>, span: TokenId)
        ensures
            final(other)@ == old(other)@.push(span),
            *final(self) == *old(self),
    {
        other.push(span)
    }
}

} // verus!
