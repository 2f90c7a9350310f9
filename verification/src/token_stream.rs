//! Token streams: flat lists of token trees.

use std::collections::VecDeque;

use vstd::prelude::*;

use crate::tt;
use crate::tt::{
    pretty, pretty_text, tree_view, trees_view, LeafView, SubtreeView, TokenId, TokenTree,
    TokenTreeView,
};

verus! {

#[derive(Debug)]
pub struct TokenStream {
    pub token_trees: Vec<TokenTree>,
}

impl View for TokenStream {
    type V = Seq<TokenTreeView>;

    open spec fn view(&self) -> Seq<TokenTreeView> {
        trees_view(self.token_trees@)
    }
}

impl Clone for TokenStream {
    fn clone(&self) -> (res: Self)
        ensures
            res@ == self@,
    {
        TokenStream { token_trees: tt::clone_trees(&self.token_trees) }
    }
}

/// What a tree adds to a stream: a subtree without delimiters adds the trees
/// in it, any other tree adds itself.
pub open spec fn spliced_tree(tree: TokenTreeView) -> Seq<TokenTreeView> {
    match tree {
        TokenTreeView::Subtree(subtree) => if subtree.delimiter is None {
            subtree.token_trees
        } else {
            seq![tree]
        },
        TokenTreeView::Leaf(_) => seq![tree],
    }
}

/// What a list of trees adds to a stream.
pub open spec fn spliced(trees: Seq<TokenTreeView>) -> Seq<TokenTreeView> {
    trees.flat_map(|tree: TokenTreeView| spliced_tree(tree))
}

/// The trees of a list of streams, one after the other.
pub open spec fn streams_view(streams: Seq<TokenStream>) -> Seq<TokenTreeView> {
    streams.flat_map(|stream: TokenStream| stream@)
}

/// The trees that a subtree stands for as a stream.
pub open spec fn subtree_as_stream(subtree: SubtreeView) -> Seq<TokenTreeView> {
    spliced_tree(TokenTreeView::Subtree(subtree))
}

impl TokenStream {
    pub fn new() -> (stream: Self)
        ensures
            stream@ == Seq::<TokenTreeView>::empty(),
    {
        TokenStream { token_trees: Vec::new() }
    }

    pub fn with_subtree(subtree: tt::Subtree) -> (stream: Self)
        ensures
            stream@ == subtree_as_stream(subtree@),
    {
        if subtree.delimiter.is_some() {
            let stream = TokenStream { token_trees: vec![TokenTree::Subtree(subtree)] };
            assert(stream@ =~= seq![TokenTreeView::Subtree(subtree@)]);
            stream
        } else {
            TokenStream { token_trees: subtree.token_trees }
        }
    }

    pub fn into_subtree(self) -> (subtree: tt::Subtree)
        ensures
            subtree@ == (SubtreeView { delimiter: None, token_trees: self@ }),
    {
        tt::Subtree { delimiter: None, token_trees: self.token_trees }
    }

    pub fn is_empty(&self) -> (res: bool)
        ensures
            res == (self@.len() == 0),
    {
        self.token_trees.is_empty()
    }

    fn push_spliced(&mut self, tree: TokenTree)
        ensures
            final(self)@ == old(self)@ + spliced_tree(tree@),
    {
        match tree {
            TokenTree::Subtree(subtree) => {
                if subtree.delimiter.is_none() {
                    let mut inner = subtree.token_trees;
                    self.token_trees.append(&mut inner);
                } else {
                    self.token_trees.push(TokenTree::Subtree(subtree));
                }
            },
            leaf => self.token_trees.push(leaf),
        }
        assert(self@ =~= old(self)@ + spliced_tree(tree@));
    }

    /// Adds trees at the end.
    pub fn extend_trees(&mut self, trees: Vec<TokenTree>)
        ensures
            final(self)@ == old(self)@ + spliced(trees_view(trees@)),
    {
        let ghost views = trees_view(trees@);
        assert(views.take(0).map_values(|tree: TokenTreeView| spliced_tree(tree)) =~= seq![]);
        assert(self@ =~= old(self)@ + spliced(views.take(0)));
        for tree in it: trees
            invariant
                views == trees_view(it.seq()),
                self@ == old(self)@ + spliced(views.take(it.index() as int)),
        {
            let ghost i = it.index() as int;
            self.push_spliced(tree);
            proof {
                views.lemma_flat_map_take_append(|tree: TokenTreeView| spliced_tree(tree), i);
            }
            assert(self@ =~= old(self)@ + spliced(views.take(i + 1)));
        }
        assert(views.take(views.len() as int) =~= views);
    }

    /// Adds the trees of streams at the end.
    pub fn extend(&mut self, streams: Vec<TokenStream>)
        ensures
            final(self)@ == old(self)@ + spliced(streams_view(streams@)),
    {
        let ghost all = streams@;
        assert(streams_view(all.take(0)) =~= seq![]) by {
            assert(all.take(0).map_values(|stream: TokenStream| stream@) =~= seq![]);
        }
        proof {
            lemma_spliced_nothing();
        }
        assert(self@ =~= old(self)@ + spliced(streams_view(all.take(0))));
        for stream in it: streams
            invariant
                it.seq() == all,
                self@ == old(self)@ + spliced(streams_view(all.take(it.index() as int))),
        {
            let ghost i = it.index() as int;
            let ghost before = streams_view(all.take(i));
            self.extend_trees(stream.token_trees);
            proof {
                all.lemma_flat_map_take_append(|stream: TokenStream| stream@, i);
                spliced_piecewise(before, stream@);
            }
            assert(self@ =~= old(self)@ + spliced(streams_view(all.take(i + 1))));
        }
        assert(all.take(all.len() as int) =~= all);
    }

    /// Collects trees into one stream.
    pub fn from_trees(trees: Vec<TokenTree>) -> (stream: Self)
        ensures
            stream@ == spliced(trees_view(trees@)),
    {
        let mut stream = TokenStream::new();
        stream.extend_trees(trees);
        assert(stream@ =~= spliced(trees_view(trees@)));
        stream
    }

    /// A flattening operation on token streams: collects the trees of several
    /// streams into a single one.
    pub fn from_iter(streams: Vec<TokenStream>) -> (stream: Self)
        ensures
            stream@ == spliced(streams_view(streams@)),
    {
        let ghost all = streams@;
        let mut builder = TokenStreamBuilder::new();
        assert(streams_view(all.take(0)) =~= seq![]) by {
            assert(all.take(0).map_values(|stream: TokenStream| stream@) =~= seq![]);
        }
        proof {
            lemma_spliced_nothing();
        }
        for stream in it: streams
            invariant
                it.seq() == all,
                builder@ == spliced(streams_view(all.take(it.index() as int))),
        {
            let ghost i = it.index() as int;
            let ghost before = streams_view(all.take(i));
            builder.push(stream);
            proof {
                all.lemma_flat_map_take_append(|stream: TokenStream| stream@, i);
                spliced_piecewise(before, stream@);
            }
        }
        assert(all.take(all.len() as int) =~= all);
        builder.build()
    }

    /// The trees of the stream, from first to last. Groups are not entered:
    /// they come as whole trees.
    pub fn into_iter(self) -> (trees: std::vec::IntoIter<TokenTree>)
        ensures
            vstd::std_specs::iter::IteratorSpec::remaining(&trees) == self.token_trees@,
    {
        self.token_trees.into_iter()
    }

    /// The source text of the stream.
    pub fn to_string(&self) -> (text: String)
        ensures
            text@ == pretty_text(self@),
    {
        pretty(&self.token_trees)
    }

    /// The stream of a source text, given what a parser made of that text.
    /// `None` is a text that did not parse.
    pub fn from_parsed(parsed: Option<tt::Subtree>) -> (res: Result<TokenStream, LexError>)
        ensures
            match parsed {
                Some(subtree) => res matches Ok(stream) && stream@ == subtree_as_stream(
                    subtree_without_ids(subtree@),
                ),
                None => res matches Err(error) && error@ == "Failed to parse from mbe"@,
            },
    {
        match parsed {
            Some(subtree) => {
                let subtree = subtree_replace_token_ids_with_unspecified(subtree);
                Ok(TokenStream::with_subtree(subtree))
            },
            None => Err("Failed to parse from mbe".to_owned()),
        }
    }

    /// Attempts to break the string into tokens, by means of `parse`, and to
    /// make a token stream of them. All tokens of the stream get the span of
    /// the call site.
    pub fn from_str<F: Fn(&str) -> Option<tt::Subtree>>(src: &str, parse: F) -> (res: Result<
        TokenStream,
        LexError,
    >)
        requires
            call_requires(parse, (src,)),
        ensures
            exists|parsed: Option<tt::Subtree>| #[trigger]
                call_ensures(parse, (src,), parsed) && match parsed {
                    Some(subtree) => res matches Ok(stream) && stream@ == subtree_as_stream(
                        subtree_without_ids(subtree@),
                    ),
                    None => res matches Err(error) && error@ == "Failed to parse from mbe"@,
                },
    {
        let parsed = parse(src);
        TokenStream::from_parsed(parsed)
    }
}

/// Creates a token stream containing a single token tree.
impl From<TokenTree> for TokenStream {
    fn from(tree: TokenTree) -> (stream: TokenStream)
        ensures
            stream@ == seq![tree@],
    {
        let stream = TokenStream { token_trees: vec![tree] };
        assert(stream@ =~= seq![tree@]);
        stream
    }
}

/// A stream is known by its view only, so `from` is described by its own
/// postcondition and not by a value.
impl vstd::std_specs::convert::FromSpecImpl<TokenTree> for TokenStream {
    open spec fn obeys_from_spec() -> bool {
        false
    }

    open spec fn from_spec(tree: TokenTree) -> TokenStream {
        arbitrary()
    }
}

/// Why a text is no token stream.
pub type LexError = String;

proof fn lemma_spliced_nothing()
    ensures
        spliced(seq![]) == Seq::<TokenTreeView>::empty(),
{
    let nothing: Seq<TokenTreeView> = seq![];
    assert(nothing.map_values(|tree: TokenTreeView| spliced_tree(tree)) =~= seq![]);
}

/// A stream collected from one tree is what that tree adds.
pub proof fn spliced_one(tree: TokenTreeView)
    ensures
        spliced(seq![tree]) == spliced_tree(tree),
{
    seq![tree].lemma_flat_map_singleton(|tree: TokenTreeView| spliced_tree(tree));
}

/// Trees can be added to a stream in several goes: each adds what it would
/// have added among the others.
pub proof fn spliced_piecewise(a: Seq<TokenTreeView>, b: Seq<TokenTreeView>)
    ensures
        spliced(a + b) == spliced(a) + spliced(b),
{
    let f = |tree: TokenTreeView| spliced_tree(tree);
    assert((a + b).map_values(f) =~= a.map_values(f) + b.map_values(f));
    vstd::seq_lib::lemma_flatten_concat(a.map_values(f), b.map_values(f));
}

/// Collects a stream piece by piece.
pub struct TokenStreamBuilder {
    acc: TokenStream,
}

impl View for TokenStreamBuilder {
    type V = Seq<TokenTreeView>;

    closed spec fn view(&self) -> Seq<TokenTreeView> {
        self.acc@
    }
}

impl TokenStreamBuilder {
    pub fn new() -> (builder: TokenStreamBuilder)
        ensures
            builder@ == Seq::<TokenTreeView>::empty(),
    {
        TokenStreamBuilder { acc: TokenStream::new() }
    }

    pub fn push(&mut self, stream: TokenStream)
        ensures
            final(self)@ == old(self)@ + spliced(stream@),
    {
        self.acc.extend_trees(stream.token_trees)
    }

    pub fn build(self) -> (stream: TokenStream)
        ensures
            stream@ == self@,
    {
        self.acc
    }
}

/// What is left of a stream that is being read.
#[derive(Debug)]
pub struct TokenStreamIter {
    trees: VecDeque<TokenTree>,
}

impl View for TokenStreamIter {
    type V = Seq<TokenTreeView>;

    closed spec fn view(&self) -> Seq<TokenTreeView> {
        trees_view(self.trees@)
    }
}

impl TokenStreamIter {
    pub(crate) fn new(stream: TokenStream) -> (iter: TokenStreamIter)
        ensures
            iter@ == stream@,
    {
        let ghost all = stream.token_trees@;
        let mut trees: VecDeque<TokenTree> = VecDeque::new();
        for tree in it: stream.token_trees
            invariant
                it.seq() == all,
                trees@ == all.take(it.index() as int),
        {
            trees.push_back(tree);
        }
        assert(all.take(all.len() as int) =~= all);
        TokenStreamIter { trees }
    }

    pub(crate) fn next_tree(&mut self) -> (tree: Option<TokenTree>)
        ensures
            match tree {
                Some(tree) => {
                    &&& old(self)@.len() > 0
                    &&& tree@ == old(self)@[0]
                    &&& final(self)@ == old(self)@.drop_first()
                },
                None => old(self)@.len() == 0 && final(self)@ == old(self)@,
            },
    {
        let tree = self.trees.pop_front();
        assert(tree is Some ==> self@ =~= old(self)@.drop_first());
        tree
    }
}

impl Clone for TokenStreamIter {
    fn clone(&self) -> (res: Self)
        ensures
            res@ == self@,
    {
        let mut trees: VecDeque<TokenTree> = VecDeque::new();
        let mut i: usize = 0;
        while i < self.trees.len()
            invariant
                i <= self.trees.len(),
                trees.len() == i,
                forall|j: int|
                    0 <= j < i ==> tree_view(#[trigger] trees@[j]) == tree_view(self.trees@[j]),
            decreases self.trees.len() - i,
        {
            trees.push_back(self.trees[i].clone());
            i += 1;
        }
        assert(trees_view(trees@) =~= trees_view(self.trees@));
        TokenStreamIter { trees }
    }
}

/// A leaf with an unspecified identity in place of its own.
pub open spec fn leaf_without_ids(leaf: LeafView) -> LeafView {
    match leaf {
        LeafView::Literal(literal) => LeafView::Literal(
            tt::LiteralView { text: literal.text, id: tt::unspecified_id() },
        ),
        LeafView::Punct(punct) => LeafView::Punct(
            tt::Punct { char: punct.char, spacing: punct.spacing, id: tt::unspecified_id() },
        ),
        LeafView::Ident(ident) => LeafView::Ident(
            tt::IdentView { text: ident.text, id: tt::unspecified_id() },
        ),
    }
}

pub open spec fn delimiter_without_id(delimiter: Option<tt::Delimiter>) -> Option<tt::Delimiter> {
    match delimiter {
        Some(delimiter) => Some(
            tt::Delimiter { id: tt::unspecified_id(), kind: delimiter.kind },
        ),
        None => None,
    }
}

/// A tree with unspecified identities in place of all in it.
pub open spec fn tree_without_ids(tree: TokenTreeView) -> TokenTreeView
    decreases tree,
{
    match tree {
        TokenTreeView::Leaf(leaf) => TokenTreeView::Leaf(leaf_without_ids(leaf)),
        TokenTreeView::Subtree(subtree) => TokenTreeView::Subtree(
            SubtreeView {
                delimiter: delimiter_without_id(subtree.delimiter),
                token_trees: trees_without_ids(subtree.token_trees),
            },
        ),
    }
}

pub open spec fn trees_without_ids(trees: Seq<TokenTreeView>) -> Seq<TokenTreeView>
    decreases trees,
{
    Seq::new(
        trees.len(),
        |i: int|
            if 0 <= i < trees.len() {
                tree_without_ids(trees[i])
            } else {
                arbitrary()
            },
    )
}

pub open spec fn subtree_without_ids(subtree: SubtreeView) -> SubtreeView {
    SubtreeView {
        delimiter: delimiter_without_id(subtree.delimiter),
        token_trees: trees_without_ids(subtree.token_trees),
    }
}

pub fn leaf_replace_token_ids_with_unspecified(leaf: tt::Leaf) -> (res: tt::Leaf)
    ensures
        res@ == leaf_without_ids(leaf@),
{
    match leaf {
        tt::Leaf::Literal(lit) => tt::Leaf::Literal(
            tt::Literal { id: TokenId::unspecified(), ..lit },
        ),
        tt::Leaf::Punct(punct) => tt::Leaf::Punct(
            tt::Punct { id: TokenId::unspecified(), ..punct },
        ),
        tt::Leaf::Ident(ident) => tt::Leaf::Ident(
            tt::Ident { id: TokenId::unspecified(), ..ident },
        ),
    }
}

pub fn token_tree_replace_token_ids_with_unspecified(tree: TokenTree) -> (res: TokenTree)
    ensures
        res@ == tree_without_ids(tree@),
    decreases tree,
{
    match tree {
        TokenTree::Leaf(leaf) => TokenTree::Leaf(leaf_replace_token_ids_with_unspecified(leaf)),
        TokenTree::Subtree(subtree) => TokenTree::Subtree(
            subtree_replace_token_ids_with_unspecified(subtree),
        ),
    }
}

pub fn subtree_replace_token_ids_with_unspecified(subtree: tt::Subtree) -> (res: tt::Subtree)
    ensures
        res@ == subtree_without_ids(subtree@),
    decreases subtree,
{
    let delimiter = match subtree.delimiter {
        Some(d) => Some(tt::Delimiter { id: TokenId::unspecified(), ..d }),
        None => None,
    };
    let ghost all = subtree.token_trees@;
    let mut token_trees: Vec<TokenTree> = Vec::new();
    for tree in it: subtree.token_trees
        invariant
            it.seq() == all,
            all == subtree.token_trees@,
            token_trees.len() == it.index(),
            forall|j: int|
                0 <= j < it.index() ==> tree_view(#[trigger] token_trees@[j]) == tree_without_ids(
                    tree_view(all[j]),
                ),
    {
        token_trees.push(token_tree_replace_token_ids_with_unspecified(tree));
    }
    assert(trees_view(token_trees@) =~= trees_without_ids(trees_view(all)));
    tt::Subtree { delimiter, token_trees }
}

} // verus!
