//! What holds between the operations.
//!
//! The laws speak of the same functions as the contracts, so that each holds of
//! the calls that those contracts describe.

use vstd::prelude::*;

use crate::bridge;
use crate::interner::{
    intern_index, intern_keeps_earlier, intern_position, intern_reads_back, interned, IdentData,
    IdentId,
};
use crate::literal::{unplaced, with_point};
use crate::numeral::{
    decimal, decimal_reads_back, integer_kind, integer_value, typed_integer_literal,
};
use crate::server::{
    external_delimiter, external_spacing, internal_delimiter, internal_spacing, internal_tree,
    is_external_tree, names_after, span_of_group, tree_is_known,
};
use crate::token_stream::{
    delimiter_without_id, leaf_without_ids, spliced, spliced_one, spliced_piecewise, spliced_tree,
    streams_view, subtree_as_stream, subtree_without_ids, tree_without_ids, trees_without_ids,
    TokenStream,
};
use crate::tt;
use crate::tt::{
    is_joint, pretty_text, separator_after, tree_text, unspecified_id, IdentView, LeafView,
    SubtreeView, TokenId, TokenTreeView,
};

verus! {

/// Delimiters that go into a group come out of it.
pub proof fn delimiter_reads_back(d: bridge::Delimiter)
    ensures
        external_delimiter(internal_delimiter(d)) == d,
{
}

/// Delimiters that come out of a group go back in with no more than their
/// identity lost.
pub proof fn delimiter_writes_back(d: Option<tt::Delimiter>)
    ensures
        internal_delimiter(external_delimiter(d)) == delimiter_without_id(d),
{
}

/// Spacing is the same on both sides of the bridge.
pub proof fn spacing_reads_back(external: bridge::Spacing, internal: tt::Spacing)
    ensures
        external_spacing(internal_spacing(external)) == external,
        internal_spacing(external_spacing(internal)) == internal,
{
}

/// A stream that is made a subtree and a stream again is what it was.
pub proof fn stream_survives_subtree(stream: Seq<TokenTreeView>)
    ensures
        subtree_as_stream(SubtreeView { delimiter: None, token_trees: stream }) == stream,
{
}

/// A stream made of a subtree reads as the subtree does.
pub proof fn stream_of_subtree_keeps_text(subtree: SubtreeView)
    ensures
        pretty_text(subtree_as_stream(subtree)) == tree_text(TokenTreeView::Subtree(subtree)),
{
    let tree = TokenTreeView::Subtree(subtree);
    if subtree.delimiter is None {
        assert(tree_text(tree) =~= pretty_text(subtree.token_trees));
    } else {
        let one = seq![tree];
        assert(one.drop_last() =~= seq![]);
        assert(one.last() == tree);
        assert(pretty_text(one.drop_last()) =~= seq![]);
        assert(pretty_text(one) =~= tree_text(tree));
    }
}

/// A tree that adds itself to a stream, and not the trees in it.
pub open spec fn is_solid(tree: TokenTreeView) -> bool {
    tree matches TokenTreeView::Subtree(subtree) ==> subtree.delimiter is Some
}

/// Trees none of which is a subtree without delimiters are collected as they
/// are, in their order.
pub proof fn spliced_keeps_solid_trees(trees: Seq<TokenTreeView>)
    requires
        forall|i: int| 0 <= i < trees.len() ==> is_solid(#[trigger] trees[i]),
    ensures
        spliced(trees) == trees,
    decreases trees.len(),
{
    if trees.len() == 0 {
        assert(trees.map_values(|tree: TokenTreeView| spliced_tree(tree)) =~= seq![]);
        assert(spliced(trees) =~= trees);
    } else {
        let before = trees.drop_last();
        let last = trees.last();
        assert forall|i: int| 0 <= i < before.len() implies is_solid(#[trigger] before[i]) by {
            assert(is_solid(trees[i]));
        }
        spliced_keeps_solid_trees(before);
        assert(is_solid(trees[trees.len() - 1]));
        assert(trees =~= before + seq![last]);
        spliced_piecewise(before, seq![last]);
        spliced_one(last);
    }
}

/// Every identity in a tree is `id`.
pub open spec fn tree_has_only(tree: TokenTreeView, id: TokenId) -> bool
    decreases tree,
{
    match tree {
        TokenTreeView::Leaf(LeafView::Literal(literal)) => literal.id == id,
        TokenTreeView::Leaf(LeafView::Punct(punct)) => punct.id == id,
        TokenTreeView::Leaf(LeafView::Ident(ident)) => ident.id == id,
        TokenTreeView::Subtree(subtree) => {
            &&& subtree.delimiter matches Some(delimiter) ==> delimiter.id == id
            &&& trees_have_only(subtree.token_trees, id)
        },
    }
}

/// Every identity in a list of trees is `id`.
pub open spec fn trees_have_only(trees: Seq<TokenTreeView>, id: TokenId) -> bool
    decreases trees,
{
    forall|i: int| 0 <= i < trees.len() ==> #[trigger] tree_has_only(trees[i], id)
}

proof fn lemma_tree_without_ids(tree: TokenTreeView)
    ensures
        tree_has_only(tree_without_ids(tree), unspecified_id()),
        tree_without_ids(tree_without_ids(tree)) == tree_without_ids(tree),
        tree_text(tree_without_ids(tree)) == tree_text(tree),
        is_joint(tree_without_ids(tree)) == is_joint(tree),
    decreases tree,
{
    if let TokenTreeView::Subtree(subtree) = tree {
        lemma_trees_without_ids(subtree.token_trees);
    }
}

proof fn lemma_trees_without_ids(trees: Seq<TokenTreeView>)
    ensures
        trees_have_only(trees_without_ids(trees), unspecified_id()),
        trees_without_ids(trees_without_ids(trees)) == trees_without_ids(trees),
        pretty_text(trees_without_ids(trees)) == pretty_text(trees),
    decreases trees,
{
    let after = trees_without_ids(trees);
    assert forall|i: int| 0 <= i < after.len() implies tree_has_only(
        #[trigger] after[i],
        unspecified_id(),
    ) && tree_without_ids(after[i]) == after[i] by {
        lemma_tree_without_ids(trees[i]);
    }
    assert(trees_without_ids(after) =~= after);
    if trees.len() > 0 {
        lemma_tree_without_ids(trees.last());
        lemma_trees_without_ids(trees.drop_last());
        assert(after.drop_last() =~= trees_without_ids(trees.drop_last()));
        assert(after.last() == tree_without_ids(trees.last()));
        if trees.len() > 1 {
            lemma_tree_without_ids(trees.drop_last().last());
        }
        assert(separator_after(after.drop_last()) == separator_after(trees.drop_last()));
    }
}

/// Replacing the identities of a subtree leaves none but the unspecified one,
/// changes nothing the second time, and does not touch the text.
pub proof fn replacing_ids(subtree: SubtreeView)
    ensures
        tree_has_only(TokenTreeView::Subtree(subtree_without_ids(subtree)), unspecified_id()),
        subtree_without_ids(subtree_without_ids(subtree)) == subtree_without_ids(subtree),
        tree_text(TokenTreeView::Subtree(subtree_without_ids(subtree))) == tree_text(
            TokenTreeView::Subtree(subtree),
        ),
{
    lemma_tree_without_ids(TokenTreeView::Subtree(subtree));
    lemma_trees_without_ids(subtree.token_trees);
}

/// All tokens of a parsed stream have the span of the call site, and the stream
/// reads as what was parsed.
pub proof fn parsed_stream_is_at_call_site(subtree: SubtreeView)
    ensures
        trees_have_only(subtree_as_stream(subtree_without_ids(subtree)), unspecified_id()),
        pretty_text(subtree_as_stream(subtree_without_ids(subtree))) == tree_text(
            TokenTreeView::Subtree(subtree),
        ),
{
    replacing_ids(subtree);
    stream_of_subtree_keeps_text(subtree_without_ids(subtree));
}

/// The text of a stream does not depend on spans.
pub proof fn text_ignores_spans(trees: Seq<TokenTreeView>)
    ensures
        pretty_text(trees_without_ids(trees)) == pretty_text(trees),
{
    lemma_trees_without_ids(trees);
}

/// A group has the span that it was given, where it has delimiters to carry it.
pub proof fn group_span_reads_back(group: SubtreeView, span: TokenId)
    requires
        group.delimiter is Some,
    ensures
        span_of_group(
            SubtreeView {
                delimiter: Some(tt::Delimiter { id: span, kind: group.delimiter->0.kind }),
                token_trees: group.token_trees,
            },
        ) == span,
{
}

/// Whether a tree, if it is an identifier, stands where its number says: the
/// numbers start again after 32 bits.
pub open spec fn has_own_number(names: Seq<IdentView>, tree: TokenTreeView) -> bool {
    tree matches TokenTreeView::Leaf(LeafView::Ident(ident)) ==> intern_position(names, ident)
        < 0x1_0000_0000
}

/// A tree that was read from a stream can be written into one: it comes back as
/// it was.
pub proof fn read_tree_writes_back(
    names: Seq<IdentView>,
    tree: TokenTreeView,
    external: bridge::TokenTreeView,
)
    requires
        is_external_tree(names, tree, external),
        has_own_number(names, tree),
    ensures
        tree_is_known(names_after(names, tree), external),
        internal_tree(names_after(names, tree), external) == tree,
        spliced_tree(internal_tree(names_after(names, tree), external)) == spliced_tree(tree),
{
    if let TokenTreeView::Leaf(LeafView::Ident(ident)) = tree {
        intern_reads_back(names, ident);
    }
}

/// A tree that was written into a stream is read from it as it was, and reading
/// it numbers nothing new. A group without delimiters is not: its trees are.
pub proof fn written_tree_reads_back(
    names: Seq<IdentView>,
    tree: bridge::TokenTreeView,
    external: bridge::TokenTreeView,
)
    requires
        names.no_duplicates(),
        tree_is_known(names, tree),
        is_solid(internal_tree(names, tree)),
        is_external_tree(names, internal_tree(names, tree), external),
    ensures
        spliced_tree(internal_tree(names, tree)) == seq![internal_tree(names, tree)],
        external == tree,
        names_after(names, internal_tree(names, tree)) == names,
{
    if let bridge::TokenTreeView::Ident(ident) = tree {
        let name = names[ident@ as int];
        assert(names.contains(name));
        assert(names.index_of(name) == ident@);
        IdentId::lemma_view_is_injective(ident, external->Ident_0);
    }
}

/// The identifiers after a list of trees was read.
pub open spec fn names_after_all(names: Seq<IdentView>, trees: Seq<TokenTreeView>) -> Seq<IdentView>
    decreases trees.len(),
{
    if trees.len() == 0 {
        names
    } else {
        names_after(names_after_all(names, trees.drop_last()), trees.last())
    }
}

/// Reading trees leaves the identifiers distinct, and those that had a number
/// keep it.
pub proof fn reading_keeps_numbers(names: Seq<IdentView>, trees: Seq<TokenTreeView>)
    requires
        names.no_duplicates(),
    ensures
        names_after_all(names, trees).no_duplicates(),
        names.is_prefix_of(names_after_all(names, trees)),
    decreases trees.len(),
{
    if trees.len() > 0 {
        reading_keeps_numbers(names, trees.drop_last());
        let before = names_after_all(names, trees.drop_last());
        let after = names_after_all(names, trees);
        assert(before.is_prefix_of(after));
        assert(after.no_duplicates());
    }
}

/// Trees that were read one after the other can all be written afterwards, and
/// come back as they were.
pub proof fn read_stream_writes_back(
    names: Seq<IdentView>,
    trees: Seq<TokenTreeView>,
    externals: Seq<bridge::TokenTreeView>,
    i: int,
)
    requires
        names.no_duplicates(),
        externals.len() == trees.len(),
        forall|j: int|
            0 <= j < trees.len() ==> is_external_tree(
                names_after_all(names, trees.take(j)),
                trees[j],
                #[trigger] externals[j],
            ),
        0 <= i < trees.len(),
        has_own_number(names_after_all(names, trees.take(i)), trees[i]),
    ensures
        tree_is_known(names_after_all(names, trees), externals[i]),
        internal_tree(names_after_all(names, trees), externals[i]) == trees[i],
    decreases trees.len(),
{
    let before = names_after_all(names, trees.drop_last());
    let after = names_after_all(names, trees);
    reading_keeps_numbers(names, trees.drop_last());
    assert(before.is_prefix_of(after));
    if i == trees.len() - 1 {
        assert(trees.take(i) =~= trees.drop_last());
        assert(is_external_tree(before, trees[i], externals[i]));
        if let TokenTreeView::Leaf(LeafView::Ident(ident)) = trees[i] {
            intern_reads_back(before, ident);
        }
    } else {
        assert forall|j: int| 0 <= j < trees.len() - 1 implies is_external_tree(
            names_after_all(names, trees.drop_last().take(j)),
            trees.drop_last()[j],
            #[trigger] externals.drop_last()[j],
        ) by {
            assert(trees.drop_last().take(j) =~= trees.take(j));
            assert(is_external_tree(
                names_after_all(names, trees.take(j)),
                trees[j],
                externals[j],
            ));
        }
        assert(trees.drop_last().take(i) =~= trees.take(i));
        read_stream_writes_back(names, trees.drop_last(), externals.drop_last(), i);
        assert(externals.drop_last()[i] == externals[i]);
        assert(trees.drop_last()[i] == trees[i]);
    }
}

/// What a builder holds after a list of the bridge's trees was made streams of
/// and pushed, one after the other.
pub open spec fn built(
    names: Seq<IdentView>,
    externals: Seq<bridge::TokenTreeView>,
) -> Seq<TokenTreeView>
    decreases externals.len(),
{
    if externals.len() == 0 {
        seq![]
    } else {
        built(names, externals.drop_last()) + spliced(
            spliced_tree(internal_tree(names, externals.last())),
        )
    }
}

proof fn lemma_built(
    names: Seq<IdentView>,
    trees: Seq<TokenTreeView>,
    externals: Seq<bridge::TokenTreeView>,
)
    requires
        externals.len() == trees.len(),
        forall|j: int|
            0 <= j < trees.len() ==> is_solid(trees[j]) && internal_tree(
                names,
                #[trigger] externals[j],
            ) == trees[j],
    ensures
        built(names, externals) == trees,
    decreases trees.len(),
{
    if trees.len() > 0 {
        let last = trees.last();
        assert forall|j: int| 0 <= j < trees.len() - 1 implies is_solid(trees.drop_last()[j])
            && internal_tree(names, #[trigger] externals.drop_last()[j]) == trees.drop_last()[j] by {
            assert(internal_tree(names, externals[j]) == trees[j]);
        }
        lemma_built(names, trees.drop_last(), externals.drop_last());
        assert(internal_tree(names, externals[trees.len() - 1]) == last);
        assert(spliced_tree(last) == seq![last]);
        spliced_one(last);
        assert(trees =~= trees.drop_last() + seq![last]);
    } else {
        assert(built(names, externals) =~= trees);
    }
}

/// A stream that is read to its end and built again of what was read is what it
/// was, where it holds no group without delimiters.
pub proof fn stream_survives_the_bridge(
    names: Seq<IdentView>,
    trees: Seq<TokenTreeView>,
    externals: Seq<bridge::TokenTreeView>,
)
    requires
        names.no_duplicates(),
        externals.len() == trees.len(),
        forall|j: int|
            0 <= j < trees.len() ==> is_external_tree(
                names_after_all(names, trees.take(j)),
                trees[j],
                #[trigger] externals[j],
            ),
        forall|j: int|
            0 <= j < trees.len() ==> has_own_number(
                names_after_all(names, trees.take(j)),
                #[trigger] trees[j],
            ),
        forall|j: int| 0 <= j < trees.len() ==> is_solid(#[trigger] trees[j]),
    ensures
        built(names_after_all(names, trees), externals) == trees,
{
    assert forall|j: int| 0 <= j < trees.len() implies is_solid(trees[j]) && internal_tree(
        names_after_all(names, trees),
        #[trigger] externals[j],
    ) == trees[j] by {
        assert(has_own_number(names_after_all(names, trees.take(j)), trees[j]));
        read_stream_writes_back(names, trees, externals, j);
    }
    lemma_built(names_after_all(names, trees), trees, externals);
}

/// An identifier that is moved to another span and back has its number again.
pub proof fn ident_span_round_trip(names: Seq<IdentView>, ident: IdentView, span: TokenId)
    requires
        names.no_duplicates(),
        names.contains(ident),
    ensures
        ({
            let moved = IdentView { text: ident.text, id: span };
            let back = IdentView { text: moved.text, id: ident.id };
            intern_index(interned(names, moved), back) == intern_index(names, ident)
        }),
{
    let moved = IdentView { text: ident.text, id: span };
    intern_keeps_earlier(names, moved, ident);
    assert(IdentView { text: moved.text, id: ident.id } == ident);
}

/// A float literal without a suffix has a point, and a text with one is kept.
pub proof fn float_literal_has_point(rendered: Seq<char>)
    ensures
        with_point(rendered).contains('.'),
        with_point(with_point(rendered)) == with_point(rendered),
{
    if !rendered.contains('.') {
        assert(with_point(rendered)[rendered.len() as int] == '.');
    }
}

/// A suffixed integer literal ends in its suffix; what stands before it is the
/// number that was asked for, and makes the same literal again.
pub proof fn typed_integer_literal_is_normal_form(n: Seq<char>, kind: Seq<char>)
    requires
        typed_integer_literal(n, kind) is Some,
    ensures
        ({
            let text = typed_integer_literal(n, kind)->0;
            let digits = text.take(text.len() - kind.len());
            let signed = integer_kind(kind)->0.least() < 0;
            &&& text.len() >= kind.len()
            &&& text.skip(text.len() - kind.len()) == kind
            &&& integer_value(digits, signed) == integer_value(n, signed)
            &&& typed_integer_literal(digits, kind) == Some(text)
        }),
{
    let signed = integer_kind(kind)->0.least() < 0;
    let value = integer_value(n, signed)->0;
    let text = typed_integer_literal(n, kind)->0;
    decimal_reads_back(value);
    assert(text.take(text.len() - kind.len()) =~= decimal(value));
    assert(text.skip(text.len() - kind.len()) =~= kind);
}

/// The identity that stands for no place in particular is the greatest one.
pub proof fn unspecified_is_greatest(id: TokenId)
    ensures
        unspecified_id().0 >= id.0,
        unspecified_id() == TokenId(0xffff_ffff),
{
}

/// The view of a leaf keeps its kind and all that is in it.
pub proof fn leaf_view_is_faithful(leaf: tt::Leaf)
    ensures
        leaf matches tt::Leaf::Literal(literal) ==> leaf@ == LeafView::Literal(
            tt::LiteralView { text: literal.text@, id: literal.id },
        ),
        leaf matches tt::Leaf::Punct(punct) ==> leaf@ == LeafView::Punct(punct),
        leaf matches tt::Leaf::Ident(ident) ==> leaf@ == LeafView::Ident(
            IdentView { text: ident.text@, id: ident.id },
        ),
{
}

/// The view of a tree keeps its kind, its delimiters, and the trees in it, each
/// in its place.
pub proof fn tree_view_is_faithful(tree: tt::TokenTree)
    ensures
        tree matches tt::TokenTree::Leaf(leaf) ==> tree@ == TokenTreeView::Leaf(leaf@),
        tree matches tt::TokenTree::Subtree(subtree) ==> {
            &&& tree@ == TokenTreeView::Subtree(subtree@)
            &&& subtree@.delimiter == subtree.delimiter
            &&& subtree@.token_trees.len() == subtree.token_trees@.len()
            &&& forall|i: int|
                0 <= i < subtree.token_trees@.len() ==> #[trigger] subtree@.token_trees[i]
                    == subtree.token_trees@[i]@
        },
{
}

/// The view of a stream is that of its trees, each in its place.
pub proof fn stream_view_is_faithful(stream: TokenStream)
    ensures
        stream@.len() == stream.token_trees@.len(),
        forall|i: int|
            0 <= i < stream.token_trees@.len() ==> #[trigger] stream@[i]
                == stream.token_trees@[i]@,
{
}

/// The view of what crosses the bridge keeps its kind and all that is in it.
pub proof fn bridge_view_is_faithful(tree: bridge::TokenTree)
    ensures
        tree matches bridge::TokenTree::Group(group) ==> tree@ == bridge::TokenTreeView::Group(
            group@,
        ),
        tree matches bridge::TokenTree::Punct(punct) ==> tree@ == bridge::TokenTreeView::Punct(
            punct,
        ),
        tree matches bridge::TokenTree::Ident(ident) ==> tree@ == bridge::TokenTreeView::Ident(
            ident,
        ),
        tree matches bridge::TokenTree::Literal(literal) ==> tree@
            == bridge::TokenTreeView::Literal(
            tt::LiteralView { text: literal.text@, id: literal.id },
        ),
{
}

/// The view of what is interned is the identifier's text and span.
pub proof fn ident_data_view_is_faithful(data: IdentData)
    ensures
        data@ == (IdentView { text: data.0.text@, id: data.0.id }),
{
}

/// A leaf reads as its own text.
pub proof fn leaf_text(text: Seq<char>, punct: tt::Punct, id: TokenId)
    ensures
        tree_text(TokenTreeView::Leaf(LeafView::Ident(IdentView { text, id }))) == text,
        tree_text(TokenTreeView::Leaf(LeafView::Literal(tt::LiteralView { text, id }))) == text,
        tree_text(TokenTreeView::Leaf(LeafView::Punct(punct))) == seq![punct.char],
{
}

/// A subtree reads as the list of trees in it, all of it, between the characters
/// of its delimiters; without delimiters, as that list.
pub proof fn subtree_text(id: TokenId, trees: Seq<TokenTreeView>)
    ensures
        tree_text(
            TokenTreeView::Subtree(
                SubtreeView {
                    delimiter: Some(tt::Delimiter { id, kind: tt::DelimiterKind::Brace }),
                    token_trees: trees,
                },
            ),
        ) == seq!['{'] + pretty_text(trees) + seq!['}'],
        tree_text(
            TokenTreeView::Subtree(
                SubtreeView {
                    delimiter: Some(tt::Delimiter { id, kind: tt::DelimiterKind::Parenthesis }),
                    token_trees: trees,
                },
            ),
        ) == seq!['('] + pretty_text(trees) + seq![')'],
        tree_text(
            TokenTreeView::Subtree(
                SubtreeView {
                    delimiter: Some(tt::Delimiter { id, kind: tt::DelimiterKind::Bracket }),
                    token_trees: trees,
                },
            ),
        ) == seq!['['] + pretty_text(trees) + seq![']'],
        tree_text(
            TokenTreeView::Subtree(SubtreeView { delimiter: None, token_trees: trees }),
        ) == pretty_text(trees),
{
    let bare = TokenTreeView::Subtree(SubtreeView { delimiter: None, token_trees: trees });
    assert(tree_text(bare) =~= pretty_text(trees));
}

/// No trees read as nothing, and one tree reads as itself.
pub proof fn text_of_few_trees(tree: TokenTreeView)
    ensures
        pretty_text(Seq::<TokenTreeView>::empty()) == Seq::<char>::empty(),
        pretty_text(seq![tree]) == tree_text(tree),
{
    let one = seq![tree];
    assert(one.drop_last() =~= Seq::<TokenTreeView>::empty());
    assert(pretty_text(one.drop_last()) =~= seq![]);
    assert(one.last() == tree);
    assert(pretty_text(one) =~= tree_text(tree));
}

/// Two lists, one after the other, read as the one and then the other, with a
/// space between them unless the first ends in joint punctuation.
pub proof fn text_piecewise(a: Seq<TokenTreeView>, b: Seq<TokenTreeView>)
    requires
        a.len() > 0,
        b.len() > 0,
    ensures
        (a.last() matches TokenTreeView::Leaf(LeafView::Punct(punct)) && punct.spacing
            == tt::Spacing::Joint) ==> pretty_text(a + b) == pretty_text(a) + pretty_text(b),
        !(a.last() matches TokenTreeView::Leaf(LeafView::Punct(punct)) && punct.spacing
            == tt::Spacing::Joint) ==> pretty_text(a + b) == pretty_text(a) + seq![' ']
            + pretty_text(b),
    decreases b.len(),
{
    let before = b.drop_last();
    let last = b.last();
    assert((a + b).drop_last() =~= a + before);
    assert((a + b).last() == last);
    if before.len() == 0 {
        assert(a + before =~= a);
        assert(b =~= seq![last]);
        text_of_few_trees(last);
        assert(pretty_text(a + b) =~= pretty_text(a) + separator_after(a) + pretty_text(b));
        assert(separator_after(a).len() == 0 ==> separator_after(a) =~= seq![]);
        if is_joint(a.last()) {
            assert(pretty_text(a + b) =~= pretty_text(a) + pretty_text(b));
        }
    } else {
        text_piecewise(a, before);
        assert((a + before).last() == before.last());
        assert(separator_after(a + before) == separator_after(before));
        let tail = separator_after(before) + tree_text(last);
        assert(pretty_text(b) =~= pretty_text(before) + tail);
        assert(pretty_text(a + b) =~= pretty_text(a + before) + tail);
        if is_joint(a.last()) {
            assert(pretty_text(a + b) =~= pretty_text(a) + pretty_text(b));
        } else {
            assert(pretty_text(a + b) =~= pretty_text(a) + seq![' '] + pretty_text(b));
        }
    }
}

/// The text of a list holds the text of each tree of it.
pub proof fn text_loses_no_tree(trees: Seq<TokenTreeView>, i: int)
    requires
        0 <= i < trees.len(),
    ensures
        exists|before: Seq<char>, after: Seq<char>|
            pretty_text(trees) == #[trigger] (before + tree_text(trees[i]) + after),
    decreases trees.len(),
{
    let start = pretty_text(trees.drop_last()) + separator_after(trees.drop_last());
    if i == trees.len() - 1 {
        assert(pretty_text(trees) =~= start + tree_text(trees[i]) + seq![]);
    } else {
        text_loses_no_tree(trees.drop_last(), i);
        assert(trees.drop_last()[i] == trees[i]);
        let (before, after) = choose|before: Seq<char>, after: Seq<char>|
            pretty_text(trees.drop_last()) == #[trigger] (before + tree_text(trees[i]) + after);
        let rest = after + separator_after(trees.drop_last()) + tree_text(trees.last());
        assert(pretty_text(trees) =~= before + tree_text(trees[i]) + rest);
    }
}

/// A leaf whose identity is replaced is of the same kind, with the same text, or
/// the same character and spacing; its identity is the unspecified one.
pub proof fn replacing_leaf_id(leaf: LeafView)
    ensures
        leaf matches LeafView::Literal(literal) ==> {
            &&& leaf_without_ids(leaf) matches LeafView::Literal(after)
            &&& after.text == literal.text
            &&& after.id == TokenId(u32::MAX)
        },
        leaf matches LeafView::Punct(punct) ==> {
            &&& leaf_without_ids(leaf) matches LeafView::Punct(after)
            &&& after.char == punct.char
            &&& after.spacing == punct.spacing
            &&& after.id == TokenId(u32::MAX)
        },
        leaf matches LeafView::Ident(ident) ==> {
            &&& leaf_without_ids(leaf) matches LeafView::Ident(after)
            &&& after.text == ident.text
            &&& after.id == TokenId(u32::MAX)
        },
        tree_without_ids(TokenTreeView::Leaf(leaf)) == TokenTreeView::Leaf(leaf_without_ids(leaf)),
{
}

/// A subtree whose identities are replaced has delimiters of the same kind, of
/// unspecified identity, or none as before, and as many trees, each what
/// replacing makes of the one in its place.
pub proof fn replacing_subtree_ids(subtree: SubtreeView)
    ensures
        tree_without_ids(TokenTreeView::Subtree(subtree)) == TokenTreeView::Subtree(
            subtree_without_ids(subtree),
        ),
        subtree.delimiter is None <==> subtree_without_ids(subtree).delimiter is None,
        subtree.delimiter matches Some(delimiter) ==> {
            &&& subtree_without_ids(subtree).delimiter->0.kind == delimiter.kind
            &&& subtree_without_ids(subtree).delimiter->0.id == TokenId(u32::MAX)
        },
        subtree_without_ids(subtree).token_trees.len() == subtree.token_trees.len(),
        forall|i: int|
            0 <= i < subtree.token_trees.len() ==> #[trigger] subtree_without_ids(
                subtree,
            ).token_trees[i] == tree_without_ids(subtree.token_trees[i]),
{
}

/// Two trees are alike in all but their identities.
pub open spec fn same_but_ids(a: TokenTreeView, b: TokenTreeView) -> bool
    decreases a,
{
    match (a, b) {
        (
            TokenTreeView::Leaf(LeafView::Literal(x)),
            TokenTreeView::Leaf(LeafView::Literal(y)),
        ) => x.text == y.text,
        (
            TokenTreeView::Leaf(LeafView::Ident(x)),
            TokenTreeView::Leaf(LeafView::Ident(y)),
        ) => x.text == y.text,
        (
            TokenTreeView::Leaf(LeafView::Punct(x)),
            TokenTreeView::Leaf(LeafView::Punct(y)),
        ) => x.char == y.char && x.spacing == y.spacing,
        (TokenTreeView::Subtree(x), TokenTreeView::Subtree(y)) => {
            &&& match (x.delimiter, y.delimiter) {
                (Some(d), Some(e)) => d.kind == e.kind,
                (None, None) => true,
                _ => false,
            }
            &&& lists_same_but_ids(x.token_trees, y.token_trees)
        },
        _ => false,
    }
}

/// Two lists hold trees that are alike in all but their identities.
pub open spec fn lists_same_but_ids(a: Seq<TokenTreeView>, b: Seq<TokenTreeView>) -> bool
    decreases a,
{
    a.len() == b.len() && forall|i: int| 0 <= i < a.len() ==> same_but_ids(#[trigger] a[i], b[i])
}

/// Replacing the identities of a tree changes identities only.
pub proof fn replacing_ids_changes_nothing_else(tree: TokenTreeView)
    ensures
        same_but_ids(tree, tree_without_ids(tree)),
    decreases tree,
{
    if let TokenTreeView::Subtree(subtree) = tree {
        lemma_lists_same_but_ids(subtree.token_trees);
    }
}

proof fn lemma_lists_same_but_ids(trees: Seq<TokenTreeView>)
    ensures
        lists_same_but_ids(trees, trees_without_ids(trees)),
    decreases trees,
{
    let after = trees_without_ids(trees);
    assert forall|i: int| 0 <= i < trees.len() implies same_but_ids(
        #[trigger] trees[i],
        after[i],
    ) by {
        replacing_ids_changes_nothing_else(trees[i]);
    }
}

/// Trees come out of replacing the same exactly where they are alike in all but
/// their identities.
pub proof fn replacing_ids_forgets_ids_only(a: TokenTreeView, b: TokenTreeView)
    ensures
        tree_without_ids(a) == tree_without_ids(b) <==> same_but_ids(a, b),
    decreases a,
{
    if let (TokenTreeView::Subtree(x), TokenTreeView::Subtree(y)) = (a, b) {
        if x.token_trees.len() == y.token_trees.len() {
            assert forall|i: int| 0 <= i < x.token_trees.len() implies (tree_without_ids(
                #[trigger] x.token_trees[i],
            ) == tree_without_ids(y.token_trees[i]) <==> same_but_ids(
                x.token_trees[i],
                y.token_trees[i],
            )) by {
                replacing_ids_forgets_ids_only(x.token_trees[i], y.token_trees[i]);
            }
        }
        let after_x = trees_without_ids(x.token_trees);
        let after_y = trees_without_ids(y.token_trees);
        if same_but_ids(a, b) {
            assert forall|i: int| 0 <= i < after_x.len() implies after_x[i] == after_y[i] by {
                assert(same_but_ids(x.token_trees[i], y.token_trees[i]));
            }
            assert(after_x =~= after_y);
        }
        if tree_without_ids(a) == tree_without_ids(b) {
            assert(after_x == after_y);
            assert(x.token_trees.len() == after_x.len() == y.token_trees.len());
            assert forall|i: int| 0 <= i < x.token_trees.len() implies same_but_ids(
                #[trigger] x.token_trees[i],
                y.token_trees[i],
            ) by {
                assert(after_x[i] == after_y[i]);
            }
        }
    }
}

/// Each delimiter is the one of the same name on the other side, in each
/// direction by itself; one that is made has no identity of its own.
pub proof fn delimiters_have_the_same_name(d: bridge::Delimiter, delimiter: tt::Delimiter)
    ensures
        d == bridge::Delimiter::Invisible <==> internal_delimiter(d) is None,
        d == bridge::Delimiter::Parenthesis <==> (internal_delimiter(d) matches Some(made)
            && made.kind == tt::DelimiterKind::Parenthesis),
        d == bridge::Delimiter::Brace <==> (internal_delimiter(d) matches Some(made) && made.kind
            == tt::DelimiterKind::Brace),
        d == bridge::Delimiter::Bracket <==> (internal_delimiter(d) matches Some(made)
            && made.kind == tt::DelimiterKind::Bracket),
        internal_delimiter(d) matches Some(made) ==> made.id == TokenId(u32::MAX),
        external_delimiter(None) == bridge::Delimiter::Invisible,
        delimiter.kind == tt::DelimiterKind::Parenthesis <==> external_delimiter(Some(delimiter))
            == bridge::Delimiter::Parenthesis,
        delimiter.kind == tt::DelimiterKind::Brace <==> external_delimiter(Some(delimiter))
            == bridge::Delimiter::Brace,
        delimiter.kind == tt::DelimiterKind::Bracket <==> external_delimiter(Some(delimiter))
            == bridge::Delimiter::Bracket,
{
}

/// A group that is made with a delimiter reads as its stream between the
/// characters of that delimiter.
pub proof fn group_text(d: bridge::Delimiter, stream: Seq<TokenTreeView>)
    ensures
        ({
            let text = tree_text(
                TokenTreeView::Subtree(
                    SubtreeView { delimiter: internal_delimiter(d), token_trees: stream },
                ),
            );
            &&& d == bridge::Delimiter::Parenthesis ==> text == seq!['('] + pretty_text(stream)
                + seq![')']
            &&& d == bridge::Delimiter::Brace ==> text == seq!['{'] + pretty_text(stream) + seq![
                '}',
            ]
            &&& d == bridge::Delimiter::Bracket ==> text == seq!['['] + pretty_text(stream)
                + seq![']']
            &&& d == bridge::Delimiter::Invisible ==> text == pretty_text(stream)
        }),
{
    subtree_text(unspecified_id(), stream);
}

/// Spacing is the one of the same name on the other side, in each direction by
/// itself.
pub proof fn spacing_has_the_same_name(external: bridge::Spacing, internal: tt::Spacing)
    ensures
        external == bridge::Spacing::Joint <==> internal_spacing(external) == tt::Spacing::Joint,
        external == bridge::Spacing::Alone <==> internal_spacing(external) == tt::Spacing::Alone,
        internal == tt::Spacing::Joint <==> external_spacing(internal) == bridge::Spacing::Joint,
        internal == tt::Spacing::Alone <==> external_spacing(internal) == bridge::Spacing::Alone,
{
}

/// Punctuation that is made joint is glued to the tree after it; made alone, it
/// is set off by a space.
pub proof fn punct_text(ch: char, id: TokenId, next: TokenTreeView)
    ensures
        pretty_text(
            seq![
                TokenTreeView::Leaf(
                    LeafView::Punct(
                        tt::Punct { char: ch, spacing: internal_spacing(bridge::Spacing::Joint), id },
                    ),
                ),
                next,
            ],
        ) == seq![ch] + tree_text(next),
        pretty_text(
            seq![
                TokenTreeView::Leaf(
                    LeafView::Punct(
                        tt::Punct { char: ch, spacing: internal_spacing(bridge::Spacing::Alone), id },
                    ),
                ),
                next,
            ],
        ) == seq![ch, ' '] + tree_text(next),
{
    let joint = TokenTreeView::Leaf(
        LeafView::Punct(
            tt::Punct { char: ch, spacing: internal_spacing(bridge::Spacing::Joint), id },
        ),
    );
    let alone = TokenTreeView::Leaf(
        LeafView::Punct(
            tt::Punct { char: ch, spacing: internal_spacing(bridge::Spacing::Alone), id },
        ),
    );
    text_of_few_trees(joint);
    text_of_few_trees(alone);
    text_of_few_trees(next);
    text_piecewise(seq![joint], seq![next]);
    text_piecewise(seq![alone], seq![next]);
    assert(seq![joint, next] =~= seq![joint] + seq![next]);
    assert(seq![alone, next] =~= seq![alone] + seq![next]);
    assert(pretty_text(seq![alone, next]) =~= seq![ch, ' '] + tree_text(next));
}

/// What is no identifier crosses the bridge unchanged, in each direction by
/// itself: a literal is told of as that literal, punctuation as that
/// punctuation, a group as that group, and each is written as it is told.
pub proof fn crossing_changes_nothing(
    names: Seq<IdentView>,
    group: SubtreeView,
    punct: tt::Punct,
    literal: tt::LiteralView,
    external: bridge::TokenTreeView,
)
    ensures
        is_external_tree(names, TokenTreeView::Subtree(group), external) <==> external
            == bridge::TokenTreeView::Group(group),
        is_external_tree(names, TokenTreeView::Leaf(LeafView::Punct(punct)), external) <==> external
            == bridge::TokenTreeView::Punct(punct),
        is_external_tree(names, TokenTreeView::Leaf(LeafView::Literal(literal)), external)
            <==> external == bridge::TokenTreeView::Literal(literal),
        names_after(names, TokenTreeView::Subtree(group)) == names,
        names_after(names, TokenTreeView::Leaf(LeafView::Punct(punct))) == names,
        names_after(names, TokenTreeView::Leaf(LeafView::Literal(literal))) == names,
        tree_is_known(names, bridge::TokenTreeView::Group(group)),
        tree_is_known(names, bridge::TokenTreeView::Punct(punct)),
        tree_is_known(names, bridge::TokenTreeView::Literal(literal)),
        internal_tree(names, bridge::TokenTreeView::Group(group)) == TokenTreeView::Subtree(group),
        internal_tree(names, bridge::TokenTreeView::Punct(punct)) == TokenTreeView::Leaf(
            LeafView::Punct(punct),
        ),
        internal_tree(names, bridge::TokenTreeView::Literal(literal)) == TokenTreeView::Leaf(
            LeafView::Literal(literal),
        ),
{
}

/// An identifier is told of by a number that then leads to it, and written as
/// the identifier that its number leads to.
pub proof fn identifiers_cross_by_number(
    names: Seq<IdentView>,
    ident: IdentView,
    id: IdentId,
    external: bridge::TokenTreeView,
)
    requires
        names.no_duplicates(),
    ensures
        is_external_tree(names, TokenTreeView::Leaf(LeafView::Ident(ident)), external) ==> {
            &&& external matches bridge::TokenTreeView::Ident(told)
            &&& exists|place: int|
                {
                    &&& 0 <= place < names_after(
                        names,
                        TokenTreeView::Leaf(LeafView::Ident(ident)),
                    ).len()
                    &&& #[trigger] names_after(
                        names,
                        TokenTreeView::Leaf(LeafView::Ident(ident)),
                    )[place] == ident
                    &&& told@ == place % 0x1_0000_0000
                }
        },
        names.contains(ident) ==> names_after(names, TokenTreeView::Leaf(LeafView::Ident(ident)))
            == names,
        !names.contains(ident) ==> names_after(names, TokenTreeView::Leaf(LeafView::Ident(ident)))
            == names.push(ident),
        tree_is_known(names, bridge::TokenTreeView::Ident(id)) <==> id@ < names.len(),
        id@ < names.len() ==> internal_tree(names, bridge::TokenTreeView::Ident(id))
            == TokenTreeView::Leaf(LeafView::Ident(names[id@ as int])),
{
    let tree = TokenTreeView::Leaf(LeafView::Ident(ident));
    let after = names_after(names, tree);
    let place = if names.contains(ident) {
        names.index_of(ident)
    } else {
        names.len() as int
    };
    assert(after[place] == ident);
}

/// A tree adds itself to a stream, unless it is a subtree without delimiters,
/// which adds the trees in it; a subtree is the stream of what it adds.
pub proof fn what_trees_add(leaf: LeafView, delimiter: tt::Delimiter, trees: Seq<TokenTreeView>)
    ensures
        spliced(seq![TokenTreeView::Leaf(leaf)]) == seq![TokenTreeView::Leaf(leaf)],
        ({
            let solid = SubtreeView { delimiter: Some(delimiter), token_trees: trees };
            &&& spliced(seq![TokenTreeView::Subtree(solid)]) == seq![TokenTreeView::Subtree(solid)]
            &&& spliced_tree(TokenTreeView::Subtree(solid)) == seq![TokenTreeView::Subtree(solid)]
            &&& subtree_as_stream(solid) == seq![TokenTreeView::Subtree(solid)]
        }),
        ({
            let bare = SubtreeView { delimiter: None, token_trees: trees };
            &&& spliced(seq![TokenTreeView::Subtree(bare)]) == trees
            &&& spliced_tree(TokenTreeView::Subtree(bare)) == trees
            &&& subtree_as_stream(bare) == trees
        }),
        spliced_tree(TokenTreeView::Leaf(leaf)) == seq![TokenTreeView::Leaf(leaf)],
        spliced(Seq::<TokenTreeView>::empty()) == Seq::<TokenTreeView>::empty(),
{
    spliced_one(TokenTreeView::Leaf(leaf));
    spliced_one(
        TokenTreeView::Subtree(SubtreeView { delimiter: Some(delimiter), token_trees: trees }),
    );
    spliced_one(TokenTreeView::Subtree(SubtreeView { delimiter: None, token_trees: trees }));
    spliced_keeps_solid_trees(Seq::<TokenTreeView>::empty());
}

/// Streams that are collected stand one after the other, each with all its
/// trees.
pub proof fn streams_piecewise(a: Seq<TokenStream>, b: Seq<TokenStream>, stream: TokenStream)
    ensures
        streams_view(a + b) == streams_view(a) + streams_view(b),
        streams_view(seq![stream]) == stream@,
        streams_view(Seq::<TokenStream>::empty()) == Seq::<TokenTreeView>::empty(),
{
    let f = |stream: TokenStream| stream@;
    assert((a + b).map_values(f) =~= a.map_values(f) + b.map_values(f));
    vstd::seq_lib::lemma_flatten_concat(a.map_values(f), b.map_values(f));
    seq![stream].lemma_flat_map_singleton(f);
    assert(Seq::<TokenStream>::empty().map_values(f) =~= seq![]);
}

/// A group has the span of its delimiters; without delimiters it has the
/// unspecified one.
pub proof fn group_span_is_that_of_delimiters(
    delimiter: tt::Delimiter,
    trees: Seq<TokenTreeView>,
)
    ensures
        span_of_group(SubtreeView { delimiter: Some(delimiter), token_trees: trees })
            == delimiter.id,
        span_of_group(SubtreeView { delimiter: None, token_trees: trees }) == TokenId(u32::MAX),
{
}

/// A literal that is made has the text it was made of, and no place.
pub proof fn made_literal_reads_back(text: Seq<char>)
    ensures
        unplaced(text).text == text,
        unplaced(text).id == TokenId(u32::MAX),
{
}

/// The rendering of a number starts its literal; what is added is a point and a
/// zero, where the rendering has no point, and nothing where it has one.
pub proof fn float_literal_keeps_number(rendered: Seq<char>)
    ensures
        rendered.is_prefix_of(with_point(rendered)),
        rendered.contains('.') ==> with_point(rendered).len() == rendered.len(),
        !rendered.contains('.') ==> with_point(rendered).skip(rendered.len() as int) == seq![
            '.',
            '0',
        ],
{
    if !rendered.contains('.') {
        assert(with_point(rendered).skip(rendered.len() as int) =~= seq!['.', '0']);
    }
}

} // verus!
