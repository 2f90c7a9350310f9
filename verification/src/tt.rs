//! Token trees: the data a macro reads and produces.
//!
//! Every type has a ghost counterpart (`..View`) in which text is a sequence of
//! characters and a list of trees is a sequence; contracts speak of those.

use vstd::prelude::*;
use vstd::string::StringExecFns;

verus! {

/// Identity of a token, used as its span.
#[derive(Debug, Clone, Copy, PartialEq, Eq, Hash, Structural)]
pub struct TokenId(pub u32);

/// The identity of a token that stands nowhere in particular.
pub open spec fn unspecified_id() -> TokenId {
    TokenId(u32::MAX)
}

impl TokenId {
    pub fn unspecified() -> (id: TokenId)
        ensures
            id == unspecified_id(),
    {
        TokenId(u32::MAX)
    }
}

#[derive(Debug, Clone, Copy, PartialEq, Eq, Hash, Structural)]
pub enum DelimiterKind {
    Parenthesis,
    Brace,
    Bracket,
}

#[derive(Debug, Clone, Copy, PartialEq, Eq, Hash, Structural)]
pub struct Delimiter {
    pub id: TokenId,
    pub kind: DelimiterKind,
}

/// Whether a punctuation character is glued to the token after it.
#[derive(Debug, Clone, Copy, PartialEq, Eq, Hash, Structural)]
pub enum Spacing {
    Alone,
    Joint,
}

#[derive(Debug, Clone, Copy, PartialEq, Eq, Hash)]
pub struct Punct {
    pub char: char,
    pub spacing: Spacing,
    pub id: TokenId,
}

#[derive(Debug, PartialEq, Eq, Hash)]
pub struct Literal {
    pub text: String,
    pub id: TokenId,
}

#[derive(Debug, PartialEq, Eq, Hash)]
pub struct Ident {
    pub text: String,
    pub id: TokenId,
}

#[derive(Debug, PartialEq, Eq, Hash)]
pub enum Leaf {
    Literal(Literal),
    Punct(Punct),
    Ident(Ident),
}

/// A list of trees, in delimiters or (with `None`) in none.
#[derive(Debug, PartialEq, Eq, Hash)]
pub struct Subtree {
    pub delimiter: Option<Delimiter>,
    pub token_trees: Vec<TokenTree>,
}

#[derive(Debug, PartialEq, Eq, Hash)]
pub enum TokenTree {
    Leaf(Leaf),
    Subtree(Subtree),
}

#[verifier::ext_equal]
pub struct LiteralView {
    pub text: Seq<char>,
    pub id: TokenId,
}

#[verifier::ext_equal]
pub struct IdentView {
    pub text: Seq<char>,
    pub id: TokenId,
}

#[verifier::ext_equal]
pub enum LeafView {
    Literal(LiteralView),
    Punct(Punct),
    Ident(IdentView),
}

#[verifier::ext_equal]
pub struct SubtreeView {
    pub delimiter: Option<Delimiter>,
    pub token_trees: Seq<TokenTreeView>,
}

#[verifier::ext_equal]
pub enum TokenTreeView {
    Leaf(LeafView),
    Subtree(SubtreeView),
}

impl View for Literal {
    type V = LiteralView;

    open spec fn view(&self) -> LiteralView {
        LiteralView { text: self.text@, id: self.id }
    }
}

impl View for Ident {
    type V = IdentView;

    open spec fn view(&self) -> IdentView {
        IdentView { text: self.text@, id: self.id }
    }
}

impl View for Leaf {
    type V = LeafView;

    open spec fn view(&self) -> LeafView {
        match self {
            Leaf::Literal(literal) => LeafView::Literal(literal@),
            Leaf::Punct(punct) => LeafView::Punct(*punct),
            Leaf::Ident(ident) => LeafView::Ident(ident@),
        }
    }
}

/// The views of a list of trees, in order.
pub open spec fn trees_view(trees: Seq<TokenTree>) -> Seq<TokenTreeView>
    decreases trees,
{
    Seq::new(
        trees.len(),
        |i: int|
            if 0 <= i < trees.len() {
                tree_view(trees[i])
            } else {
                arbitrary()
            },
    )
}

pub open spec fn tree_view(tree: TokenTree) -> TokenTreeView
    decreases tree,
{
    match tree {
        TokenTree::Leaf(leaf) => TokenTreeView::Leaf(leaf@),
        TokenTree::Subtree(subtree) => TokenTreeView::Subtree(
            SubtreeView {
                delimiter: subtree.delimiter,
                token_trees: trees_view(subtree.token_trees@),
            },
        ),
    }
}

impl View for Subtree {
    type V = SubtreeView;

    open spec fn view(&self) -> SubtreeView {
        SubtreeView { delimiter: self.delimiter, token_trees: trees_view(self.token_trees@) }
    }
}

impl View for TokenTree {
    type V = TokenTreeView;

    open spec fn view(&self) -> TokenTreeView {
        tree_view(*self)
    }
}

impl Clone for Literal {
    fn clone(&self) -> (res: Self)
        ensures
            res@ == self@,
    {
        Literal { text: self.text.clone(), id: self.id }
    }
}

impl Clone for Ident {
    fn clone(&self) -> (res: Self)
        ensures
            res@ == self@,
    {
        Ident { text: self.text.clone(), id: self.id }
    }
}

impl Clone for Leaf {
    fn clone(&self) -> (res: Self)
        ensures
            res@ == self@,
    {
        match self {
            Leaf::Literal(literal) => Leaf::Literal(literal.clone()),
            Leaf::Punct(punct) => Leaf::Punct(*punct),
            Leaf::Ident(ident) => Leaf::Ident(ident.clone()),
        }
    }
}

impl Clone for Subtree {
    fn clone(&self) -> (res: Self)
        ensures
            res@ == self@,
        decreases self,
    {
        Subtree { delimiter: self.delimiter, token_trees: clone_trees(&self.token_trees) }
    }
}

impl Clone for TokenTree {
    fn clone(&self) -> (res: Self)
        ensures
            res@ == self@,
        decreases self,
    {
        match self {
            TokenTree::Leaf(leaf) => TokenTree::Leaf(leaf.clone()),
            TokenTree::Subtree(subtree) => TokenTree::Subtree(subtree.clone()),
        }
    }
}

pub fn clone_trees(trees: &Vec<TokenTree>) -> (res: Vec<TokenTree>)
    ensures
        trees_view(res@) == trees_view(trees@),
    decreases trees,
{
    let mut res: Vec<TokenTree> = Vec::with_capacity(trees.len());
    let mut i: usize = 0;
    while i < trees.len()
        invariant
            i <= trees.len(),
            res.len() == i,
            forall|j: int| 0 <= j < i ==> tree_view(#[trigger] res@[j]) == tree_view(trees@[j]),
        decreases trees.len() - i,
    {
        res.push(trees[i].clone());
        i += 1;
    }
    assert(trees_view(res@) =~= trees_view(trees@));
    res
}

/// The text that opens a subtree.
pub open spec fn open_text(delimiter: Option<Delimiter>) -> Seq<char> {
    match delimiter {
        None => seq![],
        Some(Delimiter { kind: DelimiterKind::Brace, .. }) => seq!['{'],
        Some(Delimiter { kind: DelimiterKind::Parenthesis, .. }) => seq!['('],
        Some(Delimiter { kind: DelimiterKind::Bracket, .. }) => seq!['['],
    }
}

/// The text that closes a subtree.
pub open spec fn close_text(delimiter: Option<Delimiter>) -> Seq<char> {
    match delimiter {
        None => seq![],
        Some(Delimiter { kind: DelimiterKind::Brace, .. }) => seq!['}'],
        Some(Delimiter { kind: DelimiterKind::Parenthesis, .. }) => seq![')'],
        Some(Delimiter { kind: DelimiterKind::Bracket, .. }) => seq![']'],
    }
}

/// Whether a tree is punctuation that is glued to what follows it.
pub open spec fn is_joint(tree: TokenTreeView) -> bool {
    tree matches TokenTreeView::Leaf(LeafView::Punct(punct)) && punct.spacing == Spacing::Joint
}

/// What stands between the trees `before` and the tree after them: one space,
/// except at the start and after joint punctuation.
pub open spec fn separator_after(before: Seq<TokenTreeView>) -> Seq<char> {
    if before.len() == 0 || is_joint(before.last()) {
        seq![]
    } else {
        seq![' ']
    }
}

/// The source text of one tree.
pub open spec fn tree_text(tree: TokenTreeView) -> Seq<char>
    decreases tree,
{
    match tree {
        TokenTreeView::Leaf(LeafView::Ident(ident)) => ident.text,
        TokenTreeView::Leaf(LeafView::Literal(literal)) => literal.text,
        TokenTreeView::Leaf(LeafView::Punct(punct)) => seq![punct.char],
        TokenTreeView::Subtree(subtree) => open_text(subtree.delimiter) + pretty_text(
            subtree.token_trees,
        ) + close_text(subtree.delimiter),
    }
}

/// The source text of a list of trees.
pub open spec fn pretty_text(trees: Seq<TokenTreeView>) -> Seq<char>
    decreases trees,
{
    if trees.len() == 0 {
        seq![]
    } else {
        pretty_text(trees.drop_last()) + separator_after(trees.drop_last()) + tree_text(
            trees.last(),
        )
    }
}

/// Renders a list of trees as source text.
pub fn pretty(tkns: &Vec<TokenTree>) -> (text: String)
    ensures
        text@ == pretty_text(trees_view(tkns@)),
    decreases tkns,
{
    let mut text = String::new();
    let mut last_to_joint: bool = true;
    let ghost views = trees_view(tkns@);
    assert(views.take(0) =~= seq![]);
    let mut i: usize = 0;
    while i < tkns.len()
        invariant
            i <= tkns.len(),
            views == trees_view(tkns@),
            text@ == pretty_text(views.take(i as int)),
            last_to_joint == (separator_after(views.take(i as int)).len() == 0),
        decreases tkns.len() - i,
    {
        proof {
            assert(views.take(i + 1).drop_last() =~= views.take(i as int));
            assert(views.take(i + 1).last() == tree_view(tkns@[i as int]));
        }
        if !last_to_joint {
            text.push(' ');
        }
        let ghost before = text@;
        assert(before =~= pretty_text(views.take(i as int)) + separator_after(
            views.take(i as int),
        ));
        last_to_joint = false;
        match &tkns[i] {
            TokenTree::Leaf(Leaf::Ident(ident)) => text.append(ident.text.as_str()),
            TokenTree::Leaf(Leaf::Literal(literal)) => text.append(literal.text.as_str()),
            TokenTree::Leaf(Leaf::Punct(punct)) => {
                text.push(punct.char);
                last_to_joint = punct.spacing == Spacing::Joint;
            },
            TokenTree::Subtree(subtree) => {
                if let Some(delimiter) = subtree.delimiter {
                    let (open, close) = match delimiter.kind {
                        DelimiterKind::Brace => ('{', '}'),
                        DelimiterKind::Parenthesis => ('(', ')'),
                        DelimiterKind::Bracket => ('[', ']'),
                    };
                    text.push(open);
                    text.append(pretty(&subtree.token_trees).as_str());
                    text.push(close);
                } else {
                    text.append(pretty(&subtree.token_trees).as_str());
                }
            },
        }
        assert(text@ =~= before + tree_text(views[i as int]));
        i += 1;
    }
    assert(views.take(tkns@.len() as int) =~= views);
    text
}

} // verus!
