//! What the compiler's side of the bridge speaks in.

use vstd::prelude::*;

use crate::interner::IdentId;
use crate::tt;

verus! {

#[derive(Debug, Clone, Copy, PartialEq, Eq, Structural)]
pub enum Delimiter {
    Parenthesis,
    Brace,
    Bracket,
    /// No characters at all.
    Invisible,
}

#[derive(Debug, Clone, Copy, PartialEq, Eq, Structural)]
pub enum Spacing {
    Alone,
    Joint,
}

/// One token tree, with an identifier given by its number.
#[derive(Debug, PartialEq, Eq)]
pub enum TokenTree {
    Group(tt::Subtree),
    Punct(tt::Punct),
    Ident(IdentId),
    Literal(tt::Literal),
}

#[verifier::ext_equal]
pub enum TokenTreeView {
    Group(tt::SubtreeView),
    Punct(tt::Punct),
    Ident(IdentId),
    Literal(tt::LiteralView),
}

impl View for TokenTree {
    type V = TokenTreeView;

    open spec fn view(&self) -> TokenTreeView {
        match self {
            TokenTree::Group(group) => TokenTreeView::Group(group@),
            TokenTree::Punct(punct) => TokenTreeView::Punct(*punct),
            TokenTree::Ident(ident) => TokenTreeView::Ident(*ident),
            TokenTree::Literal(literal) => TokenTreeView::Literal(literal@),
        }
    }
}

/// How bad a diagnostic is.
#[derive(Debug, Clone, Copy, PartialEq, Eq, Structural)]
pub enum Level {
    Error,
    Warning,
    Note,
    Help,
}

#[derive(Debug, Clone, Copy, PartialEq, Eq, Structural)]
pub struct LineColumn {
    pub line: usize,
    pub column: usize,
}

} // verus!
