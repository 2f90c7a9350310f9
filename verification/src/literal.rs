//! Literals, as the server makes and reads them.

use std::ops::Bound;

use vstd::prelude::*;
use vstd::string::StringExecFns;

use crate::escape::{
    byte_string_literal, byte_string_text, character_literal, character_text, string_literal,
    string_text,
};
use crate::numeral::{integer_literal, integer_text, typed_integer_literal, typed_integer_text};
use crate::server::Rustc;
use crate::text::chars_of;
use crate::tt::{unspecified_id, Literal, LiteralView, TokenId};

verus! {

/// `std::ops::Bound`, an end of a range. Nothing is said of it.
#[verifier::external_type_specification]
#[verifier::external_body]
#[verifier::reject_recursive_types(T)]
pub struct ExBound<T>(Bound<T>);

/// A literal of the given text, standing nowhere in particular.
pub open spec fn unplaced(text: Seq<char>) -> LiteralView {
    LiteralView { text, id: unspecified_id() }
}

/// The text of a float literal without a suffix, for a number that renders as
/// `rendered`: one without a point gets one.
pub open spec fn with_point(rendered: Seq<char>) -> Seq<char> {
    if rendered.contains('.') {
        rendered
    } else {
        rendered + seq!['.', '0']
    }
}

fn literal(text: String) -> (res: Literal)
    ensures
        res@ == unplaced(text@),
{
    Literal { text, id: TokenId::unspecified() }
}

fn has_point(text: &str) -> (res: bool)
    ensures
        res == text@.contains('.'),
{
    let chars = chars_of(text);
    let mut i: usize = 0;
    while i < chars.len()
        invariant
            i <= chars.len(),
            chars@ == text@,
            forall|j: int| 0 <= j < i ==> chars@[j] != '.',
        decreases chars.len() - i,
    {
        if chars[i] == '.' {
            return true;
        }
        i += 1;
    }
    false
}

impl Rustc {
    /// Not supported; the empty text.
    pub fn debug_kind(&mut self, _literal: &Literal) -> (kind: String)
        ensures
            kind@ == Seq::<char>::empty(),
            *final(self) == *old(self),
    {
        String::new()
    }

    pub fn literal_from_str(&mut self, s: &str) -> (res: Result<Literal, ()>)
        ensures
            res matches Ok(literal) && literal@ == unplaced(s@),
            *final(self) == *old(self),
    {
        Ok(literal(s.to_owned()))
    }

    pub fn symbol(&mut self, literal: &Literal) -> (text: String)
        ensures
            text@ == literal@.text,
            *final(self) == *old(self),
    {
        literal.text.clone()
    }

    /// Not supported; there is none.
    pub fn suffix(&mut self, _literal: &Literal) -> (suffix: Option<String>)
        ensures
            suffix is None,
            *final(self) == *old(self),
    {
        None
    }

    /// An integer literal without a suffix. The numeral `n` has to be one that
    /// fits in an `i128` or in a `u128`.
    pub fn integer(&mut self, n: &str) -> (res: Literal)
        requires
            integer_literal(n@) is Some,
        ensures
            res@ == unplaced(integer_literal(n@)->0),
            *final(self) == *old(self),
    {
        literal(integer_text(n).unwrap())
    }

    /// An integer literal with a suffix. The numeral `n` has to be one that
    /// fits in the integer type that `kind` names.
    pub fn typed_integer(&mut self, n: &str, kind: &str) -> (res: Literal)
        requires
            typed_integer_literal(n@, kind@) is Some,
        ensures
            res@ == unplaced(typed_integer_literal(n@, kind@)->0),
            *final(self) == *old(self),
    {
        literal(typed_integer_text(n, kind).unwrap())
    }

    /// A float literal without a suffix, for a number whose decimal rendering is
    /// `rendered`. The number is read and rendered by the caller.
    pub fn float_literal(&mut self, rendered: &str) -> (res: Literal)
        ensures
            res@ == unplaced(with_point(rendered@)),
            *final(self) == *old(self),
    {
        let mut text = rendered.to_owned();
        if !has_point(rendered) {
            text.push('.');
            text.push('0');
        }
        assert(text@ =~= with_point(rendered@));
        literal(text)
    }

    /// A 32-bit float literal with its suffix, for a number whose decimal
    /// rendering is `rendered`. The number is read and rendered by the caller.
    pub fn f32_literal(&mut self, rendered: &str) -> (res: Literal)
        ensures
            res@ == unplaced(rendered@ + "f32"@),
            *final(self) == *old(self),
    {
        let mut text = rendered.to_owned();
        text.append("f32");
        literal(text)
    }

    /// A 64-bit float literal with its suffix, for a number whose decimal
    /// rendering is `rendered`. The number is read and rendered by the caller.
    pub fn f64_literal(&mut self, rendered: &str) -> (res: Literal)
        ensures
            res@ == unplaced(rendered@ + "f64"@),
            *final(self) == *old(self),
    {
        let mut text = rendered.to_owned();
        text.append("f64");
        literal(text)
    }

    pub fn string(&mut self, string: &str) -> (res: Literal)
        ensures
            res@ == unplaced(string_literal(string@)),
            *final(self) == *old(self),
    {
        literal(string_text(string))
    }

    pub fn character(&mut self, ch: char) -> (res: Literal)
        ensures
            res@ == unplaced(character_literal(ch)),
            *final(self) == *old(self),
    {
        literal(character_text(ch))
    }

    pub fn byte_string(&mut self, bytes: &[u8]) -> (res: Literal)
        ensures
            res@ == unplaced(byte_string_literal(bytes@)),
            *final(self) == *old(self),
    {
        literal(byte_string_text(bytes))
    }

    pub fn literal_span(&mut self, literal: &Literal) -> (span: TokenId)
        ensures
            span == literal@.id,
            *final(self) == *old(self),
    {
        literal.id
    }

    /// Spans of literals are not set: the literal stays as it is.
    pub fn literal_set_span(&mut self, _literal: &mut Literal, _span: TokenId)
        ensures
            *final(_literal) == *old(_literal),
            *final(self) == *old(self),
    {
    }

    /// No part of a literal has a span of its own.
    pub fn subspan(
        &mut self,
        _literal: &Literal,
        _start: Bound<usize>,
        _end: Bound<usize>,
    ) -> (span: Option<TokenId>)
        ensures
            span is None,
            *final(self) == *old(self),
    {
        None
    }
}

} // verus!
