//! Messages to the user.

use vstd::prelude::*;

use crate::bridge::Level;
use crate::server::Rustc;
use crate::tt::TokenId;

verus! {

/// A structure representing a diagnostic message and associated children
/// messages.
#[derive(Debug)]
pub struct Diagnostic {
    level: Level,
    message: String,
    spans: Vec<TokenId>,
    children: Vec<Diagnostic>,
}

#[verifier::ext_equal]
pub struct DiagnosticView {
    pub level: Level,
    pub message: Seq<char>,
    pub spans: Seq<TokenId>,
    pub children: Seq<DiagnosticView>,
}

spec fn diagnostics_view(diagnostics: Seq<Diagnostic>) -> Seq<DiagnosticView>
    decreases diagnostics,
{
    Seq::new(
        diagnostics.len(),
        |i: int|
            if 0 <= i < diagnostics.len() {
                diagnostic_view(diagnostics[i])
            } else {
                arbitrary()
            },
    )
}

spec fn diagnostic_view(diagnostic: Diagnostic) -> DiagnosticView
    decreases diagnostic,
{
    DiagnosticView {
        level: diagnostic.level,
        message: diagnostic.message@,
        spans: diagnostic.spans@,
        children: diagnostics_view(diagnostic.children@),
    }
}

impl View for Diagnostic {
    type V = DiagnosticView;

    closed spec fn view(&self) -> DiagnosticView {
        diagnostic_view(*self)
    }
}

/// The view of a diagnostic keeps all that is in it, and each child in its place.
proof fn diagnostic_view_is_faithful(diagnostic: Diagnostic)
    ensures
        diagnostic@.level == diagnostic.level,
        diagnostic@.message == diagnostic.message@,
        diagnostic@.spans == diagnostic.spans@,
        diagnostic@.children.len() == diagnostic.children@.len(),
        forall|i: int|
            0 <= i < diagnostic.children@.len() ==> #[trigger] diagnostic@.children[i]
                == diagnostic.children@[i]@,
{
}

impl Clone for Diagnostic {
    fn clone(&self) -> (res: Self)
        ensures
            res@ == self@,
        decreases self,
    {
        Diagnostic {
            level: self.level,
            message: self.message.clone(),
            spans: self.spans.clone(),
            children: clone_diagnostics(&self.children),
        }
    }
}

fn clone_diagnostics(diagnostics: &Vec<Diagnostic>) -> (res: Vec<Diagnostic>)
    ensures
        diagnostics_view(res@) == diagnostics_view(diagnostics@),
    decreases diagnostics,
{
    let mut res: Vec<Diagnostic> = Vec::with_capacity(diagnostics.len());
    let mut i: usize = 0;
    while i < diagnostics.len()
        invariant
            i <= diagnostics.len(),
            res.len() == i,
            forall|j: int|
                0 <= j < i ==> diagnostic_view(#[trigger] res@[j]) == diagnostic_view(
                    diagnostics@[j],
                ),
        decreases diagnostics.len() - i,
    {
        res.push(diagnostics[i].clone());
        i += 1;
    }
    assert(diagnostics_view(res@) =~= diagnostics_view(diagnostics@));
    res
}

impl Diagnostic {
    /// Creates a new diagnostic with the given `level` and `message`.
    pub fn new<T: Into<String>>(level: Level, message: T) -> (diagnostic: Diagnostic)
        ensures
            exists|text: String| #[trigger]
                call_ensures(T::into, (message,), text) && diagnostic@ == (DiagnosticView {
                    level,
                    message: text@,
                    spans: seq![],
                    children: seq![],
                }),
    {
        let text = message.into();
        let diagnostic = Diagnostic {
            level,
            message: text,
            spans: Vec::new(),
            children: Vec::new(),
        };
        assert(diagnostic@.children =~= seq![]);
        diagnostic
    }
}

impl Rustc {
    pub fn diagnostic_new(&mut self, level: Level, msg: &str, spans: Vec<TokenId>) -> (diagnostic:
        Diagnostic)
        ensures
            diagnostic@ == (DiagnosticView {
                level,
                message: msg@,
                spans: spans@,
                children: seq![],
            }),
            *final(self) == *old(self),
    {
        let mut diag = Diagnostic::new(level, msg);
        diag.spans = spans;
        diag
    }

    /// Children are not kept: the diagnostic stays as it is.
    pub fn sub(
        &mut self,
        _diag: &mut Diagnostic,
        _level: Level,
        _msg: &str,
        _spans: Vec<TokenId>,
    )
        ensures
            *final(_diag) == *old(_diag),
            *final(self) == *old(self),
    {
    }

    /// Diagnostics are dropped.
    pub fn emit(&mut self, _diag: Diagnostic)
        ensures
            *final(self) == *old(self),
    {
    }
}

} // verus!
