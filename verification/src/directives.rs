//! Build-system directives: the order-sensitive instructions discovery emits
//! to the build orchestrator while it parses.

use vstd::prelude::*;

verus! {

/// The two directive kinds the build orchestrator understands.
#[derive(Clone, Copy, PartialEq, Eq, Structural, Debug)]
pub enum DirectiveKind {
    /// Add a library search directory.
    LinkSearch,
    /// Link against a named library.
    LinkLib,
}

/// One directive: its kind together with the path or library name it carries.
#[derive(Clone, Debug, PartialEq, Eq)]
pub struct Directive {
    pub kind: DirectiveKind,
    pub text: String,
}

/// The mathematical shape of a directive.
pub struct DirectiveV {
    pub kind: DirectiveKind,
    pub text: Seq<char>,
}

impl View for Directive {
    type V = DirectiveV;

    open spec fn view(&self) -> DirectiveV {
        DirectiveV { kind: self.kind, text: self.text@ }
    }
}

impl DeepView for Directive {
    type V = DirectiveV;

    open spec fn deep_view(&self) -> DirectiveV {
        self@
    }
}

/// A search-directory directive for `text`.
pub open spec fn search_v(text: Seq<char>) -> DirectiveV {
    DirectiveV { kind: DirectiveKind::LinkSearch, text: text }
}

/// A link-library directive for `text`.
pub open spec fn lib_v(text: Seq<char>) -> DirectiveV {
    DirectiveV { kind: DirectiveKind::LinkLib, text: text }
}

impl Directive {
    /// A search-directory directive.
    pub fn search(text: String) -> (r: Self)
        ensures
            r@ == search_v(text@),
    {
        Directive { kind: DirectiveKind::LinkSearch, text }
    }

    /// A link-library directive.
    pub fn lib(text: String) -> (r: Self)
        ensures
            r@ == lib_v(text@),
    {
        Directive { kind: DirectiveKind::LinkLib, text }
    }
}

} // verus!
