//! The document: a sequence of definitions.
use vstd::prelude::*;
use crate::grammar::operation::{fragment_definition, operation_definition};
use crate::grammar::schema::{
    directive_definition, enum_type, input_object_type, object_type, scalar_type,
    schema_definition, union_type,
};
use crate::parser::Parser;
use crate::state::ParserState;
use crate::syntax_kind::SyntaxKind;
use crate::token::TokenKind;
use crate::tree::Tree;

verus! {

impl ParserState {
    /// A type system extension: `extend` and then the keyword of what is
    /// extended. Where no such keyword follows, that is an error, and
    /// `extend` is dropped.
    #[verifier::opaque]
    pub open spec fn extension(self) -> ParserState {
        if self.nth_is_word(2, "schema"@) {
            self.schema_definition(true)
        } else if self.nth_is_word(2, "scalar"@) {
            self.scalar_type(true)
        } else if self.nth_is_word(2, "type"@) {
            self.object_type(false, true)
        } else if self.nth_is_word(2, "interface"@) {
            self.object_type(true, true)
        } else if self.nth_is_word(2, "union"@) {
            self.union_type(true)
        } else if self.nth_is_word(2, "enum"@) {
            self.enum_type(true)
        } else if self.nth_is_word(2, "input"@) {
            self.input_object_type(true)
        } else {
            self.err_and_pop("expected a type system extension"@)
        }
    }

    /// A definition, chosen by its keyword: the next name, or the name
    /// behind the description that comes next. Where the name starts no
    /// definition, that is an error, and the next token is dropped.
    #[verifier::opaque]
    pub open spec fn definition(self, described: bool) -> ParserState {
        let n: nat = if described {
            2
        } else {
            1
        };
        if self.nth_is_word(n, "schema"@) {
            self.schema_definition(false)
        } else if self.nth_is_word(n, "scalar"@) {
            self.scalar_type(false)
        } else if self.nth_is_word(n, "type"@) {
            self.object_type(false, false)
        } else if self.nth_is_word(n, "interface"@) {
            self.object_type(true, false)
        } else if self.nth_is_word(n, "union"@) {
            self.union_type(false)
        } else if self.nth_is_word(n, "enum"@) {
            self.enum_type(false)
        } else if self.nth_is_word(n, "input"@) {
            self.input_object_type(false)
        } else if self.nth_is_word(n, "directive"@) {
            self.directive_definition()
        } else if described {
            self.err_and_pop("expected a definition after the description"@)
        } else if self.at_word("query"@) || self.at_word("mutation"@) || self.at_word(
            "subscription"@,
        ) {
            self.operation_definition()
        } else if self.at_word("fragment"@) {
            self.fragment_definition()
        } else if self.at_word("extend"@) {
            self.extension()
        } else {
            self.err_and_pop("expected a definition"@)
        }
    }

    /// What the next token starts at the top of a document: a `{` an
    /// operation, a name or a string a definition. Any other token is an
    /// error, and is dropped.
    pub open spec fn top_level(self) -> ParserState {
        match self.next_kind() {
            Some(TokenKind::LBrace) => self.operation_definition(),
            Some(TokenKind::Name) => self.definition(false),
            Some(TokenKind::StringValue) => self.definition(true),
            _ => self.err_and_pop("expected a definition"@),
        }
    }

    /// The definitions of a document: up to the end of the input, and as
    /// long as the last one made the parser get on.
    pub open spec fn definitions(self) -> ParserState
        decreases self.fuel(),
    {
        if self.next_kind().is_none() || self.next_kind() == Some(TokenKind::Eof) {
            self
        } else {
            let next = self.top_level();
            if next.fuel() < self.fuel() {
                next.definitions()
            } else {
                next
            }
        }
    }

    /// *Document*: Definition+, behind the trivia that the input starts
    /// with.
    pub open spec fn document(self) -> ParserState {
        self.skip().definitions()
    }

    /// The tree that the open document makes when it is closed.
    pub open spec fn root(self) -> Tree {
        Tree::Node { kind: self.frames[0].kind, children: self.frames[0].children }
    }

    /// The state in which a parser is when it has parsed `source`.
    pub open spec fn parsed(source: Seq<char>) -> ParserState {
        ParserState::initial(source).document()
    }
}

/// A type system extension: `extend` and then the keyword of what is
/// extended. Where no such keyword follows, that is an error, and `extend`
/// is dropped.
pub(crate) fn extension(p: &mut Parser)
    requires
        old(p).ready(),
        old(p).top_kind() == SyntaxKind::DOCUMENT,
        old(p).next_kind() == Some(TokenKind::Name),
    ensures
        final(p).state() == old(p).state().extension(),
        final(p).ready(),
        final(p).keeps(old(p)),
        final(p).follows(old(p)),
        final(p).fuel() < old(p).fuel(),
{
    proof {
        reveal(ParserState::extension);
    }
    if p.nth_is_word(2, "schema") {
        schema_definition(p, true);
    } else if p.nth_is_word(2, "scalar") {
        scalar_type(p, true);
    } else if p.nth_is_word(2, "type") {
        object_type(p, false, true);
    } else if p.nth_is_word(2, "interface") {
        object_type(p, true, true);
    } else if p.nth_is_word(2, "union") {
        union_type(p, true);
    } else if p.nth_is_word(2, "enum") {
        enum_type(p, true);
    } else if p.nth_is_word(2, "input") {
        input_object_type(p, true);
    } else {
        p.err_and_pop("expected a type system extension");
    }
}

/// A definition, chosen by its keyword: the next name, or the name behind
/// the description that comes next. Where the name starts no definition,
/// that is an error, and the next token is dropped.
pub(crate) fn definition(p: &mut Parser, described: bool)
    requires
        old(p).ready(),
        old(p).top_kind() == SyntaxKind::DOCUMENT,
        !described ==> old(p).next_kind() == Some(TokenKind::Name),
        described ==> old(p).next_kind() == Some(TokenKind::StringValue),
    ensures
        final(p).state() == old(p).state().definition(described),
        final(p).ready(),
        final(p).keeps(old(p)),
        final(p).follows(old(p)),
        final(p).fuel() < old(p).fuel(),
{
    proof {
        reveal(ParserState::definition);
    }
    let n: usize = if described {
        2
    } else {
        1
    };
    if p.nth_is_word(n, "schema") {
        schema_definition(p, false);
    } else if p.nth_is_word(n, "scalar") {
        scalar_type(p, false);
    } else if p.nth_is_word(n, "type") {
        object_type(p, false, false);
    } else if p.nth_is_word(n, "interface") {
        object_type(p, true, false);
    } else if p.nth_is_word(n, "union") {
        union_type(p, false);
    } else if p.nth_is_word(n, "enum") {
        enum_type(p, false);
    } else if p.nth_is_word(n, "input") {
        input_object_type(p, false);
    } else if p.nth_is_word(n, "directive") {
        directive_definition(p);
    } else if described {
        p.err_and_pop("expected a definition after the description");
    } else if p.at_word("query") || p.at_word("mutation") || p.at_word("subscription") {
        operation_definition(p);
    } else if p.at_word("fragment") {
        fragment_definition(p);
    } else if p.at_word("extend") {
        extension(p);
    } else {
        p.err_and_pop("expected a definition");
    }
}

/// *Document*: Definition+. Parses definitions up to the end of the input.
/// A token with which no definition starts is an error, and is dropped.
pub(crate) fn document(p: &mut Parser)
    requires
        old(p).wf(),
        old(p).depth() == 1,
    ensures
        final(p).state() == old(p).state().document(),
        final(p).ready(),
        final(p).keeps(old(p)),
        final(p).source() == old(p).source(),
        final(p).depth() == 1,
        final(p).at_end(),
{
    proof {
        p.lemma_wf();
    }
    p.bump_ignored();
    let ghost skipped = p.state();
    loop
        invariant
            p.ready(),
            p.keeps(old(p)),
            p.source() == old(p).source(),
            p.depth() == 1,
            p.top_kind() == SyntaxKind::DOCUMENT,
            p.state().definitions() == skipped.definitions(),
        ensures
            p.at_end(),
            p.state() == skipped.definitions(),
        decreases p.fuel(),
    {
        match p.peek() {
            None => {
                break ;
            },
            Some(TokenKind::Eof) => {
                break ;
            },
            Some(TokenKind::LBrace) => operation_definition(p),
            Some(TokenKind::Name) => definition(p, false),
            Some(TokenKind::StringValue) => definition(p, true),
            Some(_) => p.err_and_pop("expected a definition"),
        }
    }
}

} // verus!
