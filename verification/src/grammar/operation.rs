//! Operations, fragments, selection sets and fields.
use vstd::prelude::*;
use crate::grammar::ty::{named_type, ty};
use crate::grammar::value::{arguments, default_value, directives, token_node, variable};
use crate::parser::Parser;
use crate::state::ParserState;
use crate::syntax_kind::SyntaxKind;
use crate::token::TokenKind;

verus! {

impl ParserState {
    /// *OperationDefinition*: a selection set alone, or `query`, `mutation`
    /// or `subscription` with an optional name, optional variable
    /// definitions and optional directives before the selection set.
    #[verifier::opaque]
    pub open spec fn operation_definition(self) -> ParserState {
        let opened = self.start_node(SyntaxKind::OPERATION_DEFINITION);
        let headed = if opened.at(TokenKind::Name) {
            let typed = opened.token_node(
                SyntaxKind::OPERATION_TYPE,
                TokenKind::Name,
                SyntaxKind::NAME,
            );
            let named = if typed.at(TokenKind::Name) {
                typed.bump(SyntaxKind::NAME)
            } else {
                typed
            };
            let defined = if named.at(TokenKind::LParen) {
                named.variable_definitions()
            } else {
                named
            };
            if defined.at(TokenKind::At) {
                defined.directives()
            } else {
                defined
            }
        } else {
            opened
        };
        headed.selection_set().finish_node()
    }

    /// The variable definitions of a list: as long as a `$` comes, and as
    /// long as the last one made the parser get on.
    pub open spec fn variable_definition_list(self) -> ParserState
        decreases self.fuel(),
    {
        if self.at(TokenKind::Dollar) {
            let next = self.variable_definition();
            if next.fuel() < self.fuel() {
                next.variable_definition_list()
            } else {
                next
            }
        } else {
            self
        }
    }

    /// *VariableDefinitions*: `(` VariableDefinition+ `)`. A list without a
    /// definition is an error.
    #[verifier::opaque]
    pub open spec fn variable_definitions(self) -> ParserState {
        let opened = self.start_node(SyntaxKind::VARIABLE_DEFINITIONS).expect(
            TokenKind::LParen,
            SyntaxKind::L_PAREN,
        );
        let checked = if opened.at(TokenKind::Dollar) {
            opened
        } else {
            opened.err("expected a variable definition"@)
        };
        checked.variable_definition_list().expect(
            TokenKind::RParen,
            SyntaxKind::R_PAREN,
        ).finish_node()
    }

    /// *VariableDefinition*: Variable `:` Type DefaultValue? Directives?. No
    /// type is read where the `:` is missing.
    #[verifier::opaque]
    pub open spec fn variable_definition(self) -> ParserState {
        let opened = self.start_node(SyntaxKind::VARIABLE_DEFINITION);
        let named = if opened.at(TokenKind::Dollar) {
            opened.variable()
        } else {
            opened
        };
        let colon = named.expect(TokenKind::Colon, SyntaxKind::COLON);
        let typed = if named.at(TokenKind::Colon) {
            colon.ty()
        } else {
            colon
        };
        let valued = if typed.at(TokenKind::Equal) {
            typed.default_value()
        } else {
            typed
        };
        let directed = if valued.at(TokenKind::At) {
            valued.directives()
        } else {
            valued
        };
        directed.finish_node()
    }

    /// The selections of a set: fields and what starts with `...`, as long
    /// as one comes and as long as the last one made the parser get on.
    pub open spec fn selections(self) -> ParserState
        decreases self.fuel(), 2int,
    {
        if self.at(TokenKind::Spread) {
            let next = self.spread();
            if next.fuel() < self.fuel() {
                next.selections()
            } else {
                next
            }
        } else if self.at(TokenKind::Name) {
            let next = self.field();
            if next.fuel() < self.fuel() {
                next.selections()
            } else {
                next
            }
        } else {
            self
        }
    }

    /// *SelectionSet*: `{` Selection+ `}`. A set without a selection is an
    /// error; so is a missing brace.
    pub open spec fn selection_set(self) -> ParserState
        decreases self.fuel(), 0int,
    {
        let opened = self.start_node(SyntaxKind::SELECTION_SET);
        let closed = if opened.at(TokenKind::LBrace) {
            let braced = opened.bump(SyntaxKind::L_BRACE);
            let filled = if braced.fuel() < self.fuel() {
                braced.selections()
            } else {
                braced
            };
            let checked = if braced.at(TokenKind::Spread) || braced.at(TokenKind::Name) {
                filled
            } else {
                filled.err("expected at least one selection in a selection set"@)
            };
            checked.expect(TokenKind::RBrace, SyntaxKind::R_BRACE)
        } else {
            opened.err("expected a selection set"@)
        };
        closed.finish_node()
    }

    /// What starts with `...`: an inline fragment where `on` or `{` follows,
    /// a fragment spread where another name follows. Anything else is an
    /// error, and the `...` is dropped.
    pub open spec fn spread(self) -> ParserState
        decreases self.fuel(), 1int,
    {
        if self.nth_is_word(2, "on"@) || self.nth_kind(2) == Some(TokenKind::LBrace) {
            self.inline_fragment()
        } else if self.nth_kind(2) == Some(TokenKind::Name) {
            self.fragment_spread()
        } else {
            self.err_and_pop("expected a fragment name, a type condition or a selection set"@)
        }
    }

    /// *InlineFragment*: `...` TypeCondition? Directives? SelectionSet
    pub open spec fn inline_fragment(self) -> ParserState
        decreases self.fuel(), 0int,
    {
        let opened = self.start_node(SyntaxKind::INLINE_FRAGMENT).expect(
            TokenKind::Spread,
            SyntaxKind::SPREAD,
        );
        let conditioned = if opened.at_word("on"@) {
            opened.type_condition()
        } else {
            opened
        };
        let directed = if conditioned.at(TokenKind::At) {
            conditioned.directives()
        } else {
            conditioned
        };
        let selected = if directed.fuel() < self.fuel() {
            directed.selection_set()
        } else {
            directed
        };
        selected.finish_node()
    }

    /// *FragmentSpread*: `...` FragmentName Directives?
    #[verifier::opaque]
    pub open spec fn fragment_spread(self) -> ParserState {
        let opened = self.start_node(SyntaxKind::FRAGMENT_SPREAD).expect(
            TokenKind::Spread,
            SyntaxKind::SPREAD,
        );
        let named = if opened.at(TokenKind::Name) {
            opened.token_node(SyntaxKind::FRAGMENT_NAME, TokenKind::Name, SyntaxKind::NAME)
        } else {
            opened.err("expected a fragment name"@)
        };
        let directed = if named.at(TokenKind::At) {
            named.directives()
        } else {
            named
        };
        directed.finish_node()
    }

    /// *TypeCondition*: `on` NamedType
    #[verifier::opaque]
    pub open spec fn type_condition(self) -> ParserState {
        let opened = self.start_node(SyntaxKind::TYPE_CONDITION).expect(
            TokenKind::Name,
            SyntaxKind::NAME,
        );
        let typed = if opened.at(TokenKind::Name) {
            opened.named_type()
        } else {
            opened.err("expected a type name"@)
        };
        typed.finish_node()
    }

    /// *Alias*: Name `:`
    #[verifier::opaque]
    pub open spec fn alias(self) -> ParserState {
        self.start_node(SyntaxKind::ALIAS).expect(TokenKind::Name, SyntaxKind::NAME).expect(
            TokenKind::Colon,
            SyntaxKind::COLON,
        ).finish_node()
    }

    /// *Field*: Alias? Name Arguments? Directives? SelectionSet?. The field
    /// has an alias where a `:` follows its first name.
    pub open spec fn field(self) -> ParserState
        decreases self.fuel(), 0int,
    {
        let opened = self.start_node(SyntaxKind::FIELD);
        let aliased = if opened.at(TokenKind::Name) && opened.nth_kind(2) == Some(
            TokenKind::Colon,
        ) {
            opened.alias()
        } else {
            opened
        };
        let named = aliased.expect(TokenKind::Name, SyntaxKind::NAME);
        let called = if named.at(TokenKind::LParen) {
            named.arguments()
        } else {
            named
        };
        let directed = if called.at(TokenKind::At) {
            called.directives()
        } else {
            called
        };
        let selected = if directed.at(TokenKind::LBrace) && directed.fuel() < self.fuel() {
            directed.selection_set()
        } else {
            directed
        };
        selected.finish_node()
    }

    /// *FragmentDefinition*: `fragment` FragmentName TypeCondition
    /// Directives? SelectionSet. The name of a fragment is not `on`.
    #[verifier::opaque]
    pub open spec fn fragment_definition(self) -> ParserState {
        let opened = self.start_node(SyntaxKind::FRAGMENT_DEFINITION).expect(
            TokenKind::Name,
            SyntaxKind::NAME,
        );
        let named = if opened.at(TokenKind::Name) && !opened.at_word("on"@) {
            opened.token_node(SyntaxKind::FRAGMENT_NAME, TokenKind::Name, SyntaxKind::NAME)
        } else {
            opened.err("expected a fragment name"@)
        };
        let conditioned = if named.at_word("on"@) {
            named.type_condition()
        } else {
            named.err("expected a type condition"@)
        };
        let directed = if conditioned.at(TokenKind::At) {
            conditioned.directives()
        } else {
            conditioned
        };
        directed.selection_set().finish_node()
    }
}

/// *OperationDefinition*: a selection set alone, or `query`, `mutation` or
/// `subscription` with an optional name, optional variable definitions and
/// optional directives before the selection set.
pub(crate) fn operation_definition(p: &mut Parser)
    requires
        old(p).ready(),
        old(p).top_kind().admits(SyntaxKind::OPERATION_DEFINITION),
        old(p).next_kind() == Some(TokenKind::Name) || old(p).next_kind() == Some(
            TokenKind::LBrace,
        ),
    ensures
        final(p).state() == old(p).state().operation_definition(),
        final(p).ready(),
        final(p).keeps(old(p)),
        final(p).follows(old(p)),
        final(p).fuel() < old(p).fuel(),
{
    proof {
        reveal(ParserState::operation_definition);
    }
    let guard = p.start_node(SyntaxKind::OPERATION_DEFINITION);
    if p.at(TokenKind::Name) {
        token_node(p, SyntaxKind::OPERATION_TYPE, TokenKind::Name, SyntaxKind::NAME);
        if p.at(TokenKind::Name) {
            p.bump(SyntaxKind::NAME);
        }
        if p.at(TokenKind::LParen) {
            variable_definitions(p);
        }
        if p.at(TokenKind::At) {
            directives(p);
        }
    }
    selection_set(p);
    guard.finish_node(p);
}

/// *VariableDefinitions*: `(` VariableDefinition+ `)`
pub(crate) fn variable_definitions(p: &mut Parser)
    requires
        old(p).ready(),
        old(p).top_kind().admits(SyntaxKind::VARIABLE_DEFINITIONS),
        old(p).next_kind() == Some(TokenKind::LParen),
    ensures
        final(p).state() == old(p).state().variable_definitions(),
        final(p).ready(),
        final(p).keeps(old(p)),
        final(p).follows(old(p)),
        final(p).fuel() < old(p).fuel(),
{
    proof {
        reveal(ParserState::variable_definitions);
    }
    let guard = p.start_node(SyntaxKind::VARIABLE_DEFINITIONS);
    p.expect(TokenKind::LParen, SyntaxKind::L_PAREN);
    if !p.at(TokenKind::Dollar) {
        p.err("expected a variable definition");
    }
    let ghost checked = p.state();
    while p.at(TokenKind::Dollar)
        invariant
            p.ready(),
            p.keeps(old(p)),
            p.source() == old(p).source(),
            p.depth() == old(p).depth() + 1,
            p.outer() == old(p).frames(),
            p.top_kind() == SyntaxKind::VARIABLE_DEFINITIONS,
            p.fuel() < old(p).fuel(),
            p.state().variable_definition_list() == checked.variable_definition_list(),
        decreases p.fuel(),
    {
        variable_definition(p);
    }
    p.expect(TokenKind::RParen, SyntaxKind::R_PAREN);
    guard.finish_node(p);
}

/// *VariableDefinition*: Variable `:` Type DefaultValue? Directives?
pub(crate) fn variable_definition(p: &mut Parser)
    requires
        old(p).ready(),
        old(p).top_kind().admits(SyntaxKind::VARIABLE_DEFINITION),
        old(p).next_kind() == Some(TokenKind::Dollar),
    ensures
        final(p).state() == old(p).state().variable_definition(),
        final(p).ready(),
        final(p).keeps(old(p)),
        final(p).follows(old(p)),
        final(p).fuel() < old(p).fuel(),
{
    proof {
        reveal(ParserState::variable_definition);
    }
    let guard = p.start_node(SyntaxKind::VARIABLE_DEFINITION);
    if p.at(TokenKind::Dollar) {
        variable(p);
    }
    let colon = p.at(TokenKind::Colon);
    p.expect(TokenKind::Colon, SyntaxKind::COLON);
    if colon {
        ty(p);
    }
    if p.at(TokenKind::Equal) {
        default_value(p);
    }
    if p.at(TokenKind::At) {
        directives(p);
    }
    guard.finish_node(p);
}

/// *SelectionSet*: `{` Selection+ `}`. A set without a selection is an
/// error; so is a missing brace.
pub(crate) fn selection_set(p: &mut Parser)
    requires
        old(p).ready(),
        old(p).top_kind().admits(SyntaxKind::SELECTION_SET),
    ensures
        final(p).state() == old(p).state().selection_set(),
        final(p).ready(),
        final(p).keeps(old(p)),
        final(p).follows(old(p)),
        old(p).next_kind() == Some(TokenKind::LBrace) ==> final(p).fuel() < old(p).fuel(),
    decreases old(p).fuel(), 0int,
{
    let guard = p.start_node(SyntaxKind::SELECTION_SET);
    if p.at(TokenKind::LBrace) {
        p.bump(SyntaxKind::L_BRACE);
        let ghost braced = p.state();
        let mut has_selection = false;
        loop
            invariant
                p.ready(),
                p.keeps(old(p)),
                p.source() == old(p).source(),
                p.depth() == old(p).depth() + 1,
                p.outer() == old(p).frames(),
                p.top_kind() == SyntaxKind::SELECTION_SET,
                p.fuel() < old(p).fuel(),
                p.state().selections() == braced.selections(),
                has_selection ==> braced.at(TokenKind::Spread) || braced.at(TokenKind::Name),
                !has_selection ==> p.state() == braced,
            ensures
                p.state() == braced.selections(),
                !has_selection ==> !braced.at(TokenKind::Spread) && !braced.at(TokenKind::Name),
            decreases p.fuel(),
        {
            if p.at(TokenKind::Spread) {
                spread(p);
            } else if p.at(TokenKind::Name) {
                field(p);
            } else {
                break ;
            }
            has_selection = true;
        }
        if !has_selection {
            p.err("expected at least one selection in a selection set");
        }
        p.expect(TokenKind::RBrace, SyntaxKind::R_BRACE);
    } else {
        p.err("expected a selection set");
    }
    guard.finish_node(p);
}

/// What starts with `...`: an inline fragment where `on` or `{` follows, a
/// fragment spread where another name follows. Anything else is an error,
/// and the `...` is dropped.
pub(crate) fn spread(p: &mut Parser)
    requires
        old(p).ready(),
        old(p).top_kind() == SyntaxKind::SELECTION_SET,
        old(p).next_kind() == Some(TokenKind::Spread),
    ensures
        final(p).state() == old(p).state().spread(),
        final(p).ready(),
        final(p).keeps(old(p)),
        final(p).follows(old(p)),
        final(p).fuel() < old(p).fuel(),
    decreases old(p).fuel(), 1int,
{
    if p.nth_is_word(2, "on") || p.peek_n(2) == Some(TokenKind::LBrace) {
        inline_fragment(p);
    } else if p.peek_n(2) == Some(TokenKind::Name) {
        fragment_spread(p);
    } else {
        p.err_and_pop("expected a fragment name, a type condition or a selection set");
    }
}

/// *InlineFragment*: `...` TypeCondition? Directives? SelectionSet
pub(crate) fn inline_fragment(p: &mut Parser)
    requires
        old(p).ready(),
        old(p).top_kind().admits(SyntaxKind::INLINE_FRAGMENT),
        old(p).next_kind() == Some(TokenKind::Spread),
    ensures
        final(p).state() == old(p).state().inline_fragment(),
        final(p).ready(),
        final(p).keeps(old(p)),
        final(p).follows(old(p)),
        final(p).fuel() < old(p).fuel(),
    decreases old(p).fuel(), 0int,
{
    let guard = p.start_node(SyntaxKind::INLINE_FRAGMENT);
    p.expect(TokenKind::Spread, SyntaxKind::SPREAD);
    if p.at_word("on") {
        type_condition(p);
    }
    if p.at(TokenKind::At) {
        directives(p);
    }
    selection_set(p);
    guard.finish_node(p);
}

/// *FragmentSpread*: `...` FragmentName Directives?
pub(crate) fn fragment_spread(p: &mut Parser)
    requires
        old(p).ready(),
        old(p).top_kind().admits(SyntaxKind::FRAGMENT_SPREAD),
        old(p).next_kind() == Some(TokenKind::Spread),
    ensures
        final(p).state() == old(p).state().fragment_spread(),
        final(p).ready(),
        final(p).keeps(old(p)),
        final(p).follows(old(p)),
        final(p).fuel() < old(p).fuel(),
{
    proof {
        reveal(ParserState::fragment_spread);
    }
    let guard = p.start_node(SyntaxKind::FRAGMENT_SPREAD);
    p.expect(TokenKind::Spread, SyntaxKind::SPREAD);
    if p.at(TokenKind::Name) {
        token_node(p, SyntaxKind::FRAGMENT_NAME, TokenKind::Name, SyntaxKind::NAME);
    } else {
        p.err("expected a fragment name");
    }
    if p.at(TokenKind::At) {
        directives(p);
    }
    guard.finish_node(p);
}

/// *TypeCondition*: `on` NamedType
pub(crate) fn type_condition(p: &mut Parser)
    requires
        old(p).ready(),
        old(p).top_kind().admits(SyntaxKind::TYPE_CONDITION),
        old(p).next_kind() == Some(TokenKind::Name),
    ensures
        final(p).state() == old(p).state().type_condition(),
        final(p).ready(),
        final(p).keeps(old(p)),
        final(p).follows(old(p)),
        final(p).fuel() < old(p).fuel(),
{
    proof {
        reveal(ParserState::type_condition);
    }
    let guard = p.start_node(SyntaxKind::TYPE_CONDITION);
    p.expect(TokenKind::Name, SyntaxKind::NAME);
    if p.at(TokenKind::Name) {
        named_type(p);
    } else {
        p.err("expected a type name");
    }
    guard.finish_node(p);
}

/// *Alias*: Name `:`
pub(crate) fn alias(p: &mut Parser)
    requires
        old(p).ready(),
        old(p).top_kind().admits(SyntaxKind::ALIAS),
        old(p).next_kind() == Some(TokenKind::Name),
    ensures
        final(p).state() == old(p).state().alias(),
        final(p).ready(),
        final(p).keeps(old(p)),
        final(p).follows(old(p)),
        final(p).fuel() < old(p).fuel(),
{
    proof {
        reveal(ParserState::alias);
    }
    let guard = p.start_node(SyntaxKind::ALIAS);
    p.expect(TokenKind::Name, SyntaxKind::NAME);
    p.expect(TokenKind::Colon, SyntaxKind::COLON);
    guard.finish_node(p);
}

/// *Field*: Alias? Name Arguments? Directives? SelectionSet?. The field has
/// an alias where a `:` follows its first name.
pub(crate) fn field(p: &mut Parser)
    requires
        old(p).ready(),
        old(p).top_kind().admits(SyntaxKind::FIELD),
        old(p).next_kind() == Some(TokenKind::Name),
    ensures
        final(p).state() == old(p).state().field(),
        final(p).ready(),
        final(p).keeps(old(p)),
        final(p).follows(old(p)),
        final(p).fuel() < old(p).fuel(),
    decreases old(p).fuel(), 0int,
{
    let guard = p.start_node(SyntaxKind::FIELD);
    if p.at(TokenKind::Name) && p.peek_n(2) == Some(TokenKind::Colon) {
        alias(p);
    }
    p.expect(TokenKind::Name, SyntaxKind::NAME);
    if p.at(TokenKind::LParen) {
        arguments(p);
    }
    if p.at(TokenKind::At) {
        directives(p);
    }
    if p.at(TokenKind::LBrace) {
        selection_set(p);
    }
    guard.finish_node(p);
}

/// *FragmentDefinition*: `fragment` FragmentName TypeCondition Directives?
/// SelectionSet. The name of a fragment is not `on`.
pub(crate) fn fragment_definition(p: &mut Parser)
    requires
        old(p).ready(),
        old(p).top_kind().admits(SyntaxKind::FRAGMENT_DEFINITION),
        old(p).next_kind() == Some(TokenKind::Name),
    ensures
        final(p).state() == old(p).state().fragment_definition(),
        final(p).ready(),
        final(p).keeps(old(p)),
        final(p).follows(old(p)),
        final(p).fuel() < old(p).fuel(),
{
    proof {
        reveal(ParserState::fragment_definition);
    }
    let guard = p.start_node(SyntaxKind::FRAGMENT_DEFINITION);
    p.expect(TokenKind::Name, SyntaxKind::NAME);
    if p.at(TokenKind::Name) && !p.at_word("on") {
        token_node(p, SyntaxKind::FRAGMENT_NAME, TokenKind::Name, SyntaxKind::NAME);
    } else {
        p.err("expected a fragment name");
    }
    if p.at_word("on") {
        type_condition(p);
    } else {
        p.err("expected a type condition");
    }
    if p.at(TokenKind::At) {
        directives(p);
    }
    selection_set(p);
    guard.finish_node(p);
}

} // verus!
