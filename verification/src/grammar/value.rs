//! Values, arguments, directives and variables.
use vstd::prelude::*;
use crate::grammar::recovery::at_entry;
use crate::parser::Parser;
use crate::state::ParserState;
use crate::syntax_kind::SyntaxKind;
use crate::token::TokenKind;

verus! {

impl ParserState {
    /// A node of kind `node` around the next token, if that is of kind
    /// `token`.
    #[verifier::opaque]
    pub open spec fn token_node(
        self,
        node: SyntaxKind,
        token: TokenKind,
        tag: SyntaxKind,
    ) -> ParserState {
        self.start_node(node).expect(token, tag).finish_node()
    }

    /// *Variable*: `$` Name
    #[verifier::opaque]
    pub open spec fn variable(self) -> ParserState {
        self.start_node(SyntaxKind::VARIABLE).expect(TokenKind::Dollar, SyntaxKind::DOLLAR).expect(
            TokenKind::Name,
            SyntaxKind::NAME,
        ).finish_node()
    }

    /// The kind of the value that the name at which the parser stands is.
    #[verifier::opaque]
    pub open spec fn name_value_kind(self) -> SyntaxKind {
        if self.at_word("true"@) || self.at_word("false"@) {
            SyntaxKind::BOOLEAN_VALUE
        } else if self.at_word("null"@) {
            SyntaxKind::NULL_VALUE
        } else {
            SyntaxKind::ENUM_VALUE
        }
    }

    /// *Value*: a variable, a number, a string, `true`, `false`, `null`, an
    /// enum value, a list or an object. Where no value starts, that is an
    /// error and nothing is consumed.
    pub open spec fn value(self) -> ParserState
        decreases self.fuel(), 1int,
    {
        match self.next_kind() {
            Some(TokenKind::Dollar) => self.variable(),
            Some(TokenKind::Int) => self.token_node(
                SyntaxKind::INT_VALUE,
                TokenKind::Int,
                SyntaxKind::INT,
            ),
            Some(TokenKind::Float) => self.token_node(
                SyntaxKind::FLOAT_VALUE,
                TokenKind::Float,
                SyntaxKind::FLOAT,
            ),
            Some(TokenKind::StringValue) => self.token_node(
                SyntaxKind::STRING_VALUE,
                TokenKind::StringValue,
                SyntaxKind::STRING,
            ),
            Some(TokenKind::Name) => self.token_node(
                self.name_value_kind(),
                TokenKind::Name,
                SyntaxKind::NAME,
            ),
            Some(TokenKind::LBracket) => self.list_value(),
            Some(TokenKind::LBrace) => self.object_value(),
            _ => self.err("expected a value"@),
        }
    }

    /// The values of a list: as long as a value starts, and as long as the
    /// last one made the parser get on.
    pub open spec fn list_items(self) -> ParserState
        decreases self.fuel(), 2int,
    {
        match self.next_kind() {
            Some(kind) => if kind.starts_value() {
                let next = self.value();
                if next.fuel() < self.fuel() {
                    next.list_items()
                } else {
                    next
                }
            } else {
                self
            },
            None => self,
        }
    }

    /// *ListValue*: `[` Value* `]`
    pub open spec fn list_value(self) -> ParserState
        decreases self.fuel(), 0int,
    {
        let opened = self.start_node(SyntaxKind::LIST_VALUE).expect(
            TokenKind::LBracket,
            SyntaxKind::L_BRACKET,
        );
        let filled = if opened.fuel() < self.fuel() {
            opened.list_items()
        } else {
            opened
        };
        filled.expect(TokenKind::RBracket, SyntaxKind::R_BRACKET).finish_node()
    }

    /// The fields of an object: as long as one starts, and as long as the
    /// last one made the parser get on.
    pub open spec fn object_fields(self) -> ParserState
        decreases self.fuel(), 1int,
    {
        if self.starts_entry(false) {
            let next = self.object_field();
            if next.fuel() < self.fuel() {
                next.object_fields()
            } else {
                next
            }
        } else {
            self
        }
    }

    /// *ObjectValue*: `{` ObjectField* `}`
    pub open spec fn object_value(self) -> ParserState
        decreases self.fuel(), 0int,
    {
        let opened = self.start_node(SyntaxKind::OBJECT_VALUE).expect(
            TokenKind::LBrace,
            SyntaxKind::L_BRACE,
        );
        let filled = if opened.fuel() < self.fuel() {
            opened.object_fields()
        } else {
            opened
        };
        filled.expect(TokenKind::RBrace, SyntaxKind::R_BRACE).finish_node()
    }

    /// *ObjectField*: Name `:` Value. No value is read where the `:` is
    /// missing.
    pub open spec fn object_field(self) -> ParserState
        decreases self.fuel(), 0int,
    {
        let named = self.start_node(SyntaxKind::OBJECT_FIELD).expect(
            TokenKind::Name,
            SyntaxKind::NAME,
        );
        let colon = named.expect(TokenKind::Colon, SyntaxKind::COLON);
        let valued = if named.at(TokenKind::Colon) && colon.fuel() < self.fuel() {
            colon.value()
        } else {
            colon
        };
        valued.finish_node()
    }

    /// *Argument*: Name `:` Value. No value is read where the `:` is
    /// missing.
    #[verifier::opaque]
    pub open spec fn argument(self) -> ParserState {
        let named = self.start_node(SyntaxKind::ARGUMENT).expect(
            TokenKind::Name,
            SyntaxKind::NAME,
        );
        let colon = named.expect(TokenKind::Colon, SyntaxKind::COLON);
        let valued = if named.at(TokenKind::Colon) {
            colon.value()
        } else {
            colon
        };
        valued.finish_node()
    }

    /// The arguments of a list: as long as one starts, and as long as the
    /// last one made the parser get on.
    pub open spec fn argument_list(self) -> ParserState
        decreases self.fuel(),
    {
        if self.starts_entry(false) {
            let next = self.argument();
            if next.fuel() < self.fuel() {
                next.argument_list()
            } else {
                next
            }
        } else {
            self
        }
    }

    /// *Arguments*: `(` Argument+ `)`. A list without an argument is an
    /// error.
    #[verifier::opaque]
    pub open spec fn arguments(self) -> ParserState {
        let opened = self.start_node(SyntaxKind::ARGUMENTS).expect(
            TokenKind::LParen,
            SyntaxKind::L_PAREN,
        );
        let checked = if opened.starts_entry(false) {
            opened
        } else {
            opened.err("expected an argument"@)
        };
        checked.argument_list().expect(TokenKind::RParen, SyntaxKind::R_PAREN).finish_node()
    }

    /// *Directive*: `@` Name Arguments?
    #[verifier::opaque]
    pub open spec fn directive(self) -> ParserState {
        let named = self.start_node(SyntaxKind::DIRECTIVE).expect(
            TokenKind::At,
            SyntaxKind::AT,
        ).expect(TokenKind::Name, SyntaxKind::NAME);
        let called = if named.at(TokenKind::LParen) {
            named.arguments()
        } else {
            named
        };
        called.finish_node()
    }

    /// The directives of a list: as long as a `@` comes, and as long as the
    /// last one made the parser get on.
    pub open spec fn directive_list(self) -> ParserState
        decreases self.fuel(),
    {
        if self.at(TokenKind::At) {
            let next = self.directive();
            if next.fuel() < self.fuel() {
                next.directive_list()
            } else {
                next
            }
        } else {
            self
        }
    }

    /// *Directives*: Directive+
    #[verifier::opaque]
    pub open spec fn directives(self) -> ParserState {
        self.start_node(SyntaxKind::DIRECTIVES).directive_list().finish_node()
    }

    /// *DefaultValue*: `=` Value
    #[verifier::opaque]
    pub open spec fn default_value(self) -> ParserState {
        self.start_node(SyntaxKind::DEFAULT_VALUE).expect(
            TokenKind::Equal,
            SyntaxKind::EQUAL,
        ).value().finish_node()
    }
}

/// A node of kind `node` around the next token, which is of kind `token` and
/// is tagged with `tag`.
pub(crate) fn token_node(p: &mut Parser, node: SyntaxKind, token: TokenKind, tag: SyntaxKind)
    requires
        old(p).ready(),
        old(p).next_kind() == Some(token),
        token != TokenKind::Eof,
        !token.is_trivia(),
        !tag.is_trivia(),
        tag.is_token(),
        !node.is_token(),
        node.admits(tag),
        old(p).top_kind().admits(node),
    ensures
        final(p).state() == old(p).state().token_node(node, token, tag),
        final(p).ready(),
        final(p).keeps(old(p)),
        final(p).follows(old(p)),
        final(p).fuel() < old(p).fuel(),
{
    proof {
        reveal(ParserState::token_node);
    }
    let guard = p.start_node(node);
    p.expect(token, tag);
    guard.finish_node(p);
}

/// *Variable*: `$` Name
pub(crate) fn variable(p: &mut Parser)
    requires
        old(p).ready(),
        old(p).top_kind().admits(SyntaxKind::VARIABLE),
        old(p).next_kind() == Some(TokenKind::Dollar),
    ensures
        final(p).state() == old(p).state().variable(),
        final(p).ready(),
        final(p).keeps(old(p)),
        final(p).follows(old(p)),
        final(p).fuel() < old(p).fuel(),
{
    proof {
        reveal(ParserState::variable);
    }
    let guard = p.start_node(SyntaxKind::VARIABLE);
    p.expect(TokenKind::Dollar, SyntaxKind::DOLLAR);
    p.expect(TokenKind::Name, SyntaxKind::NAME);
    guard.finish_node(p);
}

/// *Value*: a variable, a number, a string, `true`, `false`, `null`, an enum
/// value, a list or an object. Where no value starts, that is an error and
/// nothing is consumed.
pub(crate) fn value(p: &mut Parser)
    requires
        old(p).ready(),
        old(p).top_kind().takes_values(),
    ensures
        final(p).state() == old(p).state().value(),
        final(p).ready(),
        final(p).keeps(old(p)),
        final(p).follows(old(p)),
        old(p).next_kind() matches Some(kind) && kind.starts_value() ==> final(p).fuel() < old(
            p,
        ).fuel(),
    decreases old(p).fuel(), 1int,
{
    proof {
        reveal(ParserState::name_value_kind);
    }
    match p.peek() {
        Some(TokenKind::Dollar) => variable(p),
        Some(TokenKind::Int) => token_node(
            p,
            SyntaxKind::INT_VALUE,
            TokenKind::Int,
            SyntaxKind::INT,
        ),
        Some(TokenKind::Float) => token_node(
            p,
            SyntaxKind::FLOAT_VALUE,
            TokenKind::Float,
            SyntaxKind::FLOAT,
        ),
        Some(TokenKind::StringValue) => token_node(
            p,
            SyntaxKind::STRING_VALUE,
            TokenKind::StringValue,
            SyntaxKind::STRING,
        ),
        Some(TokenKind::Name) => {
            let node = if p.at_word("true") || p.at_word("false") {
                SyntaxKind::BOOLEAN_VALUE
            } else if p.at_word("null") {
                SyntaxKind::NULL_VALUE
            } else {
                SyntaxKind::ENUM_VALUE
            };
            token_node(p, node, TokenKind::Name, SyntaxKind::NAME)
        },
        Some(TokenKind::LBracket) => list_value(p),
        Some(TokenKind::LBrace) => object_value(p),
        _ => p.err("expected a value"),
    }
}

/// *ListValue*: `[` Value* `]`
pub(crate) fn list_value(p: &mut Parser)
    requires
        old(p).ready(),
        old(p).top_kind().admits(SyntaxKind::LIST_VALUE),
        old(p).next_kind() == Some(TokenKind::LBracket),
    ensures
        final(p).state() == old(p).state().list_value(),
        final(p).ready(),
        final(p).keeps(old(p)),
        final(p).follows(old(p)),
        final(p).fuel() < old(p).fuel(),
    decreases old(p).fuel(), 0int,
{
    let guard = p.start_node(SyntaxKind::LIST_VALUE);
    p.expect(TokenKind::LBracket, SyntaxKind::L_BRACKET);
    let ghost opened = p.state();
    loop
        invariant
            p.ready(),
            p.keeps(old(p)),
            p.source() == old(p).source(),
            p.depth() == old(p).depth() + 1,
            p.outer() == old(p).frames(),
            p.top_kind() == SyntaxKind::LIST_VALUE,
            p.fuel() < old(p).fuel(),
            p.state().list_items() == opened.list_items(),
        ensures
            p.state() == opened.list_items(),
        decreases p.fuel(),
    {
        match p.peek() {
            Some(kind) => {
                if kind.can_start_value() {
                    value(p);
                } else {
                    break ;
                }
            },
            None => {
                break ;
            },
        }
    }
    p.expect(TokenKind::RBracket, SyntaxKind::R_BRACKET);
    guard.finish_node(p);
}

/// *ObjectValue*: `{` ObjectField* `}`
pub(crate) fn object_value(p: &mut Parser)
    requires
        old(p).ready(),
        old(p).top_kind().admits(SyntaxKind::OBJECT_VALUE),
        old(p).next_kind() == Some(TokenKind::LBrace),
    ensures
        final(p).state() == old(p).state().object_value(),
        final(p).ready(),
        final(p).keeps(old(p)),
        final(p).follows(old(p)),
        final(p).fuel() < old(p).fuel(),
    decreases old(p).fuel(), 0int,
{
    let guard = p.start_node(SyntaxKind::OBJECT_VALUE);
    p.expect(TokenKind::LBrace, SyntaxKind::L_BRACE);
    let ghost opened = p.state();
    while at_entry(p, false)
        invariant
            p.ready(),
            p.keeps(old(p)),
            p.source() == old(p).source(),
            p.depth() == old(p).depth() + 1,
            p.outer() == old(p).frames(),
            p.top_kind() == SyntaxKind::OBJECT_VALUE,
            p.fuel() < old(p).fuel(),
            p.state().object_fields() == opened.object_fields(),
        decreases p.fuel(),
    {
        object_field(p);
    }
    p.expect(TokenKind::RBrace, SyntaxKind::R_BRACE);
    guard.finish_node(p);
}

/// *ObjectField*: Name `:` Value
pub(crate) fn object_field(p: &mut Parser)
    requires
        old(p).ready(),
        old(p).top_kind().admits(SyntaxKind::OBJECT_FIELD),
        old(p).next_kind() == Some(TokenKind::Name),
    ensures
        final(p).state() == old(p).state().object_field(),
        final(p).ready(),
        final(p).keeps(old(p)),
        final(p).follows(old(p)),
        final(p).fuel() < old(p).fuel(),
    decreases old(p).fuel(), 0int,
{
    let guard = p.start_node(SyntaxKind::OBJECT_FIELD);
    p.expect(TokenKind::Name, SyntaxKind::NAME);
    let colon = p.at(TokenKind::Colon);
    p.expect(TokenKind::Colon, SyntaxKind::COLON);
    if colon {
        value(p);
    }
    guard.finish_node(p);
}

/// *Argument*: Name `:` Value
pub(crate) fn argument(p: &mut Parser)
    requires
        old(p).ready(),
        old(p).top_kind().admits(SyntaxKind::ARGUMENT),
        old(p).next_kind() == Some(TokenKind::Name),
    ensures
        final(p).state() == old(p).state().argument(),
        final(p).ready(),
        final(p).keeps(old(p)),
        final(p).follows(old(p)),
        final(p).fuel() < old(p).fuel(),
{
    proof {
        reveal(ParserState::argument);
    }
    let guard = p.start_node(SyntaxKind::ARGUMENT);
    p.expect(TokenKind::Name, SyntaxKind::NAME);
    let colon = p.at(TokenKind::Colon);
    p.expect(TokenKind::Colon, SyntaxKind::COLON);
    if colon {
        value(p);
    }
    guard.finish_node(p);
}

/// *Arguments*: `(` Argument+ `)`
pub(crate) fn arguments(p: &mut Parser)
    requires
        old(p).ready(),
        old(p).top_kind().admits(SyntaxKind::ARGUMENTS),
        old(p).next_kind() == Some(TokenKind::LParen),
    ensures
        final(p).state() == old(p).state().arguments(),
        final(p).ready(),
        final(p).keeps(old(p)),
        final(p).follows(old(p)),
        final(p).fuel() < old(p).fuel(),
{
    proof {
        reveal(ParserState::arguments);
    }
    let guard = p.start_node(SyntaxKind::ARGUMENTS);
    p.expect(TokenKind::LParen, SyntaxKind::L_PAREN);
    if !at_entry(p, false) {
        p.err("expected an argument");
    }
    let ghost checked = p.state();
    while at_entry(p, false)
        invariant
            p.ready(),
            p.keeps(old(p)),
            p.source() == old(p).source(),
            p.depth() == old(p).depth() + 1,
            p.outer() == old(p).frames(),
            p.top_kind() == SyntaxKind::ARGUMENTS,
            p.fuel() < old(p).fuel(),
            p.state().argument_list() == checked.argument_list(),
        decreases p.fuel(),
    {
        argument(p);
    }
    p.expect(TokenKind::RParen, SyntaxKind::R_PAREN);
    guard.finish_node(p);
}

/// *Directive*: `@` Name Arguments?
pub(crate) fn directive(p: &mut Parser)
    requires
        old(p).ready(),
        old(p).top_kind().admits(SyntaxKind::DIRECTIVE),
        old(p).next_kind() == Some(TokenKind::At),
    ensures
        final(p).state() == old(p).state().directive(),
        final(p).ready(),
        final(p).keeps(old(p)),
        final(p).follows(old(p)),
        final(p).fuel() < old(p).fuel(),
{
    proof {
        reveal(ParserState::directive);
    }
    let guard = p.start_node(SyntaxKind::DIRECTIVE);
    p.expect(TokenKind::At, SyntaxKind::AT);
    p.expect(TokenKind::Name, SyntaxKind::NAME);
    if p.at(TokenKind::LParen) {
        arguments(p);
    }
    guard.finish_node(p);
}

/// *Directives*: Directive+
pub(crate) fn directives(p: &mut Parser)
    requires
        old(p).ready(),
        old(p).top_kind().admits(SyntaxKind::DIRECTIVES),
        old(p).next_kind() == Some(TokenKind::At),
    ensures
        final(p).state() == old(p).state().directives(),
        final(p).ready(),
        final(p).keeps(old(p)),
        final(p).follows(old(p)),
        final(p).fuel() < old(p).fuel(),
{
    proof {
        reveal(ParserState::directives);
    }
    let guard = p.start_node(SyntaxKind::DIRECTIVES);
    let ghost opened = p.state();
    while p.at(TokenKind::At)
        invariant
            p.ready(),
            p.keeps(old(p)),
            p.source() == old(p).source(),
            p.depth() == old(p).depth() + 1,
            p.outer() == old(p).frames(),
            p.top_kind() == SyntaxKind::DIRECTIVES,
            p.fuel() <= old(p).fuel(),
            p.fuel() < old(p).fuel() || p.state() == opened,
            p.state().directive_list() == opened.directive_list(),
        decreases p.fuel(),
    {
        directive(p);
    }
    proof {
        if p.state() == opened {
            assert(p.halted());
        }
    }
    guard.finish_node(p);
}

/// *DefaultValue*: `=` Value
pub(crate) fn default_value(p: &mut Parser)
    requires
        old(p).ready(),
        old(p).top_kind().admits(SyntaxKind::DEFAULT_VALUE),
        old(p).next_kind() == Some(TokenKind::Equal),
    ensures
        final(p).state() == old(p).state().default_value(),
        final(p).ready(),
        final(p).keeps(old(p)),
        final(p).follows(old(p)),
        final(p).fuel() < old(p).fuel(),
{
    proof {
        reveal(ParserState::default_value);
    }
    let guard = p.start_node(SyntaxKind::DEFAULT_VALUE);
    p.expect(TokenKind::Equal, SyntaxKind::EQUAL);
    value(p);
    guard.finish_node(p);
}

} // verus!
