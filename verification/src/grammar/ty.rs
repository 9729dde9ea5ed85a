//! Types: named, list and non-null.
use vstd::prelude::*;
use crate::parser::Parser;
use crate::state::ParserState;
use crate::syntax_kind::SyntaxKind;
use crate::token::TokenKind;

verus! {

impl ParserState {
    /// *NamedType*: Name
    #[verifier::opaque]
    pub open spec fn named_type(self) -> ParserState {
        self.start_node(SyntaxKind::NAMED_TYPE).expect(
            TokenKind::Name,
            SyntaxKind::NAME,
        ).finish_node()
    }

    /// Every `!` that comes is an error, and is dropped.
    pub open spec fn extra_bangs(self) -> ParserState
        decreases self.fuel(),
    {
        if self.at(TokenKind::Bang) {
            let next = self.err_and_pop("expected a type to be non-null only once"@);
            if next.fuel() < self.fuel() {
                next.extra_bangs()
            } else {
                next
            }
        } else {
            self
        }
    }

    /// A type without regard to what follows it. A name is a named type, a
    /// `[` starts a list type; each is wrapped into a non-null type where a
    /// `!` follows it: behind the name, or behind the `]` that closes the
    /// list.
    pub open spec fn plain_type(self) -> ParserState
        decreases self.fuel(), 1int,
    {
        match self.next_kind() {
            Some(TokenKind::Name) => if self.nth_kind(2) == Some(TokenKind::Bang) {
                let opened = self.start_node(SyntaxKind::NON_NULL_TYPE);
                let inner = if opened.at(TokenKind::Name) {
                    opened.named_type()
                } else {
                    opened
                };
                inner.expect(TokenKind::Bang, SyntaxKind::BANG).finish_node()
            } else {
                self.named_type()
            },
            Some(TokenKind::LBracket) => if self.list_is_non_null() {
                let opened = self.start_node(SyntaxKind::NON_NULL_TYPE);
                let inner = if opened.at(TokenKind::LBracket) && opened.fuel() <= self.fuel() {
                    opened.list_type()
                } else {
                    opened
                };
                inner.expect(TokenKind::Bang, SyntaxKind::BANG).finish_node()
            } else {
                self.list_type()
            },
            _ => self.err("expected a type"@),
        }
    }

    /// *Type*: a named type or a list type, each with or without a `!`
    /// behind it. A second `!` is an error, and is dropped.
    pub open spec fn ty(self) -> ParserState
        decreases self.fuel(), 2int,
    {
        self.plain_type().extra_bangs()
    }

    /// *ListType*: `[` Type `]`
    pub open spec fn list_type(self) -> ParserState
        decreases self.fuel(), 0int,
    {
        let opened = self.start_node(SyntaxKind::LIST_TYPE).expect(
            TokenKind::LBracket,
            SyntaxKind::L_BRACKET,
        );
        let inner = if opened.fuel() < self.fuel() {
            opened.ty()
        } else {
            opened
        };
        inner.expect(TokenKind::RBracket, SyntaxKind::R_BRACKET).finish_node()
    }
}

/// *NamedType*: Name
pub(crate) fn named_type(p: &mut Parser)
    requires
        old(p).ready(),
        old(p).top_kind().admits(SyntaxKind::NAMED_TYPE),
        old(p).next_kind() == Some(TokenKind::Name),
    ensures
        final(p).state() == old(p).state().named_type(),
        final(p).ready(),
        final(p).keeps(old(p)),
        final(p).follows(old(p)),
        final(p).fuel() < old(p).fuel(),
{
    proof {
        reveal(ParserState::named_type);
    }
    let guard = p.start_node(SyntaxKind::NAMED_TYPE);
    p.expect(TokenKind::Name, SyntaxKind::NAME);
    guard.finish_node(p);
}

/// A type without regard to what follows it.
pub(crate) fn plain_type(p: &mut Parser)
    requires
        old(p).ready(),
        old(p).top_kind().takes_types(),
    ensures
        final(p).state() == old(p).state().plain_type(),
        final(p).ready(),
        final(p).keeps(old(p)),
        final(p).follows(old(p)),
        old(p).next_kind() == Some(TokenKind::Name) || old(p).next_kind() == Some(
            TokenKind::LBracket,
        ) ==> final(p).fuel() < old(p).fuel(),
    decreases old(p).fuel(), 1int,
{
    match p.peek() {
        Some(TokenKind::Name) => {
            if p.peek_n(2) == Some(TokenKind::Bang) {
                let guard = p.start_node(SyntaxKind::NON_NULL_TYPE);
                if p.at(TokenKind::Name) {
                    named_type(p);
                }
                p.expect(TokenKind::Bang, SyntaxKind::BANG);
                guard.finish_node(p);
            } else {
                named_type(p);
            }
        },
        Some(TokenKind::LBracket) => {
            if p.peek_non_null_list() {
                let guard = p.start_node(SyntaxKind::NON_NULL_TYPE);
                if p.at(TokenKind::LBracket) {
                    list_type(p);
                }
                p.expect(TokenKind::Bang, SyntaxKind::BANG);
                guard.finish_node(p);
            } else {
                list_type(p);
            }
        },
        _ => p.err("expected a type"),
    }
}

/// *Type*: a named type or a list type, each with or without a `!` behind
/// it. A non-null type is a node around the type that it makes non-null. A
/// second `!` is an error, and is dropped.
pub(crate) fn ty(p: &mut Parser)
    requires
        old(p).ready(),
        old(p).top_kind().takes_types(),
    ensures
        final(p).state() == old(p).state().ty(),
        final(p).ready(),
        final(p).keeps(old(p)),
        final(p).follows(old(p)),
        old(p).next_kind() == Some(TokenKind::Name) || old(p).next_kind() == Some(
            TokenKind::LBracket,
        ) ==> final(p).fuel() < old(p).fuel(),
    decreases old(p).fuel(), 2int,
{
    plain_type(p);
    let ghost plain = p.state();
    while p.at(TokenKind::Bang)
        invariant
            p.ready(),
            p.keeps(old(p)),
            p.follows(old(p)),
            old(p).next_kind() == Some(TokenKind::Name) || old(p).next_kind() == Some(
                TokenKind::LBracket,
            ) ==> p.fuel() < old(p).fuel(),
            p.state().extra_bangs() == plain.extra_bangs(),
        decreases p.fuel(),
    {
        p.err_and_pop("expected a type to be non-null only once");
    }
}

/// *ListType*: `[` Type `]`
pub(crate) fn list_type(p: &mut Parser)
    requires
        old(p).ready(),
        old(p).top_kind().admits(SyntaxKind::LIST_TYPE),
        old(p).next_kind() == Some(TokenKind::LBracket),
    ensures
        final(p).state() == old(p).state().list_type(),
        final(p).ready(),
        final(p).keeps(old(p)),
        final(p).follows(old(p)),
        final(p).fuel() < old(p).fuel(),
    decreases old(p).fuel(), 0int,
{
    let guard = p.start_node(SyntaxKind::LIST_TYPE);
    p.expect(TokenKind::LBracket, SyntaxKind::L_BRACKET);
    ty(p);
    p.expect(TokenKind::RBracket, SyntaxKind::R_BRACKET);
    guard.finish_node(p);
}

} // verus!
