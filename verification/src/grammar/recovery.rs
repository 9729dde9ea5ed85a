//! Where the lists of the grammar stop when the input goes wrong.
use vstd::prelude::*;
use crate::parser::Parser;
use crate::state::ParserState;
use crate::token::TokenKind;

verus! {

/// Whether a definition starts with the name `word`.
pub open spec fn is_definition_keyword(word: Seq<char>) -> bool {
    word == "query"@ || word == "mutation"@ || word == "subscription"@ || word == "fragment"@
        || word == "schema"@ || word == "scalar"@ || word == "type"@ || word == "interface"@
        || word == "union"@ || word == "enum"@ || word == "input"@ || word == "directive"@ || word
        == "extend"@
}

impl ParserState {
    /// Whether the next token is a name that starts a definition.
    pub open spec fn at_definition_keyword(self) -> bool {
        self.next_kind() == Some(TokenKind::Name) && is_definition_keyword(self.next().data)
    }

    /// Whether an entry of a list starts with the next token, given that an
    /// entry is a name with a `:` behind it or, where `call` holds, with a
    /// `(`. Every name starts an entry but one: a name that starts a
    /// definition and has neither behind it ends the list, so that the
    /// definition is parsed as one.
    pub open spec fn starts_entry(self, call: bool) -> bool {
        &&& self.next_kind() == Some(TokenKind::Name)
        &&& (!is_definition_keyword(self.next().data) || self.nth_kind(2) == Some(
            TokenKind::Colon,
        ) || (call && self.nth_kind(2) == Some(TokenKind::LParen)))
    }
}

/// Whether the parser stands at a name that starts a definition.
pub(crate) fn at_definition_keyword(p: &Parser) -> (r: bool)
    requires
        p.wf(),
    ensures
        r == p.state().at_definition_keyword(),
{
    p.at_word("query") || p.at_word("mutation") || p.at_word("subscription") || p.at_word(
        "fragment",
    ) || p.at_word("schema") || p.at_word("scalar") || p.at_word("type") || p.at_word("interface")
        || p.at_word("union") || p.at_word("enum") || p.at_word("input") || p.at_word("directive")
        || p.at_word("extend")
}

/// Whether an entry of a list starts with the next token.
pub(crate) fn at_entry(p: &Parser, call: bool) -> (r: bool)
    requires
        p.wf(),
    ensures
        r == p.state().starts_entry(call),
        r ==> p.next_kind() == Some(TokenKind::Name),
{
    if !p.at(TokenKind::Name) {
        return false;
    }
    if !at_definition_keyword(p) {
        return true;
    }
    let behind = p.peek_n(2);
    behind == Some(TokenKind::Colon) || (call && behind == Some(TokenKind::LParen))
}

} // verus!
