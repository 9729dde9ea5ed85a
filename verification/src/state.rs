//! The state of a parser and the operations of the parser as functions on
//! states. The productions of the grammar are functions on states too; they
//! stand with the procedures that follow them.
use vstd::prelude::*;
use crate::builder::FrameView;
use crate::error::ErrorView;
use crate::lexer::{lex_errors, lex_tokens};
use crate::syntax_kind::SyntaxKind;
use crate::token::{nth_significant, TokenKind, TokenView};
use crate::tree::Tree;

verus! {

/// The deepest nesting of open nodes that the parser accepts.
pub const RECURSION_LIMIT: usize = 500;

/// The index of the `]` that closes a list type, read from `i` with `open`
/// brackets open: every `[` on the way opens one more. Only what a type is
/// made of may stand on the way: brackets, names, `!` and trivia.
pub open spec fn closing_bracket(tokens: Seq<TokenView>, i: int, open: nat) -> Option<int>
    decreases tokens.len() - i,
{
    if i < 0 || i >= tokens.len() {
        None
    } else if tokens[i].kind == TokenKind::LBracket {
        closing_bracket(tokens, i + 1, open + 1)
    } else if tokens[i].kind == TokenKind::RBracket {
        if open <= 1 {
            Some(i)
        } else {
            closing_bracket(tokens, i + 1, (open - 1) as nat)
        }
    } else if tokens[i].kind == TokenKind::Name || tokens[i].kind == TokenKind::Bang
        || tokens[i].kind.is_trivia() {
        closing_bracket(tokens, i + 1, open)
    } else {
        None
    }
}

/// The index of the first token at or behind `i` that is not trivia.
pub open spec fn skip_trivia(tokens: Seq<TokenView>, i: int) -> int
    decreases tokens.len() - i,
{
    if 0 <= i < tokens.len() && tokens[i].kind.is_trivia() {
        skip_trivia(tokens, i + 1)
    } else {
        i
    }
}

/// The tokens as they stand in a tree when each keeps its own kind.
pub open spec fn token_trees(tokens: Seq<TokenView>) -> Seq<Tree> {
    Seq::new(
        tokens.len(),
        |i: int| Tree::Token { kind: SyntaxKind::of(tokens[i].kind), text: tokens[i].data },
    )
}

/// The open nodes after `added` has become the last children of the
/// innermost one.
pub open spec fn with_children(frames: Seq<FrameView>, added: Seq<Tree>) -> Seq<FrameView> {
    frames.drop_last().push(
        FrameView { kind: frames.last().kind, children: frames.last().children + added },
    )
}

/// The place at which an error with the offset `index` goes into a list in
/// source order: behind every error that starts at or before `index`.
pub open spec fn insertion_point(errors: Seq<ErrorView>, index: nat) -> int
    decreases errors.len(),
{
    if errors.len() == 0 {
        0
    } else if errors.last().index <= index {
        errors.len() as int
    } else {
        insertion_point(errors.drop_last(), index)
    }
}

/// The list with one more error, at its place in source order.
pub open spec fn with_error(errors: Seq<ErrorView>, error: ErrorView) -> Seq<ErrorView> {
    errors.insert(insertion_point(errors, error.index), error)
}

/// The state of a parser: where it stands in the tokens of its input, the
/// nodes that are open, the errors met so far and the use made of the
/// recursion limit. The operations of the parser are functions on states,
/// and so are the productions of the grammar.
pub struct ParserState {
    pub source: Seq<char>,
    pub position: nat,
    pub frames: Seq<FrameView>,
    pub errors: Seq<ErrorView>,
    pub halted: bool,
    pub high: nat,
}

impl ParserState {
    /// The state in which parsing starts: no token is taken, only the
    /// document is open, and the errors are those of the lexer.
    pub open spec fn initial(source: Seq<char>) -> ParserState {
        ParserState {
            source,
            position: 0,
            frames: seq![FrameView { kind: SyntaxKind::DOCUMENT, children: Seq::empty() }],
            errors: lex_errors(source, 0),
            halted: false,
            high: 0,
        }
    }

    /// The tokens of the input.
    pub open spec fn stream(self) -> Seq<TokenView> {
        lex_tokens(self.source, 0)
    }

    /// The next token.
    pub open spec fn next(self) -> TokenView {
        self.stream()[self.position as int]
    }

    /// The kind of the next token; none once the parser has halted.
    pub open spec fn next_kind(self) -> Option<TokenKind> {
        if self.halted {
            None
        } else {
            Some(self.next().kind)
        }
    }

    /// Whether the next token is of kind `kind`.
    pub open spec fn at(self, kind: TokenKind) -> bool {
        self.next_kind() == Some(kind)
    }

    /// Whether the next token is a name with the text `word`.
    pub open spec fn at_word(self, word: Seq<char>) -> bool {
        self.next_kind() == Some(TokenKind::Name) && self.next().data == word
    }

    /// The kind of the `n`-th token to come that is not trivia.
    pub open spec fn nth_kind(self, n: nat) -> Option<TokenKind> {
        if self.halted {
            None
        } else {
            match nth_significant(self.stream(), self.position as int, n) {
                Some(i) => Some(self.stream()[i].kind),
                None => None,
            }
        }
    }

    /// Whether the `n`-th token to come that is not trivia is a name with
    /// the text `word`.
    pub open spec fn nth_is_word(self, n: nat, word: Seq<char>) -> bool {
        !self.halted && (match nth_significant(self.stream(), self.position as int, n) {
            Some(i) => self.stream()[i].kind == TokenKind::Name && self.stream()[i].data == word,
            None => false,
        })
    }

    /// Whether the list that starts at the next token is closed by a `]`
    /// behind which a `!` stands.
    pub open spec fn list_is_non_null(self) -> bool {
        !self.halted && (match closing_bracket(self.stream(), self.position as int, 0) {
            Some(i) => (match nth_significant(self.stream(), i + 1, 1) {
                Some(j) => self.stream()[j].kind == TokenKind::Bang,
                None => false,
            }),
            None => false,
        })
    }

    /// What is left to do: the number of tokens to come, and nothing once
    /// the parser has halted.
    pub open spec fn fuel(self) -> nat {
        if self.halted {
            0
        } else if self.position < self.stream().len() {
            (self.stream().len() - self.position) as nat
        } else {
            1
        }
    }

    /// The state with one more error at its place in source order; a parser
    /// that has halted records nothing.
    pub open spec fn record(self, error: ErrorView) -> ParserState {
        if self.halted {
            self
        } else {
            ParserState { errors: with_error(self.errors, error), ..self }
        }
    }

    /// The state after `Parser::err`: an error at the next token.
    #[verifier::opaque]
    pub open spec fn err(self, message: Seq<char>) -> ParserState {
        self.record(ErrorView { message, data: self.next().data, index: self.next().index })
    }

    /// The state after `Parser::eat`: the next token is in the tree, tagged
    /// with `kind`.
    #[verifier::opaque]
    pub open spec fn eat(self, kind: SyntaxKind) -> ParserState {
        ParserState {
            position: self.position + 1,
            frames: with_children(
                self.frames,
                seq![Tree::Token { kind, text: self.next().data }],
            ),
            ..self
        }
    }

    /// The state after `Parser::bump_ignored`: the trivia that came next is
    /// in the tree.
    #[verifier::opaque]
    pub open spec fn skip(self) -> ParserState {
        if self.halted {
            self
        } else {
            let end = skip_trivia(self.stream(), self.position as int);
            ParserState {
                position: end as nat,
                frames: with_children(
                    self.frames,
                    token_trees(self.stream().subrange(self.position as int, end)),
                ),
                ..self
            }
        }
    }

    /// The state after `Parser::bump`: the next token and the trivia behind
    /// it are in the tree.
    #[verifier::opaque]
    pub open spec fn bump(self, kind: SyntaxKind) -> ParserState {
        self.eat(kind).skip()
    }

    /// The state after `Parser::expect`: the next token is in the tree if it
    /// is of kind `token`; else an error says what was expected.
    #[verifier::opaque]
    pub open spec fn expect(self, token: TokenKind, kind: SyntaxKind) -> ParserState {
        if self.at(token) {
            self.bump(kind)
        } else {
            self.err("expected "@ + kind.label() + ", got "@ + self.next().data)
        }
    }

    /// The state after `Parser::err_and_pop`: the next token is dropped with
    /// an error, and the trivia behind it is in the tree.
    #[verifier::opaque]
    pub open spec fn err_and_pop(self, message: Seq<char>) -> ParserState {
        let dropped = ParserState { position: self.position + 1, ..self }.skip();
        ParserState {
            errors: with_error(
                self.errors,
                ErrorView { message, data: self.next().data, index: self.next().index },
            ),
            ..dropped
        }
    }

    /// The state after `Parser::start_node`: a node of kind `kind` is open
    /// and holds the trivia that came next. Where the node is nested deeper
    /// than the limit accepts, the parser records that and halts.
    #[verifier::opaque]
    pub open spec fn start_node(self, kind: SyntaxKind) -> ParserState {
        let open = self.frames.len();
        let opened = ParserState {
            frames: self.frames.push(FrameView { kind, children: Seq::empty() }),
            high: if open > self.high {
                open
            } else {
                self.high
            },
            ..self
        };
        if !self.halted && open > RECURSION_LIMIT {
            ParserState {
                errors: with_error(
                    self.errors,
                    ErrorView {
                        message: "parser recursion limit reached"@,
                        data: self.next().data,
                        index: self.next().index,
                    },
                ),
                halted: true,
                ..opened
            }
        } else {
            opened.skip()
        }
    }

    /// The state after `NodeGuard::finish_node`: the innermost open node is
    /// closed and is the last child of the node around it.
    #[verifier::opaque]
    pub open spec fn finish_node(self) -> ParserState {
        let n = self.frames.len() as int;
        ParserState {
            frames: self.frames.drop_last().drop_last().push(
                FrameView {
                    kind: self.frames[n - 2].kind,
                    children: self.frames[n - 2].children.push(
                        Tree::Node {
                            kind: self.frames.last().kind,
                            children: self.frames.last().children,
                        },
                    ),
                },
            ),
            ..self
        }
    }
}

} // verus!
