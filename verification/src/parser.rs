//! The parser: a cursor over the tokens of an input, a builder for the tree
//! and the list of errors, with the operations from which the grammar is
//! written.
use vstd::prelude::*;
use vstd::string::StringExecFns;
use crate::builder::{frames_leaves, FrameView, LimitTracker, SyntaxTree, SyntaxTreeBuilder};
use crate::error::{error_views, in_source_order, within, Error, ErrorView};
use crate::lexer::{
    eof_token, lemma_lex_errors_ordered, lemma_lex_tokens_stream, lemma_lex_tokens_text,
    lex_errors, lex_tokens, Lexer,
};
use crate::seqs::{
    concat, is_subseq, lemma_concat_push, lemma_subseq_insert, lemma_subseq_len,
    lemma_subseq_push_both, lemma_subseq_push_right, lemma_subseq_refl, lemma_subseq_take,
};
use crate::state::{
    closing_bracket, insertion_point, skip_trivia, token_trees, with_children, with_error,
    ParserState, RECURSION_LIMIT,
};
use crate::syntax_kind::SyntaxKind;
use crate::text::{lemma_utf8_len_concat, same_text, utf8_len};
use crate::token::{
    is_stream, nth_significant, token_texts, token_views, Token, TokenKind, TokenView,
};
use crate::tree::{leaf_text, leaf_texts, trivia_leaves, Leaf, Tree};

verus! {

/// The trivia among a sequence of tokens, as it stands in a tree.
pub open spec fn trivia_tokens(tokens: Seq<TokenView>) -> Seq<Leaf>
    decreases tokens.len(),
{
    if tokens.len() == 0 {
        Seq::empty()
    } else if tokens.last().kind.is_trivia() {
        trivia_tokens(tokens.drop_last()).push(
            Leaf { kind: SyntaxKind::of(tokens.last().kind), text: tokens.last().data },
        )
    } else {
        trivia_tokens(tokens.drop_last())
    }
}

/// Whether `children` may stand in a node of kind `kind`, and have the shape
/// of the grammar themselves.
pub open spec fn children_conform(kind: SyntaxKind, children: Seq<Tree>) -> bool {
    forall|j: int|
        0 <= j < children.len() ==> kind.admits((#[trigger] children[j]).kind())
            && children[j].conforms()
}

/// Whether the open nodes have the shape of the grammar: each holds only
/// children that its kind admits, and stands in a node that admits it.
pub open spec fn frames_conform(frames: Seq<FrameView>) -> bool {
    &&& forall|i: int|
        0 <= i < frames.len() ==> !(#[trigger] frames[i]).kind.is_token() && children_conform(
            frames[i].kind,
            frames[i].children,
        )
    &&& forall|i: int, j: int|
        0 <= i < frames.len() && j == i + 1 && j < frames.len() ==> (
        #[trigger] frames[i]).kind.admits((#[trigger] frames[j]).kind)
}

proof fn lemma_with_children_twice(frames: Seq<FrameView>, a: Seq<Tree>, b: Seq<Tree>)
    requires
        frames.len() >= 1,
    ensures
        with_children(with_children(frames, a), b) == with_children(frames, a + b),
{
    let once = with_children(frames, a);
    assert(once.drop_last() =~= frames.drop_last());
    assert((frames.last().children + a) + b =~= frames.last().children + (a + b));
}

proof fn lemma_with_children_none(frames: Seq<FrameView>)
    requires
        frames.len() >= 1,
    ensures
        with_children(frames, Seq::empty()) == frames,
{
    assert(frames.last().children + Seq::<Tree>::empty() =~= frames.last().children);
    assert(with_children(frames, Seq::empty()) =~= frames);
}

/// An error that goes into a list at its place keeps the list in source
/// order and inside the input.
pub proof fn lemma_with_error(errors: Seq<ErrorView>, error: ErrorView, limit: nat)
    requires
        in_source_order(errors),
        within(errors, limit),
        error.index <= limit,
    ensures
        0 <= insertion_point(errors, error.index) <= errors.len(),
        in_source_order(with_error(errors, error)),
        within(with_error(errors, error), limit),
        forall|j: int|
            0 <= j < insertion_point(errors, error.index) ==> (#[trigger] errors[j]).index
                <= error.index,
        forall|j: int|
            insertion_point(errors, error.index) <= j < errors.len() ==> (
            #[trigger] errors[j]).index > error.index,
    decreases errors.len(),
{
    let k = insertion_point(errors, error.index);
    if errors.len() > 0 && errors.last().index > error.index {
        let front = errors.drop_last();
        assert forall|i: int, j: int| 0 <= i <= j < front.len() implies front[i].index
            <= front[j].index by {
            assert(front[i] == errors[i] && front[j] == errors[j]);
        }
        assert forall|i: int| 0 <= i < front.len() implies (#[trigger] front[i]).index
            <= limit by {
            assert(front[i] == errors[i]);
        }
        lemma_with_error(front, error, limit);
        assert forall|j: int| 0 <= j < k implies (#[trigger] errors[j]).index <= error.index by {
            assert(errors[j] == front[j]);
        }
        assert forall|j: int| k <= j < errors.len() implies (#[trigger] errors[j]).index
            > error.index by {
            if j < front.len() {
                assert(errors[j] == front[j]);
            }
        }
    } else if errors.len() > 0 {
        assert forall|j: int| 0 <= j < k implies (#[trigger] errors[j]).index <= error.index by {
            assert(errors[j].index <= errors[errors.len() - 1].index);
        }
    }
    let after = with_error(errors, error);
    assert forall|i: int, j: int| 0 <= i <= j < after.len() implies after[i].index
        <= after[j].index by {
        if i < k {
            assert(after[i] == errors[i]);
        } else if i > k {
            assert(after[i] == errors[i - 1]);
        }
        if j < k {
            assert(after[j] == errors[j]);
        } else if j > k {
            assert(after[j] == errors[j - 1]);
        }
    }
    assert forall|i: int| 0 <= i < after.len() implies (#[trigger] after[i]).index <= limit by {
        if i < k {
            assert(after[i] == errors[i]);
        } else if i > k {
            assert(after[i] == errors[i - 1]);
        }
    }
}

/// Parses GraphQL documents: queries and schemas alike.
///
/// `Parser::new` reads the tokens of an input, `parse` builds the tree. The
/// other operations are those that a grammar is written with: they look at
/// the tokens to come, move tokens into the tree and record errors.
pub struct Parser {
    /// The tokens of the input in source order, the end of input last.
    tokens: Vec<Token>,
    /// The index of the next token.
    pos: usize,
    /// The tree in progress.
    builder: SyntaxTreeBuilder,
    /// The errors met so far, in source order.
    errors: Vec<Error>,
    /// Whether the recursion limit was exceeded.
    halted: bool,
    /// The deepest nesting of open nodes so far.
    high: usize,
    /// The input.
    source: Ghost<Seq<char>>,
}

/// Closes the node that `Parser::start_node` opened with it.
#[must_use]
pub struct NodeGuard {
    depth: usize,
}

impl Parser {
    /// The input.
    pub closed spec fn source(&self) -> Seq<char> {
        self.source@
    }

    /// The tokens of the input.
    pub open spec fn stream(&self) -> Seq<TokenView> {
        self.state().stream()
    }

    /// The number of tokens that were taken from the stream.
    pub closed spec fn position(&self) -> nat {
        self.pos as nat
    }

    /// Whether the recursion limit was exceeded. From then on the parser
    /// behaves as at the end of the input and records no further error.
    pub closed spec fn halted(&self) -> bool {
        self.halted
    }

    /// The deepest nesting of open nodes so far.
    pub closed spec fn high(&self) -> nat {
        self.high as nat
    }

    /// The open nodes, the document first.
    pub closed spec fn frames(&self) -> Seq<FrameView> {
        self.builder@
    }

    /// The errors met so far.
    pub closed spec fn error_seq(&self) -> Seq<ErrorView> {
        error_views(self.errors@)
    }

    /// The state of the parser.
    pub open spec fn state(&self) -> ParserState {
        ParserState {
            source: self.source(),
            position: self.position(),
            frames: self.frames(),
            errors: self.error_seq(),
            halted: self.halted(),
            high: self.high(),
        }
    }

    /// The tokens that are in the tree so far.
    pub open spec fn leaves(&self) -> Seq<Leaf> {
        frames_leaves(self.frames())
    }

    /// The tokens that were taken from the stream.
    pub open spec fn consumed(&self) -> Seq<TokenView> {
        self.stream().take(self.position() as int)
    }

    /// The number of open nodes, the document included.
    pub open spec fn depth(&self) -> nat {
        self.frames().len()
    }

    /// The kind of the innermost open node.
    pub open spec fn top_kind(&self) -> SyntaxKind {
        self.frames().last().kind
    }

    /// The open nodes around the innermost one.
    pub open spec fn outer(&self) -> Seq<FrameView> {
        self.frames().drop_last()
    }

    /// The next token.
    pub open spec fn next(&self) -> TokenView {
        self.state().next()
    }

    /// The kind of the next token; none once the parser has halted.
    pub open spec fn next_kind(&self) -> Option<TokenKind> {
        self.state().next_kind()
    }

    /// The kind of the `n`-th token to come that is not trivia.
    pub open spec fn nth_kind(&self, n: nat) -> Option<TokenKind> {
        self.state().nth_kind(n)
    }

    /// The text of the `n`-th token to come that is not trivia.
    pub open spec fn nth_data(&self, n: nat) -> Option<Seq<char>> {
        if self.halted() {
            None
        } else {
            match nth_significant(self.stream(), self.position() as int, n) {
                Some(i) => Some(self.stream()[i].data),
                None => None,
            }
        }
    }

    /// Whether nothing is left to parse: the next token is the end of the
    /// input, or the parser has halted.
    pub open spec fn at_end(&self) -> bool {
        self.halted() || self.next().kind == TokenKind::Eof
    }

    /// Whether the next token is not trivia.
    pub open spec fn settled(&self) -> bool {
        self.halted() || !self.next().kind.is_trivia()
    }

    /// What is left to do: the number of tokens to come, and nothing once
    /// the parser has halted.
    pub open spec fn fuel(&self) -> nat {
        self.state().fuel()
    }

    /// What holds of a parser at every moment.
    ///
    /// The tokens are those of the input and the next token exists. No token
    /// is in the tree that was not taken from the stream, and those in the
    /// tree stand in the order of the stream. All trivia that was taken from
    /// the stream is in the tree. The open nodes have the shape of the
    /// grammar. The errors stand in source order, point
    /// into the input, and hold every error of the lexer.
    pub closed spec fn wf(&self) -> bool {
        &&& token_views(self.tokens@) == self.stream()
        &&& is_stream(self.stream())
        &&& self.stream().last() == eof_token(self.source())
        &&& self.pos < self.tokens@.len()
        &&& self.builder.wf()
        &&& self.builder@.len() >= 1
        &&& self.builder@[0].kind == SyntaxKind::DOCUMENT
        &&& utf8_len(self.builder.text()) <= self.next().index
        &&& is_subseq(leaf_texts(self.leaves()), token_texts(self.consumed()))
        &&& in_source_order(self.error_seq())
        &&& within(self.error_seq(), utf8_len(self.source()))
        &&& is_subseq(lex_errors(self.source(), 0), self.error_seq())
        &&& self.halted == (self.high > RECURSION_LIMIT)
        &&& self.halted ==> self.errors@.len() > 0
    }

    /// While no error was met, every token that was taken from the stream is
    /// in the tree.
    pub closed spec fn faithful(&self) -> bool {
        self.errors@.len() == 0 ==> leaf_texts(self.leaves()) == token_texts(self.consumed())
    }

    /// The open nodes have the shape of the grammar, and all trivia that was
    /// taken from the stream is in the tree, as trivia. The operations keep
    /// this where the tags that they are given fit the tokens and the open
    /// node, and where no trivia is dropped; they accept other tags too.
    pub closed spec fn tidy(&self) -> bool {
        &&& frames_conform(self.builder@)
        &&& trivia_leaves(self.leaves()) == trivia_tokens(self.consumed())
    }

    /// What the grammar needs: the parser is well formed, and the next token
    /// is not trivia.
    pub open spec fn ready(&self) -> bool {
        self.wf() && self.settled()
    }

    /// What the grammar keeps of the state `before` it: a parser that was
    /// faithful is still, and so is one that was tidy.
    pub open spec fn keeps(&self, before: &Parser) -> bool {
        &&& before.faithful() ==> self.faithful()
        &&& before.tidy() ==> self.tidy()
    }

    /// What every step of the grammar keeps of the state `before` it: the
    /// input and the open nodes; and it never goes back in the stream.
    pub open spec fn follows(&self, before: &Parser) -> bool {
        &&& self.source() == before.source()
        &&& self.depth() == before.depth()
        &&& self.outer() == before.outer()
        &&& self.top_kind() == before.top_kind()
        &&& self.fuel() <= before.fuel()
    }

    /// Nothing but the errors differs from the state `before`.
    pub open spec fn same_place(&self, before: &Parser) -> bool {
        &&& self.source() == before.source()
        &&& self.position() == before.position()
        &&& self.frames() == before.frames()
        &&& self.halted() == before.halted()
        &&& self.high() == before.high()
    }

    /// The errors after an attempt to record `error`: a parser that has
    /// halted records nothing.
    pub open spec fn errors_with(&self, error: ErrorView) -> Seq<ErrorView> {
        if self.halted() {
            self.error_seq()
        } else {
            with_error(self.error_seq(), error)
        }
    }

    /// What a well-formed parser is known to hold.
    pub proof fn lemma_wf(&self)
        requires
            self.wf(),
        ensures
            is_stream(self.stream()),
            self.position() < self.stream().len(),
            self.depth() >= 1,
            self.frames()[0].kind == SyntaxKind::DOCUMENT,
            self.stream().last() == eof_token(self.source()),
            self.next().index <= utf8_len(self.source()),
            is_subseq(leaf_texts(self.leaves()), token_texts(self.consumed())),
            in_source_order(self.error_seq()),
            within(self.error_seq(), utf8_len(self.source())),
            is_subseq(lex_errors(self.source(), 0), self.error_seq()),
            self.halted() == (self.high() > RECURSION_LIMIT),
            self.halted() ==> self.error_seq().len() > 0,
            !self.halted() ==> self.fuel() >= 1,
            self.faithful() && self.error_seq().len() == 0 ==> leaf_texts(self.leaves())
                == token_texts(self.consumed()),
    {
        lemma_lex_tokens_stream(self.source(), 0);
    }

    /// What a tidy parser is known to hold.
    pub proof fn lemma_tidy(&self)
        requires
            self.tidy(),
        ensures
            frames_conform(self.frames()),
            trivia_leaves(self.leaves()) == trivia_tokens(self.consumed()),
    {
    }

    /// Create a new instance of a parser given an input string.
    pub fn new(input: &str) -> (p: Parser)
        ensures
            p.state() == ParserState::initial(input@),
            p.wf(),
            p.faithful(),
            p.tidy(),
            p.source() == input@,
            p.position() == 0,
            !p.halted(),
            p.high() == 0,
            p.frames() == seq![FrameView { kind: SyntaxKind::DOCUMENT, children: Seq::empty() }],
            p.error_seq() == lex_errors(input@, 0),
    {
        let lexer = Lexer::new(input);
        let (tokens, errors) = lexer.into_parts();
        let builder = SyntaxTreeBuilder::new();
        let p = Parser {
            tokens,
            pos: 0,
            builder,
            errors,
            halted: false,
            high: 0,
            source: Ghost(input@),
        };
        proof {
            lemma_lex_tokens_stream(input@, 0);
            lemma_lex_errors_ordered(input@, 0);
            lemma_subseq_refl(lex_errors(input@, 0));
            assert(p.consumed() =~= Seq::<TokenView>::empty());
            assert(leaf_texts(p.leaves()) =~= token_texts(p.consumed()));
            assert(crate::seqs::concat(Seq::<Seq<char>>::empty()) =~= Seq::<char>::empty());
            assert(utf8_len(Seq::<char>::empty()) == 0) by {
                reveal_with_fuel(vstd::utf8::encode_utf8, 1);
            }
            assert(p.tokens@.len() == p.stream().len());
        }
        p
    }

    /// Parse the tokens into a tree.
    ///
    /// The tree and the errors are those of the state that the grammar
    /// leads to: `ParserState::document` says which. The root of the tree is
    /// a document, whatever the input, and the tree has the shape of the
    /// grammar. The tokens of the tree are tokens of the
    /// input, in their order; all trivia is among them unless the recursion
    /// limit was exceeded. The errors stand in source order, point into the
    /// input and hold those of the lexer. Where there is no error, the text
    /// of the tree is the input; it is the input exactly if the lexer met no
    /// error and the tree holds every token.
    pub fn parse(self) -> (tree: SyntaxTree)
        requires
            self.wf(),
            self.depth() == 1,
        ensures
            tree.tree() == self.state().document().root(),
            tree.error_seq() == self.state().document().errors,
            tree.recursion() == (LimitTracker {
                high: self.state().document().high as usize,
                limit: RECURSION_LIMIT,
            }),
            tree.wf(),
            tree.tree() is Node,
            tree.tree().kind() == SyntaxKind::DOCUMENT,
            self.tidy() ==> tree.tree().conforms(),
            in_source_order(tree.error_seq()),
            within(tree.error_seq(), utf8_len(self.source())),
            is_subseq(lex_errors(self.source(), 0), tree.error_seq()),
            is_subseq(leaf_texts(tree.tree().leaves()), token_texts(self.stream().drop_last())),
            self.tidy() && !tree.recursion().exceeded() ==> trivia_leaves(tree.tree().leaves())
                == trivia_tokens(self.stream()),
            self.faithful() && tree.error_seq().len() == 0 ==> tree.tree().text()
                == self.source(),
            tree.tree().text() == self.source() <==> lex_errors(self.source(), 0).len() == 0
                && tree.tree().leaves().len() == self.stream().len() - 1,
            tree.recursion().limit == RECURSION_LIMIT,
            tree.recursion().exceeded() ==> tree.error_seq().len() > 0,
    {
        let ghost source = self.source();
        let mut p = self;
        crate::grammar::document::document(&mut p);
        proof {
            p.lemma_parsed();
        }
        let recursion = LimitTracker { high: p.high, limit: RECURSION_LIMIT };
        let tree = p.builder.finish(p.errors, recursion);
        proof {
            if lex_errors(source, 0).len() == 0 && tree.tree().leaves().len() == lex_tokens(
                source,
                0,
            ).len() - 1 {
                crate::laws::lemma_round_trip(source, tree.tree());
            }
            if tree.tree().text() == source {
                crate::laws::lemma_round_trip_only_if(source, tree.tree());
            }
        }
        tree
    }

    /// What holds of a parser that has come to the end: of its tokens, its
    /// trivia and its text.
    proof fn lemma_parsed(&self)
        requires
            self.ready(),
            self.depth() == 1,
            self.at_end(),
        ensures
            self.builder.wf(),
            self.builder@.len() == 1,
            self.builder@[0].kind == SyntaxKind::DOCUMENT,
            self.tidy() ==> self.state().root().conforms(),
            in_source_order(self.error_seq()),
            within(self.error_seq(), utf8_len(self.source())),
            is_subseq(lex_errors(self.source(), 0), self.error_seq()),
            is_subseq(leaf_texts(self.leaves()), token_texts(self.stream().drop_last())),
            self.tidy() && !self.halted() ==> trivia_leaves(self.leaves()) == trivia_tokens(
                self.stream(),
            ),
            self.faithful() && self.error_seq().len() == 0 ==> leaf_text(self.leaves())
                == self.source(),
            self.halted() == (self.high > RECURSION_LIMIT),
            self.halted() ==> self.error_seq().len() > 0,
    {
        let source = self.source();
        let stream = self.stream();
        let consumed = self.consumed();
        let pos = self.position() as int;
        self.lemma_wf();
        if self.tidy() {
            self.lemma_tidy();
        }
        assert(token_texts(consumed) =~= token_texts(stream.drop_last()).take(pos));
        lemma_subseq_take(leaf_texts(self.leaves()), token_texts(stream.drop_last()), pos);
        if !self.halted() {
            assert(pos == stream.len() - 1);
            assert(consumed =~= stream.drop_last());
        }
        if self.error_seq().len() == 0 {
            lemma_subseq_len(lex_errors(source, 0), self.error_seq());
            lemma_lex_tokens_text(source, 0);
            assert(source.skip(0) =~= source);
            assert(token_texts(stream) =~= token_texts(stream.drop_last()).push(
                stream.last().data,
            ));
            lemma_concat_push(token_texts(stream.drop_last()), stream.last().data);
            assert(concat(token_texts(stream.drop_last())) + Seq::<char>::empty() =~= concat(
                token_texts(stream.drop_last()),
            ));
        }
    }

    /// Peek the next token and return its kind.
    pub fn peek(&self) -> (r: Option<TokenKind>)
        requires
            self.wf(),
        ensures
            r == self.next_kind(),
    {
        if self.halted {
            None
        } else {
            Some(self.tokens[self.pos].kind)
        }
    }

    /// Peek the next token and return it.
    pub fn peek_token(&self) -> (r: Option<&Token>)
        requires
            self.wf(),
        ensures
            r.is_some() == !self.halted(),
            r matches Some(t) ==> t@ == self.next(),
    {
        if self.halted {
            None
        } else {
            Some(&self.tokens[self.pos])
        }
    }

    /// Peek the next token's text.
    pub fn peek_data(&self) -> (r: Option<String>)
        requires
            self.wf(),
        ensures
            r.is_some() == !self.halted(),
            r matches Some(s) ==> s@ == self.next().data,
    {
        if self.halted {
            None
        } else {
            Some(self.tokens[self.pos].data.clone())
        }
    }

    /// The token at which the parser stands.
    pub fn current(&self) -> (t: &Token)
        requires
            self.wf(),
        ensures
            t@ == self.next(),
    {
        &self.tokens[self.pos]
    }

    /// Check if the next token is of kind `token`.
    pub fn at(&self, token: TokenKind) -> (r: bool)
        requires
            self.wf(),
        ensures
            r == (self.next_kind() == Some(token)),
    {
        match self.peek() {
            Some(kind) => kind == token,
            None => false,
        }
    }

    /// Whether the parser stands at a name whose text is `word`.
    pub fn at_word(&self, word: &str) -> (r: bool)
        requires
            self.wf(),
        ensures
            r == self.state().at_word(word@),
    {
        !self.halted && self.tokens[self.pos].kind == TokenKind::Name && same_text(
            self.tokens[self.pos].data.as_str(),
            word,
        )
    }

    /// The index of the `n`-th token at or behind `start` that is not
    /// trivia.
    fn nth_index_from(&self, start: usize, n: usize) -> (r: Option<usize>)
        requires
            self.wf(),
            n >= 1,
        ensures
            match r {
                Some(i) => nth_significant(self.stream(), start as int, n as nat) == Some(i as int),
                None => nth_significant(self.stream(), start as int, n as nat).is_none(),
            },
            r matches Some(i) ==> i < self.tokens@.len(),
    {
        let mut i: usize = start;
        let mut left: usize = n;
        while i < self.tokens.len()
            invariant
                self.wf(),
                start <= i,
                1 <= left <= n,
                nth_significant(self.stream(), start as int, n as nat) == nth_significant(
                    self.stream(),
                    i as int,
                    left as nat,
                ),
            decreases self.tokens@.len() - i,
        {
            if !self.tokens[i].kind.trivia() {
                if left == 1 {
                    return Some(i);
                }
                left = left - 1;
            }
            i = i + 1;
        }
        None
    }

    /// Whether the list that starts at the next token is closed by a `]`
    /// behind which a `!` stands.
    pub fn peek_non_null_list(&self) -> (r: bool)
        requires
            self.wf(),
        ensures
            r == self.state().list_is_non_null(),
    {
        if self.halted {
            return false;
        }
        let mut i: usize = self.pos;
        let mut open: usize = 0;
        while i < self.tokens.len()
            invariant
                self.wf(),
                !self.halted(),
                self.pos <= i <= self.tokens@.len(),
                open <= i - self.pos,
                closing_bracket(self.stream(), self.position() as int, 0) == closing_bracket(
                    self.stream(),
                    i as int,
                    open as nat,
                ),
            decreases self.tokens@.len() - i,
        {
            let kind = self.tokens[i].kind;
            if kind == TokenKind::LBracket {
                open = open + 1;
            } else if kind == TokenKind::RBracket {
                if open <= 1 {
                    return match self.nth_index_from(i + 1, 1) {
                        Some(j) => self.tokens[j].kind == TokenKind::Bang,
                        None => false,
                    };
                }
                open = open - 1;
            } else if !(kind == TokenKind::Name || kind == TokenKind::Bang || kind.trivia()) {
                return false;
            }
            i = i + 1;
        }
        false
    }

    /// The index of the `n`-th token to come that is not trivia.
    fn nth_index(&self, n: usize) -> (r: Option<usize>)
        requires
            self.wf(),
            n >= 1,
        ensures
            !self.halted() ==> (match r {
                Some(i) => nth_significant(self.stream(), self.position() as int, n as nat) == Some(
                    i as int,
                ),
                None => nth_significant(self.stream(), self.position() as int, n as nat).is_none(),
            }),
            self.halted() ==> r.is_none(),
            r matches Some(i) ==> i < self.tokens@.len(),
    {
        if self.halted {
            return None;
        }
        let mut i: usize = self.pos;
        let mut left: usize = n;
        while i < self.tokens.len()
            invariant
                self.wf(),
                !self.halted(),
                self.pos <= i <= self.tokens@.len(),
                1 <= left <= n,
                nth_significant(self.stream(), self.position() as int, n as nat) == nth_significant(
                    self.stream(),
                    i as int,
                    left as nat,
                ),
            decreases self.tokens@.len() - i,
        {
            if !self.tokens[i].kind.trivia() {
                if left == 1 {
                    return Some(i);
                }
                left = left - 1;
            }
            i = i + 1;
        }
        None
    }

    /// Peek the `n`-th token to come that is not trivia and return its kind;
    /// the first is the nearest.
    pub fn peek_n(&self, n: usize) -> (r: Option<TokenKind>)
        requires
            self.wf(),
            n >= 1,
        ensures
            r == self.nth_kind(n as nat),
    {
        match self.nth_index(n) {
            Some(i) => Some(self.tokens[i].kind),
            None => None,
        }
    }

    /// Peek the `n`-th token to come that is not trivia and return its text.
    pub fn peek_data_n(&self, n: usize) -> (r: Option<String>)
        requires
            self.wf(),
            n >= 1,
        ensures
            r.is_some() == self.nth_data(n as nat).is_some(),
            r matches Some(s) ==> self.nth_data(n as nat) == Some(s@),
    {
        match self.nth_index(n) {
            Some(i) => Some(self.tokens[i].data.clone()),
            None => None,
        }
    }

    /// Whether the `n`-th token to come that is not trivia is a name with the
    /// text `word`.
    pub fn nth_is_word(&self, n: usize, word: &str) -> (r: bool)
        requires
            self.wf(),
            n >= 1,
        ensures
            r == self.state().nth_is_word(n as nat, word@),
    {
        match self.nth_index(n) {
            Some(i) => self.tokens[i].kind == TokenKind::Name && same_text(
                self.tokens[i].data.as_str(),
                word,
            ),
            None => false,
        }
    }

    /// Push an error to the parser's list of errors, at its place in source
    /// order: behind the errors that start at or before it.
    pub fn push_err(&mut self, err: Error)
        requires
            old(self).wf(),
            err@.index <= utf8_len(old(self).source()),
        ensures
            final(self).state() == old(self).state().record(err@),
            final(self).wf(),
            final(self).same_place(old(self)),
            old(self).faithful() ==> final(self).faithful(),
            old(self).tidy() ==> final(self).tidy(),
            final(self).error_seq() == old(self).errors_with(err@),
            final(self).error_seq().len() == old(self).error_seq().len() + (if old(self).halted() {
                0int
            } else {
                1int
            }),
    {
        if self.halted {
            return;
        }
        let ghost before = error_views(self.errors@);
        let ghost target = err@.index;
        let mut k: usize = self.errors.len();
        proof {
            assert(before.take(k as int) =~= before);
        }
        while k > 0 && self.errors[k - 1].index > err.index
            invariant
                k <= self.errors@.len(),
                before == error_views(self.errors@),
                target == err@.index,
                insertion_point(before, target) == insertion_point(before.take(k as int), target),
            decreases k,
        {
            proof {
                assert(before.take(k as int).drop_last() =~= before.take(k - 1));
            }
            k = k - 1;
        }
        proof {
            if k > 0 {
                assert(before.take(k as int).last() == before[k - 1]);
            }
            assert(insertion_point(before, target) == k);
            lemma_with_error(before, err@, utf8_len(self.source()));
            lemma_subseq_insert(lex_errors(self.source(), 0), before, k as int, err@);
        }
        self.errors.insert(k, err);
        proof {
            assert(error_views(self.errors@) =~= before.insert(k as int, err@));
        }
    }

    /// Create a parser error at the next token and push it to the list of
    /// errors.
    pub fn err(&mut self, message: &str)
        requires
            old(self).wf(),
        ensures
            final(self).state() == old(self).state().err(message@),
            final(self).wf(),
            final(self).same_place(old(self)),
            old(self).faithful() ==> final(self).faithful(),
            old(self).tidy() ==> final(self).tidy(),
            final(self).error_seq() == old(self).errors_with(
                ErrorView {
                    message: message@,
                    data: old(self).next().data,
                    index: old(self).next().index,
                },
            ),
            final(self).error_seq().len() == old(self).error_seq().len() + (if old(self).halted() {
                0int
            } else {
                1int
            }),
    {
        proof {
            reveal(ParserState::err);
            self.lemma_wf();
        }
        let data = self.tokens[self.pos].data.clone();
        let index = self.tokens[self.pos].index;
        let err = Error::with_loc(message, data, index);
        self.push_err(err);
    }

    /// Consume a token from the stream and add it to the tree, tagged with
    /// `kind`. The trivia behind the token stays in the stream.
    ///
    /// Every tag is accepted; the parser stays tidy if the tag is one that
    /// the token may carry and that the open node admits. The end of the
    /// input is never consumed: the call needs a token before it, and a
    /// parser that has not halted.
    pub fn eat(&mut self, kind: SyntaxKind)
        requires
            old(self).wf(),
            !old(self).at_end(),
        ensures
            final(self).state() == old(self).state().eat(kind),
            final(self).wf(),
            old(self).faithful() ==> final(self).faithful(),
            old(self).tidy() && kind.fits(old(self).next().kind) && kind.is_token()
                && old(self).top_kind().admits(kind) ==> final(self).tidy(),
            final(self).source() == old(self).source(),
            final(self).depth() == old(self).depth(),
            final(self).outer() == old(self).outer(),
            final(self).top_kind() == old(self).top_kind(),
            final(self).position() == old(self).position() + 1,
            final(self).halted() == old(self).halted(),
            final(self).high() == old(self).high(),
            final(self).error_seq() == old(self).error_seq(),
            final(self).frames() == old(self).frames().drop_last().push(
                FrameView {
                    kind: old(self).frames().last().kind,
                    children: old(self).frames().last().children.push(
                        Tree::Token { kind, text: old(self).next().data },
                    ),
                },
            ),
    {
        proof {
            reveal(ParserState::eat);
        }
        let ghost consumed = self.consumed();
        let ghost token = self.next();
        let ghost leaf = Leaf { kind, text: token.data };
        let ghost leaves = self.leaves();
        let ghost text = self.builder.text();
        proof {
            assert(self.tokens@[self.pos as int]@ == token);
            assert(self.stream()[self.pos + 1].index >= token.index + utf8_len(token.data));
            crate::tree::lemma_leaf_text_concat(leaves, seq![leaf]);
            crate::tree::lemma_token_text(kind, token.data);
            assert(leaves.push(leaf) =~= leaves + seq![leaf]);
            lemma_utf8_len_concat(text, token.data);
        }
        let count = self.tokens.len();
        let ghost frames = self.frames();
        self.builder.token(kind, self.tokens[self.pos].data.as_str());
        assert(self.pos < count);
        self.pos = self.pos + 1;
        proof {
            if frames_conform(frames) && kind.is_token() && frames.last().kind.admits(kind) {
                lemma_frames_conform_token(frames, kind, token.data);
            }
            assert(self.frames().drop_last() =~= frames.drop_last());
            assert(frames.last().children.push(Tree::Token { kind, text: token.data })
                =~= frames.last().children + seq![Tree::Token { kind, text: token.data }]);
            assert(self.consumed() =~= consumed.push(token));
            assert(leaf_texts(leaves.push(leaf)) =~= leaf_texts(leaves).push(token.data));
            assert(token_texts(consumed.push(token)) =~= token_texts(consumed).push(token.data));
            lemma_subseq_push_both(leaf_texts(leaves), token_texts(consumed), token.data);
            assert(leaves.push(leaf).drop_last() =~= leaves);
            assert(consumed.push(token).drop_last() =~= consumed);
            crate::syntax_kind::lemma_trivia_mirrors(token.kind);
        }
    }

    /// Consume the trivia that comes next and add it to the tree, each
    /// token with a kind of its own. A parser that has halted consumes
    /// nothing.
    pub fn bump_ignored(&mut self)
        requires
            old(self).wf(),
        ensures
            final(self).state() == old(self).state().skip(),
            final(self).wf(),
            final(self).settled(),
            old(self).faithful() ==> final(self).faithful(),
            old(self).tidy() ==> final(self).tidy(),
            final(self).follows(old(self)),
            final(self).halted() == old(self).halted(),
            final(self).high() == old(self).high(),
            final(self).error_seq() == old(self).error_seq(),
            old(self).settled() ==> final(self).position() == old(self).position()
                && final(self).frames() == old(self).frames(),
            !old(self).halted() ==> final(self).position() == skip_trivia(
                old(self).stream(),
                old(self).position() as int,
            ) && final(self).frames() == with_children(
                old(self).frames(),
                token_trees(
                    old(self).stream().subrange(
                        old(self).position() as int,
                        final(self).position() as int,
                    ),
                ),
            ),
    {
        proof {
            reveal(ParserState::skip);
        }
        let ghost stream = self.stream();
        let ghost start = self.position() as int;
        let ghost base = self.frames();
        proof {
            self.lemma_wf();
            lemma_with_children_none(base);
            assert(token_trees(stream.subrange(start, start)) =~= Seq::<Tree>::empty());
        }
        loop
            invariant
                self.wf(),
                old(self).faithful() ==> self.faithful(),
                old(self).tidy() ==> self.tidy(),
                self.follows(old(self)),
                self.halted() == old(self).halted(),
                self.high() == old(self).high(),
                self.error_seq() == old(self).error_seq(),
                old(self).settled() ==> self.position() == old(self).position() && self.frames()
                    == old(self).frames(),
                stream == self.stream(),
                start == old(self).position(),
                base == old(self).frames(),
                base.len() >= 1,
                start <= self.position() < stream.len(),
                !self.halted() ==> skip_trivia(stream, start) == skip_trivia(
                    stream,
                    self.position() as int,
                ) && self.frames() == with_children(
                    base,
                    token_trees(stream.subrange(start, self.position() as int)),
                ),
            ensures
                self.settled(),
                !self.halted() ==> self.position() == skip_trivia(stream, start),
            decreases self.stream().len() - self.position(),
        {
            let ghost pos = self.position() as int;
            let ghost before = self.frames();
            let ghost token = self.next();
            let ghost sofar = token_trees(stream.subrange(start, pos));
            proof {
                self.lemma_wf();
                assert(token_trees(stream.subrange(start, pos + 1)) =~= sofar.push(
                    Tree::Token { kind: SyntaxKind::of(token.kind), text: token.data },
                ));
            }
            match self.peek() {
                Some(TokenKind::Comment) => {
                    self.eat(SyntaxKind::COMMENT);
                },
                Some(TokenKind::Whitespace) => {
                    self.eat(SyntaxKind::WHITESPACE);
                },
                Some(TokenKind::Comma) => {
                    self.eat(SyntaxKind::COMMA);
                },
                _ => {
                    break ;
                },
            }
            proof {
                let leaf = Tree::Token { kind: SyntaxKind::of(token.kind), text: token.data };
                assert(before.last().children.push(leaf) =~= before.last().children + seq![leaf]);
                assert(self.frames() == with_children(before, seq![leaf]));
                lemma_with_children_twice(base, sofar, seq![leaf]);
                assert(sofar + seq![leaf] =~= sofar.push(leaf));
            }
        }
    }

    /// Consume a token and the trivia that follows it, and add them to the
    /// tree; the token is tagged with `kind`.
    ///
    /// Every tag is accepted; the parser stays tidy if the tag is one that
    /// the token may carry and that the open node admits. The end of the
    /// input is never consumed.
    pub fn bump(&mut self, kind: SyntaxKind)
        requires
            old(self).wf(),
            !old(self).at_end(),
        ensures
            final(self).state() == old(self).state().bump(kind),
            final(self).wf(),
            final(self).settled(),
            old(self).faithful() ==> final(self).faithful(),
            old(self).tidy() && kind.fits(old(self).next().kind) && kind.is_token()
                && old(self).top_kind().admits(kind) ==> final(self).tidy(),
            final(self).follows(old(self)),
            final(self).fuel() < old(self).fuel(),
            final(self).halted() == old(self).halted(),
            final(self).high() == old(self).high(),
            final(self).error_seq() == old(self).error_seq(),
            final(self).position() == skip_trivia(
                old(self).stream(),
                old(self).position() as int + 1,
            ),
            final(self).frames() == with_children(
                old(self).frames(),
                seq![Tree::Token { kind, text: old(self).next().data }] + token_trees(
                    old(self).stream().subrange(
                        old(self).position() as int + 1,
                        final(self).position() as int,
                    ),
                ),
            ),
    {
        proof {
            reveal(ParserState::bump);
        }
        let ghost base = self.frames();
        let ghost leaf = Tree::Token { kind, text: self.next().data };
        proof {
            self.lemma_wf();
        }
        self.eat(kind);
        let ghost trivia_start = self.position() as int;
        self.bump_ignored();
        proof {
            assert(base.last().children.push(leaf) =~= base.last().children + seq![leaf]);
            lemma_with_children_twice(
                base,
                seq![leaf],
                token_trees(self.stream().subrange(trivia_start, self.position() as int)),
            );
        }
    }

    /// Consume a token from the stream and hand it out. It is not in the
    /// tree unless `push_ast` puts it there. The parser stays tidy unless
    /// the token is trivia. The end of the input is never consumed.
    pub fn pop(&mut self) -> (token: Token)
        requires
            old(self).wf(),
            !old(self).at_end(),
        ensures
            old(self).tidy() && !old(self).next().kind.is_trivia() ==> final(self).tidy(),
            final(self).state() == (ParserState {
                position: old(self).position() + 1,
                ..old(self).state()
            }),
            final(self).wf(),
            token@ == old(self).next(),
            final(self).source() == old(self).source(),
            final(self).position() == old(self).position() + 1,
            final(self).frames() == old(self).frames(),
            final(self).halted() == old(self).halted(),
            final(self).high() == old(self).high(),
            final(self).error_seq() == old(self).error_seq(),
            final(self).can_hold(token@.data),
            old(self).faithful() && old(self).error_seq().len() == 0 ==> leaf_texts(
                final(self).leaves(),
            ).push(token@.data) == token_texts(final(self).consumed()),
    {
        let ghost consumed = self.consumed();
        let ghost next = self.next();
        proof {
            assert(self.tokens@[self.pos as int]@ == next);
            assert(self.stream()[self.pos + 1].index >= next.index + utf8_len(next.data));
            lemma_subseq_push_both(leaf_texts(self.leaves()), token_texts(consumed), next.data);
            lemma_subseq_push_right(leaf_texts(self.leaves()), token_texts(consumed), next.data);
            assert(consumed.push(next).drop_last() =~= consumed);
            assert(token_texts(consumed.push(next)) =~= token_texts(consumed).push(next.data));
        }
        let count = self.tokens.len();
        let token = self.tokens[self.pos].duplicate();
        assert(self.pos < count);
        self.pos = self.pos + 1;
        proof {
            assert(self.consumed() =~= consumed.push(next));
        }
        token
    }

    /// Whether a token with the text `data` may go into the tree now: it was
    /// taken from the stream, behind those that are in the tree.
    pub closed spec fn can_hold(&self, data: Seq<char>) -> bool {
        &&& is_subseq(leaf_texts(self.leaves()).push(data), token_texts(self.consumed()))
        &&& utf8_len(self.builder.text()) + utf8_len(data) <= self.next().index
    }

    /// Insert a token into the tree, tagged with `kind`. The token is one
    /// that `pop` handed out and that is not in the tree yet. Every tag is
    /// accepted; the parser stays tidy if the tag is that of a token, not of
    /// trivia, and one that the open node admits.
    pub fn push_ast(&mut self, kind: SyntaxKind, token: Token)
        requires
            old(self).wf(),
            old(self).can_hold(token@.data),
        ensures
            old(self).tidy() && !kind.is_trivia() && kind.is_token()
                && old(self).top_kind().admits(kind) ==> final(self).tidy(),
            final(self).state() == (ParserState {
                frames: with_children(
                    old(self).frames(),
                    seq![Tree::Token { kind, text: token@.data }],
                ),
                ..old(self).state()
            }),
            final(self).wf(),
            final(self).same_place_but_tree(old(self)),
            final(self).depth() == old(self).depth(),
            final(self).outer() == old(self).outer(),
            final(self).top_kind() == old(self).top_kind(),
            final(self).error_seq() == old(self).error_seq(),
            final(self).frames() == old(self).frames().drop_last().push(
                FrameView {
                    kind: old(self).frames().last().kind,
                    children: old(self).frames().last().children.push(
                        Tree::Token { kind, text: token@.data },
                    ),
                },
            ),
            leaf_texts(old(self).leaves()).push(token@.data) == token_texts(old(self).consumed())
                ==> final(self).faithful(),
    {
        let ghost leaves = self.leaves();
        let ghost leaf = Leaf { kind, text: token@.data };
        let ghost text = self.builder.text();
        proof {
            crate::tree::lemma_leaf_text_concat(leaves, seq![leaf]);
            crate::tree::lemma_token_text(kind, token@.data);
            assert(leaves.push(leaf) =~= leaves + seq![leaf]);
            lemma_utf8_len_concat(text, token@.data);
        }
        let ghost frames = self.frames();
        self.builder.token(kind, token.data.as_str());
        proof {
            if frames_conform(frames) && kind.is_token() && frames.last().kind.admits(kind) {
                lemma_frames_conform_token(frames, kind, token@.data);
            }
            assert(self.frames().drop_last() =~= frames.drop_last());
            assert(frames.last().children.push(Tree::Token { kind, text: token@.data })
                =~= frames.last().children + seq![Tree::Token { kind, text: token@.data }]);
            assert(leaf_texts(leaves.push(leaf)) =~= leaf_texts(leaves).push(token@.data));
            assert(leaves.push(leaf).drop_last() =~= leaves);
        }
    }

    /// The input, the place in the stream and the limit are those of the
    /// state `before`.
    pub open spec fn same_place_but_tree(&self, before: &Parser) -> bool {
        &&& self.source() == before.source()
        &&& self.position() == before.position()
        &&& self.halted() == before.halted()
        &&& self.high() == before.high()
    }

    /// Create a parser error at the next token, push it to the list of
    /// errors and drop the token, so that parsing gets on. The trivia behind
    /// the token goes into the tree. The parser stays tidy unless the token
    /// is trivia. The end of the input is never dropped.
    pub fn err_and_pop(&mut self, message: &str)
        requires
            old(self).wf(),
            !old(self).at_end(),
        ensures
            old(self).tidy() && !old(self).next().kind.is_trivia() ==> final(self).tidy(),
            final(self).state() == old(self).state().err_and_pop(message@),
            final(self).wf(),
            final(self).faithful(),
            final(self).settled(),
            final(self).follows(old(self)),
            final(self).fuel() < old(self).fuel(),
            final(self).halted() == old(self).halted(),
            final(self).high() == old(self).high(),
            final(self).error_seq() == with_error(
                old(self).error_seq(),
                ErrorView {
                    message: message@,
                    data: old(self).next().data,
                    index: old(self).next().index,
                },
            ),
            final(self).error_seq().len() == old(self).error_seq().len() + 1,
            final(self).position() == skip_trivia(
                old(self).stream(),
                old(self).position() as int + 1,
            ),
            final(self).frames() == with_children(
                old(self).frames(),
                token_trees(
                    old(self).stream().subrange(
                        old(self).position() as int + 1,
                        final(self).position() as int,
                    ),
                ),
            ),
    {
        proof {
            reveal(ParserState::err_and_pop);
            self.lemma_wf();
        }
        let current = self.pop();
        self.bump_ignored();
        let err = Error::with_loc(message, current.data, current.index);
        self.push_err(err);
    }

    /// Consume the next token if it is of kind `token`, tagging it with
    /// `kind`; emit an error otherwise, and stay.
    ///
    /// Every tag is accepted. Where the next token is not of kind `token`,
    /// nothing enters the tree. Where it is, it enters the tree under the
    /// tag `kind`; the parser stays tidy if the tag is one that the token
    /// may carry and that the open node admits. The end of the input is
    /// never consumed, so it cannot be expected where it is the next token.
    pub fn expect(&mut self, token: TokenKind, kind: SyntaxKind)
        requires
            old(self).wf(),
            old(self).next_kind() == Some(token) ==> token != TokenKind::Eof,
        ensures
            final(self).state() == old(self).state().expect(token, kind),
            final(self).wf(),
            old(self).tidy() && (old(self).next_kind() == Some(token) ==> kind.fits(token)
                && kind.is_token() && old(self).top_kind().admits(kind)) ==> final(self).tidy(),
            final(self).settled() == (old(self).settled() || old(self).next_kind() == Some(token)),
            old(self).faithful() ==> final(self).faithful(),
            final(self).follows(old(self)),
            final(self).halted() == old(self).halted(),
            final(self).high() == old(self).high(),
            old(self).next_kind() == Some(token) ==> final(self).fuel() < old(self).fuel()
                && final(self).error_seq() == old(self).error_seq() && final(self).position()
                == skip_trivia(old(self).stream(), old(self).position() as int + 1)
                && final(self).frames() == with_children(
                old(self).frames(),
                seq![Tree::Token { kind, text: old(self).next().data }] + token_trees(
                    old(self).stream().subrange(
                        old(self).position() as int + 1,
                        final(self).position() as int,
                    ),
                ),
            ),
            old(self).next_kind() != Some(token) ==> final(self).same_place(old(self))
                && final(self).error_seq() == old(self).errors_with(
                ErrorView {
                    message: "expected "@ + kind.label() + ", got "@ + old(self).next().data,
                    data: old(self).next().data,
                    index: old(self).next().index,
                },
            ),
            final(self).error_seq().len() == old(self).error_seq().len() + (if old(self).halted()
                || old(self).next_kind() == Some(token) {
                0int
            } else {
                1int
            }),
            final(self).position() > old(self).position() <==> old(self).next_kind() == Some(
                token,
            ),
    {
        proof {
            reveal(ParserState::expect);
            reveal(ParserState::err);
        }
        if self.at(token) {
            self.bump(kind);
            return;
        }
        proof {
            self.lemma_wf();
        }
        let mut message = String::from_str("expected ");
        message.append(kind.name());
        message.append(", got ");
        message.append(self.tokens[self.pos].data.as_str());
        let data = self.tokens[self.pos].data.clone();
        let index = self.tokens[self.pos].index;
        let err = Error::with_loc(message.as_str(), data, index);
        self.push_err(err);
    }

    /// Start a node and make it the innermost open node; the trivia that
    /// comes next goes into it. The guard that is handed out closes it.
    /// Every kind is accepted; the parser stays tidy if the kind is that of
    /// a node and one that the open node admits.
    ///
    /// Where the node would be nested deeper than the limit accepts, the
    /// parser records that as an error and halts.
    pub fn start_node(&mut self, kind: SyntaxKind) -> (guard: NodeGuard)
        requires
            old(self).wf(),
        ensures
            old(self).tidy() && !kind.is_token() && old(self).top_kind().admits(kind)
                ==> final(self).tidy(),
            final(self).state() == old(self).state().start_node(kind),
            final(self).wf(),
            final(self).settled(),
            old(self).faithful() ==> final(self).faithful(),
            final(self).source() == old(self).source(),
            final(self).depth() == old(self).depth() + 1,
            final(self).outer() == old(self).frames(),
            final(self).top_kind() == kind,
            final(self).depth() >= 2,
            guard.depth() == final(self).depth(),
            final(self).fuel() <= old(self).fuel(),
            final(self).halted() == (old(self).halted() || old(self).depth() > RECURSION_LIMIT),
            old(self).settled() ==> final(self).position() == old(self).position(),
            final(self).halted() == old(self).halted() ==> final(self).error_seq() == old(
                self,
            ).error_seq(),
            final(self).halted() != old(self).halted() ==> final(self).error_seq() == with_error(
                old(self).error_seq(),
                ErrorView {
                    message: "parser recursion limit reached"@,
                    data: old(self).next().data,
                    index: old(self).next().index,
                },
            ),
            final(self).high() == (if old(self).depth() > old(self).high() {
                old(self).depth()
            } else {
                old(self).high()
            }),
            final(self).position() == (if final(self).halted() {
                old(self).position() as int
            } else {
                skip_trivia(old(self).stream(), old(self).position() as int)
            }),
            final(self).frames() == old(self).frames().push(
                FrameView {
                    kind,
                    children: token_trees(
                        old(self).stream().subrange(
                            old(self).position() as int,
                            final(self).position() as int,
                        ),
                    ),
                },
            ),
    {
        proof {
            reveal(ParserState::start_node);
            reveal(ParserState::err);
            reveal(ParserState::skip);
            self.lemma_wf();
        }
        let open = self.builder.depth();
        let ghost frames = self.frames();
        self.builder.start_node(kind);
        proof {
            assert(self.frames().drop_last() =~= frames);
            if frames_conform(frames) && !kind.is_token() && frames.last().kind.admits(kind) {
                let after = self.frames();
                assert forall|i: int| 0 <= i < after.len() implies !(
                #[trigger] after[i]).kind.is_token() && children_conform(
                    after[i].kind,
                    after[i].children,
                ) by {
                    if i < frames.len() {
                        assert(after[i] == frames[i]);
                    }
                }
                assert forall|i: int, j: int|
                    0 <= i < after.len() && j == i + 1 && j < after.len() implies (
                #[trigger] after[i]).kind.admits((#[trigger] after[j]).kind) by {
                    assert(after[i] == frames[i]);
                    if j < frames.len() {
                        assert(after[j] == frames[j]);
                    }
                }
            }
        }
        if open > RECURSION_LIMIT && !self.halted {
            self.err("parser recursion limit reached");
            self.halted = true;
        }
        if open > self.high {
            self.high = open;
        }
        let ghost opened = self.frames();
        let ghost start = self.position() as int;
        self.bump_ignored();
        proof {
            assert(opened == frames.push(FrameView { kind, children: Seq::empty() }));
            assert(opened.drop_last() =~= frames);
            let added = token_trees(self.stream().subrange(start, self.position() as int));
            assert(Seq::<Tree>::empty() + added =~= added);
            if self.halted() {
                assert(added =~= Seq::<Tree>::empty());
            }
        }
        NodeGuard::new(self.builder.depth())
    }
}

impl NodeGuard {
    /// The number of open nodes at the moment the guard was made.
    pub closed spec fn depth(&self) -> nat {
        self.depth as nat
    }

    /// A guard for the innermost of `depth` open nodes.
    pub fn new(depth: usize) -> (guard: NodeGuard)
        ensures
            guard.depth() == depth,
    {
        NodeGuard { depth }
    }

    /// Closes the node that the guard was made for.
    pub fn finish_node(self, p: &mut Parser)
        requires
            old(p).wf(),
            old(p).depth() == self.depth(),
            old(p).depth() >= 2,
        ensures
            final(p).state() == old(p).state().finish_node(),
            final(p).wf(),
            old(p).faithful() ==> final(p).faithful(),
            old(p).tidy() ==> final(p).tidy(),
            final(p).same_place_but_tree(old(p)),
            final(p).error_seq() == old(p).error_seq(),
            final(p).leaves() == old(p).leaves(),
            final(p).depth() == old(p).depth() - 1,
            final(p).outer() == old(p).outer().drop_last(),
            final(p).top_kind() == old(p).outer().last().kind,
            final(p).frames() == old(p).frames().drop_last().drop_last().push(
                FrameView {
                    kind: old(p).frames()[old(p).frames().len() - 2].kind,
                    children: old(p).frames()[old(p).frames().len() - 2].children.push(
                        Tree::Node {
                            kind: old(p).frames().last().kind,
                            children: old(p).frames().last().children,
                        },
                    ),
                },
            ),
    {
        proof {
            reveal(ParserState::finish_node);
        }
        let ghost frames = p.frames();
        p.builder.finish_node();
        proof {
            let after = p.frames();
            let n = frames.len() as int;
            let top = frames[n - 1];
            let below = frames[n - 2];
            let node = Tree::Node { kind: top.kind, children: top.children };
            assert(after.drop_last() =~= frames.drop_last().drop_last());
            if frames_conform(frames) {
                assert(node.conforms());
                assert(below.kind.admits(top.kind));
                assert forall|i: int| 0 <= i < after.len() implies !(
                #[trigger] after[i]).kind.is_token() && children_conform(
                    after[i].kind,
                    after[i].children,
                ) by {
                    if i < n - 2 {
                        assert(after[i] == frames[i]);
                    } else {
                        assert forall|j: int|
                            0 <= j < after[i].children.len() implies after[i].kind.admits(
                            (#[trigger] after[i].children[j]).kind(),
                        ) && after[i].children[j].conforms() by {
                            if j < below.children.len() {
                                assert(after[i].children[j] == below.children[j]);
                            }
                        }
                    }
                }
                assert forall|i: int, j: int|
                    0 <= i < after.len() && j == i + 1 && j < after.len() implies (
                #[trigger] after[i]).kind.admits((#[trigger] after[j]).kind) by {
                    assert(after[i] == frames[i]);
                    if j < n - 2 {
                        assert(after[j] == frames[j]);
                    } else {
                        assert(frames[i].kind.admits(frames[j].kind));
                    }
                }
            }
        }
    }
}

/// A token that the innermost open node admits keeps the open nodes in the
/// shape of the grammar.
proof fn lemma_frames_conform_token(frames: Seq<FrameView>, kind: SyntaxKind, text: Seq<char>)
    requires
        frames.len() >= 1,
        frames_conform(frames),
        kind.is_token(),
        frames.last().kind.admits(kind),
    ensures
        frames_conform(
            frames.drop_last().push(
                FrameView {
                    kind: frames.last().kind,
                    children: frames.last().children.push(Tree::Token { kind, text }),
                },
            ),
        ),
{
    let top = frames.last();
    let token = Tree::Token { kind, text };
    let after = frames.drop_last().push(
        FrameView { kind: top.kind, children: top.children.push(token) },
    );
    assert forall|i: int| 0 <= i < after.len() implies !(#[trigger] after[i]).kind.is_token()
        && children_conform(after[i].kind, after[i].children) by {
        if i < frames.len() - 1 {
            assert(after[i] == frames[i]);
        } else {
            assert forall|j: int| 0 <= j < after[i].children.len() implies after[i].kind.admits(
                (#[trigger] after[i].children[j]).kind(),
            ) && after[i].children[j].conforms() by {
                if j < top.children.len() {
                    assert(after[i].children[j] == top.children[j]);
                }
            }
        }
    }
    assert forall|i: int, j: int|
        0 <= i < after.len() && j == i + 1 && j < after.len() implies (
    #[trigger] after[i]).kind.admits((#[trigger] after[j]).kind) by {
        assert(after[i] == frames[i]);
        assert(after[j].kind == frames[j].kind);
    }
}

} // verus!
