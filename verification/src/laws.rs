//! Laws: what holds of every tree, and of every tree that the parser builds.
use vstd::prelude::*;
use crate::error::error_texts;
use crate::lexer::{lemma_lex_pieces, lemma_lex_tokens_text, lex_errors, lex_tokens};
use crate::seqs::{
    concat, is_subseq, lemma_concat_push, lemma_subseq_concat_len, lemma_subseq_concat_shorter,
    lemma_subseq_full, lemma_subseq_len,
};
use crate::syntax_kind::SyntaxKind;
use crate::token::token_texts;
use crate::tree::{leaf_texts, GreenNode, Tree};

verus! {

/// Round trip. Where the lexer meets no error in an input and a tree holds
/// as many tokens as the input has, each of them a token of the input and in
/// the order of the input, the text of the tree is the input.
///
/// `Parser::parse` builds trees whose tokens are tokens of the input in the
/// order of the input; it leaves out those that it had to drop to get on.
pub proof fn lemma_round_trip(source: Seq<char>, tree: Tree)
    requires
        lex_errors(source, 0).len() == 0,
        is_subseq(leaf_texts(tree.leaves()), token_texts(lex_tokens(source, 0).drop_last())),
        tree.leaves().len() == lex_tokens(source, 0).len() - 1,
    ensures
        tree.text() == source,
{
    let stream = lex_tokens(source, 0);
    crate::lexer::lemma_lex_tokens_stream(source, 0);
    lemma_subseq_full(leaf_texts(tree.leaves()), token_texts(stream.drop_last()));
    lemma_lex_tokens_text(source, 0);
    assert(source.skip(0) =~= source);
    assert(token_texts(stream) =~= token_texts(stream.drop_last()).push(stream.last().data));
    lemma_concat_push(token_texts(stream.drop_last()), stream.last().data);
    assert(concat(token_texts(stream.drop_last())) + Seq::<char>::empty() =~= concat(
        token_texts(stream.drop_last()),
    ));
}

/// Round trip, the other way. Where the text of a tree is the input, and
/// the tokens of the tree are tokens of the input in the order of the input,
/// the lexer met no error and the tree holds every token of the input. So
/// the round trip fails on exactly those inputs of which the lexer rejects a
/// part or the parser drops a token.
pub proof fn lemma_round_trip_only_if(source: Seq<char>, tree: Tree)
    requires
        is_subseq(leaf_texts(tree.leaves()), token_texts(lex_tokens(source, 0).drop_last())),
        tree.text() == source,
    ensures
        lex_errors(source, 0).len() == 0,
        tree.leaves().len() == lex_tokens(source, 0).len() - 1,
{
    let stream = lex_tokens(source, 0);
    let errors = lex_errors(source, 0);
    let kept = leaf_texts(tree.leaves());
    let all = token_texts(stream.drop_last());
    lemma_lex_pieces(source, 0);
    crate::lexer::lemma_lex_tokens_stream(source, 0);
    assert(token_texts(stream) =~= all.push(stream.last().data));
    lemma_concat_push(all, stream.last().data);
    lemma_subseq_concat_len(kept, all);
    lemma_subseq_len(kept, all);
    if errors.len() > 0 {
        let texts = error_texts(errors);
        assert(texts.last().len() >= 1);
        assert(concat(texts).len() >= 1);
    }
    if kept.len() < all.len() {
        assert forall|i: int| 0 <= i < all.len() implies (#[trigger] all[i]).len() >= 1 by {
            assert(all[i] == stream[i].data);
        }
        lemma_subseq_concat_shorter(kept, all);
    }
}

/// A step of a walk through a tree, in source order.
#[derive(Clone, Copy, PartialEq, Eq, Structural, Debug)]
pub enum WalkEvent {
    /// A node is entered.
    Enter(SyntaxKind),
    /// A token is passed.
    Token(SyntaxKind),
    /// A node is left.
    Leave(SyntaxKind),
}

/// The walk through a tree: every node is entered, then its children are
/// walked through in their order, then the node is left.
pub open spec fn walk(tree: Tree) -> Seq<WalkEvent>
    decreases tree,
{
    match tree {
        Tree::Token { kind, .. } => seq![WalkEvent::Token(kind)],
        Tree::Node { kind, children } => seq![WalkEvent::Enter(kind)] + forest_walk(children)
            + seq![WalkEvent::Leave(kind)],
    }
}

/// The walk through a sequence of trees, one after the other.
pub open spec fn forest_walk(trees: Seq<Tree>) -> Seq<WalkEvent>
    decreases trees,
{
    if trees.len() == 0 {
        Seq::empty()
    } else {
        forest_walk(trees.drop_last()) + walk(trees.last())
    }
}

/// The number of nodes that are open after a walk: those entered less those
/// left.
pub open spec fn depth_after(events: Seq<WalkEvent>) -> int
    decreases events.len(),
{
    if events.len() == 0 {
        0
    } else {
        depth_after(events.drop_last()) + match events.last() {
            WalkEvent::Enter(_) => 1int,
            WalkEvent::Token(_) => 0int,
            WalkEvent::Leave(_) => -1int,
        }
    }
}

/// Whether every node that a walk enters is left again, and none is left
/// that was not entered: the depth never falls below zero and is zero at the
/// end.
pub open spec fn balanced(events: Seq<WalkEvent>) -> bool {
    &&& depth_after(events) == 0
    &&& forall|k: int| 0 <= k <= events.len() ==> depth_after(#[trigger] events.take(k)) >= 0
}

proof fn lemma_depth_concat(a: Seq<WalkEvent>, b: Seq<WalkEvent>)
    ensures
        depth_after(a + b) == depth_after(a) + depth_after(b),
    decreases b.len(),
{
    if b.len() == 0 {
        assert(a + b =~= a);
    } else {
        assert((a + b).drop_last() =~= a + b.drop_last());
        lemma_depth_concat(a, b.drop_last());
    }
}

proof fn lemma_balanced_concat(a: Seq<WalkEvent>, b: Seq<WalkEvent>)
    requires
        balanced(a),
        balanced(b),
    ensures
        balanced(a + b),
{
    lemma_depth_concat(a, b);
    assert forall|k: int| 0 <= k <= (a + b).len() implies depth_after(
        #[trigger] (a + b).take(k),
    ) >= 0 by {
        if k <= a.len() {
            assert((a + b).take(k) =~= a.take(k));
        } else {
            assert((a + b).take(k) =~= a + b.take(k - a.len()));
            lemma_depth_concat(a, b.take(k - a.len()));
        }
    }
}

proof fn lemma_balanced_wrap(kind: SyntaxKind, inner: Seq<WalkEvent>)
    requires
        balanced(inner),
    ensures
        balanced(seq![WalkEvent::Enter(kind)] + inner + seq![WalkEvent::Leave(kind)]),
{
    let enter = seq![WalkEvent::Enter(kind)];
    let leave = seq![WalkEvent::Leave(kind)];
    let all = enter + inner + leave;
    assert(enter.drop_last() =~= Seq::<WalkEvent>::empty());
    assert(leave.drop_last() =~= Seq::<WalkEvent>::empty());
    assert(depth_after(enter) == 1) by {
        reveal_with_fuel(depth_after, 2);
    }
    assert(depth_after(leave) == -1) by {
        reveal_with_fuel(depth_after, 2);
    }
    lemma_depth_concat(enter, inner);
    lemma_depth_concat(enter + inner, leave);
    assert forall|k: int| 0 <= k <= all.len() implies depth_after(#[trigger] all.take(k)) >= 0 by {
        if k == 0 {
            assert(all.take(k) =~= Seq::<WalkEvent>::empty());
        } else if k <= 1 + inner.len() {
            assert(all.take(k) =~= enter + inner.take(k - 1));
            lemma_depth_concat(enter, inner.take(k - 1));
        } else {
            assert(all.take(k) =~= all);
        }
    }
}

/// Well-formed tree. In the walk through any tree every node that is
/// entered is left again: the depth never falls below zero and returns to
/// zero.
pub proof fn lemma_walk_balanced(tree: Tree)
    ensures
        balanced(walk(tree)),
    decreases tree,
{
    match tree {
        Tree::Token { kind, .. } => {
            let events = seq![WalkEvent::Token(kind)];
            assert(events.drop_last() =~= Seq::<WalkEvent>::empty());
            assert(depth_after(events) == 0) by {
                reveal_with_fuel(depth_after, 2);
            }
            assert forall|k: int| 0 <= k <= events.len() implies depth_after(
                #[trigger] events.take(k),
            ) >= 0 by {
                if k == 0 {
                    assert(events.take(k) =~= Seq::<WalkEvent>::empty());
                } else {
                    assert(events.take(k) =~= events);
                }
            }
        },
        Tree::Node { kind, children } => {
            lemma_forest_walk_balanced(children);
            lemma_balanced_wrap(kind, forest_walk(children));
        },
    }
}

/// The walk through a sequence of trees is balanced.
pub proof fn lemma_forest_walk_balanced(trees: Seq<Tree>)
    ensures
        balanced(forest_walk(trees)),
    decreases trees,
{
    if trees.len() == 0 {
        assert(forest_walk(trees).take(0) =~= forest_walk(trees));
    } else {
        lemma_forest_walk_balanced(trees.drop_last());
        lemma_walk_balanced(trees.last());
        lemma_balanced_concat(forest_walk(trees.drop_last()), walk(trees.last()));
    }
}

/// The walk through the node, in source order.
pub fn walk_of(node: &GreenNode) -> (events: Vec<WalkEvent>)
    ensures
        events@ == walk(node@),
        balanced(events@),
    decreases node@,
{
    let kind = node.kind();
    let mut events: Vec<WalkEvent> = Vec::new();
    events.push(WalkEvent::Enter(kind));
    let ghost children = node@.children();
    let mut i: usize = 0;
    proof {
        assert(children.take(0) =~= Seq::<Tree>::empty());
        assert(events@ =~= seq![WalkEvent::Enter(kind)] + forest_walk(children.take(0)));
    }
    while i < node.child_count()
        invariant
            i <= children.len(),
            children == node@.children(),
            events@ == seq![WalkEvent::Enter(kind)] + forest_walk(children.take(i as int)),
        decreases children.len() - i,
    {
        let ghost before = forest_walk(children.take(i as int));
        proof {
            assert(children.take(i + 1).drop_last() =~= children.take(i as int));
        }
        let child = node.child(i);
        match child.as_node() {
            Some(inner) => {
                let mut below = walk_of(inner);
                events.append(&mut below);
            },
            None => {
                events.push(WalkEvent::Token(child.kind()));
            },
        }
        proof {
            assert(events@ =~= seq![WalkEvent::Enter(kind)] + (before + walk(children[i as int])));
        }
        i = i + 1;
    }
    events.push(WalkEvent::Leave(kind));
    proof {
        assert(children.take(i as int) =~= children);
        assert(events@ =~= walk(node@));
        lemma_walk_balanced(node@);
    }
    events
}

} // verus!
