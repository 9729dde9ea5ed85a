//! The builder: a stack of unfinished nodes from which the parser assembles
//! the tree, bottom-up.
use vstd::prelude::*;
use crate::ast::Document;
use crate::error::{error_views, Error, ErrorView};
use crate::syntax::SyntaxNode;
use crate::syntax_kind::SyntaxKind;
use crate::text::{lemma_utf8_len_concat, utf8_len};
use crate::tree::{
    child_views, forest_leaves, forest_text, leaf_text, lemma_forest_leaves_push,
    lemma_leaf_text_concat, lemma_node_text, lemma_token_text, GreenChild, GreenNode, Leaf, Tree,
};

verus! {

/// An unfinished node seen as a value: its kind and the children it has so
/// far.
pub struct FrameView {
    pub kind: SyntaxKind,
    pub children: Seq<Tree>,
}

struct Frame {
    kind: SyntaxKind,
    children: Vec<GreenChild>,
    text_len: usize,
}

impl Frame {
    spec fn view(&self) -> FrameView {
        FrameView { kind: self.kind, children: child_views(self.children@) }
    }

    spec fn wf(&self) -> bool {
        &&& self.text_len == utf8_len(forest_text(child_views(self.children@)))
        &&& forall|i: int| 0 <= i < self.children@.len() ==> (#[trigger] self.children@[i]).wf()
    }
}

/// The tokens in a stack of unfinished nodes, in source order: those of the
/// outermost node come first.
pub open spec fn frames_leaves(frames: Seq<FrameView>) -> Seq<Leaf>
    decreases frames.len(),
{
    if frames.len() == 0 {
        Seq::empty()
    } else {
        frames_leaves(frames.drop_last()) + forest_leaves(frames.last().children)
    }
}

/// How often the recursion limit let the parser go deeper, and how deep it
/// went.
#[derive(Clone, Copy, Debug, PartialEq, Eq, Structural)]
pub struct LimitTracker {
    /// The deepest nesting that was reached.
    pub high: usize,
    /// The deepest nesting that is accepted.
    pub limit: usize,
}

impl LimitTracker {
    /// Whether the input was nested deeper than the limit accepts.
    pub open spec fn exceeded(self) -> bool {
        self.high > self.limit
    }

    /// Whether the input was nested deeper than the limit accepts.
    pub fn limited(&self) -> (r: bool)
        ensures
            r == self.exceeded(),
    {
        self.high > self.limit
    }
}

/// The result of parsing: the tree, whose root is always a document, the
/// errors that were met, in source order, and the use made of the recursion
/// limit.
#[derive(Debug)]
pub struct SyntaxTree {
    root: GreenNode,
    errors: Vec<Error>,
    recursion: LimitTracker,
}

impl SyntaxTree {
    /// The tree as a value.
    pub closed spec fn tree(&self) -> Tree {
        self.root@
    }

    /// The errors as values.
    pub closed spec fn error_seq(&self) -> Seq<ErrorView> {
        error_views(self.errors@)
    }

    /// The use made of the recursion limit.
    pub closed spec fn recursion(&self) -> LimitTracker {
        self.recursion
    }

    /// The root is a document, and every node knows the length of its text.
    pub closed spec fn wf(&self) -> bool {
        &&& self.root.wf()
        &&& self.root@ is Node
        &&& self.root@.kind() == SyntaxKind::DOCUMENT
    }

    /// The root of a well-formed tree is a document.
    pub proof fn lemma_wf(&self)
        requires
            self.wf(),
        ensures
            self.tree() is Node,
            self.tree().kind() == SyntaxKind::DOCUMENT,
    {
    }

    /// The root of the tree.
    pub fn root(&self) -> (n: &GreenNode)
        ensures
            n@ == self.tree(),
            self.wf() ==> n.wf(),
    {
        &self.root
    }

    /// The document: the typed view of the root.
    pub fn document(&self) -> (d: Document<'_>)
        requires
            self.wf(),
        ensures
            d.wf(),
            d.syntax.root_tree() == self.tree(),
            d.syntax.tree() == self.tree(),
            d.syntax.path() == Seq::<int>::empty(),
            d.syntax.offset() == 0,
    {
        Document { syntax: SyntaxNode::new_root(&self.root) }
    }

    /// The errors that were met, in source order.
    pub fn errors(&self) -> (errors: &Vec<Error>)
        ensures
            error_views(errors@) == self.error_seq(),
    {
        &self.errors
    }

    /// The use made of the recursion limit.
    pub fn recursion_limit(&self) -> (r: LimitTracker)
        ensures
            r == self.recursion(),
    {
        self.recursion
    }
}

/// Builds a tree from calls in source order: `start_node` opens a node,
/// `token` adds a token to the innermost open node, `finish_node` closes that
/// node and makes it a child of the one around it. The outermost node, the
/// document, is open from the start and is closed by `finish`.
pub struct SyntaxTreeBuilder {
    frames: Vec<Frame>,
}

impl View for SyntaxTreeBuilder {
    type V = Seq<FrameView>;

    closed spec fn view(&self) -> Seq<FrameView> {
        Seq::new(self.frames@.len(), |i: int| self.frames@[i].view())
    }
}

impl SyntaxTreeBuilder {
    /// The document is open, every open node knows the length of its text,
    /// and the text of the whole is no longer than an input can be.
    pub closed spec fn wf(&self) -> bool {
        &&& self.frames@.len() >= 1
        &&& self.frames@[0].kind == SyntaxKind::DOCUMENT
        &&& forall|i: int| 0 <= i < self.frames@.len() ==> (#[trigger] self.frames@[i]).wf()
        &&& utf8_len(self.text()) <= usize::MAX
    }

    /// The tokens added so far, in source order.
    pub open spec fn leaves(&self) -> Seq<Leaf> {
        frames_leaves(self@)
    }

    /// The text added so far.
    pub open spec fn text(&self) -> Seq<char> {
        leaf_text(self.leaves())
    }

    /// In a well-formed builder the document is open.
    pub proof fn lemma_wf(&self)
        requires
            self.wf(),
        ensures
            self@.len() >= 1,
            self@[0].kind == SyntaxKind::DOCUMENT,
    {
    }

    /// A builder in which only the document is open.
    pub fn new() -> (b: SyntaxTreeBuilder)
        ensures
            b.wf(),
            b@ == seq![FrameView { kind: SyntaxKind::DOCUMENT, children: Seq::empty() }],
            b.leaves() == Seq::<Leaf>::empty(),
    {
        let mut frames: Vec<Frame> = Vec::new();
        frames.push(Frame { kind: SyntaxKind::DOCUMENT, children: Vec::new(), text_len: 0 });
        let b = SyntaxTreeBuilder { frames };
        proof {
            let root = FrameView { kind: SyntaxKind::DOCUMENT, children: Seq::<Tree>::empty() };
            assert(child_views(b.frames@[0].children@) =~= Seq::<Tree>::empty());
            assert(b@ =~= seq![root]);
            assert(b@.drop_last() =~= Seq::<FrameView>::empty());
            assert(frames_leaves(b@) =~= Seq::<Leaf>::empty()) by {
                reveal_with_fuel(frames_leaves, 2);
            }
            assert(leaf_text(Seq::<Leaf>::empty()) =~= Seq::<char>::empty());
            assert(utf8_len(Seq::<char>::empty()) == 0) by {
                reveal_with_fuel(vstd::utf8::encode_utf8, 1);
            }
        }
        b
    }

    /// The number of open nodes, the document included.
    pub fn depth(&self) -> (d: usize)
        ensures
            d == self@.len(),
    {
        self.frames.len()
    }

    /// Opens a node of kind `kind` inside the innermost open node.
    pub fn start_node(&mut self, kind: SyntaxKind)
        requires
            old(self).wf(),
        ensures
            final(self).wf(),
            final(self)@ == old(self)@.push(FrameView { kind, children: Seq::empty() }),
            final(self).leaves() == old(self).leaves(),
    {
        self.frames.push(Frame { kind, children: Vec::new(), text_len: 0 });
        proof {
            let added = FrameView { kind, children: Seq::<Tree>::empty() };
            assert(child_views(self.frames@.last().children@) =~= Seq::<Tree>::empty());
            assert(self@ =~= old(self)@.push(added));
            assert(self@.drop_last() =~= old(self)@);
            assert(frames_leaves(self@) =~= frames_leaves(old(self)@));
            assert(leaf_text(Seq::<Leaf>::empty()) =~= Seq::<char>::empty());
            assert(utf8_len(Seq::<char>::empty()) == 0) by {
                reveal_with_fuel(vstd::utf8::encode_utf8, 1);
            }
        }
    }

    /// Adds a token of kind `kind` with the text `text` to the innermost
    /// open node.
    pub fn token(&mut self, kind: SyntaxKind, text: &str)
        requires
            old(self).wf(),
            utf8_len(old(self).text()) + utf8_len(text@) <= usize::MAX,
        ensures
            final(self).wf(),
            final(self)@ == old(self)@.drop_last().push(
                FrameView {
                    kind: old(self)@.last().kind,
                    children: old(self)@.last().children.push(Tree::Token { kind, text: text@ }),
                },
            ),
            final(self).leaves() == old(self).leaves().push(Leaf { kind, text: text@ }),
    {
        let ghost before = self@;
        let bytes = text.as_bytes().len();
        let mut top = self.frames.pop().unwrap();
        let ghost old_top = top.view();
        let ghost leaf = Leaf { kind, text: text@ };
        let ghost added = Tree::Token { kind, text: text@ };
        assert(old_top == before.last());
        proof {
            lemma_token_text(kind, text@);
            lemma_forest_leaves_push(old_top.children, added);
            lemma_leaf_text_concat(
                frames_leaves(before.drop_last()),
                forest_leaves(old_top.children),
            );
            lemma_leaf_text_concat(frames_leaves(before), seq![leaf]);
            lemma_utf8_len_concat(
                leaf_text(frames_leaves(before.drop_last())),
                forest_text(old_top.children),
            );
            lemma_utf8_len_concat(forest_text(old_top.children), text@);
            lemma_utf8_len_concat(leaf_text(frames_leaves(before)), text@);
        }
        let ghost old_children = top.children@;
        top.children.push(GreenChild::token(kind, text));
        top.text_len = top.text_len + bytes;
        proof {
            assert(child_views(top.children@) =~= child_views(old_children).push(added));
            assert forall|i: int| 0 <= i < top.children@.len() implies (
            #[trigger] top.children@[i]).wf() by {
                if i < old_children.len() {
                    assert(top.children@[i] == old_children[i]);
                }
            }
        }
        self.frames.push(top);
        proof {
            let new_top = FrameView { kind: old_top.kind, children: old_top.children.push(added) };
            assert(self@ =~= before.drop_last().push(new_top));
            assert(self@.drop_last() =~= before.drop_last());
            assert(frames_leaves(self@) =~= frames_leaves(before).push(leaf));
            assert(frames_leaves(before).push(leaf) =~= frames_leaves(before) + seq![leaf]);
            assert forall|i: int| 0 <= i < self.frames@.len() implies (
            #[trigger] self.frames@[i]).wf() by {
                if i < self.frames@.len() - 1 {
                    assert(self.frames@[i] == old(self).frames@[i]);
                }
            }
        }
    }

    /// Closes the innermost open node and makes it the last child of the
    /// node around it. The document is closed by `finish` alone.
    pub fn finish_node(&mut self)
        requires
            old(self).wf(),
            old(self)@.len() >= 2,
        ensures
            final(self).wf(),
            final(self)@ == old(self)@.drop_last().drop_last().push(
                FrameView {
                    kind: old(self)@[old(self)@.len() - 2].kind,
                    children: old(self)@[old(self)@.len() - 2].children.push(
                        Tree::Node {
                            kind: old(self)@.last().kind,
                            children: old(self)@.last().children,
                        },
                    ),
                },
            ),
            final(self).leaves() == old(self).leaves(),
    {
        let ghost before = self@;
        let top = self.frames.pop().unwrap();
        let mut below = self.frames.pop().unwrap();
        let ghost top_view = top.view();
        let ghost below_view = below.view();
        let ghost rest = before.drop_last().drop_last();
        let ghost node = Tree::Node { kind: top_view.kind, children: top_view.children };
        assert(top_view == before.last());
        assert(below_view == before[before.len() - 2]);
        proof {
            assert(before.drop_last().last() == below_view);
            lemma_node_text(top_view.kind, top_view.children);
            lemma_forest_leaves_push(below_view.children, node);
            let a = frames_leaves(rest);
            let b = forest_leaves(below_view.children);
            let c = forest_leaves(top_view.children);
            assert(before.drop_last().drop_last() == rest);
            assert(frames_leaves(before.drop_last()) == a + b);
            assert(frames_leaves(before) == frames_leaves(before.drop_last()) + c);
            lemma_leaf_text_concat(a + b, c);
            lemma_leaf_text_concat(a, b);
            lemma_utf8_len_concat(leaf_text(a + b), leaf_text(c));
            lemma_utf8_len_concat(leaf_text(a), leaf_text(b));
            lemma_utf8_len_concat(leaf_text(b), leaf_text(c));
        }
        let ghost old_children = below.children@;
        let text_len = top.text_len;
        let finished = GreenNode::new(top.kind, top.children, text_len);
        below.children.push(GreenChild::node(finished));
        below.text_len = below.text_len + text_len;
        proof {
            assert(child_views(below.children@) =~= child_views(old_children).push(node));
            assert forall|i: int| 0 <= i < below.children@.len() implies (
            #[trigger] below.children@[i]).wf() by {
                if i < old_children.len() {
                    assert(below.children@[i] == old_children[i]);
                }
            }
        }
        self.frames.push(below);
        proof {
            let merged = FrameView {
                kind: below_view.kind,
                children: below_view.children.push(node),
            };
            assert(self@ =~= rest.push(merged));
            assert(self@.drop_last() =~= rest);
            assert(frames_leaves(self@) =~= frames_leaves(before));
            assert forall|i: int| 0 <= i < self.frames@.len() implies (
            #[trigger] self.frames@[i]).wf() by {
                if i < self.frames@.len() - 1 {
                    assert(self.frames@[i] == old(self).frames@[i]);
                }
            }
        }
    }

    /// Closes the document and hands out the tree with the errors that were
    /// met on the way.
    pub fn finish(self, errors: Vec<Error>, recursion: LimitTracker) -> (tree: SyntaxTree)
        requires
            self.wf(),
            self@.len() == 1,
        ensures
            tree.wf(),
            tree.tree() == (Tree::Node { kind: self@[0].kind, children: self@[0].children }),
            tree.tree().leaves() == self.leaves(),
            tree.error_seq() == error_views(errors@),
            tree.recursion() == recursion,
    {
        let mut frames = self.frames;
        let ghost view = self@;
        let root = frames.pop().unwrap();
        proof {
            assert(root.view() == view[0]);
            lemma_node_text(root.kind, root.view().children);
            assert(view.drop_last() =~= Seq::<FrameView>::empty());
            assert(frames_leaves(view) =~= forest_leaves(view[0].children)) by {
                reveal_with_fuel(frames_leaves, 2);
            }
        }
        let node = GreenNode::new(root.kind, root.children, root.text_len);
        SyntaxTree { root: node, errors, recursion }
    }
}

} // verus!
