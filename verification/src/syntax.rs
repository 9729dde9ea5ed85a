//! Navigation: handles on the elements of a tree that know where they
//! stand, by their path from the root, and where their text starts.
use vstd::prelude::*;
use crate::syntax_kind::{KindSet, SyntaxKind};
use crate::text::{lemma_utf8_len_concat, utf8_len};
use crate::tree::{
    forest_leaves, forest_text, index_in, lemma_forest_leaves_concat, lemma_forest_leaves_push,
    lemma_leaf_text_concat, lemma_node_text, member_indices, node_indices, nth_in, GreenNode,
    GreenToken, Tree,
};

verus! {

/// A path as a sequence of child indices, the one nearest to the root first.
pub open spec fn path_view(path: Seq<usize>) -> Seq<int> {
    Seq::new(path.len(), |i: int| path[i] as int)
}

/// The element that `path` leads to from `root`, if it leads anywhere.
pub open spec fn element_at(root: Tree, path: Seq<int>) -> Option<Tree>
    decreases path.len(),
{
    if path.len() == 0 {
        Some(root)
    } else {
        match element_at(root, path.drop_last()) {
            Some(parent) => if 0 <= path.last() < parent.children().len() {
                Some(parent.children()[path.last()])
            } else {
                None
            },
            None => None,
        }
    }
}

/// The number of bytes that the children of `parent` before the `i`-th take.
pub open spec fn bytes_before(parent: Tree, i: int) -> nat {
    utf8_len(forest_text(parent.children().take(i)))
}

/// The byte offset, counted from the start of the text of `root`, at which
/// the text of the element starts that `path` leads to.
///
/// Offsets count bytes of the text of the tree. A tree holds the text of
/// the tokens that are in it, so its offsets are offsets in the input that
/// it was parsed from exactly where its text is that input, which
/// `Parser::parse` ensures where nothing was left out; text that was left
/// out moves everything behind it forward. `lemma_range_holds_text` says
/// what stands at an offset.
pub open spec fn offset_at(root: Tree, path: Seq<int>) -> nat
    decreases path.len(),
{
    if path.len() == 0 {
        0
    } else {
        match element_at(root, path.drop_last()) {
            Some(parent) => offset_at(root, path.drop_last()) + bytes_before(parent, path.last()),
            None => 0,
        }
    }
}

/// The text of `root` that stands before the element that `path` leads to.
pub open spec fn text_before(root: Tree, path: Seq<int>) -> Seq<char>
    decreases path.len(),
{
    if path.len() == 0 {
        Seq::empty()
    } else {
        match element_at(root, path.drop_last()) {
            Some(parent) => text_before(root, path.drop_last()) + forest_text(
                parent.children().take(path.last()),
            ),
            None => Seq::empty(),
        }
    }
}

/// The text of `root` that stands behind the element that `path` leads to.
pub open spec fn text_behind(root: Tree, path: Seq<int>) -> Seq<char>
    decreases path.len(),
{
    if path.len() == 0 {
        Seq::empty()
    } else {
        match element_at(root, path.drop_last()) {
            Some(parent) => forest_text(parent.children().skip(path.last() + 1)) + text_behind(
                root,
                path.drop_last(),
            ),
            None => Seq::empty(),
        }
    }
}

/// The text of some children is the text before one of them, the text of
/// that one and the text behind it.
pub proof fn lemma_forest_text_split(children: Seq<Tree>, i: int)
    requires
        0 <= i < children.len(),
    ensures
        forest_text(children) == forest_text(children.take(i)) + children[i].text() + forest_text(
            children.skip(i + 1),
        ),
{
    assert(children.take(i + 1) =~= children.take(i).push(children[i]));
    lemma_forest_leaves_push(children.take(i), children[i]);
    assert(children =~= children.take(i + 1) + children.skip(i + 1));
    lemma_forest_leaves_concat(children.take(i + 1), children.skip(i + 1));
    lemma_leaf_text_concat(
        forest_leaves(children.take(i + 1)),
        forest_leaves(children.skip(i + 1)),
    );
}

/// What a range says. The text of a tree is the text before an element,
/// the text of the element and the text behind it, and the offset of the
/// element is the number of bytes that the text before it takes. So the
/// bytes of the tree's text from the offset of an element on, as many as
/// the text of the element takes, are the text of the element; and where
/// the text of the tree is the input, they are those bytes of the input.
pub proof fn lemma_range_holds_text(root: Tree, path: Seq<int>)
    requires
        element_at(root, path).is_some(),
    ensures
        root.text() == text_before(root, path) + element_at(root, path).unwrap().text()
            + text_behind(root, path),
        offset_at(root, path) == utf8_len(text_before(root, path)),
    decreases path.len(),
{
    if path.len() == 0 {
        assert(root.text() =~= Seq::<char>::empty() + root.text() + Seq::<char>::empty());
        assert(utf8_len(Seq::<char>::empty()) == 0) by {
            reveal_with_fuel(vstd::utf8::encode_utf8, 1);
        }
    } else {
        let up = path.drop_last();
        let k = path.last();
        let parent = element_at(root, up).unwrap();
        let children = parent.children();
        lemma_range_holds_text(root, up);
        assert(parent is Node);
        lemma_node_text(parent.kind(), children);
        lemma_forest_text_split(children, k);
        lemma_utf8_len_concat(text_before(root, up), forest_text(children.take(k)));
        assert(root.text() =~= (text_before(root, up) + forest_text(children.take(k)))
            + children[k].text() + (forest_text(children.skip(k + 1)) + text_behind(root, up)));
    }
}

/// The text before a child and the text of the child lie in the text of all
/// the children.
pub proof fn lemma_child_within(children: Seq<Tree>, i: int)
    requires
        0 <= i < children.len(),
    ensures
        utf8_len(forest_text(children.take(i + 1))) == utf8_len(forest_text(children.take(i)))
            + utf8_len(children[i].text()),
        utf8_len(forest_text(children.take(i + 1))) <= utf8_len(forest_text(children)),
{
    assert(children.take(i + 1) =~= children.take(i).push(children[i]));
    lemma_forest_leaves_push(children.take(i), children[i]);
    lemma_utf8_len_concat(forest_text(children.take(i)), children[i].text());
    assert(children =~= children.take(i + 1) + children.skip(i + 1));
    lemma_forest_leaves_concat(children.take(i + 1), children.skip(i + 1));
    lemma_leaf_text_concat(
        forest_leaves(children.take(i + 1)),
        forest_leaves(children.skip(i + 1)),
    );
    lemma_utf8_len_concat(
        forest_text(children.take(i + 1)),
        forest_text(children.skip(i + 1)),
    );
}

/// A path that leads somewhere leads somewhere at every step.
pub proof fn lemma_element_prefix(root: Tree, path: Seq<int>, k: int)
    requires
        element_at(root, path).is_some(),
        0 <= k <= path.len(),
    ensures
        element_at(root, path.take(k)).is_some(),
    decreases path.len() - k,
{
    if k == path.len() {
        assert(path.take(k) =~= path);
    } else {
        lemma_element_prefix(root, path, k + 1);
        assert(path.take(k + 1).drop_last() =~= path.take(k));
    }
}

/// A copy of a path.
fn copy_path(path: &Vec<usize>) -> (r: Vec<usize>)
    ensures
        r@ == path@,
{
    let mut out: Vec<usize> = Vec::new();
    let mut i: usize = 0;
    while i < path.len()
        invariant
            i <= path@.len(),
            out@ == path@.take(i as int),
        decreases path@.len() - i,
    {
        out.push(path[i]);
        proof {
            assert(path@.take(i + 1) =~= path@.take(i as int).push(path@[i as int]));
        }
        i = i + 1;
    }
    proof {
        assert(path@.take(i as int) =~= path@);
    }
    out
}

/// The number of bytes that the children of `node` before the `i`-th take.
fn offset_of_child(node: &GreenNode, i: usize) -> (r: usize)
    requires
        node.wf(),
        i <= node@.children().len(),
    ensures
        r == bytes_before(node@, i as int),
{
    let total = node.text_len();
    let kind = node.kind();
    let ghost children = node@.children();
    proof {
        lemma_node_text(kind, children);
        assert(children.take(0) =~= Seq::<Tree>::empty());
        assert(forest_leaves(Seq::<Tree>::empty()) =~= Seq::empty());
        assert(crate::tree::leaf_texts(Seq::empty()) =~= Seq::<Seq<char>>::empty());
        assert(utf8_len(Seq::<char>::empty()) == 0) by {
            reveal_with_fuel(vstd::utf8::encode_utf8, 1);
        }
    }
    let mut sum: usize = 0;
    let mut j: usize = 0;
    while j < i
        invariant
            j <= i <= children.len(),
            children == node@.children(),
            node.wf(),
            total == utf8_len(forest_text(children)),
            sum == utf8_len(forest_text(children.take(j as int))),
        decreases i - j,
    {
        proof {
            lemma_child_within(children, j as int);
        }
        sum = sum + node.child(j).text_len();
        j = j + 1;
    }
    sum
}

/// A handle on a node of a tree.
#[derive(Debug)]
pub struct SyntaxNode<'a> {
    root: &'a GreenNode,
    path: Vec<usize>,
    green: &'a GreenNode,
    offset: usize,
}

/// A handle on a token of a tree.
#[derive(Debug)]
pub struct SyntaxToken<'a> {
    root: &'a GreenNode,
    path: Vec<usize>,
    green: &'a GreenToken,
    offset: usize,
}

/// A handle on an element of a tree: a node or a token.
#[derive(Debug)]
pub enum SyntaxElement<'a> {
    Node(SyntaxNode<'a>),
    Token(SyntaxToken<'a>),
}

impl<'a> SyntaxToken<'a> {
    /// The tree the token stands in.
    pub closed spec fn root_tree(&self) -> Tree {
        self.root@
    }

    /// The path from the root to the token.
    pub closed spec fn path(&self) -> Seq<int> {
        path_view(self.path@)
    }

    /// The token as a value.
    pub closed spec fn tree(&self) -> Tree {
        self.green@
    }

    /// The byte offset at which the text of the token starts, counted in
    /// the text of the tree.
    pub closed spec fn offset(&self) -> nat {
        self.offset as nat
    }

    /// The handle points at a token of its tree and knows where the text of
    /// that token starts.
    pub closed spec fn wf(&self) -> bool {
        &&& self.root.wf()
        &&& self.green@ is Token
        &&& element_at(self.root@, self.path()) == Some(self.green@)
        &&& self.offset == offset_at(self.root@, self.path())
        &&& self.offset + utf8_len(self.green@.text()) <= utf8_len(self.root@.text())
    }

    /// What a well-formed handle is known to hold.
    pub proof fn lemma_wf(&self)
        requires
            self.wf(),
        ensures
            self.tree() is Token,
            element_at(self.root_tree(), self.path()) == Some(self.tree()),
            self.offset() == offset_at(self.root_tree(), self.path()),
            self.offset() + utf8_len(self.tree().text()) <= utf8_len(self.root_tree().text()),
    {
    }

    /// The kind of the token.
    pub fn kind(&self) -> (k: SyntaxKind)
        ensures
            k == self.tree().kind(),
    {
        self.green.kind()
    }

    /// The text of the token.
    pub fn text(&self) -> (s: &'a str)
        ensures
            s@ == self.tree().text(),
    {
        self.green.text()
    }

    /// The byte offsets at which the text of the token starts and ends,
    /// counted in the text of the tree. They are offsets in the input where
    /// the text of the tree is the input; where text was left out of the
    /// tree, what stands behind it has a smaller offset in the tree than in
    /// the input.
    pub fn text_range(&self) -> (r: (usize, usize))
        requires
            self.wf(),
        ensures
            r.0 == self.offset(),
            r.1 == self.offset() + utf8_len(self.tree().text()),
            r.0 <= r.1 <= utf8_len(self.root_tree().text()),
    {
        let total = self.root.text_len();
        (self.offset, self.offset + self.green.text_len())
    }
}

impl<'a> SyntaxNode<'a> {
    /// The tree the node stands in.
    pub closed spec fn root_tree(&self) -> Tree {
        self.root@
    }

    /// The path from the root to the node.
    pub closed spec fn path(&self) -> Seq<int> {
        path_view(self.path@)
    }

    /// The node as a value.
    pub closed spec fn tree(&self) -> Tree {
        self.green@
    }

    /// The byte offset at which the text of the node starts, counted in the
    /// text of the tree.
    pub closed spec fn offset(&self) -> nat {
        self.offset as nat
    }

    /// The handle points at a node of its tree and knows where the text of
    /// that node starts.
    pub closed spec fn wf(&self) -> bool {
        &&& self.root.wf()
        &&& self.green.wf()
        &&& self.green@ is Node
        &&& element_at(self.root@, self.path()) == Some(self.green@)
        &&& self.offset == offset_at(self.root@, self.path())
        &&& self.offset + utf8_len(self.green@.text()) <= utf8_len(self.root@.text())
    }

    /// What a well-formed handle is known to hold.
    pub proof fn lemma_wf(&self)
        requires
            self.wf(),
        ensures
            self.tree() is Node,
            element_at(self.root_tree(), self.path()) == Some(self.tree()),
            self.offset() == offset_at(self.root_tree(), self.path()),
            self.offset() + utf8_len(self.tree().text()) <= utf8_len(self.root_tree().text()),
    {
    }

    /// A handle on the root of a tree.
    pub fn new_root(root: &'a GreenNode) -> (n: SyntaxNode<'a>)
        requires
            root.wf(),
        ensures
            n.wf(),
            n.root_tree() == root@,
            n.tree() == root@,
            n.path() == Seq::<int>::empty(),
            n.offset() == 0,
    {
        let kind = root.kind();
        let n = SyntaxNode { root, path: Vec::new(), green: root, offset: 0 };
        proof {
            assert(n.path() =~= Seq::<int>::empty());
        }
        n
    }

    /// The node itself.
    pub fn green(&self) -> (g: &'a GreenNode)
        ensures
            g@ == self.tree(),
            self.wf() ==> g.wf(),
    {
        self.green
    }

    /// The kind of the node.
    pub fn kind(&self) -> (k: SyntaxKind)
        ensures
            k == self.tree().kind(),
    {
        self.green.kind()
    }

    /// The text the node covers.
    pub fn text(&self) -> (s: String)
        ensures
            s@ == self.tree().text(),
    {
        self.green.text()
    }

    /// The byte offsets at which the text of the node starts and ends,
    /// counted in the text of the tree. They are offsets in the input where
    /// the text of the tree is the input; where text was left out of the
    /// tree, what stands behind it has a smaller offset in the tree than in
    /// the input.
    pub fn text_range(&self) -> (r: (usize, usize))
        requires
            self.wf(),
        ensures
            r.0 == self.offset(),
            r.1 == self.offset() + utf8_len(self.tree().text()),
            r.0 <= r.1 <= utf8_len(self.root_tree().text()),
    {
        let total = self.root.text_len();
        (self.offset, self.offset + self.green.text_len())
    }

    /// The index of the node among the children of its parent; none for the
    /// root.
    pub fn index_in_parent(&self) -> (r: Option<usize>)
        ensures
            r.is_some() == (self.path().len() > 0),
            r matches Some(i) ==> i == self.path().last(),
    {
        if self.path.len() == 0 {
            None
        } else {
            Some(self.path[self.path.len() - 1])
        }
    }

    /// Whether two handles stand at the same place: whether the paths from
    /// their roots are the same. Handles on one tree that stand at the same
    /// place are handles on the same node. Whether two handles are handles
    /// on one tree is not looked at.
    pub fn same_place(&self, other: &SyntaxNode<'a>) -> (r: bool)
        ensures
            r == (self.path() == other.path()),
            r && self.wf() && other.wf() && self.root_tree() == other.root_tree() ==> self.tree()
                == other.tree() && self.offset() == other.offset(),
    {
        if self.path.len() != other.path.len() {
            proof {
                assert(self.path().len() != other.path().len());
            }
            return false;
        }
        let mut i: usize = 0;
        while i < self.path.len()
            invariant
                i <= self.path@.len(),
                self.path@.len() == other.path@.len(),
                forall|j: int| 0 <= j < i ==> self.path@[j] == other.path@[j],
            decreases self.path@.len() - i,
        {
            if self.path[i] != other.path[i] {
                proof {
                    assert(self.path()[i as int] != other.path()[i as int]);
                }
                return false;
            }
            i = i + 1;
        }
        proof {
            assert(self.path() =~= other.path());
        }
        true
    }

    /// The handle on the child with index `i`.
    pub fn child(&self, i: usize) -> (r: SyntaxElement<'a>)
        requires
            self.wf(),
            i < self.tree().children().len(),
        ensures
            r.wf(),
            r.root_tree() == self.root_tree(),
            r.path() == self.path().push(i as int),
            r.tree() == self.tree().children()[i as int],
    {
        let before = offset_of_child(self.green, i);
        self.child_behind(i, before)
    }

    /// The handle on the child with index `i`, before which the children
    /// take `before` bytes.
    fn child_behind(&self, i: usize, before: usize) -> (r: SyntaxElement<'a>)
        requires
            self.wf(),
            i < self.tree().children().len(),
            before == bytes_before(self.tree(), i as int),
        ensures
            r.wf(),
            r.root_tree() == self.root_tree(),
            r.path() == self.path().push(i as int),
            r.tree() == self.tree().children()[i as int],
            before + utf8_len(r.tree().text()) == bytes_before(self.tree(), i + 1),
            before + utf8_len(r.tree().text()) <= usize::MAX,
    {
        let kind = self.green.kind();
        let total = self.root.text_len();
        let child = self.green.child(i);
        let ghost children = self.green@.children();
        proof {
            lemma_node_text(kind, children);
            lemma_child_within(children, i as int);
        }
        let mut path = copy_path(&self.path);
        path.push(i);
        proof {
            assert(path_view(path@) =~= self.path().push(i as int));
            assert(self.path().push(i as int).drop_last() =~= self.path());
        }
        match child.as_node() {
            Some(node) => SyntaxElement::Node(
                SyntaxNode { root: self.root, path, green: node, offset: self.offset + before },
            ),
            None => {
                let token = child.as_token().unwrap();
                SyntaxElement::Token(
                    SyntaxToken {
                        root: self.root,
                        path,
                        green: token,
                        offset: self.offset + before,
                    },
                )
            },
        }
    }

    /// The handles on the children, in their order.
    pub fn children(&self) -> (r: Vec<SyntaxElement<'a>>)
        requires
            self.wf(),
        ensures
            r@.len() == self.tree().children().len(),
            forall|i: int|
                0 <= i < r@.len() ==> (#[trigger] r@[i]).wf() && r@[i].root_tree()
                    == self.root_tree() && r@[i].path() == self.path().push(i) && r@[i].tree()
                    == self.tree().children()[i],
    {
        let mut out: Vec<SyntaxElement<'a>> = Vec::new();
        let mut i: usize = 0;
        let mut before: usize = offset_of_child(self.green, 0);
        while i < self.green.child_count()
            invariant
                self.wf(),
                i <= self.tree().children().len(),
                before == bytes_before(self.tree(), i as int),
                out@.len() == i,
                forall|j: int|
                    0 <= j < out@.len() ==> (#[trigger] out@[j]).wf() && out@[j].root_tree()
                        == self.root_tree() && out@[j].path() == self.path().push(j)
                        && out@[j].tree() == self.tree().children()[j],
            decreases self.tree().children().len() - i,
        {
            let child = self.child_behind(i, before);
            before = before + self.green.child(i).text_len();
            out.push(child);
            i = i + 1;
        }
        out
    }

    /// The index of the first child whose kind is in `set`.
    pub open spec fn first_in(&self, set: KindSet) -> Option<int> {
        index_in(self.tree().children(), set, 0)
    }

    /// Whether `child` is the handle on the child with index `i`.
    pub open spec fn holds(&self, child: &SyntaxElement<'a>, i: int) -> bool {
        &&& 0 <= i < self.tree().children().len()
        &&& child.wf()
        &&& child.root_tree() == self.root_tree()
        &&& child.path() == self.path().push(i)
        &&& child.tree() == self.tree().children()[i]
    }

    /// Whether `r` is the handle on the first child whose kind is in `set`,
    /// and is none where there is no such child.
    pub open spec fn is_first(&self, set: KindSet, r: Option<SyntaxElement<'a>>) -> bool {
        match r {
            Some(e) => self.first_in(set) matches Some(i) && self.holds(&e, i),
            None => self.first_in(set).is_none(),
        }
    }

    /// Whether `r` holds the handles on the children whose kind is in `set`,
    /// in their order: one for each such child, each at the index of its
    /// child.
    pub open spec fn are_members(&self, set: KindSet, r: Seq<SyntaxElement<'a>>) -> bool {
        &&& r.len() == member_indices(self.tree().children(), set).len()
        &&& forall|i: int|
            0 <= i < r.len() ==> self.holds(
                #[trigger] &r[i],
                member_indices(self.tree().children(), set)[i],
            )
    }

    /// Whether `r` is the handle on the node that is the child number `n`
    /// among those whose kind is in `set`, and is none where that child is
    /// missing or is a token.
    pub open spec fn is_nth_node(&self, set: KindSet, n: nat, r: Option<SyntaxNode<'a>>) -> bool {
        match r {
            Some(c) => nth_in(self.tree().children(), set, 0, n) matches Some(i) && self.holds(
                &SyntaxElement::Node(c),
                i,
            ),
            None => nth_in(self.tree().children(), set, 0, n) matches Some(i)
                ==> self.tree().children()[i] is Token,
        }
    }

    /// Whether `r` is the handle on the token that is the child number `n`
    /// among those whose kind is in `set`, and is none where that child is
    /// missing or is a node.
    pub open spec fn is_nth_token(&self, set: KindSet, n: nat, r: Option<SyntaxToken<'a>>) -> bool {
        match r {
            Some(c) => nth_in(self.tree().children(), set, 0, n) matches Some(i) && self.holds(
                &SyntaxElement::Token(c),
                i,
            ),
            None => nth_in(self.tree().children(), set, 0, n) matches Some(i)
                ==> self.tree().children()[i] is Node,
        }
    }

    /// Whether `child` is the handle on the node number `i` among the
    /// children that are nodes with a kind in `set`: it stands at the index
    /// of that child.
    pub open spec fn is_member_node(&self, set: KindSet, child: &SyntaxNode<'a>, i: int) -> bool {
        let indices = node_indices(self.tree().children(), set);
        &&& 0 <= i < indices.len()
        &&& 0 <= indices[i] < self.tree().children().len()
        &&& child.wf()
        &&& child.root_tree() == self.root_tree()
        &&& child.path() == self.path().push(indices[i])
        &&& child.tree() == self.tree().children()[indices[i]]
    }

    /// The handle on the node that is the child number `n` among those whose
    /// kind is in `set`; the first has the number zero.
    pub fn nth_node_in(&self, set: KindSet, n: usize) -> (r: Option<SyntaxNode<'a>>)
        requires
            self.wf(),
        ensures
            self.is_nth_node(set, n as nat, r),
            r matches Some(c) ==> c.wf() && set.contains(c.tree().kind()),
    {
        match self.green.find_nth_in(set, n) {
            Some(i) => match self.child(i) {
                SyntaxElement::Node(c) => Some(c),
                SyntaxElement::Token(t) => {
                    proof {
                        t.lemma_wf();
                    }
                    None
                },
            },
            None => None,
        }
    }

    /// The handle on the token that is the child number `n` among those
    /// whose kind is in `set`; the first has the number zero.
    pub fn nth_token_in(&self, set: KindSet, n: usize) -> (r: Option<SyntaxToken<'a>>)
        requires
            self.wf(),
        ensures
            self.is_nth_token(set, n as nat, r),
            r matches Some(c) ==> c.wf() && set.contains(c.tree().kind()),
    {
        match self.green.find_nth_in(set, n) {
            Some(i) => match self.child(i) {
                SyntaxElement::Token(c) => Some(c),
                SyntaxElement::Node(t) => {
                    proof {
                        t.lemma_wf();
                    }
                    None
                },
            },
            None => None,
        }
    }

    /// The handles on the children that are nodes with a kind in `set`, in
    /// their order.
    pub fn nodes_in(&self, set: KindSet) -> (r: Vec<SyntaxNode<'a>>)
        requires
            self.wf(),
        ensures
            r@.len() == node_indices(self.tree().children(), set).len(),
            forall|i: int|
                0 <= i < r@.len() ==> self.is_member_node(set, #[trigger] &r@[i], i)
                    && set.contains(r@[i].tree().kind()),
    {
        let ghost children = self.tree().children();
        let mut out: Vec<SyntaxNode<'a>> = Vec::new();
        let mut i: usize = 0;
        let mut before: usize = offset_of_child(self.green, 0);
        proof {
            assert(children.take(0) =~= Seq::<Tree>::empty());
        }
        while i < self.green.child_count()
            invariant
                self.wf(),
                children == self.tree().children(),
                i <= children.len(),
                before == bytes_before(self.tree(), i as int),
                out@.len() == node_indices(children.take(i as int), set).len(),
                forall|j: int|
                    0 <= j < out@.len() ==> (#[trigger] out@[j]).wf() && out@[j].root_tree()
                        == self.root_tree() && 0 <= node_indices(children.take(i as int), set)[j]
                        < i && out@[j].path() == self.path().push(
                        node_indices(children.take(i as int), set)[j],
                    ) && out@[j].tree() == children[node_indices(children.take(i as int), set)[j]]
                        && set.contains(out@[j].tree().kind()),
            decreases children.len() - i,
        {
            proof {
                assert(children.take(i + 1).drop_last() =~= children.take(i as int));
                assert(children.take(i + 1).last() == children[i as int]);
            }
            let child = self.child_behind(i, before);
            before = before + self.green.child(i).text_len();
            if set.holds(self.green.child(i).kind()) {
                match child {
                    SyntaxElement::Node(c) => {
                        proof {
                            c.lemma_wf();
                        }
                        out.push(c);
                    },
                    SyntaxElement::Token(t) => {
                        proof {
                            t.lemma_wf();
                        }
                    },
                }
            }
            i = i + 1;
        }
        proof {
            assert(children.take(i as int) =~= children);
        }
        out
    }

    /// The handle on the first child whose kind is in `set`.
    pub fn first_child_in(&self, set: KindSet) -> (r: Option<SyntaxElement<'a>>)
        requires
            self.wf(),
        ensures
            self.is_first(set, r),
            r matches Some(e) ==> set.contains(e.tree().kind()),
    {
        match self.green.find_child_in(set, 0) {
            Some(i) => Some(self.child(i)),
            None => None,
        }
    }

    /// The handle on the first child of kind `kind`.
    pub fn first_child_of_kind(&self, kind: SyntaxKind) -> (r: Option<SyntaxElement<'a>>)
        requires
            self.wf(),
        ensures
            self.is_first(KindSet::One(kind), r),
            r matches Some(e) ==> e.tree().kind() == kind,
    {
        self.first_child_in(KindSet::One(kind))
    }

    /// The handles on the children whose kind is in `set`, in their order.
    pub fn children_in(&self, set: KindSet) -> (r: Vec<SyntaxElement<'a>>)
        requires
            self.wf(),
        ensures
            self.are_members(set, r@),
            forall|i: int| 0 <= i < r@.len() ==> set.contains((#[trigger] r@[i]).tree().kind()),
    {
        let ghost children = self.tree().children();
        let mut out: Vec<SyntaxElement<'a>> = Vec::new();
        let mut i: usize = 0;
        let mut before: usize = offset_of_child(self.green, 0);
        proof {
            assert(children.take(0) =~= Seq::<Tree>::empty());
        }
        while i < self.green.child_count()
            invariant
                self.wf(),
                children == self.tree().children(),
                i <= children.len(),
                before == bytes_before(self.tree(), i as int),
                out@.len() == member_indices(children.take(i as int), set).len(),
                forall|j: int|
                    0 <= j < out@.len() ==> 0 <= member_indices(children.take(i as int), set)[j]
                        < i && self.holds(
                        #[trigger] &out@[j],
                        member_indices(children.take(i as int), set)[j],
                    ) && set.contains(out@[j].tree().kind()),
            decreases children.len() - i,
        {
            proof {
                assert(children.take(i + 1).drop_last() =~= children.take(i as int));
                assert(children.take(i + 1).last() == children[i as int]);
            }
            let child = self.child_behind(i, before);
            before = before + self.green.child(i).text_len();
            if set.holds(self.green.child(i).kind()) {
                out.push(child);
            }
            i = i + 1;
        }
        proof {
            assert(children.take(i as int) =~= children);
        }
        out
    }

    /// The handles on the children of kind `kind`, in their order.
    pub fn children_of_kind(&self, kind: SyntaxKind) -> (r: Vec<SyntaxElement<'a>>)
        requires
            self.wf(),
        ensures
            self.are_members(KindSet::One(kind), r@),
            forall|i: int| 0 <= i < r@.len() ==> (#[trigger] r@[i]).tree().kind() == kind,
    {
        self.children_in(KindSet::One(kind))
    }

    /// The handle on the parent; none for the root.
    pub fn parent(&self) -> (r: Option<SyntaxNode<'a>>)
        requires
            self.wf(),
        ensures
            r.is_some() == (self.path().len() > 0),
            r matches Some(p) ==> p.wf() && p.root_tree() == self.root_tree() && p.path()
                == self.path().drop_last() && p.tree().children()[self.path().last()]
                == self.tree(),
    {
        if self.path.len() == 0 {
            return None;
        }
        let target = self.path.len() - 1;
        let ghost full = self.path();
        let root_kind = self.root.kind();
        let total = self.root.text_len();
        let mut cur: &'a GreenNode = self.root;
        let mut offset: usize = 0;
        let mut path: Vec<usize> = Vec::new();
        let mut k: usize = 0;
        proof {
            assert(path_view(path@) =~= full.take(0));
        }
        while k < target
            invariant
                self.wf(),
                full == self.path(),
                target == self.path@.len() - 1,
                k <= target,
                path_view(path@) == full.take(k as int),
                cur.wf(),
                cur@ is Node,
                element_at(self.root@, full.take(k as int)) == Some(cur@),
                offset == offset_at(self.root@, full.take(k as int)),
                offset + utf8_len(cur@.text()) <= utf8_len(self.root@.text()),
                total == utf8_len(self.root@.text()),
            decreases target - k,
        {
            let i = self.path[k];
            proof {
                lemma_element_prefix(self.root@, full, k + 1);
                lemma_element_prefix(self.root@, full, k + 2);
                assert(full.take(k + 1).drop_last() =~= full.take(k as int));
                assert(full.take(k + 2).drop_last() =~= full.take(k + 1));
                assert(full.take(k + 1).last() == i);
                lemma_node_text(cur@.kind(), cur@.children());
                lemma_child_within(cur@.children(), i as int);
            }
            let before = offset_of_child(cur, i);
            let child = cur.child(i);
            let next = child.as_node().unwrap();
            offset = offset + before;
            cur = next;
            path.push(i);
            proof {
                assert(path_view(path@) =~= full.take(k + 1));
            }
            k = k + 1;
        }
        proof {
            assert(full.take(target as int) =~= full.drop_last());
        }
        Some(SyntaxNode { root: self.root, path, green: cur, offset })
    }
}

impl<'a> SyntaxElement<'a> {
    /// The tree the element stands in.
    pub open spec fn root_tree(&self) -> Tree {
        match self {
            SyntaxElement::Node(n) => n.root_tree(),
            SyntaxElement::Token(t) => t.root_tree(),
        }
    }

    /// The path from the root to the element.
    pub open spec fn path(&self) -> Seq<int> {
        match self {
            SyntaxElement::Node(n) => n.path(),
            SyntaxElement::Token(t) => t.path(),
        }
    }

    /// The element as a value.
    pub open spec fn tree(&self) -> Tree {
        match self {
            SyntaxElement::Node(n) => n.tree(),
            SyntaxElement::Token(t) => t.tree(),
        }
    }

    /// The byte offset at which the text of the element starts, counted in
    /// the text of the tree.
    pub open spec fn offset(&self) -> nat {
        match self {
            SyntaxElement::Node(n) => n.offset(),
            SyntaxElement::Token(t) => t.offset(),
        }
    }

    /// The handle is well formed.
    pub open spec fn wf(&self) -> bool {
        match self {
            SyntaxElement::Node(n) => n.wf(),
            SyntaxElement::Token(t) => t.wf(),
        }
    }

    /// The kind of the element.
    pub fn kind(&self) -> (k: SyntaxKind)
        ensures
            k == self.tree().kind(),
    {
        match self {
            SyntaxElement::Node(n) => n.kind(),
            SyntaxElement::Token(t) => t.kind(),
        }
    }

    /// The byte offsets at which the text of the element starts and ends,
    /// counted in the text of the tree. They are offsets in the input where
    /// the text of the tree is the input; where text was left out of the
    /// tree, what stands behind it has a smaller offset in the tree than in
    /// the input.
    pub fn text_range(&self) -> (r: (usize, usize))
        requires
            self.wf(),
        ensures
            r.0 == self.offset(),
            r.1 == self.offset() + utf8_len(self.tree().text()),
            r.0 <= r.1 <= utf8_len(self.root_tree().text()),
    {
        match self {
            SyntaxElement::Node(n) => n.text_range(),
            SyntaxElement::Token(t) => t.text_range(),
        }
    }

    /// The node, if the element is one.
    pub fn into_node(self) -> (r: Option<SyntaxNode<'a>>)
        ensures
            r.is_some() == (self is Node),
            r matches Some(n) ==> self == SyntaxElement::Node(n),
    {
        match self {
            SyntaxElement::Node(n) => Some(n),
            SyntaxElement::Token(_) => None,
        }
    }

    /// The token, if the element is one.
    pub fn into_token(self) -> (r: Option<SyntaxToken<'a>>)
        ensures
            r.is_some() == (self is Token),
            r matches Some(t) ==> self == SyntaxElement::Token(t),
    {
        match self {
            SyntaxElement::Node(_) => None,
            SyntaxElement::Token(t) => Some(t),
        }
    }
}

} // verus!
