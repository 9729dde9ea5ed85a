//! The concrete syntax tree: nodes tagged with a kind over tokens that hold
//! every character of what was parsed.
use vstd::prelude::*;
use vstd::string::StringExecFns;
use crate::seqs::{concat, lemma_concat_append, lemma_concat_single};
use crate::syntax_kind::{KindSet, SyntaxKind};
use crate::text::utf8_len;

verus! {

/// A token of the tree seen as a value.
pub struct Leaf {
    pub kind: SyntaxKind,
    pub text: Seq<char>,
}

/// A syntax tree seen as a value: a token with its text, or a node with its
/// children in source order.
pub enum Tree {
    Token { kind: SyntaxKind, text: Seq<char> },
    Node { kind: SyntaxKind, children: Seq<Tree> },
}

impl Tree {
    /// The kind the element is tagged with.
    pub open spec fn kind(self) -> SyntaxKind {
        match self {
            Tree::Token { kind, .. } => kind,
            Tree::Node { kind, .. } => kind,
        }
    }

    /// The children of a node; a token has none.
    pub open spec fn children(self) -> Seq<Tree> {
        match self {
            Tree::Token { .. } => Seq::empty(),
            Tree::Node { children, .. } => children,
        }
    }

    /// The tokens below the element, in source order.
    pub open spec fn leaves(self) -> Seq<Leaf>
        decreases self,
    {
        match self {
            Tree::Token { kind, text } => seq![Leaf { kind, text }],
            Tree::Node { children, .. } => forest_leaves(children),
        }
    }

    /// Whether the tree has the shape of the grammar: tokens carry the kinds
    /// of tokens, nodes those of nodes, and every node holds only children
    /// that its kind admits.
    pub open spec fn conforms(self) -> bool
        decreases self,
    {
        match self {
            Tree::Token { kind, .. } => kind.is_token(),
            Tree::Node { kind, children } => {
                &&& !kind.is_token()
                &&& forall|i: int|
                    0 <= i < children.len() ==> kind.admits((#[trigger] children[i]).kind())
                        && children[i].conforms()
            },
        }
    }

    /// The text the element covers: that of its tokens, in source order.
    pub open spec fn text(self) -> Seq<char> {
        leaf_text(self.leaves())
    }
}

/// The tokens below a sequence of elements, in source order.
pub open spec fn forest_leaves(trees: Seq<Tree>) -> Seq<Leaf>
    decreases trees,
{
    if trees.len() == 0 {
        Seq::empty()
    } else {
        forest_leaves(trees.drop_last()) + trees.last().leaves()
    }
}

/// The texts of a sequence of tokens.
pub open spec fn leaf_texts(leaves: Seq<Leaf>) -> Seq<Seq<char>> {
    Seq::new(leaves.len(), |i: int| leaves[i].text)
}

/// The texts of a sequence of tokens, one after the other.
pub open spec fn leaf_text(leaves: Seq<Leaf>) -> Seq<char> {
    concat(leaf_texts(leaves))
}

/// The trivia among a sequence of tokens.
pub open spec fn trivia_leaves(leaves: Seq<Leaf>) -> Seq<Leaf>
    decreases leaves.len(),
{
    if leaves.len() == 0 {
        Seq::empty()
    } else if leaves.last().kind.is_trivia() {
        trivia_leaves(leaves.drop_last()).push(leaves.last())
    } else {
        trivia_leaves(leaves.drop_last())
    }
}

/// The text that a sequence of elements covers.
pub open spec fn forest_text(trees: Seq<Tree>) -> Seq<char> {
    leaf_text(forest_leaves(trees))
}

/// A token covers its own text and is its own only token.
pub proof fn lemma_token_text(kind: SyntaxKind, text: Seq<char>)
    ensures
        (Tree::Token { kind, text }).leaves() == seq![Leaf { kind, text }],
        (Tree::Token { kind, text }).text() == text,
{
    let leaves = seq![Leaf { kind, text }];
    assert(leaf_texts(leaves) =~= seq![text]);
    lemma_concat_single(text);
}

/// A node covers what its children cover.
pub proof fn lemma_node_text(kind: SyntaxKind, children: Seq<Tree>)
    ensures
        (Tree::Node { kind, children }).leaves() == forest_leaves(children),
        (Tree::Node { kind, children }).text() == forest_text(children),
{
}

pub proof fn lemma_leaf_text_concat(a: Seq<Leaf>, b: Seq<Leaf>)
    ensures
        leaf_text(a + b) == leaf_text(a) + leaf_text(b),
{
    assert(leaf_texts(a + b) =~= leaf_texts(a) + leaf_texts(b));
    lemma_concat_append(leaf_texts(a), leaf_texts(b));
}

pub proof fn lemma_forest_leaves_push(trees: Seq<Tree>, t: Tree)
    ensures
        forest_leaves(trees.push(t)) == forest_leaves(trees) + t.leaves(),
        forest_text(trees.push(t)) == forest_text(trees) + t.text(),
{
    assert(trees.push(t).drop_last() =~= trees);
    lemma_leaf_text_concat(forest_leaves(trees), t.leaves());
}

pub proof fn lemma_forest_leaves_concat(a: Seq<Tree>, b: Seq<Tree>)
    ensures
        forest_leaves(a + b) == forest_leaves(a) + forest_leaves(b),
    decreases b.len(),
{
    if b.len() == 0 {
        assert(a + b =~= a);
    } else {
        assert((a + b).drop_last() =~= a + b.drop_last());
        lemma_forest_leaves_concat(a, b.drop_last());
    }
}

/// A token of the tree: a kind and the text it was read from.
#[derive(Debug)]
pub struct GreenToken {
    kind: SyntaxKind,
    text: String,
}

/// A child of a node: a node or a token.
#[derive(Debug)]
pub enum GreenChild {
    Node(GreenNode),
    Token(GreenToken),
}

/// A node of the tree: a kind, the children in source order and the number
/// of bytes that the text below it takes. A node knows how long its text is,
/// not where in the input it stands.
#[derive(Debug)]
pub struct GreenNode {
    kind: SyntaxKind,
    children: Vec<GreenChild>,
    text_len: usize,
}

impl View for GreenToken {
    type V = Tree;

    closed spec fn view(&self) -> Tree {
        Tree::Token { kind: self.kind, text: self.text@ }
    }
}

impl GreenToken {
    pub fn new(kind: SyntaxKind, text: &str) -> (t: GreenToken)
        ensures
            t@ == (Tree::Token { kind, text: text@ }),
    {
        GreenToken { kind, text: text.to_owned() }
    }

    /// The kind the token is tagged with.
    pub fn kind(&self) -> (k: SyntaxKind)
        ensures
            k == self@.kind(),
    {
        self.kind
    }

    /// The text of the token.
    pub fn text(&self) -> (s: &str)
        ensures
            s@ == self@.text(),
    {
        proof {
            lemma_token_text(self.kind, self.text@);
        }
        self.text.as_str()
    }

    /// The number of bytes the text of the token takes.
    pub fn text_len(&self) -> (n: usize)
        ensures
            n == utf8_len(self@.text()),
    {
        let s = self.text();
        s.as_bytes().len()
    }
}

impl View for GreenChild {
    type V = Tree;

    closed spec fn view(&self) -> Tree
        decreases self,
    {
        match self {
            GreenChild::Node(n) => n.view(),
            GreenChild::Token(t) => t.view(),
        }
    }
}

impl GreenChild {
    /// Every node below knows the length of its text.
    pub closed spec fn wf(&self) -> bool
        decreases self,
    {
        match self {
            GreenChild::Node(n) => n.wf(),
            GreenChild::Token(_) => true,
        }
    }
}

/// The views of a sequence of children.
pub open spec fn child_views(children: Seq<GreenChild>) -> Seq<Tree> {
    Seq::new(children.len(), |i: int| children[i]@)
}

impl View for GreenNode {
    type V = Tree;

    closed spec fn view(&self) -> Tree
        decreases self,
    {
        Tree::Node {
            kind: self.kind,
            children: Seq::new(
                self.children@.len(),
                |i: int|
                    if 0 <= i < self.children@.len() {
                        self.children@[i].view()
                    } else {
                        Tree::Node { kind: self.kind, children: Seq::empty() }
                    },
            ),
        }
    }
}

impl GreenNode {
    /// The node and every node below it know the length of their text.
    pub closed spec fn wf(&self) -> bool
        decreases self,
    {
        &&& self.text_len == utf8_len(self.view().text())
        &&& forall|i: int| 0 <= i < self.children@.len() ==> (#[trigger] self.children@[i]).wf()
    }

    proof fn lemma_view(&self)
        ensures
            self@ == (Tree::Node { kind: self.kind, children: child_views(self.children@) }),
            self@ is Node,
    {
        assert(self@->Node_children =~= child_views(self.children@));
    }

    /// The kind the node is tagged with.
    pub fn kind(&self) -> (k: SyntaxKind)
        ensures
            k == self@.kind(),
            self@ is Node,
    {
        proof {
            self.lemma_view();
        }
        self.kind
    }

    /// The number of children.
    pub fn child_count(&self) -> (n: usize)
        ensures
            n == self@.children().len(),
    {
        proof {
            self.lemma_view();
        }
        self.children.len()
    }

    /// The child with index `i`.
    pub fn child(&self, i: usize) -> (c: &GreenChild)
        requires
            i < self@.children().len(),
        ensures
            c@ == self@.children()[i as int],
            self.wf() ==> c.wf(),
    {
        proof {
            self.lemma_view();
        }
        &self.children[i]
    }

    /// The number of bytes the text of the node takes.
    pub fn text_len(&self) -> (n: usize)
        requires
            self.wf(),
        ensures
            n == utf8_len(self@.text()),
    {
        self.text_len
    }
}

impl GreenNode {
    /// A node of kind `kind` over `children`, whose text takes `text_len`
    /// bytes.
    pub fn new(kind: SyntaxKind, children: Vec<GreenChild>, text_len: usize) -> (n: GreenNode)
        requires
            forall|i: int| 0 <= i < children@.len() ==> (#[trigger] children@[i]).wf(),
            text_len == utf8_len(forest_text(child_views(children@))),
        ensures
            n@ == (Tree::Node { kind, children: child_views(children@) }),
            n.wf(),
    {
        let n = GreenNode { kind, children, text_len };
        proof {
            n.lemma_view();
        }
        n
    }
}

/// The elements among `trees` whose kind is in `set`, in their order.
pub open spec fn members_in(trees: Seq<Tree>, set: KindSet) -> Seq<Tree>
    decreases trees.len(),
{
    if trees.len() == 0 {
        Seq::empty()
    } else if set.contains(trees.last().kind()) {
        members_in(trees.drop_last(), set).push(trees.last())
    } else {
        members_in(trees.drop_last(), set)
    }
}

/// The elements of kind `kind` among `trees`, in their order.
pub open spec fn of_kind(trees: Seq<Tree>, kind: SyntaxKind) -> Seq<Tree> {
    members_in(trees, KindSet::One(kind))
}

/// The index of the first element at or behind `from` whose kind is in
/// `set`.
pub open spec fn index_in(trees: Seq<Tree>, set: KindSet, from: int) -> Option<int>
    decreases trees.len() - from,
{
    if from < 0 || from >= trees.len() {
        None
    } else if set.contains(trees[from].kind()) {
        Some(from)
    } else {
        index_in(trees, set, from + 1)
    }
}

/// The indices of the elements among `trees` whose kind is in `set`, in
/// rising order.
pub open spec fn member_indices(trees: Seq<Tree>, set: KindSet) -> Seq<int>
    decreases trees.len(),
{
    if trees.len() == 0 {
        Seq::empty()
    } else if set.contains(trees.last().kind()) {
        member_indices(trees.drop_last(), set).push(trees.len() - 1)
    } else {
        member_indices(trees.drop_last(), set)
    }
}

/// The indices of the nodes among `trees` whose kind is in `set`, in rising
/// order.
pub open spec fn node_indices(trees: Seq<Tree>, set: KindSet) -> Seq<int>
    decreases trees.len(),
{
    if trees.len() == 0 {
        Seq::empty()
    } else if set.contains(trees.last().kind()) && trees.last() is Node {
        node_indices(trees.drop_last(), set).push(trees.len() - 1)
    } else {
        node_indices(trees.drop_last(), set)
    }
}

/// The indices of the members of a set point at the members, one for each
/// and in their order, and rise.
pub proof fn lemma_member_indices(trees: Seq<Tree>, set: KindSet)
    ensures
        member_indices(trees, set).len() == members_in(trees, set).len(),
        forall|i: int|
            0 <= i < member_indices(trees, set).len() ==> 0 <= (#[trigger] member_indices(
                trees,
                set,
            )[i]) < trees.len() && trees[member_indices(trees, set)[i]] == members_in(
                trees,
                set,
            )[i],
        forall|i: int, j: int|
            0 <= i < j < member_indices(trees, set).len() ==> member_indices(trees, set)[i]
                < member_indices(trees, set)[j],
    decreases trees.len(),
{
    if trees.len() > 0 {
        lemma_member_indices(trees.drop_last(), set);
        let front = member_indices(trees.drop_last(), set);
        assert forall|i: int| 0 <= i < front.len() implies trees.drop_last()[front[i]]
            == trees[front[i]] by {}
    }
}

/// The indices of the nodes of a set point at nodes of the set, lie among
/// the indices of its members, and rise.
pub proof fn lemma_node_indices(trees: Seq<Tree>, set: KindSet)
    ensures
        forall|i: int|
            0 <= i < node_indices(trees, set).len() ==> 0 <= (#[trigger] node_indices(
                trees,
                set,
            )[i]) < trees.len() && trees[node_indices(trees, set)[i]] is Node && set.contains(
                trees[node_indices(trees, set)[i]].kind(),
            ),
        forall|i: int, j: int|
            0 <= i < j < node_indices(trees, set).len() ==> node_indices(trees, set)[i]
                < node_indices(trees, set)[j],
        forall|k: int|
            0 <= k < trees.len() && trees[k] is Node && set.contains(trees[k].kind())
                ==> node_indices(trees, set).contains(k),
    decreases trees.len(),
{
    if trees.len() > 0 {
        lemma_node_indices(trees.drop_last(), set);
        let front = node_indices(trees.drop_last(), set);
        let all = node_indices(trees, set);
        assert forall|i: int| 0 <= i < front.len() implies trees.drop_last()[front[i]]
            == trees[front[i]] by {}
        assert forall|k: int|
            0 <= k < trees.len() && trees[k] is Node && set.contains(
                trees[k].kind(),
            ) implies all.contains(k) by {
            if k < trees.len() - 1 {
                assert(trees.drop_last()[k] == trees[k]);
                assert(trees.drop_last()[k] is Node && set.contains(trees.drop_last()[k].kind()));
                assert(front.contains(k));
                let i = choose|i: int| 0 <= i < front.len() && front[i] == k;
                assert(all[i] == k);
            } else {
                assert(all[all.len() - 1] == k);
            }
        }
    }
}

/// The index of the element at or behind `from` whose kind is in `set` and
/// before which `n` others stand whose kind is in `set`, counted from
/// `from`.
pub open spec fn nth_in(trees: Seq<Tree>, set: KindSet, from: int, n: nat) -> Option<int>
    decreases trees.len() - from,
{
    if from < 0 || from >= trees.len() {
        None
    } else if !set.contains(trees[from].kind()) {
        nth_in(trees, set, from + 1, n)
    } else if n == 0 {
        Some(from)
    } else {
        nth_in(trees, set, from + 1, (n - 1) as nat)
    }
}

/// Where an element is found by its number, it lies in the sequence and its
/// kind is in the set.
pub proof fn lemma_nth_in(trees: Seq<Tree>, set: KindSet, from: int, n: nat)
    requires
        0 <= from,
    ensures
        nth_in(trees, set, from, n) matches Some(i) ==> from <= i < trees.len() && set.contains(
            trees[i].kind(),
        ),
    decreases trees.len() - from,
{
    if from < trees.len() {
        if !set.contains(trees[from].kind()) {
            lemma_nth_in(trees, set, from + 1, n);
        } else if n > 0 {
            lemma_nth_in(trees, set, from + 1, (n - 1) as nat);
        }
    }
}

/// The index of the first element of kind `kind` at or behind `from`.
pub open spec fn index_of_kind(trees: Seq<Tree>, kind: SyntaxKind, from: int) -> Option<int> {
    index_in(trees, KindSet::One(kind), from)
}

/// Where an element of a set of kinds is found, its kind is in the set, and
/// that of none before it is.
pub proof fn lemma_index_in(trees: Seq<Tree>, set: KindSet, from: int)
    requires
        0 <= from,
    ensures
        match index_in(trees, set, from) {
            Some(i) => from <= i < trees.len() && set.contains(trees[i].kind()) && forall|j: int|
                from <= j < i ==> !set.contains((#[trigger] trees[j]).kind()),
            None => forall|j: int|
                from <= j < trees.len() ==> !set.contains((#[trigger] trees[j]).kind()),
        },
    decreases trees.len() - from,
{
    if from < trees.len() && !set.contains(trees[from].kind()) {
        lemma_index_in(trees, set, from + 1);
    }
}

impl GreenNode {
    /// The text the node covers.
    pub fn text(&self) -> (s: String)
        ensures
            s@ == self@.text(),
        decreases self,
    {
        proof {
            self.lemma_view();
            lemma_node_text(self.kind, child_views(self.children@));
        }
        let ghost views = child_views(self.children@);
        let mut out = String::new();
        let mut i: usize = 0;
        proof {
            assert(views.take(0) =~= Seq::<Tree>::empty());
            assert(leaf_texts(Seq::<Leaf>::empty()) =~= Seq::<Seq<char>>::empty());
        }
        while i < self.children.len()
            invariant
                i <= self.children@.len(),
                views == child_views(self.children@),
                out@ == forest_text(views.take(i as int)),
            decreases self.children@.len() - i,
        {
            proof {
                assert(views.take(i + 1) =~= views.take(i as int).push(views[i as int]));
                lemma_forest_leaves_push(views.take(i as int), views[i as int]);
            }
            match &self.children[i] {
                GreenChild::Node(n) => {
                    let t = n.text();
                    out.append(t.as_str());
                },
                GreenChild::Token(t) => {
                    out.append(t.text());
                },
            }
            i = i + 1;
        }
        proof {
            assert(views.take(i as int) =~= views);
        }
        out
    }

    /// The index of the first child at or behind `from` whose kind is in
    /// `set`.
    pub fn find_child_in(&self, set: KindSet, from: usize) -> (r: Option<usize>)
        ensures
            match r {
                Some(i) => index_in(self@.children(), set, from as int) == Some(i as int),
                None => index_in(self@.children(), set, from as int).is_none(),
            },
            r matches Some(i) ==> from <= i < self@.children().len() && set.contains(
                self@.children()[i as int].kind(),
            ),
    {
        proof {
            self.lemma_view();
            lemma_index_in(self@.children(), set, from as int);
        }
        let ghost views = child_views(self.children@);
        let mut i: usize = from;
        while i < self.children.len()
            invariant
                from <= i,
                views == child_views(self.children@),
                views == self@.children(),
                index_in(views, set, from as int) == index_in(views, set, i as int),
            decreases self.children@.len() - i,
        {
            if set.holds(self.children[i].kind()) {
                return Some(i);
            }
            i = i + 1;
        }
        None
    }

    /// The index of the child whose kind is in `set` and before which `n`
    /// others stand whose kind is in `set`.
    pub fn find_nth_in(&self, set: KindSet, n: usize) -> (r: Option<usize>)
        ensures
            match r {
                Some(i) => nth_in(self@.children(), set, 0, n as nat) == Some(i as int),
                None => nth_in(self@.children(), set, 0, n as nat).is_none(),
            },
            r matches Some(i) ==> i < self@.children().len() && set.contains(
                self@.children()[i as int].kind(),
            ),
    {
        proof {
            self.lemma_view();
            lemma_nth_in(self@.children(), set, 0, n as nat);
        }
        let ghost views = child_views(self.children@);
        let mut i: usize = 0;
        let mut left: usize = n;
        while i < self.children.len()
            invariant
                left <= n,
                views == child_views(self.children@),
                views == self@.children(),
                nth_in(views, set, 0, n as nat) == nth_in(views, set, i as int, left as nat),
            decreases self.children@.len() - i,
        {
            if set.holds(self.children[i].kind()) {
                if left == 0 {
                    return Some(i);
                }
                left = left - 1;
            }
            i = i + 1;
        }
        None
    }

    /// The first child of kind `kind`.
    pub fn first_child_of_kind(&self, kind: SyntaxKind) -> (r: Option<&GreenChild>)
        ensures
            match r {
                Some(c) => index_of_kind(self@.children(), kind, 0) matches Some(i)
                    && self@.children()[i] == c@,
                None => index_of_kind(self@.children(), kind, 0).is_none(),
            },
            r matches Some(c) ==> c@.kind() == kind && (self.wf() ==> c.wf()),
    {
        match self.find_child_in(KindSet::One(kind), 0) {
            Some(i) => Some(self.child(i)),
            None => None,
        }
    }

    /// The children of kind `kind`, in their order.
    pub fn children_of_kind(&self, kind: SyntaxKind) -> (r: Vec<&GreenChild>)
        ensures
            r@.len() == of_kind(self@.children(), kind).len(),
            forall|i: int|
                0 <= i < r@.len() ==> (#[trigger] r@[i])@ == of_kind(self@.children(), kind)[i],
            self.wf() ==> forall|i: int| 0 <= i < r@.len() ==> (#[trigger] r@[i]).wf(),
    {
        proof {
            self.lemma_view();
        }
        let ghost views = child_views(self.children@);
        let ghost set = KindSet::One(kind);
        let mut out: Vec<&GreenChild> = Vec::new();
        let mut i: usize = 0;
        proof {
            assert(views.take(0) =~= Seq::<Tree>::empty());
        }
        while i < self.children.len()
            invariant
                i <= self.children@.len(),
                views == child_views(self.children@),
                set == KindSet::One(kind),
                out@.len() == members_in(views.take(i as int), set).len(),
                forall|j: int|
                    0 <= j < out@.len() ==> (#[trigger] out@[j])@ == members_in(
                        views.take(i as int),
                        set,
                    )[j],
                self.wf() ==> forall|j: int| 0 <= j < out@.len() ==> (#[trigger] out@[j]).wf(),
            decreases self.children@.len() - i,
        {
            proof {
                assert(views.take(i + 1).drop_last() =~= views.take(i as int));
            }
            if self.children[i].kind() == kind {
                out.push(&self.children[i]);
            }
            i = i + 1;
        }
        proof {
            assert(views.take(i as int) =~= views);
        }
        out
    }
}

impl GreenChild {
    /// A token as a child.
    pub fn token(kind: SyntaxKind, text: &str) -> (c: GreenChild)
        ensures
            c@ == (Tree::Token { kind, text: text@ }),
            c.wf(),
    {
        GreenChild::Token(GreenToken::new(kind, text))
    }

    /// A node as a child.
    pub fn node(n: GreenNode) -> (c: GreenChild)
        requires
            n.wf(),
        ensures
            c@ == n@,
            c.wf(),
    {
        GreenChild::Node(n)
    }

    /// The kind the child is tagged with.
    pub fn kind(&self) -> (k: SyntaxKind)
        ensures
            k == self@.kind(),
    {
        match self {
            GreenChild::Node(n) => n.kind(),
            GreenChild::Token(t) => t.kind(),
        }
    }

    /// The number of bytes the text of the child takes.
    pub fn text_len(&self) -> (n: usize)
        requires
            self.wf(),
        ensures
            n == utf8_len(self@.text()),
    {
        match self {
            GreenChild::Node(n) => n.text_len(),
            GreenChild::Token(t) => t.text_len(),
        }
    }

    /// The node, if the child is one.
    pub fn as_node(&self) -> (r: Option<&GreenNode>)
        ensures
            r.is_some() == (self@ is Node),
            r matches Some(n) ==> n@ == self@ && (self.wf() ==> n.wf()),
    {
        match self {
            GreenChild::Node(n) => {
                proof {
                    n.lemma_view();
                }
                Some(n)
            },
            GreenChild::Token(_) => None,
        }
    }

    /// The token, if the child is one.
    pub fn as_token(&self) -> (r: Option<&GreenToken>)
        ensures
            r.is_some() == (self@ is Token),
            r matches Some(t) ==> t@ == self@,
    {
        match self {
            GreenChild::Node(n) => {
                proof {
                    n.lemma_view();
                }
                None
            },
            GreenChild::Token(t) => Some(t),
        }
    }
}

} // verus!
