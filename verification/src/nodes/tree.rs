//! The model that contracts speak of: every node of the syntax tree is seen
//! as a labelled, ordered tree.
use vstd::prelude::*;

verus! {

/// What a node of the model stands for. The first group are the nodes that a
/// walker hands to a processor; the second group only hold other nodes.
#[derive(Clone, Copy, Debug, PartialEq, Eq, Structural)]
pub enum Kind {
    Block,
    Statement,
    LastStatement,
    Assign,
    Do,
    FunctionCall,
    FunctionStatement,
    GenericFor,
    If,
    LocalAssign,
    LocalFunction,
    NumericFor,
    Repeat,
    While,
    Expression,
    Binary,
    Field,
    FunctionExpression,
    Identifier,
    Index,
    Number,
    Prefix,
    Parenthese,
    String,
    Table,
    Unary,
    LuxExpression,
    LuxElement,
    LuxOpenCloseElement,
    LuxSelfClosingElement,
    LuxFragment,
    LuxChild,
    LuxAttribute,
    LuxAttributeValue,
    Variable,
    Arguments,
    TableEntry,
    IfBranch,
    FunctionName,
    LuxNamedAttribute,
    List,
    Optional,
    Token,
    Trivia,
    LocalAssignTokens,
}

impl Kind {
    /// Whether a walker reports nodes of this kind to the processor.
    pub open spec fn is_processed(self) -> bool {
        !(self is Variable || self is Arguments || self is TableEntry || self is IfBranch
            || self is FunctionName || self is LuxNamedAttribute || self is List || self is Optional
            || self is Token
            || self is Trivia || self is LocalAssignTokens)
    }
}

/// The model of one node.
///
/// `variant` tells the alternatives of a node apart (and holds its flags),
/// `texts` are its names and literals, `details` are the parts that no walker
/// enters (trivia, declared names) and `children` the parts that a walker
/// visits, in the order of the visit.
#[verifier::ext_equal]
pub ghost struct Tree {
    pub kind: Kind,
    pub variant: nat,
    pub texts: Seq<Seq<char>>,
    pub details: Seq<Tree>,
    pub children: Seq<Tree>,
}

impl Tree {
    /// A node without details.
    pub open spec fn node(kind: Kind, variant: nat, texts: Seq<Seq<char>>, children: Seq<Tree>) -> Tree {
        Tree { kind, variant, texts, details: Seq::empty(), children }
    }

    /// The same node over other children.
    pub open spec fn with_children(self, children: Seq<Tree>) -> Tree {
        Tree { children, ..self }
    }

    /// The number of nodes on the longest path from this node down through children.
    #[verifier::opaque]
    pub open spec fn depth(self) -> nat
        decreases self,
    {
        1 + Self::max_depth(self.children, self.children.len())
    }

    /// The greatest depth among the first `n` trees of `trees`.
    #[verifier::opaque]
    pub open spec fn max_depth(trees: Seq<Tree>, n: nat) -> nat
        decreases trees, n,
    {
        if n == 0 || n > trees.len() {
            0
        } else {
            let before = Self::max_depth(trees, (n - 1) as nat);
            let here = trees[n - 1].depth();
            if before >= here {
                before
            } else {
                here
            }
        }
    }

    /// The nodes that a walk over an unchanging tree reports, in order: the
    /// node itself if its kind is processed, then the reports of each child.
    #[verifier::opaque]
    pub open spec fn visits(self) -> Seq<Tree>
        decreases self,
    {
        let below = Self::visits_of(self.children, self.children.len());
        if self.kind.is_processed() {
            seq![self] + below
        } else {
            below
        }
    }

    /// The reports of the first `n` trees of `trees`, one tree after the other.
    #[verifier::opaque]
    pub open spec fn visits_of(trees: Seq<Tree>, n: nat) -> Seq<Tree>
        decreases trees, n,
    {
        if n == 0 || n > trees.len() {
            Seq::empty()
        } else {
            Self::visits_of(trees, (n - 1) as nat) + trees[n - 1].visits()
        }
    }
}

/// Each of the first `n` trees is no deeper than all of them together.
pub proof fn lemma_depth_of_member(trees: Seq<Tree>, n: nat, i: int)
    requires
        0 <= i < n <= trees.len(),
    ensures
        trees[i].depth() <= Tree::max_depth(trees, n),
    decreases n,
{
    reveal(Tree::depth);
    reveal(Tree::max_depth);
    if i < n - 1 {
        lemma_depth_of_member(trees, (n - 1) as nat, i);
    }
}

/// A child is strictly shallower than its parent.
pub proof fn lemma_child_is_shallower(tree: Tree, i: int)
    requires
        0 <= i < tree.children.len(),
    ensures
        tree.children[i].depth() < tree.depth(),
{
    reveal(Tree::depth);
    reveal(Tree::max_depth);
    lemma_depth_of_member(tree.children, tree.children.len(), i);
}

/// A bound on every member bounds the greatest depth.
pub proof fn lemma_max_depth_bounded(trees: Seq<Tree>, n: nat, bound: nat)
    requires
        n <= trees.len(),
        forall|i: int| 0 <= i < n ==> (#[trigger] trees[i]).depth() <= bound,
    ensures
        Tree::max_depth(trees, n) <= bound,
    decreases n,
{
    reveal(Tree::depth);
    reveal(Tree::max_depth);
    if n > 0 {
        lemma_max_depth_bounded(trees, (n - 1) as nat, bound);
    }
}

/// Replacing children by children that are no deeper gives a tree that is no deeper.
pub proof fn lemma_depth_with_children(tree: Tree, children: Seq<Tree>)
    requires
        children.len() == tree.children.len(),
        forall|i: int| 0 <= i < children.len() ==> (#[trigger] children[i]).depth() <= tree.children[i].depth(),
    ensures
        tree.with_children(children).depth() <= tree.depth(),
{
    reveal(Tree::depth);
    reveal(Tree::max_depth);
    assert forall|i: int| 0 <= i < children.len() implies (#[trigger] children[i]).depth() <= Tree::max_depth(tree.children, tree.children.len()) by {
        lemma_depth_of_member(tree.children, tree.children.len(), i);
    }
    lemma_max_depth_bounded(children, children.len(), Tree::max_depth(tree.children, tree.children.len()));
}

/// A node with one child is one deeper than the child.
pub proof fn lemma_depth_of_only_child(tree: Tree)
    requires
        tree.children.len() == 1,
    ensures
        tree.depth() == tree.children[0].depth() + 1,
{
    reveal(Tree::depth);
    reveal_with_fuel(Tree::max_depth, 2);
    let only = tree.children[0];
    assert(Tree::max_depth(tree.children, 0) == 0);
    assert(Tree::max_depth(tree.children, 1) == only.depth());
}

/// A node whose children are all found among the children of another node is no deeper than it.
pub proof fn lemma_depth_of_kept_children(tree: Tree, kept: Seq<Tree>)
    requires
        forall|i: int| 0 <= i < kept.len() ==> tree.children.contains(#[trigger] kept[i]),
    ensures
        tree.with_children(kept).depth() <= tree.depth(),
{
    reveal(Tree::depth);
    reveal(Tree::max_depth);
    assert forall|i: int| 0 <= i < kept.len() implies (#[trigger] kept[i]).depth() <= Tree::max_depth(
        tree.children,
        tree.children.len(),
    ) by {
        let j = choose|j: int| 0 <= j < tree.children.len() && tree.children[j] == kept[i];
        lemma_depth_of_member(tree.children, tree.children.len(), j);
    }
    lemma_max_depth_bounded(kept, kept.len(), Tree::max_depth(tree.children, tree.children.len()));
}

} // verus!
