//! What holds of every fold: the tree has as many scopes as the tokens open,
//! and the tokens close as many as they open.

use vstd::prelude::*;
use crate::block_parsers::hierarchy::{PosistionAndSize, ScopeView, TokenView, fold_from, spec_fold};

verus! {

/// The number of scopes in the first `n` trees of `forest`, each counted
/// with all the scopes inside it.
pub open spec fn forest_size(forest: Seq<ScopeView>, n: nat) -> nat
    decreases forest, n,
{
    if n == 0 || n > forest.len() {
        0
    } else {
        forest_size(forest, (n - 1) as nat) + tree_size(forest[n - 1])
    }
}

/// The number of scopes in a tree: the scope itself and all inside it.
pub open spec fn tree_size(scope: ScopeView) -> nat
    decreases scope,
{
    1 + forest_size(scope.scopes, scope.scopes.len())
}

/// How many of the tokens from `i` on open a scope.
pub open spec fn opens_from(tokens: Seq<(PosistionAndSize, TokenView)>, i: int) -> nat
    decreases tokens.len() - i,
{
    if i < 0 || i >= tokens.len() {
        0
    } else if tokens[i].1 is ScopeBegin {
        1 + opens_from(tokens, i + 1)
    } else {
        opens_from(tokens, i + 1)
    }
}

/// How many of the tokens from `i` on close a scope.
pub open spec fn closes_from(tokens: Seq<(PosistionAndSize, TokenView)>, i: int) -> nat
    decreases tokens.len() - i,
{
    if i < 0 || i >= tokens.len() {
        0
    } else if tokens[i].1 is ScopeEnd {
        1 + closes_from(tokens, i + 1)
    } else {
        closes_from(tokens, i + 1)
    }
}

/// The size of the first `n` trees depends on those trees alone.
proof fn lemma_forest_size_prefix(a: Seq<ScopeView>, b: Seq<ScopeView>, n: nat)
    requires
        n <= a.len(),
        n <= b.len(),
        forall|i: int| 0 <= i < n ==> a[i] == b[i],
    ensures
        forest_size(a, n) == forest_size(b, n),
    decreases n,
{
    if n > 0 {
        lemma_forest_size_prefix(a, b, (n - 1) as nat);
    }
}

/// A scope that is given one more scope grows by the size of that scope.
proof fn lemma_tree_size_with_child(parent: ScopeView, child: ScopeView)
    ensures
        tree_size(ScopeView { scopes: parent.scopes.push(child), ..parent }) == tree_size(parent)
            + tree_size(child),
{
    let grown = parent.scopes.push(child);
    lemma_forest_size_prefix(grown, parent.scopes, parent.scopes.len());
}

/// Where the machine ends well, the tree has the scopes that were open, and
/// one more for each token that opens one; and the tokens close one scope
/// more than they open, and one for each scope around the current one.
proof fn lemma_fold_from_balanced(
    ancestors: Seq<ScopeView>,
    current: ScopeView,
    tokens: Seq<(PosistionAndSize, TokenView)>,
    i: int,
)
    requires
        0 <= i,
        fold_from(ancestors, current, tokens, i) is Ok,
    ensures
        tree_size(fold_from(ancestors, current, tokens, i)->Ok_0) == forest_size(
            ancestors,
            ancestors.len(),
        ) + tree_size(current) + opens_from(tokens, i),
        closes_from(tokens, i) == opens_from(tokens, i) + ancestors.len() + 1,
    decreases tokens.len() - i,
{
    if i < tokens.len() {
        match tokens[i].1 {
            TokenView::ScopeBegin(b) => {
                let opened = crate::block_parsers::hierarchy::empty_scope(b);
                let around = ancestors.push(current);
                lemma_fold_from_balanced(around, opened, tokens, i + 1);
                lemma_forest_size_prefix(around, ancestors, ancestors.len());
                assert(tree_size(opened) == 1);
            },
            TokenView::Attribute(a) => {
                lemma_fold_from_balanced(
                    ancestors,
                    ScopeView { attributes: current.attributes.push(a), ..current },
                    tokens,
                    i + 1,
                );
            },
            TokenView::Vcd(v) => {
                lemma_fold_from_balanced(
                    ancestors,
                    ScopeView { signals: current.signals.push(v), ..current },
                    tokens,
                    i + 1,
                );
            },
            TokenView::AttributeEnd => {
                lemma_fold_from_balanced(ancestors, current, tokens, i + 1);
            },
            TokenView::Unknown(_) => {
                lemma_fold_from_balanced(ancestors, current, tokens, i + 1);
            },
            TokenView::ScopeEnd => {
                if ancestors.len() > 0 {
                    let parent = ancestors.last();
                    let rest = ancestors.drop_last();
                    lemma_fold_from_balanced(
                        rest,
                        ScopeView { scopes: parent.scopes.push(current), ..parent },
                        tokens,
                        i + 1,
                    );
                    lemma_tree_size_with_child(parent, current);
                    lemma_forest_size_prefix(ancestors, rest, rest.len());
                } else {
                    assert(opens_from(tokens, i + 1) == 0);
                    assert(closes_from(tokens, i + 1) == 0);
                }
            },
        }
    }
}

/// A fold that ends well is balanced: the tokens close as many scopes as
/// they open, and the tree has exactly that many scopes.  So tokens that
/// open more scopes than they close, or fewer, do not fold.
pub proof fn lemma_fold_balanced(tokens: Seq<(PosistionAndSize, TokenView)>)
    ensures
        spec_fold(tokens) is Ok ==> opens_from(tokens, 0) == closes_from(tokens, 0) && tree_size(
            spec_fold(tokens)->Ok_0,
        ) == opens_from(tokens, 0),
        opens_from(tokens, 0) != closes_from(tokens, 0) ==> spec_fold(tokens) is Err,
{
    if spec_fold(tokens) is Ok {
        let b = tokens[0].1->ScopeBegin_0;
        let root = crate::block_parsers::hierarchy::empty_scope(b);
        lemma_fold_from_balanced(Seq::empty(), root, tokens, 1);
        assert(tree_size(root) == 1);
    }
}

} // verus!
