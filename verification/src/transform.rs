//! Rewriting in place: one pass over a tree, from each node to its children,
//! that changes the nodes a predicate picks out.
use vstd::prelude::*;

use crate::term::Term;
use crate::Expression;

verus! {

/// Whether `find`, shown the node `node`, may answer `hit`.
pub open spec fn finds<F: Fn(&Expression) -> bool>(find: F, node: Term, hit: bool) -> bool {
    exists|shown: Expression| shown@ == node && #[trigger] call_ensures(find, (&shown,), hit)
}

/// Whether `mutation`, given the node `node`, may hand back `into`.
pub open spec fn mutates<M: Fn(Expression) -> Expression>(mutation: M, node: Term, into: Term) -> bool {
    exists|given: Expression, answer: Expression|
        given@ == node && answer@ == into && #[trigger] call_ensures(mutation, (given,), answer)
}

/// The predicate that `find` stands for: the pairs of a node and an answer
/// that `find` may give for it.
pub open spec fn finding<F: Fn(&Expression) -> bool>(find: F) -> spec_fn(Term, bool) -> bool {
    |node: Term, hit: bool| finds(find, node, hit)
}

/// The mutation that `mutation` stands for: the pairs of a node and a tree
/// that `mutation` may hand back for it.
pub open spec fn mutating<M: Fn(Expression) -> Expression>(mutation: M) -> spec_fn(Term, Term) -> bool {
    |node: Term, into: Term| mutates(mutation, node, into)
}

impl Term {
    /// Whether a visit may leave `visited` in the place of the node `self`:
    /// what `mutation` makes of the node where `find` picks it, the node
    /// itself where `find` passes it over.
    pub open spec fn visits_to(
        self,
        find: spec_fn(Term, bool) -> bool,
        mutation: spec_fn(Term, Term) -> bool,
        visited: Term,
    ) -> bool {
        ||| find(self, true) && mutation(self, visited)
        ||| find(self, false) && visited == self
    }

    /// Whether one pass over the tree `self` may end with the tree `out`.
    ///
    /// The root is visited first. The pass then goes on with the children
    /// that the root has after its visit, each being the root of its own
    /// pass: a node that the mutation put there is visited as any other, and
    /// a node is never looked at again once its children have been reached.
    /// Below `depth` levels nothing is visited.
    pub open spec fn rewrites_to(
        self,
        find: spec_fn(Term, bool) -> bool,
        mutation: spec_fn(Term, Term) -> bool,
        depth: nat,
        out: Term,
    ) -> bool
        decreases depth, 1nat,
    {
        exists|visited: Term| #[trigger]
            self.visits_to(find, mutation, visited) && visited.descends_to(
                find,
                mutation,
                depth,
                out,
            )
    }

    /// Whether the passes over the children of the visited node `self` may
    /// end with the tree `out`.
    pub open spec fn descends_to(
        self,
        find: spec_fn(Term, bool) -> bool,
        mutation: spec_fn(Term, Term) -> bool,
        depth: nat,
        out: Term,
    ) -> bool
        decreases depth, 0nat,
    {
        if depth == 0 {
            out == self
        } else {
            let below = (depth - 1) as nat;
            match self {
                Term::Symbol(_) => out == self,
                Term::Constant(_) => out == self,
                Term::EulerNumber => out == self,
                Term::UnaryOperation { operand, operator } => {
                    &&& out matches Term::UnaryOperation { operand: after, operator: kept }
                    &&& kept == operator
                    &&& operand.rewrites_to(find, mutation, below, *after)
                },
                Term::BinaryOperation { first_operand, second_operand, operator } => {
                    &&& out matches Term::BinaryOperation {
                        first_operand: first,
                        second_operand: second,
                        operator: kept,
                    }
                    &&& kept == operator
                    &&& first_operand.rewrites_to(find, mutation, below, *first)
                    &&& second_operand.rewrites_to(find, mutation, below, *second)
                },
                Term::Function { name, arguments } => {
                    &&& out matches Term::Function { name: kept, arguments: after }
                    &&& kept == name
                    &&& after.len() == arguments.len()
                    &&& forall|i: int|
                        0 <= i < arguments.len() ==> (#[trigger] arguments[i]).rewrites_to(
                            find,
                            mutation,
                            below,
                            after[i],
                        )
                },
                Term::Sine(operand) => {
                    &&& out matches Term::Sine(after)
                    &&& operand.rewrites_to(find, mutation, below, *after)
                },
                Term::Cosine(operand) => {
                    &&& out matches Term::Cosine(after)
                    &&& operand.rewrites_to(find, mutation, below, *after)
                },
            }
        }
    }

    /// Whether no node of the tree stands more than `depth` levels below the
    /// root.
    pub open spec fn fits_within(self, depth: nat) -> bool
        decreases self,
    {
        match self {
            Term::Symbol(_) => true,
            Term::Constant(_) => true,
            Term::EulerNumber => true,
            Term::UnaryOperation { operand, .. } => depth > 0 && operand.fits_within(
                (depth - 1) as nat,
            ),
            Term::BinaryOperation { first_operand, second_operand, .. } => depth > 0
                && first_operand.fits_within((depth - 1) as nat) && second_operand.fits_within(
                (depth - 1) as nat,
            ),
            Term::Function { arguments, .. } => arguments.len() == 0 || (depth > 0 && forall|
                i: int,
            |
                0 <= i < arguments.len() ==> (#[trigger] arguments[i]).fits_within(
                    (depth - 1) as nat,
                )),
            Term::Sine(operand) => depth > 0 && operand.fits_within((depth - 1) as nat),
            Term::Cosine(operand) => depth > 0 && operand.fits_within((depth - 1) as nat),
        }
    }

    /// Whether a `Constant` node stands at most `depth` levels below the root.
    pub open spec fn holds_constant_within(self, depth: nat) -> bool
        decreases self,
    {
        match self {
            Term::Symbol(_) => false,
            Term::Constant(_) => true,
            Term::EulerNumber => false,
            Term::UnaryOperation { operand, .. } => depth > 0 && operand.holds_constant_within(
                (depth - 1) as nat,
            ),
            Term::BinaryOperation { first_operand, second_operand, .. } => depth > 0 && (
            first_operand.holds_constant_within((depth - 1) as nat)
                || second_operand.holds_constant_within((depth - 1) as nat)),
            Term::Function { arguments, .. } => depth > 0 && exists|i: int|
                0 <= i < arguments.len() && (#[trigger] arguments[i]).holds_constant_within(
                    (depth - 1) as nat,
                ),
            Term::Sine(operand) => depth > 0 && operand.holds_constant_within((depth - 1) as nat),
            Term::Cosine(operand) => depth > 0 && operand.holds_constant_within(
                (depth - 1) as nat,
            ),
        }
    }
}

impl Expression {
    /// Rewrites the tree in one pass: each node that `find` picks is replaced
    /// by what `mutation` makes of it, and the pass goes on, from left to
    /// right, with the children of the node that then stands there.
    ///
    /// The pass goes `usize::MAX` levels deep, which is deeper than any tree
    /// that memory can hold. A mutation that keeps handing back nodes for
    /// `find` to pick, level after level, makes the pass as deep as that: the
    /// call stack ends long before.
    pub fn transform<F, M>(&mut self, find: F, mutation: M) where
        F: Fn(&Expression) -> bool,
        M: Fn(Expression) -> Expression,

        requires
            forall|node: &Expression| call_requires(find, (node,)),
            forall|node: Expression| call_requires(mutation, (node,)),
        ensures
            old(self)@.rewrites_to(finding(find), mutating(mutation), usize::MAX as nat, final(self)@),
    {
        self.transform_within(&find, &mutation, usize::MAX)
    }

    /// [`Expression::transform`] down to `depth` levels below the root: the
    /// nodes further down are left as they are, unvisited.
    pub fn transform_within<F, M>(&mut self, find: &F, mutation: &M, depth: usize) where
        F: Fn(&Expression) -> bool,
        M: Fn(Expression) -> Expression,

        requires
            forall|node: &Expression| call_requires(*find, (node,)),
            forall|node: Expression| call_requires(*mutation, (node,)),
        ensures
            old(self)@.rewrites_to(finding(*find), mutating(*mutation), depth as nat, final(self)@),
        decreases depth, 0nat,
    {
        let ghost before = self@;
        let hit = find(self);
        assert(finding(*find)(before, hit));
        if hit {
            let mut node = Expression::EulerNumber;
            core::mem::swap(self, &mut node);
            let answer = mutation(node);
            assert(mutating(*mutation)(before, answer@));
            *self = answer;
        }
        let ghost visited = self@;
        assert(before.visits_to(finding(*find), mutating(*mutation), visited));
        if depth == 0 {
            return ;
        }
        match self {
            Expression::Symbol(_) => (),
            Expression::Constant(_) => (),
            Expression::EulerNumber => (),
            Expression::UnaryOperation { operand, operator: _ } => {
                operand.transform_within(find, mutation, depth - 1)
            },
            Expression::BinaryOperation { first_operand, second_operand, operator: _ } => {
                first_operand.transform_within(find, mutation, depth - 1);
                second_operand.transform_within(find, mutation, depth - 1);
            },
            Expression::Function { name: _, arguments } => {
                transform_each(arguments, find, mutation, depth - 1)
            },
            Expression::Sine(arg) => arg.transform_within(find, mutation, depth - 1),
            Expression::Cosine(arg) => arg.transform_within(find, mutation, depth - 1),
        }
    }
}

/// One pass over each of `arguments`, from the first to the last.
fn transform_each<F, M>(arguments: &mut Vec<Expression>, find: &F, mutation: &M, depth: usize) where
    F: Fn(&Expression) -> bool,
    M: Fn(Expression) -> Expression,

    requires
        forall|node: &Expression| call_requires(*find, (node,)),
        forall|node: Expression| call_requires(*mutation, (node,)),
    ensures
        final(arguments).len() == old(arguments).len(),
        forall|k: int|
            0 <= k < old(arguments).len() ==> (#[trigger] old(arguments)[k])@.rewrites_to(
                finding(*find),
                mutating(*mutation),
                depth as nat,
                final(arguments)[k]@,
            ),
    decreases depth, 1nat,
{
    let mut i: usize = 0;
    while i < arguments.len()
        invariant
            i <= arguments.len(),
            arguments.len() == old(arguments).len(),
            forall|node: &Expression| call_requires(*find, (node,)),
            forall|node: Expression| call_requires(*mutation, (node,)),
            forall|k: int|
                0 <= k < i ==> (#[trigger] old(arguments)[k])@.rewrites_to(
                    finding(*find),
                    mutating(*mutation),
                    depth as nat,
                    arguments[k]@,
                ),
            forall|k: int| i <= k < arguments.len() ==> arguments[k] == old(arguments)[k],
        decreases arguments.len() - i,
    {
        arguments[i].transform_within(find, mutation, depth);
        i += 1;
    }
}

/// A pass reaches every node down to its depth: where `find` picks every
/// `Constant` and `mutation` never answers with one, no `Constant` is left
/// within `depth` levels of the root.
pub proof fn lemma_pass_leaves_no_constant(
    before: Term,
    find: spec_fn(Term, bool) -> bool,
    mutation: spec_fn(Term, Term) -> bool,
    depth: nat,
    after: Term,
)
    requires
        before.rewrites_to(find, mutation, depth, after),
        forall|node: Term| node is Constant ==> !#[trigger] find(node, false),
        forall|node: Term, into: Term| #[trigger] mutation(node, into) ==> !(into is Constant),
    ensures
        !after.holds_constant_within(depth),
    decreases depth,
{
    let visited = choose|visited: Term| #[trigger]
        before.visits_to(find, mutation, visited) && visited.descends_to(
            find,
            mutation,
            depth,
            after,
        );
    if depth > 0 {
        let below = (depth - 1) as nat;
        match visited {
            Term::Symbol(_) => {},
            Term::Constant(_) => {},
            Term::EulerNumber => {},
            Term::UnaryOperation { operand, .. } => {
                lemma_pass_leaves_no_constant(
                    *operand,
                    find,
                    mutation,
                    below,
                    *after->UnaryOperation_operand,
                );
            },
            Term::BinaryOperation { first_operand, second_operand, .. } => {
                lemma_pass_leaves_no_constant(
                    *first_operand,
                    find,
                    mutation,
                    below,
                    *after->first_operand,
                );
                lemma_pass_leaves_no_constant(
                    *second_operand,
                    find,
                    mutation,
                    below,
                    *after->second_operand,
                );
            },
            Term::Function { arguments, .. } => {
                let rewritten = after->arguments;
                assert forall|i: int| 0 <= i < rewritten.len() implies !(
                #[trigger] rewritten[i]).holds_constant_within(below) by {
                    lemma_pass_leaves_no_constant(
                        arguments[i],
                        find,
                        mutation,
                        below,
                        rewritten[i],
                    );
                }
            },
            Term::Sine(operand) => {
                lemma_pass_leaves_no_constant(*operand, find, mutation, below, *after->Sine_0);
            },
            Term::Cosine(operand) => {
                lemma_pass_leaves_no_constant(*operand, find, mutation, below, *after->Cosine_0);
            },
        }
    }
}

/// A pass changes nothing but through its mutation: where `find` picks no
/// node, the tree is after the pass what it was before.
pub proof fn lemma_pass_without_hits_changes_nothing(
    before: Term,
    find: spec_fn(Term, bool) -> bool,
    mutation: spec_fn(Term, Term) -> bool,
    depth: nat,
    after: Term,
)
    requires
        before.rewrites_to(find, mutation, depth, after),
        forall|node: Term| !#[trigger] find(node, true),
    ensures
        after == before,
    decreases depth,
{
    let visited = choose|visited: Term| #[trigger]
        before.visits_to(find, mutation, visited) && visited.descends_to(
            find,
            mutation,
            depth,
            after,
        );
    if depth > 0 {
        let below = (depth - 1) as nat;
        match before {
            Term::Symbol(_) => {},
            Term::Constant(_) => {},
            Term::EulerNumber => {},
            Term::UnaryOperation { operand, .. } => {
                lemma_pass_without_hits_changes_nothing(
                    *operand,
                    find,
                    mutation,
                    below,
                    *after->UnaryOperation_operand,
                );
            },
            Term::BinaryOperation { first_operand, second_operand, .. } => {
                lemma_pass_without_hits_changes_nothing(
                    *first_operand,
                    find,
                    mutation,
                    below,
                    *after->first_operand,
                );
                lemma_pass_without_hits_changes_nothing(
                    *second_operand,
                    find,
                    mutation,
                    below,
                    *after->second_operand,
                );
            },
            Term::Function { arguments, .. } => {
                let rewritten = after->arguments;
                assert forall|i: int| 0 <= i < arguments.len() implies rewritten[i]
                    == arguments[i] by {
                    lemma_pass_without_hits_changes_nothing(
                        arguments[i],
                        find,
                        mutation,
                        below,
                        rewritten[i],
                    );
                }
                assert(rewritten =~= arguments);
            },
            Term::Sine(operand) => {
                lemma_pass_without_hits_changes_nothing(
                    *operand,
                    find,
                    mutation,
                    below,
                    *after->Sine_0,
                );
            },
            Term::Cosine(operand) => {
                lemma_pass_without_hits_changes_nothing(
                    *operand,
                    find,
                    mutation,
                    below,
                    *after->Cosine_0,
                );
            },
        }
    }
}

/// The depth of a pass is no part of its result where the result fits
/// within it: a pass that may end with a tree no deeper than the pass may
/// end with the same tree when it goes deeper.
pub proof fn lemma_deeper_pass_is_the_same(
    before: Term,
    find: spec_fn(Term, bool) -> bool,
    mutation: spec_fn(Term, Term) -> bool,
    depth: nat,
    after: Term,
    deeper: nat,
)
    requires
        before.rewrites_to(find, mutation, depth, after),
        after.fits_within(depth),
        depth <= deeper,
    ensures
        before.rewrites_to(find, mutation, deeper, after),
    decreases depth,
{
    let visited = choose|visited: Term| #[trigger]
        before.visits_to(find, mutation, visited) && visited.descends_to(
            find,
            mutation,
            depth,
            after,
        );
    if deeper > 0 {
        if depth > 0 {
            let below = (depth - 1) as nat;
            let further = (deeper - 1) as nat;
            match visited {
                Term::Symbol(_) => {},
                Term::Constant(_) => {},
                Term::EulerNumber => {},
                Term::UnaryOperation { operand, .. } => {
                    lemma_deeper_pass_is_the_same(
                        *operand,
                        find,
                        mutation,
                        below,
                        *after->UnaryOperation_operand,
                        further,
                    );
                },
                Term::BinaryOperation { first_operand, second_operand, .. } => {
                    lemma_deeper_pass_is_the_same(
                        *first_operand,
                        find,
                        mutation,
                        below,
                        *after->first_operand,
                        further,
                    );
                    lemma_deeper_pass_is_the_same(
                        *second_operand,
                        find,
                        mutation,
                        below,
                        *after->second_operand,
                        further,
                    );
                },
                Term::Function { arguments, .. } => {
                    let rewritten = after->arguments;
                    assert forall|i: int| 0 <= i < arguments.len() implies (
                    #[trigger] arguments[i]).rewrites_to(find, mutation, further, rewritten[i]) by {
                        lemma_deeper_pass_is_the_same(
                            arguments[i],
                            find,
                            mutation,
                            below,
                            rewritten[i],
                            further,
                        );
                    }
                },
                Term::Sine(operand) => {
                    lemma_deeper_pass_is_the_same(
                        *operand,
                        find,
                        mutation,
                        below,
                        *after->Sine_0,
                        further,
                    );
                },
                Term::Cosine(operand) => {
                    lemma_deeper_pass_is_the_same(
                        *operand,
                        find,
                        mutation,
                        below,
                        *after->Cosine_0,
                        further,
                    );
                },
            }
        }
    }
}

} // verus!
