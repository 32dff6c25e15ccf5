//! Operator expressions: turning a flat run of operands and operators into a
//! tree that respects operator precedence.
//!
//! Parsing happens in three steps. First the longest prefix of the run that
//! forms a complete expression is kept. Then the prefix is reordered into
//! postfix order (shunting yard). Finally the postfix sequence is evaluated
//! with a stack of expressions.
use vstd::prelude::*;
use vstd::string::StringExecFns;

use crate::ast::error::ASTError;
use crate::ast::symbol::{Expr, ExprType, Symbol, SymbolType};
use crate::module::{spec_characters, spec_operands, spec_precedence, ModuleRange, Operator};
use crate::text::{decimalText, spec_decimal};

verus! {

#[derive(Debug)]
pub struct OperatorExpr {
    pub range: ModuleRange,
    pub operands: Vec<Expr>,
    pub operator: Operator,
}

/// One element of a flat operator expression.
#[derive(Debug)]
pub enum OperationComponent {
    Operator(ModuleRange, Operator),
    Expression(Expr),
}

/// What the scan of components accepts next.
#[derive(Debug, Clone, Copy, PartialEq, Eq, Structural)]
pub enum NextComponent {
    Operator,
    Operand,
    Either,
}

/// State of the scan that finds the longest complete prefix.
pub struct ScanState {
    pub next: NextComponent,
    pub difference: int,
    pub lastValid: nat,
    pub stopped: bool,
}

/// A parse tree over the positions of a component sequence: a leaf is the
/// expression at that position, a node the operator at that position applied
/// to its children.
pub enum Tree {
    Leaf(nat),
    Node(nat, Seq<Tree>),
}

pub open spec fn is_operator(c: OperationComponent) -> bool {
    c is Operator
}

/// Number of operands of a component (zero for an expression).
pub open spec fn arity(c: OperationComponent) -> int {
    match c {
        OperationComponent::Operator(_, op) => spec_operands(op) as int,
        OperationComponent::Expression(_) => 0,
    }
}

pub open spec fn precedence(c: OperationComponent) -> int {
    match c {
        OperationComponent::Operator(_, op) => spec_precedence(op) as int,
        OperationComponent::Expression(_) => 0,
    }
}

pub open spec fn scan_start() -> ScanState {
    ScanState { next: NextComponent::Either, difference: 0, lastValid: 0, stopped: false }
}

/// State after accepting a component that brings the operand balance to `difference`.
pub open spec fn scan_accept(difference: int, index: nat, lastValid: nat) -> ScanState {
    if difference < 0 {
        ScanState { next: NextComponent::Operator, difference, lastValid: index, stopped: false }
    } else if difference == 0 {
        // a finished operator expression is itself an operand
        ScanState { next: NextComponent::Operator, difference: -1, lastValid: index, stopped: false }
    } else {
        ScanState { next: NextComponent::Operand, difference, lastValid, stopped: false }
    }
}

/// One step of the scan; `index` counts the components seen including `c`.
pub open spec fn scan_step(s: ScanState, c: OperationComponent, index: nat) -> ScanState {
    if s.stopped {
        s
    } else {
        match c {
            OperationComponent::Operator(_, op) => {
                if s.next == NextComponent::Operand {
                    ScanState { stopped: true, ..s }
                } else {
                    scan_accept(s.difference + spec_operands(op), index, s.lastValid)
                }
            },
            OperationComponent::Expression(_) => {
                if s.next == NextComponent::Operator {
                    ScanState { stopped: true, ..s }
                } else {
                    scan_accept(s.difference - 1, index, s.lastValid)
                }
            },
        }
    }
}

/// The scan state after the first `n` components.
pub open spec fn scan(comps: Seq<OperationComponent>, n: nat) -> ScanState
    decreases n,
{
    if n == 0 || n > comps.len() {
        scan_start()
    } else {
        scan_step(scan(comps, (n - 1) as nat), comps[n - 1], n)
    }
}

/// Length of the longest prefix of `comps` that forms a complete expression.
pub open spec fn valid_length(comps: Seq<OperationComponent>) -> nat {
    scan(comps, comps.len()).lastValid
}

/// Shunting yard: places operator `j` given output queue `q` and operator stack `st`.
pub open spec fn settle(comps: Seq<OperationComponent>, j: nat, q: Seq<nat>, st: Seq<nat>) -> (Seq<nat>, Seq<nat>)
    decreases st.len(),
{
    if st.len() == 0 {
        (q, seq![j])
    } else {
        let top = st.last();
        let p = precedence(comps[j as int]);
        let pt = precedence(comps[top as int]);
        if p > pt {
            (q, st.push(j))
        } else if p == pt {
            (q.push(top), st.drop_last().push(j))
        } else {
            settle(comps, j, q.push(top), st.drop_last())
        }
    }
}

/// Output queue and operator stack after the first `n` components.
pub open spec fn shunt(comps: Seq<OperationComponent>, n: nat) -> (Seq<nat>, Seq<nat>)
    decreases n,
{
    if n == 0 || n > comps.len() {
        (seq![], seq![])
    } else {
        let (q, st) = shunt(comps, (n - 1) as nat);
        if is_operator(comps[n - 1]) {
            settle(comps, (n - 1) as nat, q, st)
        } else {
            (q.push((n - 1) as nat), st)
        }
    }
}

/// The positions of `comps` in postfix order.
pub open spec fn postfix(comps: Seq<OperationComponent>) -> Seq<nat> {
    let (q, st) = shunt(comps, comps.len());
    q + st.reverse()
}

/// Evaluation of a postfix sequence with a stack of trees.
pub open spec fn eval(comps: Seq<OperationComponent>, post: Seq<nat>) -> Seq<Tree>
    decreases post.len(),
{
    if post.len() == 0 {
        seq![]
    } else {
        let st = eval(comps, post.drop_last());
        let k = post.last();
        if is_operator(comps[k as int]) {
            let a = arity(comps[k as int]);
            st.take(st.len() - a).push(Tree::Node(k, st.skip(st.len() - a)))
        } else {
            st.push(Tree::Leaf(k))
        }
    }
}

/// The tree of the longest complete prefix of `comps`, if it has at least two components.
pub open spec fn infix_tree(comps: Seq<OperationComponent>) -> Option<Tree> {
    let v = valid_length(comps);
    if v <= 1 {
        None
    } else {
        let t = comps.take(v as int);
        Some(eval(t, postfix(t))[0])
    }
}

/// The range of an operator expression: the operator's range combined with its
/// operands' ranges, the last operand first.
pub open spec fn fold_range(r: ModuleRange, operands: Seq<Expr>) -> ModuleRange
    decreases operands.len(),
{
    if operands.len() == 0 {
        r
    } else {
        fold_range(r.spec_combined(operands.last().spec_range()), operands.drop_last())
    }
}

/// `e` is the expression that tree `t` over `comps` stands for.
pub open spec fn denotes(comps: Seq<OperationComponent>, e: Expr, t: Tree) -> bool
    decreases t,
{
    match t {
        Tree::Leaf(k) => k < comps.len() && comps[k as int] == OperationComponent::Expression(e),
        Tree::Node(k, children) => {
            &&& k < comps.len()
            &&& match comps[k as int] {
                OperationComponent::Operator(r, op) => match e {
                    Expr::Operator(oe) => {
                        &&& oe.operator == op
                        &&& oe.operands@.len() == children.len()
                        &&& oe.range == fold_range(r, oe.operands@)
                        &&& forall|m: int|
                            0 <= m < children.len() ==> denotes(comps, #[trigger] oe.operands@[m], children[m])
                    },
                    _ => false,
                },
                OperationComponent::Expression(_) => false,
            }
        },
    }
}

/// Of two binary operators between three operands, the one of higher
/// precedence binds tighter; of two with the same precedence, the left one
/// binds first.
pub proof fn law_binary_precedence(
    a: Expr,
    r1: ModuleRange,
    p: Operator,
    b: Expr,
    r2: ModuleRange,
    q: Operator,
    c: Expr,
)
    requires
        spec_operands(p) == 2,
        spec_operands(q) == 2,
    ensures
        ({
            let comps = seq![
                OperationComponent::Expression(a),
                OperationComponent::Operator(r1, p),
                OperationComponent::Expression(b),
                OperationComponent::Operator(r2, q),
                OperationComponent::Expression(c),
            ];
            infix_tree(comps) == Some(
                if spec_precedence(q) > spec_precedence(p) {
                    Tree::Node(1, seq![Tree::Leaf(0), Tree::Node(3, seq![Tree::Leaf(2), Tree::Leaf(4)])])
                } else {
                    Tree::Node(3, seq![Tree::Node(1, seq![Tree::Leaf(0), Tree::Leaf(2)]), Tree::Leaf(4)])
                },
            )
        }),
{
    let comps = seq![
        OperationComponent::Expression(a),
        OperationComponent::Operator(r1, p),
        OperationComponent::Expression(b),
        OperationComponent::Operator(r2, q),
        OperationComponent::Expression(c),
    ];
    assert(comps.len() == 5);
    assert(scan(comps, 0) == scan_start());
    assert(scan(comps, 1) == ScanState { next: NextComponent::Operator, difference: -1, lastValid: 1, stopped: false });
    assert(scan(comps, 2) == ScanState { next: NextComponent::Operand, difference: 1, lastValid: 1, stopped: false });
    assert(scan(comps, 3) == ScanState { next: NextComponent::Operator, difference: -1, lastValid: 3, stopped: false });
    assert(scan(comps, 4) == ScanState { next: NextComponent::Operand, difference: 1, lastValid: 3, stopped: false });
    assert(scan(comps, 5) == ScanState { next: NextComponent::Operator, difference: -1, lastValid: 5, stopped: false });
    assert(valid_length(comps) == 5);
    assert(comps.take(5) =~= comps);
    assert(shunt(comps, 0) == (Seq::<nat>::empty(), Seq::<nat>::empty()));
    assert(shunt(comps, 1) == (seq![0nat], Seq::<nat>::empty()));
    assert(eval(comps, Seq::<nat>::empty()) == Seq::<Tree>::empty());
    assert(shunt(comps, 2) == (seq![0nat], seq![1nat]));
    assert(shunt(comps, 3) == (seq![0nat, 2nat], seq![1nat]));
    let post = postfix(comps);
    if spec_precedence(q) > spec_precedence(p) {
        assert(shunt(comps, 4) == (seq![0nat, 2nat], seq![1nat, 3nat]));
        assert(shunt(comps, 5) == (seq![0nat, 2nat, 4nat], seq![1nat, 3nat]));
        assert(post =~= seq![0nat, 2nat, 4nat, 3nat, 1nat]);
        assert(post.take(1) =~= seq![0nat]);
        assert(post.take(2) =~= seq![0nat, 2nat]);
        assert(post.take(3) =~= seq![0nat, 2nat, 4nat]);
        assert(post.take(4) =~= seq![0nat, 2nat, 4nat, 3nat]);
        assert(eval(comps, post.take(1)) =~= seq![Tree::Leaf(0)]) by {
            assert(post.take(1).drop_last() =~= Seq::<nat>::empty());
        }
        assert(eval(comps, post.take(2)) =~= seq![Tree::Leaf(0), Tree::Leaf(2)]) by {
            assert(post.take(2).drop_last() =~= post.take(1));
        }
        assert(eval(comps, post.take(3)) =~= seq![Tree::Leaf(0), Tree::Leaf(2), Tree::Leaf(4)]) by {
            assert(post.take(3).drop_last() =~= post.take(2));
        }
        assert(eval(comps, post.take(4)) =~= seq![Tree::Leaf(0), Tree::Node(3, seq![Tree::Leaf(2), Tree::Leaf(4)])]) by {
            assert(post.take(4).drop_last() =~= post.take(3));
            let st = eval(comps, post.take(3));
            assert(st.skip(1) =~= seq![Tree::Leaf(2), Tree::Leaf(4)]);
            assert(st.take(1) =~= seq![Tree::Leaf(0)]);
        }
        assert(eval(comps, post) =~= seq![
            Tree::Node(1, seq![Tree::Leaf(0), Tree::Node(3, seq![Tree::Leaf(2), Tree::Leaf(4)])]),
        ]) by {
            assert(post.drop_last() =~= post.take(4));
            let st = eval(comps, post.take(4));
            assert(st.skip(0) =~= st);
            assert(st.take(0) =~= Seq::<Tree>::empty());
        }
    } else {
        assert(settle(comps, 3, seq![0nat, 2nat, 1nat], Seq::<nat>::empty()) == (seq![0nat, 2nat, 1nat], seq![3nat]));
        assert(seq![1nat].drop_last().push(3nat) =~= seq![3nat]);
        assert(seq![1nat].drop_last() =~= Seq::<nat>::empty());
        assert(shunt(comps, 4) == settle(comps, 3, seq![0nat, 2nat], seq![1nat]));
        assert(precedence(comps[3]) == spec_precedence(q) as int);
        assert(precedence(comps[1]) == spec_precedence(p) as int);
        assert(seq![0nat, 2nat].push(1nat) =~= seq![0nat, 2nat, 1nat]);
        assert(shunt(comps, 4) == (seq![0nat, 2nat, 1nat], seq![3nat]));
        assert(shunt(comps, 5) == (seq![0nat, 2nat, 1nat, 4nat], seq![3nat]));
        assert(post =~= seq![0nat, 2nat, 1nat, 4nat, 3nat]);
        assert(post.take(1) =~= seq![0nat]);
        assert(post.take(2) =~= seq![0nat, 2nat]);
        assert(post.take(3) =~= seq![0nat, 2nat, 1nat]);
        assert(post.take(4) =~= seq![0nat, 2nat, 1nat, 4nat]);
        assert(eval(comps, post.take(1)) =~= seq![Tree::Leaf(0)]) by {
            assert(post.take(1).drop_last() =~= Seq::<nat>::empty());
        }
        assert(eval(comps, post.take(2)) =~= seq![Tree::Leaf(0), Tree::Leaf(2)]) by {
            assert(post.take(2).drop_last() =~= post.take(1));
        }
        assert(eval(comps, post.take(3)) =~= seq![Tree::Node(1, seq![Tree::Leaf(0), Tree::Leaf(2)])]) by {
            assert(post.take(3).drop_last() =~= post.take(2));
            let st = eval(comps, post.take(2));
            assert(st.skip(0) =~= st);
            assert(st.take(0) =~= Seq::<Tree>::empty());
        }
        assert(eval(comps, post.take(4)) =~= seq![Tree::Node(1, seq![Tree::Leaf(0), Tree::Leaf(2)]), Tree::Leaf(4)]) by {
            assert(post.take(4).drop_last() =~= post.take(3));
        }
        assert(eval(comps, post) =~= seq![
            Tree::Node(3, seq![Tree::Node(1, seq![Tree::Leaf(0), Tree::Leaf(2)]), Tree::Leaf(4)]),
        ]) by {
            assert(post.drop_last() =~= post.take(4));
            let st = eval(comps, post.take(4));
            assert(st.skip(0) =~= st);
            assert(st.take(0) =~= Seq::<Tree>::empty());
        }
    }
}

/// Two operators of the same precedence separated by one that binds tighter
/// still group from the left: `a op1 b op2 c op3 d` with `op2` binding tighter
/// than `op1` and `op3` (which bind equally) reads `(a op1 (b op2 c)) op3 d`.
pub proof fn law_separated_equal_precedence(
    a: Expr,
    r1: ModuleRange,
    op1: Operator,
    b: Expr,
    r2: ModuleRange,
    op2: Operator,
    c: Expr,
    r3: ModuleRange,
    op3: Operator,
    d: Expr,
)
    requires
        spec_operands(op1) == 2,
        spec_operands(op2) == 2,
        spec_operands(op3) == 2,
        spec_precedence(op2) > spec_precedence(op1),
        spec_precedence(op3) == spec_precedence(op1),
    ensures
        ({
            let comps = seq![
                OperationComponent::Expression(a),
                OperationComponent::Operator(r1, op1),
                OperationComponent::Expression(b),
                OperationComponent::Operator(r2, op2),
                OperationComponent::Expression(c),
                OperationComponent::Operator(r3, op3),
                OperationComponent::Expression(d),
            ];
            infix_tree(comps) == Some(
                Tree::Node(5, seq![
                    Tree::Node(1, seq![Tree::Leaf(0), Tree::Node(3, seq![Tree::Leaf(2), Tree::Leaf(4)])]),
                    Tree::Leaf(6),
                ]),
            )
        }),
{
    let comps = seq![
        OperationComponent::Expression(a),
        OperationComponent::Operator(r1, op1),
        OperationComponent::Expression(b),
        OperationComponent::Operator(r2, op2),
        OperationComponent::Expression(c),
        OperationComponent::Operator(r3, op3),
        OperationComponent::Expression(d),
    ];
    assert(comps.len() == 7);
    assert(binary_run(comps));
    lemma_run_scan(comps, 7);
    assert(valid_length(comps) == 7);
    assert(comps.take(7) =~= comps);
    assert(precedence(comps[1]) == spec_precedence(op1) as int);
    assert(precedence(comps[3]) == spec_precedence(op2) as int);
    assert(precedence(comps[5]) == spec_precedence(op3) as int);
    assert(shunt(comps, 0) == (Seq::<nat>::empty(), Seq::<nat>::empty()));
    assert(shunt(comps, 1) == (seq![0nat], Seq::<nat>::empty()));
    assert(shunt(comps, 2) == (seq![0nat], seq![1nat]));
    assert(shunt(comps, 3) == (seq![0nat, 2nat], seq![1nat]));
    assert(seq![1nat].push(3nat) =~= seq![1nat, 3nat]);
    assert(shunt(comps, 4) == (seq![0nat, 2nat], seq![1nat, 3nat]));
    assert(shunt(comps, 5) == (seq![0nat, 2nat, 4nat], seq![1nat, 3nat]));
    assert(seq![1nat, 3nat].drop_last() =~= seq![1nat]);
    assert(seq![1nat].drop_last() =~= Seq::<nat>::empty());
    assert(Seq::<nat>::empty().push(5nat) =~= seq![5nat]);
    assert(seq![0nat, 2nat, 4nat].push(3nat) =~= seq![0nat, 2nat, 4nat, 3nat]);
    assert(seq![0nat, 2nat, 4nat, 3nat].push(1nat) =~= seq![0nat, 2nat, 4nat, 3nat, 1nat]);
    assert(settle(comps, 5, seq![0nat, 2nat, 4nat, 3nat], seq![1nat]) == (seq![0nat, 2nat, 4nat, 3nat, 1nat], seq![5nat]));
    assert(settle(comps, 5, seq![0nat, 2nat, 4nat], seq![1nat, 3nat]) == (seq![0nat, 2nat, 4nat, 3nat, 1nat], seq![5nat]));
    assert(shunt(comps, 6) == (seq![0nat, 2nat, 4nat, 3nat, 1nat], seq![5nat]));
    assert(shunt(comps, 7) == (seq![0nat, 2nat, 4nat, 3nat, 1nat, 6nat], seq![5nat]));
    let post = postfix(comps);
    assert(post =~= seq![0nat, 2nat, 4nat, 3nat, 1nat, 6nat, 5nat]);
    assert(eval(comps, Seq::<nat>::empty()) == Seq::<Tree>::empty());
    assert(eval(comps, post.take(1)) =~= seq![Tree::Leaf(0)]) by {
        assert(post.take(1).drop_last() =~= Seq::<nat>::empty());
    }
    assert(eval(comps, post.take(2)) =~= seq![Tree::Leaf(0), Tree::Leaf(2)]) by {
        assert(post.take(2).drop_last() =~= post.take(1));
    }
    assert(eval(comps, post.take(3)) =~= seq![Tree::Leaf(0), Tree::Leaf(2), Tree::Leaf(4)]) by {
        assert(post.take(3).drop_last() =~= post.take(2));
    }
    let n3 = Tree::Node(3, seq![Tree::Leaf(2), Tree::Leaf(4)]);
    assert(eval(comps, post.take(4)) =~= seq![Tree::Leaf(0), n3]) by {
        assert(post.take(4).drop_last() =~= post.take(3));
        let st = eval(comps, post.take(3));
        assert(st.skip(1) =~= seq![Tree::Leaf(2), Tree::Leaf(4)]);
        assert(st.take(1) =~= seq![Tree::Leaf(0)]);
    }
    let n1 = Tree::Node(1, seq![Tree::Leaf(0), n3]);
    assert(eval(comps, post.take(5)) =~= seq![n1]) by {
        assert(post.take(5).drop_last() =~= post.take(4));
        let st = eval(comps, post.take(4));
        assert(st.skip(0) =~= st);
        assert(st.take(0) =~= Seq::<Tree>::empty());
    }
    assert(eval(comps, post.take(6)) =~= seq![n1, Tree::Leaf(6)]) by {
        assert(post.take(6).drop_last() =~= post.take(5));
    }
    assert(eval(comps, post) =~= seq![Tree::Node(5, seq![n1, Tree::Leaf(6)])]) by {
        assert(post.drop_last() =~= post.take(6));
        let st = eval(comps, post.take(6));
        assert(st.skip(0) =~= st);
        assert(st.take(0) =~= Seq::<Tree>::empty());
    }
}

/// A postfix operator of one operand applies to the operand right before it,
/// ahead of a following binary operator that does not bind tighter.
pub proof fn law_postfix_operator(a: Expr, r1: ModuleRange, u: Operator, r2: ModuleRange, b: Operator, c: Expr)
    requires
        spec_operands(u) == 1,
        spec_operands(b) == 2,
        spec_precedence(u) >= spec_precedence(b),
    ensures
        ({
            let comps = seq![
                OperationComponent::Expression(a),
                OperationComponent::Operator(r1, u),
                OperationComponent::Operator(r2, b),
                OperationComponent::Expression(c),
            ];
            infix_tree(comps) == Some(Tree::Node(2, seq![Tree::Node(1, seq![Tree::Leaf(0)]), Tree::Leaf(3)]))
        }),
{
    let comps = seq![
        OperationComponent::Expression(a),
        OperationComponent::Operator(r1, u),
        OperationComponent::Operator(r2, b),
        OperationComponent::Expression(c),
    ];
    assert(comps.len() == 4);
    assert(scan(comps, 0) == scan_start());
    assert(scan(comps, 1) == ScanState { next: NextComponent::Operator, difference: -1, lastValid: 1, stopped: false });
    assert(scan(comps, 2) == ScanState { next: NextComponent::Operator, difference: -1, lastValid: 2, stopped: false });
    assert(scan(comps, 3) == ScanState { next: NextComponent::Operand, difference: 1, lastValid: 2, stopped: false });
    assert(scan(comps, 4) == ScanState { next: NextComponent::Operator, difference: -1, lastValid: 4, stopped: false });
    assert(valid_length(comps) == 4);
    assert(comps.take(4) =~= comps);
    assert(shunt(comps, 0) == (Seq::<nat>::empty(), Seq::<nat>::empty()));
    assert(shunt(comps, 1) == (seq![0nat], Seq::<nat>::empty()));
    assert(shunt(comps, 2) == (seq![0nat], seq![1nat]));
    assert(settle(comps, 2, seq![0nat, 1nat], Seq::<nat>::empty()) == (seq![0nat, 1nat], seq![2nat]));
    assert(seq![1nat].drop_last().push(2nat) =~= seq![2nat]);
    assert(seq![1nat].drop_last() =~= Seq::<nat>::empty());
    assert(seq![0nat].push(1nat) =~= seq![0nat, 1nat]);
    assert(shunt(comps, 3) == settle(comps, 2, seq![0nat], seq![1nat]));
    assert(shunt(comps, 3) == (seq![0nat, 1nat], seq![2nat]));
    assert(shunt(comps, 4) == (seq![0nat, 1nat, 3nat], seq![2nat]));
    let post = postfix(comps);
    assert(post =~= seq![0nat, 1nat, 3nat, 2nat]);
    assert(eval(comps, Seq::<nat>::empty()) == Seq::<Tree>::empty());
    assert(eval(comps, post.take(1)) =~= seq![Tree::Leaf(0)]) by {
        assert(post.take(1).drop_last() =~= Seq::<nat>::empty());
    }
    assert(eval(comps, post.take(2)) =~= seq![Tree::Node(1, seq![Tree::Leaf(0)])]) by {
        assert(post.take(2).drop_last() =~= post.take(1));
        let st = eval(comps, post.take(1));
        assert(st.skip(0) =~= st);
        assert(st.take(0) =~= Seq::<Tree>::empty());
    }
    assert(eval(comps, post.take(3)) =~= seq![Tree::Node(1, seq![Tree::Leaf(0)]), Tree::Leaf(3)]) by {
        assert(post.take(3).drop_last() =~= post.take(2));
    }
    assert(eval(comps, post) =~= seq![Tree::Node(2, seq![Tree::Node(1, seq![Tree::Leaf(0)]), Tree::Leaf(3)])]) by {
        assert(post.drop_last() =~= post.take(3));
        let st = eval(comps, post.take(3));
        assert(st.skip(0) =~= st);
        assert(st.take(0) =~= Seq::<Tree>::empty());
    }
}

/// The complete prefix is part of the components.
pub proof fn lemma_valid_length_bound(comps: Seq<OperationComponent>)
    ensures
        valid_length(comps) <= comps.len(),
{
    lemma_scan_facts(comps, comps.len());
}

/// Combining ranges into `r` keeps `r`'s module and never ends earlier than `r`.
pub proof fn lemma_fold_range(r: ModuleRange, operands: Seq<Expr>)
    requires
        r.wf(),
    ensures
        fold_range(r, operands).wf(),
        fold_range(r, operands).startPos.module == r.startPos.module,
        fold_range(r, operands).end() >= r.end(),
    decreases operands.len(),
{
    if operands.len() > 0 {
        let combined = r.spec_combined(operands.last().spec_range());
        assert(combined.wf());
        lemma_fold_range(combined, operands.drop_last());
    }
}

/// An operator expression that no component holds as a whole is built around one of the operator components.
pub proof fn lemma_root_operator(comps: Seq<OperationComponent>, oe: OperatorExpr, t: Tree)
    requires
        denotes(comps, Expr::Operator(oe), t),
        forall|i: int| 0 <= i < comps.len() ==> !(#[trigger] comps[i] matches OperationComponent::Expression(Expr::Operator(_))),
    ensures
        exists|k: int|
            0 <= k < comps.len() && #[trigger] comps[k] is Operator && oe.range == fold_range(comps[k]->Operator_0, oe.operands@),
{
    match t {
        Tree::Leaf(k) => {
            assert(comps[k as int] matches OperationComponent::Expression(Expr::Operator(_)));
        },
        Tree::Node(k, _) => {
            match comps[k as int] {
                OperationComponent::Operator(r, op) => {
                    assert(comps[k as int] == OperationComponent::Operator(r, op));
                    assert(oe.range == fold_range(r, oe.operands@));
                },
                OperationComponent::Expression(_) => {},
            }
        },
    }
}

/// Every operator expression inside `e` has as many operands as its operator takes.
pub open spec fn operand_counts_match(e: Expr) -> bool
    decreases e,
{
    match e {
        Expr::Operator(oe) => {
            &&& oe.operands@.len() == spec_operands(oe.operator)
            &&& forall|m: int| 0 <= m < oe.operands@.len() ==> operand_counts_match(#[trigger] oe.operands@[m])
        },
        _ => true,
    }
}

/// Every expression among the components satisfies `operand_counts_match`.
pub open spec fn operands_counts_match(comps: Seq<OperationComponent>) -> bool {
    forall|i: int| #![trigger comps[i]] 0 <= i < comps.len() ==> match comps[i] {
        OperationComponent::Expression(x) => operand_counts_match(x),
        _ => true,
    }
}

pub open spec fn component_wf(c: OperationComponent) -> bool {
    match c {
        OperationComponent::Operator(r, _) => r.wf(),
        OperationComponent::Expression(e) => e.spec_range().wf(),
    }
}

pub open spec fn components_wf(comps: Seq<OperationComponent>) -> bool {
    forall|i: int| 0 <= i < comps.len() ==> component_wf(#[trigger] comps[i])
}

pub open spec fn start_of(c: OperationComponent) -> crate::module::ModulePos {
    match c {
        OperationComponent::Operator(r, _) => r.startPos,
        OperationComponent::Expression(e) => e.spec_range().startPos,
    }
}


/// Height of the evaluation stack after evaluating `q` (when nothing underflows).
pub open spec fn height(comps: Seq<OperationComponent>, q: Seq<nat>) -> int
    decreases q.len(),
{
    if q.len() == 0 {
        0
    } else {
        height(comps, q.drop_last()) + 1 - arity(comps[q.last() as int])
    }
}

/// Evaluating `q` never pops from a stack with too few entries.
pub open spec fn eval_ok(comps: Seq<OperationComponent>, q: Seq<nat>) -> bool
    decreases q.len(),
{
    if q.len() == 0 {
        true
    } else {
        eval_ok(comps, q.drop_last()) && height(comps, q.drop_last()) >= arity(comps[q.last() as int])
    }
}

/// Operands still owed to the operators waiting on the stack.
pub open spec fn need(comps: Seq<OperationComponent>, st: Seq<nat>) -> int
    decreases st.len(),
{
    if st.len() == 0 {
        0
    } else {
        need(comps, st.drop_last()) + arity(comps[st.last() as int]) - 1
    }
}

pub open spec fn all_ops(comps: Seq<OperationComponent>, st: Seq<nat>) -> bool {
    forall|m: int| 0 <= m < st.len() ==> #[trigger] st[m] < comps.len() && is_operator(comps[st[m] as int])
}

pub open spec fn in_bounds(s: Seq<nat>, n: nat) -> bool {
    forall|m: int| 0 <= m < s.len() ==> #[trigger] s[m] < n
}

/// Number of operators among the first `n` components.
pub open spec fn count_ops(comps: Seq<OperationComponent>, n: nat) -> nat
    decreases n,
{
    if n == 0 || n > comps.len() {
        0
    } else {
        count_ops(comps, (n - 1) as nat) + if is_operator(comps[n - 1]) { 1nat } else { 0nat }
    }
}

/// Every node of `t` has as many children as its operator takes.
pub open spec fn tree_wf(comps: Seq<OperationComponent>, t: Tree) -> bool
    decreases t,
{
    match t {
        Tree::Leaf(k) => k < comps.len() && !is_operator(comps[k as int]),
        Tree::Node(k, children) => {
            &&& k < comps.len()
            &&& is_operator(comps[k as int])
            &&& children.len() == arity(comps[k as int])
            &&& forall|m: int| 0 <= m < children.len() ==> tree_wf(comps, #[trigger] children[m])
        },
    }
}

proof fn lemma_operator_arity(c: OperationComponent)
    ensures
        is_operator(c) ==> 1 <= arity(c) <= 2,
        !is_operator(c) ==> arity(c) == 0,
{
}

proof fn lemma_need_bounds(comps: Seq<OperationComponent>, st: Seq<nat>)
    requires
        all_ops(comps, st),
    ensures
        need(comps, st) >= 0,
        st.len() > 0 ==> need(comps, st) >= arity(comps[st.last() as int]) - 1,
    decreases st.len(),
{
    if st.len() > 0 {
        assert(all_ops(comps, st.drop_last())) by {
            assert forall|m: int| 0 <= m < st.drop_last().len() implies #[trigger] st.drop_last()[m] < comps.len()
                && is_operator(comps[st.drop_last()[m] as int]) by {
                assert(st.drop_last()[m] == st[m]);
            }
        }
        lemma_need_bounds(comps, st.drop_last());
        lemma_operator_arity(comps[st.last() as int]);
    }
}

proof fn lemma_push_op_ok(comps: Seq<OperationComponent>, q: Seq<nat>, k: nat)
    requires
        eval_ok(comps, q),
        height(comps, q) >= arity(comps[k as int]),
    ensures
        eval_ok(comps, q.push(k)),
        height(comps, q.push(k)) == height(comps, q) + 1 - arity(comps[k as int]),
{
    assert(q.push(k).drop_last() == q);
}

proof fn lemma_settle(comps: Seq<OperationComponent>, j: nat, q: Seq<nat>, st: Seq<nat>, bound: nat)
    requires
        j < bound <= comps.len(),
        is_operator(comps[j as int]),
        eval_ok(comps, q),
        all_ops(comps, st),
        in_bounds(q, bound),
        in_bounds(st, bound),
        st.len() == 0 || height(comps, q) - need(comps, st) >= 1,
    ensures
        ({
            let (q2, st2) = settle(comps, j, q, st);
            &&& eval_ok(comps, q2)
            &&& all_ops(comps, st2)
            &&& in_bounds(q2, bound)
            &&& in_bounds(st2, bound)
            &&& st2.len() > 0
            &&& height(comps, q2) - need(comps, st2) == height(comps, q) - need(comps, st) - (arity(comps[j as int]) - 1)
        }),
    decreases st.len(),
{
    if st.len() == 0 {
        assert(seq![j].drop_last() =~= Seq::<nat>::empty());
        assert(seq![j].last() == j);
        assert(need(comps, Seq::<nat>::empty()) == 0);
        assert(need(comps, seq![j]) == arity(comps[j as int]) - 1);
        assert(in_bounds(seq![j], bound));
        assert(all_ops(comps, seq![j]));
    } else {
        let top = st.last();
        let rest = st.drop_last();
        assert(st[st.len() - 1] == top);
        assert(all_ops(comps, rest)) by {
            assert forall|m: int| 0 <= m < rest.len() implies #[trigger] rest[m] < comps.len()
                && is_operator(comps[rest[m] as int]) by {
                assert(rest[m] == st[m]);
            }
        }
        assert(in_bounds(rest, bound)) by {
            assert forall|m: int| 0 <= m < rest.len() implies #[trigger] rest[m] < bound by {
                assert(rest[m] == st[m]);
            }
        }
        lemma_need_bounds(comps, rest);
        lemma_operator_arity(comps[top as int]);
        lemma_operator_arity(comps[j as int]);
        let p = precedence(comps[j as int]);
        let pt = precedence(comps[top as int]);
        assert(need(comps, st) == need(comps, rest) + arity(comps[top as int]) - 1);
        if p > pt {
            assert(st.push(j).drop_last() == st);
            assert(need(comps, st.push(j)) == need(comps, st) + arity(comps[j as int]) - 1);
            assert(all_ops(comps, st.push(j))) by {
                assert forall|m: int| 0 <= m < st.push(j).len() implies #[trigger] st.push(j)[m] < comps.len()
                    && is_operator(comps[st.push(j)[m] as int]) by {
                    if m < st.len() {
                        assert(st.push(j)[m] == st[m]);
                    }
                }
            }
            assert(in_bounds(st.push(j), bound)) by {
                assert forall|m: int| 0 <= m < st.push(j).len() implies #[trigger] st.push(j)[m] < bound by {
                    if m < st.len() {
                        assert(st.push(j)[m] == st[m]);
                    }
                }
            }
        } else {
            lemma_push_op_ok(comps, q, top);
            assert(in_bounds(q.push(top), bound)) by {
                assert forall|m: int| 0 <= m < q.push(top).len() implies #[trigger] q.push(top)[m] < bound by {
                    if m < q.len() {
                        assert(q.push(top)[m] == q[m]);
                    }
                }
            }
            if p == pt {
                let st2 = rest.push(j);
                assert(st2.drop_last() == rest);
                assert(need(comps, st2) == need(comps, rest) + arity(comps[j as int]) - 1);
                assert(in_bounds(st2, bound)) by {
                    assert forall|m: int| 0 <= m < st2.len() implies #[trigger] st2[m] < bound by {
                        if m < rest.len() {
                            assert(st2[m] == rest[m]);
                        }
                    }
                }
                assert(all_ops(comps, st2)) by {
                    assert forall|m: int| 0 <= m < st2.len() implies #[trigger] st2[m] < comps.len()
                        && is_operator(comps[st2[m] as int]) by {
                        if m < rest.len() {
                            assert(st2[m] == rest[m]);
                        }
                    }
                }
            } else {
                lemma_settle(comps, j, q.push(top), rest, bound);
            }
        }
    }
}


proof fn lemma_scan_facts(comps: Seq<OperationComponent>, n: nat)
    requires
        n <= comps.len(),
    ensures
        scan(comps, n).lastValid <= n,
        !scan(comps, n).stopped ==> {
            let s = scan(comps, n);
            &&& (n == 0 <==> s.next == NextComponent::Either)
            &&& (n == 0 ==> s.difference == 0)
            &&& (s.next == NextComponent::Operator ==> s.difference == -1)
            &&& (s.next == NextComponent::Operand ==> 1 <= s.difference <= 2)
            &&& (s.next != NextComponent::Operand ==> s.lastValid == n)
        },
        !scan(comps, scan(comps, n).lastValid).stopped,
        scan(comps, scan(comps, n).lastValid).next != NextComponent::Operand,
        scan(comps, scan(comps, n).lastValid).lastValid == scan(comps, n).lastValid,
        scan(comps, n).stopped ==> n > 0,
    decreases n,
{
    if n > 0 {
        lemma_scan_facts(comps, (n - 1) as nat);
        lemma_operator_arity(comps[n - 1]);
    }
}

proof fn lemma_scan_stopped(comps: Seq<OperationComponent>, n: nat, m: nat)
    requires
        n <= m <= comps.len(),
        scan(comps, n).stopped,
    ensures
        scan(comps, m) == scan(comps, n),
    decreases m - n,
{
    if m > n {
        lemma_scan_stopped(comps, n, (m - 1) as nat);
    }
}

proof fn lemma_scan_prefix(comps: Seq<OperationComponent>, v: nat, n: nat)
    requires
        n <= v <= comps.len(),
    ensures
        scan(comps.take(v as int), n) == scan(comps, n),
        shunt(comps.take(v as int), n) == shunt(comps, n),
        count_ops(comps.take(v as int), n) == count_ops(comps, n),
    decreases n,
{
    if n > 0 {
        lemma_scan_prefix(comps, v, (n - 1) as nat);
        lemma_shunt_bounds(comps, (n - 1) as nat);
        let (q0, st0) = shunt(comps, (n - 1) as nat);
        assert(in_bounds(st0, v)) by {
            assert forall|m: int| 0 <= m < st0.len() implies #[trigger] st0[m] < v by {
                assert(st0[m] < n - 1);
            }
        }
        assert(comps.take(v as int)[n - 1] == comps[n - 1]);
        lemma_settle_prefix(comps, v, (n - 1) as nat, shunt(comps, (n - 1) as nat).0, shunt(comps, (n - 1) as nat).1);
    }
}

proof fn lemma_settle_prefix(comps: Seq<OperationComponent>, v: nat, j: nat, q: Seq<nat>, st: Seq<nat>)
    requires
        j < v <= comps.len(),
        in_bounds(st, v),
    ensures
        settle(comps.take(v as int), j, q, st) == settle(comps, j, q, st),
    decreases st.len(),
{
    if st.len() > 0 {
        assert(st[st.len() - 1] < v);
        assert(comps.take(v as int)[st.last() as int] == comps[st.last() as int]);
        assert(comps.take(v as int)[j as int] == comps[j as int]);
        assert(in_bounds(st.drop_last(), v)) by {
            assert forall|m: int| 0 <= m < st.drop_last().len() implies #[trigger] st.drop_last()[m] < v by {
                assert(st.drop_last()[m] == st[m]);
            }
        }
        lemma_settle_prefix(comps, v, j, q.push(st.last()), st.drop_last());
    }
}

proof fn lemma_shunt_invariant(comps: Seq<OperationComponent>, n: nat)
    requires
        n <= comps.len(),
        !scan(comps, n).stopped,
    ensures
        ({
            let (q, st) = shunt(comps, n);
            let s = scan(comps, n);
            &&& eval_ok(comps, q)
            &&& all_ops(comps, st)
            &&& in_bounds(q, n)
            &&& in_bounds(st, n)
            &&& height(comps, q) - need(comps, st) == -s.difference + if s.next == NextComponent::Operand { 1int } else { 0int }
            &&& (count_ops(comps, n) > 0 ==> st.len() > 0)
            &&& (count_ops(comps, n) == 0 ==> n <= 1)
        }),
    decreases n,
{
    lemma_scan_facts(comps, n);
    if n == 0 {
        assert(eval_ok(comps, Seq::<nat>::empty()));
        assert(height(comps, Seq::<nat>::empty()) == 0);
        assert(need(comps, Seq::<nat>::empty()) == 0);
    } else {
        let prev = (n - 1) as nat;
        assert(!scan(comps, prev).stopped);
        lemma_shunt_invariant(comps, prev);
        lemma_scan_facts(comps, prev);
        let (q, st) = shunt(comps, prev);
        let c = comps[prev as int];
        lemma_operator_arity(c);
        lemma_need_bounds(comps, st);
        assert(in_bounds(q, n)) by {
            assert forall|m: int| 0 <= m < q.len() implies #[trigger] q[m] < n by {
                assert(q[m] < prev);
            }
        }
        assert(in_bounds(st, n)) by {
            assert forall|m: int| 0 <= m < st.len() implies #[trigger] st[m] < n by {
                assert(st[m] < prev);
            }
        }
        if is_operator(c) {
            lemma_settle(comps, prev, q, st, n);
        } else {
            let q2 = q.push(prev);
            lemma_push_op_ok(comps, q, prev);
            assert(in_bounds(q2, n)) by {
                assert forall|m: int| 0 <= m < q2.len() implies #[trigger] q2[m] < n by {
                    if m < q.len() {
                        assert(q2[m] == q[m]);
                    }
                }
            }
        }
    }
}

/// Facts about the postfix form of the longest complete prefix.
proof fn lemma_postfix_final(comps: Seq<OperationComponent>)
    requires
        valid_length(comps) >= 2,
    ensures
        ({
            let v = valid_length(comps);
            let t = comps.take(v as int);
            let post = postfix(t);
            &&& v <= comps.len()
            &&& eval_ok(t, post)
            &&& height(t, post) == 1
            &&& in_bounds(post, v)
            &&& post.len() > 0
            &&& is_operator(t[post.last() as int])
        }),
{
    let v = valid_length(comps);
    lemma_scan_facts(comps, comps.len());
    let t = comps.take(v as int);
    lemma_scan_prefix(comps, v, v);
    assert(t.len() == v);
    lemma_scan_facts(comps, v);
    lemma_shunt_invariant(t, v);
    lemma_scan_facts(t, v);
    let (q, st) = shunt(t, v);
    assert(scan(t, v).next == NextComponent::Operator);
    assert(count_ops(t, v) > 0);
    lemma_drain(t, q, st, v);
    assert(st.reverse().last() == st[0]);
    assert((q + st.reverse()).last() == st[0]);
}

/// Emptying the operator stack onto the queue keeps evaluation safe.
proof fn lemma_drain(comps: Seq<OperationComponent>, q: Seq<nat>, st: Seq<nat>, bound: nat)
    requires
        bound <= comps.len(),
        eval_ok(comps, q),
        all_ops(comps, st),
        in_bounds(q, bound),
        in_bounds(st, bound),
        height(comps, q) - need(comps, st) >= 1,
    ensures
        eval_ok(comps, q + st.reverse()),
        height(comps, q + st.reverse()) == height(comps, q) - need(comps, st),
        in_bounds(q + st.reverse(), bound),
    decreases st.len(),
{
    if st.len() == 0 {
        assert(q + st.reverse() == q);
    } else {
        let top = st.last();
        let rest = st.drop_last();
        assert(st[st.len() - 1] == top);
        assert(all_ops(comps, rest)) by {
            assert forall|m: int| 0 <= m < rest.len() implies #[trigger] rest[m] < comps.len()
                && is_operator(comps[rest[m] as int]) by {
                assert(rest[m] == st[m]);
            }
        }
        assert(in_bounds(rest, bound)) by {
            assert forall|m: int| 0 <= m < rest.len() implies #[trigger] rest[m] < bound by {
                assert(rest[m] == st[m]);
            }
        }
        lemma_need_bounds(comps, rest);
        lemma_operator_arity(comps[top as int]);
        lemma_push_op_ok(comps, q, top);
        assert(in_bounds(q.push(top), bound)) by {
            assert forall|m: int| 0 <= m < q.push(top).len() implies #[trigger] q.push(top)[m] < bound by {
                if m < q.len() {
                    assert(q.push(top)[m] == q[m]);
                }
            }
        }
        lemma_drain(comps, q.push(top), rest, bound);
        assert(q + st.reverse() == q.push(top) + rest.reverse());
    }
}


proof fn lemma_settle_bounds(comps: Seq<OperationComponent>, j: nat, q: Seq<nat>, st: Seq<nat>, bound: nat)
    requires
        j < bound,
        in_bounds(q, bound),
        in_bounds(st, bound),
    ensures
        in_bounds(settle(comps, j, q, st).0, bound),
        in_bounds(settle(comps, j, q, st).1, bound),
    decreases st.len(),
{
    if st.len() == 0 {
        assert(in_bounds(seq![j], bound));
    } else {
        let top = st.last();
        let rest = st.drop_last();
        assert(st[st.len() - 1] == top);
        assert(in_bounds(rest, bound)) by {
            assert forall|m: int| 0 <= m < rest.len() implies #[trigger] rest[m] < bound by {
                assert(rest[m] == st[m]);
            }
        }
        assert(in_bounds(q.push(top), bound)) by {
            assert forall|m: int| 0 <= m < q.push(top).len() implies #[trigger] q.push(top)[m] < bound by {
                if m < q.len() {
                    assert(q.push(top)[m] == q[m]);
                }
            }
        }
        assert(in_bounds(st.push(j), bound)) by {
            assert forall|m: int| 0 <= m < st.push(j).len() implies #[trigger] st.push(j)[m] < bound by {
                if m < st.len() {
                    assert(st.push(j)[m] == st[m]);
                }
            }
        }
        assert(in_bounds(rest.push(j), bound)) by {
            assert forall|m: int| 0 <= m < rest.push(j).len() implies #[trigger] rest.push(j)[m] < bound by {
                if m < rest.len() {
                    assert(rest.push(j)[m] == rest[m]);
                }
            }
        }
        lemma_settle_bounds(comps, j, q.push(top), rest, bound);
    }
}

proof fn lemma_shunt_bounds(comps: Seq<OperationComponent>, n: nat)
    requires
        n <= comps.len(),
    ensures
        in_bounds(shunt(comps, n).0, n),
        in_bounds(shunt(comps, n).1, n),
    decreases n,
{
    if n > 0 {
        let prev = (n - 1) as nat;
        lemma_shunt_bounds(comps, prev);
        let (q, st) = shunt(comps, prev);
        assert(in_bounds(q, n)) by {
            assert forall|m: int| 0 <= m < q.len() implies #[trigger] q[m] < n by {
                assert(q[m] < prev);
            }
        }
        assert(in_bounds(st, n)) by {
            assert forall|m: int| 0 <= m < st.len() implies #[trigger] st[m] < n by {
                assert(st[m] < prev);
            }
        }
        lemma_settle_bounds(comps, prev, q, st, n);
        assert(in_bounds(q.push(prev), n)) by {
            assert forall|m: int| 0 <= m < q.push(prev).len() implies #[trigger] q.push(prev)[m] < n by {
                if m < q.len() {
                    assert(q.push(prev)[m] == q[m]);
                }
            }
        }
    }
}


proof fn lemma_eval(comps: Seq<OperationComponent>, q: Seq<nat>)
    requires
        eval_ok(comps, q),
        in_bounds(q, comps.len()),
    ensures
        eval(comps, q).len() == height(comps, q),
        forall|m: int| 0 <= m < eval(comps, q).len() ==> tree_wf(comps, #[trigger] eval(comps, q)[m]),
        q.len() > 0 && is_operator(comps[q.last() as int]) ==> eval(comps, q).last() is Node,
    decreases q.len(),
{
    if q.len() > 0 {
        let rest = q.drop_last();
        assert(in_bounds(rest, comps.len())) by {
            assert forall|m: int| 0 <= m < rest.len() implies #[trigger] rest[m] < comps.len() by {
                assert(rest[m] == q[m]);
            }
        }
        lemma_eval(comps, rest);
        let k = q.last();
        assert(q[q.len() - 1] == k);
        let st = eval(comps, rest);
        lemma_operator_arity(comps[k as int]);
        if is_operator(comps[k as int]) {
            let a = arity(comps[k as int]);
            let children = st.skip(st.len() - a);
            let node = Tree::Node(k, children);
            assert(tree_wf(comps, node)) by {
                assert forall|m: int| 0 <= m < children.len() implies tree_wf(comps, #[trigger] children[m]) by {
                    assert(children[m] == st[st.len() - a + m]);
                }
            }
            let r = st.take(st.len() - a).push(node);
            assert forall|m: int| 0 <= m < r.len() implies tree_wf(comps, #[trigger] r[m]) by {
                if m < st.len() - a {
                    assert(r[m] == st[m]);
                }
            }
        } else {
            let r = st.push(Tree::Leaf(k));
            assert forall|m: int| 0 <= m < r.len() implies tree_wf(comps, #[trigger] r[m]) by {
                if m < st.len() {
                    assert(r[m] == st[m]);
                }
            }
        }
    }
}

/// An expression that a well formed tree stands for gives every operator the
/// number of operands it takes.
proof fn lemma_denotes_counts(comps: Seq<OperationComponent>, e: Expr, t: Tree)
    requires
        denotes(comps, e, t),
        tree_wf(comps, t),
        operands_counts_match(comps),
    ensures
        operand_counts_match(e),
    decreases t,
{
    match t {
        Tree::Leaf(k) => {
            assert(comps[k as int] == OperationComponent::Expression(e));
        },
        Tree::Node(k, children) => {
            match e {
                Expr::Operator(oe) => {
                    assert forall|m: int| 0 <= m < oe.operands@.len() implies operand_counts_match(
                        #[trigger] oe.operands@[m],
                    ) by {
                        assert(denotes(comps, oe.operands@[m], children[m]));
                        assert(tree_wf(comps, children[m]));
                        lemma_denotes_counts(comps, oe.operands@[m], children[m]);
                    }
                },
                _ => {},
            }
        },
    }
}


/// The positions of the leaves of `t`, from left to right.
pub open spec fn tree_leaves(t: Tree) -> Seq<nat>
    decreases t,
{
    match t {
        Tree::Leaf(k) => seq![k],
        Tree::Node(_, children) => forest_leaves(children),
    }
}

/// The positions of the leaves of the trees `ts`, tree after tree.
pub open spec fn forest_leaves(ts: Seq<Tree>) -> Seq<nat>
    decreases ts,
{
    if ts.len() == 0 {
        seq![]
    } else {
        forest_leaves(ts.subrange(0, ts.len() - 1)) + tree_leaves(ts[ts.len() - 1])
    }
}

/// The positions of the expressions among the first `n` components, in increasing order.
pub open spec fn expression_positions(comps: Seq<OperationComponent>, n: nat) -> Seq<nat>
    decreases n,
{
    if n == 0 || n > comps.len() {
        seq![]
    } else {
        expression_positions(comps, (n - 1) as nat) + if is_operator(comps[n - 1]) {
            Seq::<nat>::empty()
        } else {
            seq![(n - 1) as nat]
        }
    }
}

/// The entries of `q` that are positions of expressions, in order.
pub open spec fn expressions_in(comps: Seq<OperationComponent>, q: Seq<nat>) -> Seq<nat>
    decreases q.len(),
{
    if q.len() == 0 {
        seq![]
    } else {
        expressions_in(comps, q.drop_last()) + if is_operator(comps[q.last() as int]) {
            Seq::<nat>::empty()
        } else {
            seq![q.last()]
        }
    }
}

/// The leaves of the tree of an operator expression are the expressions of the
/// complete prefix of the components, each exactly once and from left to right.
/// (`denotes` ties leaf `k` to the expression at component `k`.)
pub proof fn law_leaves_in_order(comps: Seq<OperationComponent>)
    requires
        infix_tree(comps) is Some,
    ensures
        tree_leaves(infix_tree(comps).unwrap()) == expression_positions(comps, valid_length(comps)),
{
    let v = valid_length(comps);
    lemma_postfix_final(comps);
    let t = comps.take(v as int);
    let post = postfix(t);
    let (q, st) = shunt(t, v);
    lemma_shunt_leaves(t, v);
    lemma_all_ops_reverse(t, st);
    lemma_expressions_in_concat(t, q, st.reverse());
    lemma_expressions_in_ops(t, st.reverse());
    assert(expressions_in(t, post) == expressions_in(t, q));
    lemma_eval(t, post);
    lemma_eval_leaves(t, post);
    let trees = eval(t, post);
    assert(trees.len() == 1);
    assert(trees.subrange(0, 0) =~= Seq::<Tree>::empty());
    assert(forest_leaves(Seq::<Tree>::empty()) == Seq::<nat>::empty());
    assert(forest_leaves(trees) =~= tree_leaves(trees[0]));
    lemma_expression_positions_prefix(comps, v, v);
}

proof fn lemma_expression_positions_prefix(comps: Seq<OperationComponent>, v: nat, n: nat)
    requires
        n <= v <= comps.len(),
    ensures
        expression_positions(comps.take(v as int), n) == expression_positions(comps, n),
    decreases n,
{
    if n > 0 {
        lemma_expression_positions_prefix(comps, v, (n - 1) as nat);
        assert(comps.take(v as int)[n - 1] == comps[n - 1]);
    }
}

proof fn lemma_forest_concat(a: Seq<Tree>, b: Seq<Tree>)
    ensures
        forest_leaves(a + b) == forest_leaves(a) + forest_leaves(b),
    decreases b.len(),
{
    if b.len() == 0 {
        assert(a + b =~= a);
        assert(forest_leaves(a) + forest_leaves(b) =~= forest_leaves(a));
    } else {
        let ab = a + b;
        assert(ab.subrange(0, ab.len() - 1) =~= a + b.subrange(0, b.len() - 1));
        assert(ab[ab.len() - 1] == b[b.len() - 1]);
        lemma_forest_concat(a, b.subrange(0, b.len() - 1));
        assert(forest_leaves(ab) =~= forest_leaves(a) + forest_leaves(b));
    }
}

proof fn lemma_expressions_in_concat(comps: Seq<OperationComponent>, a: Seq<nat>, b: Seq<nat>)
    ensures
        expressions_in(comps, a + b) == expressions_in(comps, a) + expressions_in(comps, b),
    decreases b.len(),
{
    if b.len() == 0 {
        assert(a + b =~= a);
        assert(expressions_in(comps, a) + expressions_in(comps, b) =~= expressions_in(comps, a));
    } else {
        let ab = a + b;
        assert(ab.drop_last() =~= a + b.drop_last());
        assert(ab.last() == b.last());
        lemma_expressions_in_concat(comps, a, b.drop_last());
        assert(expressions_in(comps, ab) =~= expressions_in(comps, a) + expressions_in(comps, b));
    }
}

proof fn lemma_expressions_in_ops(comps: Seq<OperationComponent>, st: Seq<nat>)
    requires
        all_ops(comps, st),
    ensures
        expressions_in(comps, st) == Seq::<nat>::empty(),
    decreases st.len(),
{
    if st.len() > 0 {
        assert(all_ops(comps, st.drop_last())) by {
            assert forall|m: int| 0 <= m < st.drop_last().len() implies #[trigger] st.drop_last()[m] < comps.len()
                && is_operator(comps[st.drop_last()[m] as int]) by {
                assert(st.drop_last()[m] == st[m]);
            }
        }
        lemma_expressions_in_ops(comps, st.drop_last());
        assert(st[st.len() - 1] == st.last());
        assert(expressions_in(comps, st) =~= Seq::<nat>::empty());
    }
}

proof fn lemma_all_ops_reverse(comps: Seq<OperationComponent>, st: Seq<nat>)
    requires
        all_ops(comps, st),
    ensures
        all_ops(comps, st.reverse()),
{
    assert forall|m: int| 0 <= m < st.reverse().len() implies #[trigger] st.reverse()[m] < comps.len()
        && is_operator(comps[st.reverse()[m] as int]) by {
        assert(st.reverse()[m] == st[st.len() - 1 - m]);
    }
}

/// Placing an operator moves only operators to the queue.
proof fn lemma_settle_leaves(comps: Seq<OperationComponent>, j: nat, q: Seq<nat>, st: Seq<nat>)
    requires
        j < comps.len(),
        is_operator(comps[j as int]),
        all_ops(comps, st),
    ensures
        expressions_in(comps, settle(comps, j, q, st).0) == expressions_in(comps, q),
        all_ops(comps, settle(comps, j, q, st).1),
    decreases st.len(),
{
    if st.len() == 0 {
        assert(all_ops(comps, seq![j]));
    } else {
        let top = st.last();
        let rest = st.drop_last();
        assert(st[st.len() - 1] == top);
        assert(all_ops(comps, rest)) by {
            assert forall|m: int| 0 <= m < rest.len() implies #[trigger] rest[m] < comps.len()
                && is_operator(comps[rest[m] as int]) by {
                assert(rest[m] == st[m]);
            }
        }
        assert(q.push(top).drop_last() == q);
        assert(expressions_in(comps, q.push(top)) =~= expressions_in(comps, q));
        assert(all_ops(comps, st.push(j))) by {
            assert forall|m: int| 0 <= m < st.push(j).len() implies #[trigger] st.push(j)[m] < comps.len()
                && is_operator(comps[st.push(j)[m] as int]) by {
                if m < st.len() {
                    assert(st.push(j)[m] == st[m]);
                }
            }
        }
        assert(all_ops(comps, rest.push(j))) by {
            assert forall|m: int| 0 <= m < rest.push(j).len() implies #[trigger] rest.push(j)[m] < comps.len()
                && is_operator(comps[rest.push(j)[m] as int]) by {
                if m < rest.len() {
                    assert(rest.push(j)[m] == rest[m]);
                }
            }
        }
        lemma_settle_leaves(comps, j, q.push(top), rest);
    }
}

/// The shunting queue lists the expressions seen so far in order; the stack holds operators only.
proof fn lemma_shunt_leaves(comps: Seq<OperationComponent>, n: nat)
    requires
        n <= comps.len(),
    ensures
        expressions_in(comps, shunt(comps, n).0) == expression_positions(comps, n),
        all_ops(comps, shunt(comps, n).1),
    decreases n,
{
    if n > 0 {
        let prev = (n - 1) as nat;
        lemma_shunt_leaves(comps, prev);
        let (q, st) = shunt(comps, prev);
        if is_operator(comps[prev as int]) {
            lemma_settle_leaves(comps, prev, q, st);
            assert(expression_positions(comps, n) =~= expression_positions(comps, prev));
        } else {
            assert(q.push(prev).drop_last() == q);
            assert(q.push(prev).last() == prev);
            assert(expressions_in(comps, q.push(prev)) =~= expression_positions(comps, n));
        }
    } else {
        assert(all_ops(comps, Seq::<nat>::empty()));
    }
}

/// Evaluating a postfix sequence keeps its expressions, in order, as the leaves of the stack.
proof fn lemma_eval_leaves(comps: Seq<OperationComponent>, q: Seq<nat>)
    requires
        eval_ok(comps, q),
        in_bounds(q, comps.len()),
    ensures
        forest_leaves(eval(comps, q)) == expressions_in(comps, q),
    decreases q.len(),
{
    if q.len() == 0 {
        assert(forest_leaves(Seq::<Tree>::empty()) == Seq::<nat>::empty());
    } else {
        let rest = q.drop_last();
        assert(in_bounds(rest, comps.len())) by {
            assert forall|m: int| 0 <= m < rest.len() implies #[trigger] rest[m] < comps.len() by {
                assert(rest[m] == q[m]);
            }
        }
        lemma_eval_leaves(comps, rest);
        lemma_eval(comps, rest);
        let k = q.last();
        assert(q[q.len() - 1] == k);
        let st = eval(comps, rest);
        if is_operator(comps[k as int]) {
            let a = arity(comps[k as int]);
            let low = st.take(st.len() - a);
            let high = st.skip(st.len() - a);
            let node = Tree::Node(k, high);
            let r = low.push(node);
            assert(r.subrange(0, r.len() - 1) =~= low);
            assert(r[r.len() - 1] == node);
            assert(st =~= low + high);
            lemma_forest_concat(low, high);
            assert(forest_leaves(r) == forest_leaves(low) + tree_leaves(node));
            assert(expressions_in(comps, q) =~= expressions_in(comps, rest));
        } else {
            let r = st.push(Tree::Leaf(k));
            assert(r.subrange(0, r.len() - 1) =~= st);
            assert(r[r.len() - 1] == Tree::Leaf(k));
            assert(tree_leaves(Tree::Leaf(k)) == seq![k]);
            assert(forest_leaves(r) == forest_leaves(st) + seq![k]);
            assert(expressions_in(comps, q) =~= expressions_in(comps, rest) + seq![k]);
        }
    }
}

/// `comps` alternates expressions and binary operators, starting and ending
/// with an expression, and holds at least one operator.
pub open spec fn binary_run(comps: Seq<OperationComponent>) -> bool {
    &&& comps.len() >= 3
    &&& comps.len() % 2 == 1
    &&& forall|i: int| #![trigger comps[i]] 0 <= i < comps.len() ==> (is_operator(comps[i]) <==> i % 2 == 1)
    &&& forall|i: int| #![trigger comps[i]] 0 <= i < comps.len() && is_operator(comps[i]) ==> arity(comps[i]) == 2
}

/// Operator `k` has the lowest precedence among the operators before `n`, and
/// every operator after it (and before `n`) has a strictly higher one.
pub open spec fn lowest_rightmost(comps: Seq<OperationComponent>, k: int, n: int) -> bool {
    &&& 0 <= k < n <= comps.len()
    &&& is_operator(comps[k])
    &&& forall|i: int| #![trigger comps[i]] 0 <= i < n && is_operator(comps[i]) ==> precedence(comps[i]) >= precedence(comps[k])
    &&& forall|i: int| #![trigger comps[i]] k < i < n && is_operator(comps[i]) ==> precedence(comps[i]) > precedence(comps[k])
}

/// In a run of binary operators, the operator applied last (the root of the
/// tree) is the rightmost one of lowest precedence: operators of higher
/// precedence bind tighter, and of equally low ones the leftmost bind first.
pub proof fn law_lowest_rightmost_root(comps: Seq<OperationComponent>)
    requires
        binary_run(comps),
    ensures
        infix_tree(comps) matches Some(Tree::Node(k, children)) && lowest_rightmost(comps, k as int, comps.len() as int)
            && children.len() == 2,
{
    let n = comps.len();
    lemma_run_scan(comps, n);
    assert(valid_length(comps) == n);
    assert(comps.take(n as int) =~= comps);
    lemma_postfix_final(comps);
    lemma_run_shunt(comps, n);
    let (q, st) = shunt(comps, n);
    let post = postfix(comps);
    assert(post == q + st.reverse());
    assert(st.reverse().last() == st[0]);
    assert(post.last() == st[0]);
    lemma_eval(comps, post);
    let trees = eval(comps, post);
    assert(trees.len() == 1);
    assert(trees[0] == trees.last());
    assert(post.drop_last().len() + 1 == post.len());
    assert(tree_wf(comps, trees[0]));
}

proof fn lemma_run_scan(comps: Seq<OperationComponent>, n: nat)
    requires
        binary_run(comps),
        1 <= n <= comps.len(),
    ensures
        scan(comps, n) == (if n % 2 == 1 {
            ScanState { next: NextComponent::Operator, difference: -1, lastValid: n, stopped: false }
        } else {
            ScanState { next: NextComponent::Operand, difference: 1, lastValid: (n - 1) as nat, stopped: false }
        }),
    decreases n,
{
    assert(is_operator(comps[n - 1]) <==> (n - 1) % 2 == 1);
    if n > 1 {
        lemma_run_scan(comps, (n - 1) as nat);
        if is_operator(comps[n - 1]) {
            assert(arity(comps[n - 1]) == 2);
        }
    } else {
        assert(scan(comps, 0) == scan_start());
    }
}

/// Operators on the stack have strictly increasing precedence from bottom to top.
pub open spec fn increasing(comps: Seq<OperationComponent>, st: Seq<nat>) -> bool {
    forall|a: int, b: int| 0 <= a < b < st.len() ==> precedence(comps[#[trigger] st[a] as int]) < precedence(comps[#[trigger] st[b] as int])
}

/// Placing operator `j` keeps the stack increasing; the bottom of the stack is
/// kept when it binds looser than `j`, and becomes `j` otherwise.
proof fn lemma_settle_bottom(comps: Seq<OperationComponent>, j: nat, q: Seq<nat>, st: Seq<nat>)
    requires
        j < comps.len(),
        is_operator(comps[j as int]),
        all_ops(comps, st),
        increasing(comps, st),
    ensures
        increasing(comps, settle(comps, j, q, st).1),
        settle(comps, j, q, st).1.len() > 0,
        settle(comps, j, q, st).1[0] == (if st.len() > 0 && precedence(comps[st[0] as int]) < precedence(comps[j as int]) {
            st[0]
        } else {
            j
        }),
    decreases st.len(),
{
    let p = precedence(comps[j as int]);
    if st.len() == 0 {
        assert(increasing(comps, seq![j]));
    } else {
        let top = st.last();
        let rest = st.drop_last();
        assert(st[st.len() - 1] == top);
        let pt = precedence(comps[top as int]);
        assert forall|a: int| 0 <= a < rest.len() implies precedence(comps[#[trigger] rest[a] as int]) < pt by {
            assert(rest[a] == st[a]);
        }
        assert(increasing(comps, rest)) by {
            assert forall|a: int, b: int| 0 <= a < b < rest.len() implies precedence(comps[#[trigger] rest[a] as int])
                < precedence(comps[#[trigger] rest[b] as int]) by {
                assert(rest[a] == st[a]);
                assert(rest[b] == st[b]);
            }
        }
        if st.len() > 1 {
            assert(st[0] == rest[0]);
        }
        if p > pt {
            let st2 = st.push(j);
            assert(increasing(comps, st2)) by {
                assert forall|a: int, b: int| 0 <= a < b < st2.len() implies precedence(comps[#[trigger] st2[a] as int])
                    < precedence(comps[#[trigger] st2[b] as int]) by {
                    assert(st2[a] == st[a]);
                    if b < st.len() {
                        assert(st2[b] == st[b]);
                    } else if a < st.len() - 1 {
                        assert(precedence(comps[st[a] as int]) < precedence(comps[st[st.len() - 1] as int]));
                    }
                }
            }
            if st.len() > 1 {
                assert(precedence(comps[st[0] as int]) < precedence(comps[st[st.len() - 1] as int]));
            }
        } else if p == pt {
            let st2 = rest.push(j);
            assert(increasing(comps, st2)) by {
                assert forall|a: int, b: int| 0 <= a < b < st2.len() implies precedence(comps[#[trigger] st2[a] as int])
                    < precedence(comps[#[trigger] st2[b] as int]) by {
                    assert(st2[a] == rest[a]);
                    if b < rest.len() {
                        assert(st2[b] == rest[b]);
                    }
                }
            }
        } else {
            assert(all_ops(comps, rest)) by {
                assert forall|m: int| 0 <= m < rest.len() implies #[trigger] rest[m] < comps.len()
                    && is_operator(comps[rest[m] as int]) by {
                    assert(rest[m] == st[m]);
                }
            }
            lemma_settle_bottom(comps, j, q.push(top), rest);
        }
    }
}

/// In a run of binary operators, the shunting stack is increasing and its
/// bottom is the rightmost operator of lowest precedence seen so far.
proof fn lemma_run_shunt(comps: Seq<OperationComponent>, n: nat)
    requires
        binary_run(comps),
        n <= comps.len(),
    ensures
        all_ops(comps, shunt(comps, n).1),
        increasing(comps, shunt(comps, n).1),
        n < 2 ==> shunt(comps, n).1.len() == 0,
        n >= 2 ==> shunt(comps, n).1.len() > 0 && lowest_rightmost(comps, shunt(comps, n).1[0] as int, n as int),
    decreases n,
{
    lemma_shunt_leaves(comps, n);
    if n > 0 {
        let prev = (n - 1) as nat;
        lemma_run_shunt(comps, prev);
        let (q, st) = shunt(comps, prev);
        assert(is_operator(comps[prev as int]) <==> prev % 2 == 1);
        if is_operator(comps[prev as int]) {
            lemma_settle_bottom(comps, prev, q, st);
            let st2 = settle(comps, prev, q, st).1;
            if prev >= 2 {
                let k = st[0];
                assert(lowest_rightmost(comps, k as int, prev as int));
            } else {
                assert(prev == 1);
                assert forall|i: int| #![trigger comps[i]] 0 <= i < n && is_operator(comps[i]) implies i == 1 by {
                    assert(is_operator(comps[i]) <==> i % 2 == 1);
                }
            }
        } else {
            if prev >= 2 {
                let k = st[0];
                assert(lowest_rightmost(comps, k as int, prev as int));
            } else {
                assert(prev == 0);
            }
        }
    }
}

/// The rightmost operator of lowest precedence strictly between positions `lo`
/// and `hi` of a run of binary operators (expressions at `lo` and `hi`).
pub open spec fn rightmost_lowest(comps: Seq<OperationComponent>, lo: int, hi: int) -> int
    decreases hi - lo,
{
    if hi - lo <= 2 {
        lo + 1
    } else {
        let k = rightmost_lowest(comps, lo, hi - 2);
        if precedence(comps[hi - 1]) <= precedence(comps[k]) {
            hi - 1
        } else {
            k
        }
    }
}

/// The tree of the part of a run of binary operators from position `lo` to
/// position `hi`: the rightmost operator of lowest precedence applied to the
/// trees of the parts on either side of it.
pub open spec fn run_tree(comps: Seq<OperationComponent>, lo: int, hi: int) -> Tree
    decreases hi - lo,
{
    if hi <= lo {
        Tree::Leaf(lo as nat)
    } else {
        let k = rightmost_lowest(comps, lo, hi);
        if lo < k < hi {
            Tree::Node(k as nat, seq![run_tree(comps, lo, k - 1), run_tree(comps, k + 1, hi)])
        } else {
            Tree::Leaf(lo as nat)
        }
    }
}

/// Operator `k` is, between `lo` and `hi`, the rightmost one of lowest precedence.
pub open spec fn splits_at(comps: Seq<OperationComponent>, lo: int, k: int, hi: int) -> bool {
    &&& lo < k < hi
    &&& k % 2 == 1
    &&& forall|i: int| #![trigger comps[i]] lo < i < k && is_operator(comps[i]) ==> precedence(comps[i]) >= precedence(comps[k])
    &&& forall|i: int| #![trigger comps[i]] k < i < hi && is_operator(comps[i]) ==> precedence(comps[i]) > precedence(comps[k])
}

proof fn lemma_rightmost_lowest(comps: Seq<OperationComponent>, lo: int, hi: int)
    requires
        binary_run(comps),
        0 <= lo,
        lo % 2 == 0,
        hi % 2 == 0,
        lo + 2 <= hi < comps.len(),
    ensures
        splits_at(comps, lo, rightmost_lowest(comps, lo, hi), hi),
    decreases hi - lo,
{
    if hi - lo > 2 {
        lemma_rightmost_lowest(comps, lo, hi - 2);
        let k = rightmost_lowest(comps, lo, hi - 2);
        assert(is_operator(comps[hi - 1]));
        assert(is_operator(comps[hi - 2]) <==> (hi - 2) % 2 == 1);
    }
}

/// The split of a part is unique.
proof fn lemma_split_unique(comps: Seq<OperationComponent>, lo: int, k: int, hi: int)
    requires
        binary_run(comps),
        0 <= lo,
        lo % 2 == 0,
        hi % 2 == 0,
        hi < comps.len(),
        splits_at(comps, lo, k, hi),
    ensures
        rightmost_lowest(comps, lo, hi) == k,
{
    lemma_rightmost_lowest(comps, lo, hi);
    let r = rightmost_lowest(comps, lo, hi);
    assert(is_operator(comps[k]) <==> k % 2 == 1);
    assert(is_operator(comps[r]) <==> r % 2 == 1);
}

/// The lower end of gap `i` of the operator stack `st`.
pub open spec fn gap_lo(st: Seq<nat>, i: int) -> int {
    if i == 0 {
        0
    } else {
        st[i - 1] as int + 1
    }
}

/// The trees of the gaps in front of each stacked operator.
pub open spec fn gap_trees(comps: Seq<OperationComponent>, st: Seq<nat>) -> Seq<Tree> {
    Seq::new(st.len(), |i: int| run_tree(comps, gap_lo(st, i), st[i] - 1))
}

/// The trees of the gaps of `st`, the last one running to `end`.
pub open spec fn stack_trees(comps: Seq<OperationComponent>, st: Seq<nat>, end: int) -> Seq<Tree> {
    gap_trees(comps, st).push(run_tree(comps, gap_lo(st, st.len() as int), end))
}

/// The stack holds operators at increasing odd positions before `bound`, with
/// increasing precedence, each binding no tighter than the operators in the gap in front of it.
pub open spec fn stack_shape(comps: Seq<OperationComponent>, st: Seq<nat>, bound: int) -> bool {
    &&& all_ops(comps, st)
    &&& increasing(comps, st)
    &&& forall|i: int| #![trigger st[i]] 0 <= i < st.len() ==> st[i] % 2 == 1 && st[i] < bound
    &&& forall|a: int, b: int| #![trigger st[a], st[b]] 0 <= a < b < st.len() ==> st[a] < st[b]
    &&& forall|i: int, o: int| #![trigger st[i], comps[o]] 0 <= i < st.len() && gap_lo(st, i) < o < st[i] && is_operator(comps[o])
        ==> precedence(comps[o]) >= precedence(comps[st[i] as int])
}

/// The operators after the top of the stack and before `j` bind tighter than the top.
pub open spec fn trailing_tighter(comps: Seq<OperationComponent>, st: Seq<nat>, j: int) -> bool {
    st.len() > 0 ==> forall|o: int| #![trigger comps[o]] st.last() < o < j && is_operator(comps[o])
        ==> precedence(comps[o]) > precedence(comps[st.last() as int])
}

/// Dropping the top keeps the shape of the stack.
proof fn lemma_shape_pop(comps: Seq<OperationComponent>, st: Seq<nat>, bound: int)
    requires
        st.len() > 0,
        stack_shape(comps, st, bound),
    ensures
        stack_shape(comps, st.drop_last(), bound),
        gap_lo(st.drop_last(), st.len() - 1) == gap_lo(st, st.len() - 1),
{
    let m = st.len() - 1;
    let rest = st.drop_last();
    if m > 0 {
        assert(rest[m - 1] == st[m - 1]);
    }
    assert(all_ops(comps, rest)) by {
        assert forall|i: int| 0 <= i < rest.len() implies #[trigger] rest[i] < comps.len() && is_operator(comps[rest[i] as int]) by {
            assert(rest[i] == st[i]);
        }
    }
    assert(increasing(comps, rest)) by {
        assert forall|a: int, b: int| 0 <= a < b < rest.len() implies precedence(comps[#[trigger] rest[a] as int])
            < precedence(comps[#[trigger] rest[b] as int]) by {
            assert(rest[a] == st[a]);
            assert(rest[b] == st[b]);
        }
    }
    assert forall|i: int| #![trigger rest[i]] 0 <= i < rest.len() implies rest[i] % 2 == 1 && rest[i] < bound by {
        assert(rest[i] == st[i]);
    }
    assert forall|a: int, b: int| #![trigger rest[a], rest[b]] 0 <= a < b < rest.len() implies rest[a] < rest[b] by {
        assert(rest[a] == st[a]);
        assert(rest[b] == st[b]);
    }
    assert forall|i: int, o: int| #![trigger rest[i], comps[o]] 0 <= i < rest.len() && gap_lo(rest, i) < o < rest[i]
        && is_operator(comps[o]) implies precedence(comps[o]) >= precedence(comps[rest[i] as int]) by {
        assert(rest[i] == st[i]);
        if i > 0 {
            assert(rest[i - 1] == st[i - 1]);
        }
        assert(gap_lo(rest, i) == gap_lo(st, i));
        assert(st[i] == rest[i]);
    }
}

/// Pushing an operator that binds tighter than the top, and no tighter than the
/// operators in the gap in front of it, keeps the shape of the stack.
proof fn lemma_shape_push(comps: Seq<OperationComponent>, st: Seq<nat>, j: nat, bound: int)
    requires
        stack_shape(comps, st, bound),
        j < comps.len(),
        is_operator(comps[j as int]),
        j % 2 == 1,
        bound <= j,
        st.len() > 0 ==> precedence(comps[st.last() as int]) < precedence(comps[j as int]),
        forall|o: int| #![trigger comps[o]] gap_lo(st, st.len() as int) < o < j && is_operator(comps[o])
            ==> precedence(comps[o]) >= precedence(comps[j as int]),
    ensures
        stack_shape(comps, st.push(j), j as int + 2),
{
    let st2 = st.push(j);
    let m = st.len() - 1;
    assert(all_ops(comps, st2)) by {
        assert forall|i: int| 0 <= i < st2.len() implies #[trigger] st2[i] < comps.len() && is_operator(comps[st2[i] as int]) by {
            if i < st.len() { assert(st2[i] == st[i]); }
        }
    }
    assert(increasing(comps, st2)) by {
        assert forall|a: int, b: int| 0 <= a < b < st2.len() implies precedence(comps[#[trigger] st2[a] as int])
            < precedence(comps[#[trigger] st2[b] as int]) by {
            assert(st2[a] == st[a]);
            if b < st.len() {
                assert(st2[b] == st[b]);
            } else if a < m {
                assert(precedence(comps[st[a] as int]) < precedence(comps[st[m] as int]));
                assert(st.last() == st[m]);
            }
        }
    }
    assert forall|i: int| #![trigger st2[i]] 0 <= i < st2.len() implies st2[i] % 2 == 1 && st2[i] < j as int + 2 by {
        if i < st.len() { assert(st2[i] == st[i]); }
    }
    assert forall|a: int, b: int| #![trigger st2[a], st2[b]] 0 <= a < b < st2.len() implies st2[a] < st2[b] by {
        assert(st2[a] == st[a]);
        if b < st.len() { assert(st2[b] == st[b]); }
    }
    assert forall|i: int, o: int| #![trigger st2[i], comps[o]] 0 <= i < st2.len() && gap_lo(st2, i) < o < st2[i]
        && is_operator(comps[o]) implies precedence(comps[o]) >= precedence(comps[st2[i] as int]) by {
        if i > 0 { assert(st2[i - 1] == st[i - 1]); }
        if i < st.len() {
            assert(st2[i] == st[i]);
            assert(gap_lo(st2, i) == gap_lo(st, i));
        } else {
            assert(gap_lo(st2, i) == gap_lo(st, st.len() as int));
        }
    }
}

/// The gap trees after pushing `j` are the stack trees up to just before `j`.
proof fn lemma_gap_trees_push(comps: Seq<OperationComponent>, st: Seq<nat>, j: nat)
    ensures
        gap_trees(comps, st.push(j)) == stack_trees(comps, st, j - 1),
{
    let st2 = st.push(j);
    assert forall|i: int| 0 <= i < st2.len() implies #[trigger] gap_trees(comps, st2)[i] == stack_trees(comps, st, j - 1)[i] by {
        if i < st.len() {
            assert(st2[i] == st[i]);
        }
        if i > 0 {
            assert(st2[i - 1] == st[i - 1]);
        }
        assert(gap_lo(st2, i) == gap_lo(st, i));
    }
    assert(gap_trees(comps, st2) =~= stack_trees(comps, st, j - 1));
}

/// Applying the top of the stack joins the last two trees into the tree of their joint part.
proof fn lemma_combine(comps: Seq<OperationComponent>, q: Seq<nat>, st: Seq<nat>, j: int)
    requires
        binary_run(comps),
        j % 2 == 1,
        j <= comps.len(),
        st.len() > 0,
        stack_shape(comps, st, j),
        trailing_tighter(comps, st, j),
        eval(comps, q) == stack_trees(comps, st, j - 1),
    ensures
        eval(comps, q.push(st.last())) == stack_trees(comps, st.drop_last(), j - 1),
{
    let m = st.len() - 1;
    let top = st.last();
    let rest = st.drop_last();
    assert(st[m] == top);
    let trees = eval(comps, q);
    assert(q.push(top).drop_last() == q);
    assert(q.push(top).last() == top);
    assert(is_operator(comps[top as int]));
    assert(arity(comps[top as int]) == 2);
    lemma_shape_pop(comps, st, j);
    let lo = gap_lo(st, m);
    if m > 0 {
        assert(st[m - 1] < st[m]);
        assert(st[m - 1] % 2 == 1);
    }
    assert(lo % 2 == 0);
    assert(top % 2 == 1);
    assert(splits_at(comps, lo, top as int, j - 1)) by {
        assert forall|o: int| #![trigger comps[o]] lo < o < top && is_operator(comps[o]) implies precedence(comps[o])
            >= precedence(comps[top as int]) by {
            assert(st[m] == top);
        }
    }
    lemma_split_unique(comps, lo, top as int, j - 1);
    let left = run_tree(comps, lo, top as int - 1);
    let right = run_tree(comps, top as int + 1, j - 1);
    let node = run_tree(comps, lo, j - 1);
    assert(node == Tree::Node(top, seq![left, right]));
    assert(trees[m as int] == left);
    assert(gap_lo(st, m + 1) == top + 1);
    assert(trees[m + 1] == right);
    assert(trees.skip(trees.len() - 2) =~= seq![left, right]);
    assert(trees.take(trees.len() - 2) =~= gap_trees(comps, rest)) by {
        assert forall|i: int| 0 <= i < m implies #[trigger] trees.take(trees.len() - 2)[i] == gap_trees(comps, rest)[i] by {
            assert(rest[i] == st[i]);
            if i > 0 {
                assert(rest[i - 1] == st[i - 1]);
            }
            assert(gap_lo(rest, i) == gap_lo(st, i));
        }
    }
    assert(eval(comps, q.push(top)) =~= stack_trees(comps, rest, j - 1));
}

/// After popping the top, the operators after the new top and before `j` still
/// bind tighter than the new top, and no looser than anything the top bound no looser than.
proof fn lemma_trailing_after_pop(comps: Seq<OperationComponent>, st: Seq<nat>, j: int, p: int)
    requires
        binary_run(comps),
        st.len() > 0,
        stack_shape(comps, st, j),
        trailing_tighter(comps, st, j),
        precedence(comps[st.last() as int]) >= p,
        forall|o: int| #![trigger comps[o]] st.last() < o < j && is_operator(comps[o]) ==> precedence(comps[o]) >= p,
    ensures
        trailing_tighter(comps, st.drop_last(), j),
        forall|o: int| #![trigger comps[o]] gap_lo(st, st.len() - 1) < o < j && is_operator(comps[o]) ==> precedence(comps[o]) >= p,
{
    let m = st.len() - 1;
    let top = st.last();
    let rest = st.drop_last();
    assert(st[m] == top);
    if m > 0 {
        assert(rest.last() == st[m - 1]);
        assert(precedence(comps[st[m - 1] as int]) < precedence(comps[st[m] as int]));
        assert(st[m - 1] < st[m]);
        assert forall|o: int| #![trigger comps[o]] rest.last() < o < j && is_operator(comps[o]) implies precedence(comps[o])
            > precedence(comps[rest.last() as int]) by {
            if o < top {
                assert(gap_lo(st, m) < o < st[m]);
            }
        }
    }
    assert forall|o: int| #![trigger comps[o]] gap_lo(st, m) < o < j && is_operator(comps[o]) implies precedence(comps[o]) >= p by {
        if o < top {
            assert(gap_lo(st, m) < o < st[m]);
        }
    }
}

/// Placing operator `j` keeps the shape of the stack and the trees of its gaps.
proof fn lemma_settle_trees(comps: Seq<OperationComponent>, j: nat, q: Seq<nat>, st: Seq<nat>)
    requires
        binary_run(comps),
        j < comps.len(),
        j % 2 == 1,
        stack_shape(comps, st, j as int),
        trailing_tighter(comps, st, j as int),
        forall|o: int| #![trigger comps[o]] gap_lo(st, st.len() as int) <= o < j && is_operator(comps[o])
            ==> precedence(comps[o]) >= precedence(comps[j as int]),
        eval(comps, q) == stack_trees(comps, st, j - 1),
    ensures
        stack_shape(comps, settle(comps, j, q, st).1, j as int + 2),
        settle(comps, j, q, st).1.len() > 0,
        settle(comps, j, q, st).1.last() == j,
        eval(comps, settle(comps, j, q, st).0) == gap_trees(comps, settle(comps, j, q, st).1),
    decreases st.len(),
{
    let p = precedence(comps[j as int]);
    assert(is_operator(comps[j as int]));
    lemma_gap_trees_push(comps, st, j);
    if st.len() == 0 {
        assert(seq![j] =~= st.push(j));
        lemma_shape_push(comps, st, j, j as int);
    } else {
        let m = st.len() - 1;
        let top = st.last();
        let rest = st.drop_last();
        assert(st[m] == top);
        let pt = precedence(comps[top as int]);
        if p > pt {
            lemma_shape_push(comps, st, j, j as int);
        } else {
            lemma_combine(comps, q, st, j as int);
            lemma_shape_pop(comps, st, j as int);
            assert forall|o: int| #![trigger comps[o]] st.last() < o < j && is_operator(comps[o]) implies precedence(comps[o]) >= p by {
                assert(gap_lo(st, st.len() as int) == st[m] + 1);
            }
            lemma_trailing_after_pop(comps, st, j as int, p);
            if p == pt {
                if m > 0 {
                    assert(rest.last() == st[m - 1]);
                    assert(precedence(comps[st[m - 1] as int]) < precedence(comps[st[m] as int]));
                }
                lemma_shape_push(comps, rest, j, j as int);
                lemma_gap_trees_push(comps, rest, j);
            } else {
                lemma_settle_trees(comps, j, q.push(top), rest);
            }
        }
    }
}

/// The shunting state after each expression of a run of binary operators.
/// Reading operator `j` and the expression after it keeps the shunting state in shape.
proof fn lemma_run_step(comps: Seq<OperationComponent>, j: nat, q: Seq<nat>, st: Seq<nat>)
    requires
        binary_run(comps),
        j % 2 == 1,
        j + 1 < comps.len(),
        stack_shape(comps, st, j as int),
        st.len() > 0 ==> st.last() == j - 2,
        st.len() == 0 ==> j == 1,
        eval(comps, q) == stack_trees(comps, st, j - 1),
    ensures
        stack_shape(comps, settle(comps, j, q, st).1, j as int + 2),
        settle(comps, j, q, st).1.len() > 0,
        settle(comps, j, q, st).1.last() == j,
        eval(comps, settle(comps, j, q, st).0.push(j + 1)) == stack_trees(comps, settle(comps, j, q, st).1, j as int + 1),
{
    assert(is_operator(comps[j as int]));
    assert(trailing_tighter(comps, st, j as int)) by {
        if st.len() > 0 {
            assert forall|o: int| #![trigger comps[o]] st.last() < o < j && is_operator(comps[o]) implies false by {
                assert(is_operator(comps[o]) <==> o % 2 == 1);
            }
        }
    }
    assert forall|o: int| #![trigger comps[o]] gap_lo(st, st.len() as int) <= o < j && is_operator(comps[o])
        implies precedence(comps[o]) >= precedence(comps[j as int]) by {
        assert(is_operator(comps[o]) <==> o % 2 == 1);
        if st.len() > 0 {
            assert(st[st.len() - 1] == st.last());
            assert(gap_lo(st, st.len() as int) == st.last() + 1);
        }
    }
    lemma_settle_trees(comps, j, q, st);
    let (q2, st2) = settle(comps, j, q, st);
    assert(q2.push(j + 1).drop_last() == q2);
    assert(!is_operator(comps[j + 1 as int])) by { assert(is_operator(comps[j + 1 as int]) <==> (j + 1) % 2 == 1); }
    assert(st2[st2.len() - 1] == j);
    assert(gap_lo(st2, st2.len() as int) == j + 1);
    assert(eval(comps, q2.push(j + 1)) =~= stack_trees(comps, st2, j as int + 1));
}

/// The shunting state after each expression of a run of binary operators.
proof fn lemma_run_trees(comps: Seq<OperationComponent>, n: nat)
    requires
        binary_run(comps),
        n % 2 == 1,
        n <= comps.len(),
    ensures
        stack_shape(comps, shunt(comps, n).1, n as int),
        shunt(comps, n).1.len() > 0 ==> shunt(comps, n).1.last() == n - 2,
        shunt(comps, n).1.len() == 0 ==> n == 1,
        eval(comps, shunt(comps, n).0) == stack_trees(comps, shunt(comps, n).1, n - 1),
    decreases n,
{
    if n == 1 {
        assert(shunt(comps, 0) == (Seq::<nat>::empty(), Seq::<nat>::empty()));
        assert(!is_operator(comps[0]));
        assert(shunt(comps, 1) == (seq![0nat], Seq::<nat>::empty()));
        assert(seq![0nat].drop_last() =~= Seq::<nat>::empty());
        assert(eval(comps, Seq::<nat>::empty()) == Seq::<Tree>::empty());
        assert(eval(comps, seq![0nat]) =~= seq![Tree::Leaf(0)]);
        assert(stack_trees(comps, Seq::<nat>::empty(), 0) =~= seq![Tree::Leaf(0)]);
        assert(stack_shape(comps, Seq::<nat>::empty(), 1)) by {
            assert(all_ops(comps, Seq::<nat>::empty()));
            assert(increasing(comps, Seq::<nat>::empty()));
        }
    } else {
        let j = (n - 2) as nat;
        lemma_run_trees(comps, j);
        let (q, st) = shunt(comps, j);
        assert(is_operator(comps[j as int]) && !is_operator(comps[n - 1])) by {
            assert(is_operator(comps[j as int]) <==> j % 2 == 1);
            assert(is_operator(comps[n - 1]) <==> (n - 1) % 2 == 1);
        }
        assert(shunt(comps, j + 1) == settle(comps, j, q, st));
        lemma_run_step(comps, j, q, st);
        let (q2, st2) = settle(comps, j, q, st);
        assert(shunt(comps, n) == (q2.push((n - 1) as nat), st2));
    }
}

/// Applying all stacked operators from the top down yields the tree of the whole run.
proof fn lemma_drain_trees(comps: Seq<OperationComponent>, q: Seq<nat>, st: Seq<nat>)
    requires
        binary_run(comps),
        stack_shape(comps, st, comps.len() as int),
        trailing_tighter(comps, st, comps.len() as int),
        eval(comps, q) == stack_trees(comps, st, comps.len() - 1),
    ensures
        eval(comps, q + st.reverse()) == seq![run_tree(comps, 0, comps.len() - 1)],
    decreases st.len(),
{
    if st.len() == 0 {
        assert(q + st.reverse() =~= q);
        assert(stack_trees(comps, st, comps.len() - 1) =~= seq![run_tree(comps, 0, comps.len() - 1)]);
    } else {
        let top = st.last();
        let rest = st.drop_last();
        lemma_combine(comps, q, st, comps.len() as int);
        lemma_trailing_after_pop(comps, st, comps.len() as int, i64::MIN as int);
        assert(q + st.reverse() =~= q.push(top) + rest.reverse());
        lemma_drain_trees(comps, q.push(top), rest);
    }
}

/// A run of binary operators reads as operator-precedence grouping: the
/// rightmost operator of lowest precedence is applied last, to the trees of the
/// parts on either side of it, and so on down.
pub proof fn law_run_tree(comps: Seq<OperationComponent>)
    requires
        binary_run(comps),
    ensures
        infix_tree(comps) == Some(run_tree(comps, 0, comps.len() - 1)),
{
    let n = comps.len();
    lemma_run_scan(comps, n);
    assert(valid_length(comps) == n);
    assert(comps.take(n as int) =~= comps);
    lemma_run_trees(comps, n);
    let (q, st) = shunt(comps, n);
    assert(trailing_tighter(comps, st, n as int)) by {
        if st.len() > 0 {
            assert forall|o: int| #![trigger comps[o]] st.last() < o < n && is_operator(comps[o]) implies false by {
                assert(is_operator(comps[o]) <==> o % 2 == 1);
            }
        }
    }
    lemma_drain_trees(comps, q, st);
}

/// `queue` holds the components at positions `q` of `t`, in order.
pub open spec fn queue_matches(t: Seq<OperationComponent>, queue: Seq<OperationComponent>, q: Seq<nat>) -> bool {
    &&& queue.len() == q.len()
    &&& forall|m: int| 0 <= m < q.len() ==> #[trigger] q[m] < t.len() && queue[m] == t[q[m] as int]
}

/// `stack` holds the operators at positions `st` of `t`, in order.
pub open spec fn stack_matches(t: Seq<OperationComponent>, stack: Seq<(ModuleRange, Operator)>, st: Seq<nat>) -> bool {
    &&& stack.len() == st.len()
    &&& forall|m: int| 0 <= m < st.len() ==> #[trigger] st[m] < t.len()
        && t[st[m] as int] == OperationComponent::Operator(stack[m].0, stack[m].1)
}

proof fn lemma_eval_ok_prefix(comps: Seq<OperationComponent>, q: Seq<nat>, j: nat)
    requires
        eval_ok(comps, q),
        j <= q.len(),
    ensures
        eval_ok(comps, q.take(j as int)),
        j < q.len() ==> height(comps, q.take(j as int)) >= arity(comps[q[j as int] as int]),
    decreases q.len(),
{
    if j == q.len() {
        assert(q.take(j as int) == q);
    } else {
        assert(q.drop_last().take(j as int) == q.take(j as int));
        if j + 1 == q.len() {
            assert(q.take(j as int) == q.drop_last());
        } else {
            assert(q.drop_last()[j as int] == q[j as int]);
        }
        lemma_eval_ok_prefix(comps, q.drop_last(), j);
    }
}

impl OperatorExpr {
    /// Evaluates components given in postfix order.
    fn getFromPostfix(
        components: Vec<OperationComponent>,
        Ghost(t): Ghost<Seq<OperationComponent>>,
        Ghost(post): Ghost<Seq<nat>>,
    ) -> (result: Result<Self, ASTError>)
        requires
            queue_matches(t, components@, post),
            eval_ok(t, post),
            height(t, post) == 1,
            post.len() > 0,
            is_operator(t[post.last() as int]),
            components_wf(t),
        ensures
            result matches Ok(oe) && denotes(t, Expr::Operator(oe), eval(t, post)[0]),
            result matches Ok(oe) ==> oe.range.wf(),
    {
        let ghost orig = components@;
        let totalLength = components.len();
        let mut operandStack: Vec<Expr> = Vec::new();
        let mut rest = components;
        let mut j: usize = 0;
        assert(post.take(0) =~= Seq::<nat>::empty());
        assert(rest@ =~= orig.skip(0));
        while rest.len() > 0
            invariant
                j <= post.len(),
                orig.len() == post.len(),
                orig.len() == totalLength,
                queue_matches(t, orig, post),
                rest@ == orig.skip(j as int),
                eval_ok(t, post),
                components_wf(t),
                operandStack@.len() == eval(t, post.take(j as int)).len(),
                forall|m: int| 0 <= m < operandStack@.len() ==> denotes(t, #[trigger] operandStack@[m], eval(t, post.take(j as int))[m]),
                forall|m: int| 0 <= m < operandStack@.len() ==> (#[trigger] operandStack@[m]).spec_range().wf(),
            decreases rest@.len(),
        {
            let component = rest.remove(0);
            let ghost k = post[j as int];
            assert(component == orig[j as int]);
            assert(rest@ =~= orig.skip(j + 1));
            assert(post.take(j + 1).drop_last() == post.take(j as int));
            assert(post.take(j + 1).last() == k);
            proof {
                lemma_eval_ok_prefix(t, post, j as nat);
                assert(in_bounds(post.take(j as int), t.len())) by {
                    assert forall|m: int| 0 <= m < post.take(j as int).len() implies #[trigger] post.take(j as int)[m] < t.len() by {
                        assert(post.take(j as int)[m] == post[m]);
                    }
                }
                lemma_eval(t, post.take(j as int));
            }
            let ghost before = eval(t, post.take(j as int));
            let ghost stackBefore = operandStack@;
            match component {
                OperationComponent::Expression(expression) => {
                    operandStack.push(expression);
                    assert(eval(t, post.take(j + 1)) == before.push(Tree::Leaf(k)));
                    assert forall|m: int| 0 <= m < operandStack@.len() implies denotes(t, #[trigger] operandStack@[m], eval(t, post.take(j + 1))[m]) by {
                        if m < before.len() {
                            assert(operandStack@[m] == stackBefore[m]);
                        }
                    }
                    assert(component_wf(t[k as int]));
                },
                OperationComponent::Operator(operatorRange, operator) => {
                    let operandCount = operator.getOperands();
                    let stackLength = operandStack.len();
                    let operands = operandStack.split_off(stackLength - operandCount);
                    let ghost children = before.skip(before.len() - operandCount);
                    assert(operands@.len() == operandCount);
                    let mut range = operatorRange.duplicate();
                    assert(component_wf(t[k as int]));
                    let mut index = operandCount;
                    assert(operands@.take(operandCount as int) == operands@);
                    while index > 0
                        invariant
                            index <= operands@.len(),
                            range.wf(),
                            forall|m: int| 0 <= m < operands@.len() ==> (#[trigger] operands@[m]).spec_range().wf(),
                            fold_range(range, operands@.take(index as int)) == fold_range(operatorRange, operands@),
                        decreases index,
                    {
                        assert(operands@.take(index as int).drop_last() == operands@.take(index - 1));
                        assert(operands@.take(index as int).last() == operands@[index - 1]);
                        range = range.getCombined(operands[index - 1].getRange());
                        index = index - 1;
                    }
                    assert(operands@.take(0) =~= Seq::<Expr>::empty());
                    assert(operands@.take(operandCount as int) == operands@);
                    let expression = OperatorExpr { range, operands, operator };
                    operandStack.push(Expr::Operator(expression));
                    let ghost node = Tree::Node(k, children);
                    assert(eval(t, post.take(j + 1)) == before.take(before.len() - operandCount).push(node));
                    assert(denotes(t, Expr::Operator(expression), node)) by {
                        assert forall|m: int| 0 <= m < children.len() implies denotes(t, #[trigger] expression.operands@[m], children[m]) by {
                            assert(expression.operands@[m] == stackBefore[stackLength - operandCount + m]);
                            assert(children[m] == before[stackLength - operandCount + m]);
                        }
                    }
                    assert forall|m: int| 0 <= m < operandStack@.len() implies denotes(t, #[trigger] operandStack@[m], eval(t, post.take(j + 1))[m]) by {
                        if m < before.len() - operandCount {
                            assert(operandStack@[m] == stackBefore[m]);
                        }
                    }
                },
            }
            j = j + 1;
        }
        proof {
            assert(post.take(post.len() as int) == post);
            assert(in_bounds(post, t.len())) by {
                assert forall|m: int| 0 <= m < post.len() implies #[trigger] post[m] < t.len() by {}
            }
            lemma_eval(t, post);
        }
        let expression = operandStack.remove(0);
        match expression {
            Expr::Operator(result) => Ok(result),
            other => Err(ASTError::MatchFailed(other.getRange().getEndPos())),
        }
    }
}


impl OperatorExpr {
    /// Keeps the longest prefix of `components` that forms a complete expression.
    fn getValidComponents(mut components: Vec<OperationComponent>) -> (result: Result<Vec<OperationComponent>, ASTError>)
        ensures
            result matches Ok(valid) && valid@ == components@.take(valid_length(components@) as int),
    {
        let ghost comps = components@;
        let mut index: usize = 0;
        let mut lastValidIndex: usize = 0;
        let mut nextComponent = NextComponent::Either;
        let mut difference: i64 = 0;
        while index < components.len()
            invariant_except_break
                components@ == comps,
                index <= comps.len(),
                !scan(comps, index as nat).stopped,
                scan(comps, index as nat).next == nextComponent,
                scan(comps, index as nat).difference == difference,
                scan(comps, index as nat).lastValid == lastValidIndex,
            ensures
                components@ == comps,
                valid_length(comps) == lastValidIndex,
            decreases comps.len() - index,
        {
            proof {
                lemma_scan_facts(comps, index as nat);
                lemma_scan_facts(comps, (index + 1) as nat);
            }
            match &components[index] {
                OperationComponent::Operator(_, operator) => {
                    if nextComponent == NextComponent::Operand {
                        proof { lemma_scan_stopped(comps, (index + 1) as nat, comps.len()); }
                        break;
                    }
                    let operandCount = operator.getOperands();
                    difference = difference + operandCount as i64;
                },
                OperationComponent::Expression(_) => {
                    if nextComponent == NextComponent::Operator {
                        proof { lemma_scan_stopped(comps, (index + 1) as nat, comps.len()); }
                        break;
                    }
                    difference = difference - 1;
                },
            }
            index = index + 1;
            nextComponent = if difference < 0 {
                lastValidIndex = index;
                NextComponent::Operator
            } else if difference == 0 {
                lastValidIndex = index;
                // a finished operator expression is itself an operand
                difference = difference - 1;
                NextComponent::Operator
            } else {
                NextComponent::Operand
            };
        }
        proof { lemma_scan_facts(comps, comps.len()); }
        components.truncate(lastValidIndex);
        Ok(components)
    }

    /// Builds the operator expression of the longest complete prefix of `components`,
    /// with higher precedence operators binding tighter and equal precedence
    /// grouping from the left.
    pub fn getFromInfix(components: Vec<OperationComponent>) -> (result: Result<Self, ASTError>)
        requires
            components.len() > 0,
            components_wf(components@),
        ensures
            match infix_tree(components@) {
                None => result matches Err(ASTError::MatchFailed(pos)) && pos == start_of(components@[0]),
                Some(tree) => result matches Ok(oe) && denotes(
                    components@.take(valid_length(components@) as int),
                    Expr::Operator(oe),
                    tree,
                ),
            },
            // every operator gets exactly as many operands as it takes
            operands_counts_match(components@) ==> (result matches Ok(oe) ==> operand_counts_match(Expr::Operator(oe))),
            result matches Ok(oe) ==> oe.range.wf(),
    {
        let ghost comps = components@;
        let startPos = match &components[0] {
            OperationComponent::Operator(range, _) => range.getStartPos(),
            OperationComponent::Expression(expr) => expr.getRange().getStartPos(),
        };
        let components = match Self::getValidComponents(components) {
            Ok(valid) => valid,
            Err(error) => return Err(error),
        };
        proof { lemma_scan_facts(comps, comps.len()); }
        if components.len() <= 1 {
            return Err(ASTError::MatchFailed(startPos));
        }
        let ghost v = valid_length(comps);
        let ghost t = components@;
        proof {
            lemma_postfix_final(comps);
            lemma_scan_facts(comps, comps.len());
            assert(components_wf(t)) by {
                assert forall|i: int| 0 <= i < t.len() implies component_wf(#[trigger] t[i]) by {
                    assert(t[i] == comps[i]);
                }
            }
        }
        let totalLength = components.len();
        let mut resultQueue: Vec<OperationComponent> = Vec::new();
        let mut operatorStack: Vec<(ModuleRange, Operator)> = Vec::new();
        let mut rest = components;
        let mut i: usize = 0;
        assert(rest@ =~= t.skip(0));
        while rest.len() > 0
            invariant
                t.len() == totalLength,
                i <= t.len(),
                rest@ == t.skip(i as int),
                queue_matches(t, resultQueue@, shunt(t, i as nat).0),
                stack_matches(t, operatorStack@, shunt(t, i as nat).1),
            decreases rest@.len(),
        {
            let component = rest.remove(0);
            assert(component == t[i as int]);
            assert(rest@ =~= t.skip(i + 1));
            proof { lemma_shunt_bounds(t, i as nat); }
            let ghost q0 = shunt(t, i as nat).0;
            let ghost st0 = shunt(t, i as nat).1;
            match component {
                OperationComponent::Expression(expression) => {
                    resultQueue.push(OperationComponent::Expression(expression));
                    assert(shunt(t, (i + 1) as nat) == (q0.push(i as nat), st0));
                    assert(queue_matches(t, resultQueue@, q0.push(i as nat))) by {
                        assert forall|m: int| 0 <= m < q0.push(i as nat).len() implies #[trigger] q0.push(i as nat)[m] < t.len()
                            && resultQueue@[m] == t[q0.push(i as nat)[m] as int] by {
                            if m < q0.len() {
                                assert(q0.push(i as nat)[m] == q0[m]);
                            }
                        }
                    }
                },
                OperationComponent::Operator(range, operator) => {
                    let ghost target = settle(t, i as nat, q0, st0);
                    assert(shunt(t, (i + 1) as nat) == target);
                    let ghost mut qc = q0;
                    let ghost mut stc = st0;
                    let precedence = operator.getPrecedence();
                    loop
                        invariant_except_break
                            queue_matches(t, resultQueue@, qc),
                            stack_matches(t, operatorStack@, stc),
                            settle(t, i as nat, qc, stc) == target,
                            i < t.len(),
                            t[i as int] == OperationComponent::Operator(range, operator),
                            precedence == spec_precedence(operator),
                        ensures
                            queue_matches(t, resultQueue@, target.0),
                            stack_matches(t, operatorStack@, target.1),
                        decreases operatorStack@.len(),
                    {
                        let ghost stackBefore = operatorStack@;
                        let ghost queueBefore = resultQueue@;
                        if let Some((lastRange, lastOperator)) = operatorStack.pop() {
                            let ghost top = stc.last();
                            assert(stc[stc.len() - 1] == top);
                            let lastPrecedence = lastOperator.getPrecedence();
                            if precedence > lastPrecedence {
                                operatorStack.push((lastRange, lastOperator));
                                operatorStack.push((range, operator));
                                assert(stack_matches(t, operatorStack@, stc.push(i as nat))) by {
                                    assert forall|m: int| 0 <= m < stc.push(i as nat).len() implies #[trigger] stc.push(i as nat)[m] < t.len()
                                        && t[stc.push(i as nat)[m] as int] == OperationComponent::Operator(operatorStack@[m].0, operatorStack@[m].1) by {
                                        if m < stc.len() {
                                            assert(stc.push(i as nat)[m] == stc[m]);
                                            assert(operatorStack@[m] == stackBefore[m]);
                                        }
                                    }
                                }
                                break;
                            } else if precedence == lastPrecedence {
                                operatorStack.push((range, operator));
                                resultQueue.push(OperationComponent::Operator(lastRange, lastOperator));
                                let ghost st2 = stc.drop_last().push(i as nat);
                                assert(stack_matches(t, operatorStack@, st2)) by {
                                    assert forall|m: int| 0 <= m < st2.len() implies #[trigger] st2[m] < t.len()
                                        && t[st2[m] as int] == OperationComponent::Operator(operatorStack@[m].0, operatorStack@[m].1) by {
                                        if m < stc.len() - 1 {
                                            assert(st2[m] == stc[m]);
                                            assert(operatorStack@[m] == stackBefore[m]);
                                        }
                                    }
                                }
                                assert(queue_matches(t, resultQueue@, qc.push(top))) by {
                                    assert forall|m: int| 0 <= m < qc.push(top).len() implies #[trigger] qc.push(top)[m] < t.len()
                                        && resultQueue@[m] == t[qc.push(top)[m] as int] by {
                                        if m < qc.len() {
                                            assert(qc.push(top)[m] == qc[m]);
                                        }
                                    }
                                }
                                break;
                            } else {
                                resultQueue.push(OperationComponent::Operator(lastRange, lastOperator));
                                proof {
                                    assert(queue_matches(t, resultQueue@, qc.push(top))) by {
                                        assert forall|m: int| 0 <= m < qc.push(top).len() implies #[trigger] qc.push(top)[m] < t.len()
                                            && resultQueue@[m] == t[qc.push(top)[m] as int] by {
                                            if m < qc.len() {
                                                assert(qc.push(top)[m] == qc[m]);
                                            }
                                        }
                                    }
                                    assert(stack_matches(t, operatorStack@, stc.drop_last())) by {
                                        assert forall|m: int| 0 <= m < stc.drop_last().len() implies #[trigger] stc.drop_last()[m] < t.len()
                                            && t[stc.drop_last()[m] as int] == OperationComponent::Operator(operatorStack@[m].0, operatorStack@[m].1) by {
                                            assert(stc.drop_last()[m] == stc[m]);
                                            assert(operatorStack@[m] == stackBefore[m]);
                                        }
                                    }
                                    qc = qc.push(top);
                                    stc = stc.drop_last();
                                }
                            }
                        } else {
                            operatorStack.push((range, operator));
                            assert(stack_matches(t, operatorStack@, seq![i as nat]));
                            break;
                        }
                    }
                },
            }
            i = i + 1;
        }
        assert(rest@.len() == 0);
        assert(i == t.len());
        let ghost q = shunt(t, t.len()).0;
        let ghost st = shunt(t, t.len()).1;
        // the operators left on the stack follow, the most recent first
        assert(st.skip(st.len() as int).reverse() =~= Seq::<nat>::empty());
        assert(q + st.skip(st.len() as int).reverse() =~= q);
        assert(operatorStack@.len() == st.len());
        while operatorStack.len() > 0
            invariant
                stack_matches(t, operatorStack@, st.take(operatorStack@.len() as int)),
                operatorStack@.len() <= st.len(),
                queue_matches(t, resultQueue@, q + st.skip(operatorStack@.len() as int).reverse()),
            decreases operatorStack@.len(),
        {
            let ghost before = operatorStack@;
            let ghost n: int = before.len() as int;
            let ghost queueBefore = resultQueue@;
            let (lastRange, lastOperator) = operatorStack.pop().unwrap();
            resultQueue.push(OperationComponent::Operator(lastRange, lastOperator));
            assert(st.take(n - 1) =~= st.take(n).drop_last());
            assert(st.take(n)[n - 1] == st[n - 1]);
            assert(st.skip(n - 1).reverse() =~= st.skip(n).reverse().push(st[n - 1]));
            assert(q + st.skip(n - 1).reverse() =~= (q + st.skip(n).reverse()).push(st[n - 1]));
            assert(stack_matches(t, operatorStack@, st.take(n - 1))) by {
                assert forall|m: int| 0 <= m < st.take(n - 1).len() implies #[trigger] st.take(n - 1)[m] < t.len()
                    && t[st.take(n - 1)[m] as int] == OperationComponent::Operator(operatorStack@[m].0, operatorStack@[m].1) by {
                    assert(st.take(n - 1)[m] == st.take(n)[m]);
                    assert(operatorStack@[m] == before[m]);
                }
            }
            let ghost full = q + st.skip(n - 1).reverse();
            assert(queue_matches(t, resultQueue@, full)) by {
                assert forall|m: int| 0 <= m < full.len() implies #[trigger] full[m] < t.len()
                    && resultQueue@[m] == t[full[m] as int] by {
                    if m < full.len() - 1 {
                        assert(full[m] == (q + st.skip(n).reverse())[m]);
                    }
                }
            }
        }
        assert(st.skip(0) =~= st);
        let ghost post = postfix(t);
        assert(post == q + st.reverse());
        let result = Self::getFromPostfix(resultQueue, Ghost(t), Ghost(post));
        proof {
            lemma_eval(t, post);
            if operands_counts_match(comps) {
                assert(operands_counts_match(t)) by {
                    assert forall|i: int| #![trigger t[i]] 0 <= i < t.len() implies match t[i] {
                        OperationComponent::Expression(x) => operand_counts_match(x),
                        _ => true,
                    } by {
                        assert(t[i] == comps[i]);
                    }
                }
                if result is Ok {
                    lemma_denotes_counts(t, Expr::Operator(result->Ok_0), eval(t, post)[0]);
                }
            }
        }
        result
    }
}


impl OperatorExpr {
    /// `first operator second`.
    pub fn binaryExpr(first: Expr, operator: Operator, second: Expr) -> (expression: Self)
        requires
            first.spec_range().wf(),
            second.spec_range().wf(),
        ensures
            expression.range == first.spec_range().spec_combined(second.spec_range()),
            expression.operands@ == seq![first, second],
            expression.operator == operator,
    {
        let range = first.getRange().getCombined(second.getRange());
        let mut operands = Vec::new();
        operands.push(first);
        operands.push(second);
        OperatorExpr { range, operands, operator }
    }

    /// `operator` applied to the single operand `expr`.
    pub fn unaryOperator(expr: Expr, operator: Operator, operatorRange: ModuleRange) -> (expression: Self)
        requires
            expr.spec_range().wf(),
            operatorRange.wf(),
        ensures
            expression.range == expr.spec_range().spec_combined(operatorRange),
            expression.operands@ == seq![expr],
            expression.operator == operator,
    {
        let range = expr.getRange().getCombined(&operatorRange);
        let mut operands = Vec::new();
        operands.push(expr);
        OperatorExpr { range, operands, operator }
    }

    pub fn toSymbol(self) -> (symbol: Symbol)
        ensures
            symbol == Symbol::Expr(Expr::Operator(self)),
    {
        Symbol::Expr(Expr::Operator(self))
    }
}

impl SymbolType for OperatorExpr {
    open spec fn spec_range(&self) -> ModuleRange {
        self.range
    }

    fn getRange(&self) -> (range: &ModuleRange) {
        &self.range
    }
}

impl ExprType for OperatorExpr {}

impl OperationComponent {
    /// A short description: an operator's characters, or the index where an expression starts.
    pub open spec fn spec_describe(&self) -> Seq<char> {
        match self {
            OperationComponent::Operator(_, operator) => spec_characters(*operator),
            OperationComponent::Expression(expr) => spec_decimal(expr.spec_range().start()),
        }
    }

    pub fn describe(&self) -> (text: String)
        ensures
            text@ == self.spec_describe(),
    {
        match self {
            OperationComponent::Operator(_, operator) => String::from_str(operator.getCharacters()),
            OperationComponent::Expression(expr) => decimalText(expr.getRange().getStartIndex()),
        }
    }
}

} // verus!
