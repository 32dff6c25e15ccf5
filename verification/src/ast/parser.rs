//! The parser: reads the rules of the grammar from token modules, and
//! gives exactly the outcomes that the grammar relates to each position.
use std::rc::Rc;

use vstd::prelude::*;

use crate::ast::conflictresolution::tryResolveSymbolConflict;
use crate::ast::error::ASTError;
use crate::ast::grammar::{
    as_symbols, choose_expr, component_from, expr_option, expr_options, expr_rank, leaf_char, leaf_integer,
    lemma_entries_stuck, map_outcome, module_start, paren_module, picked, rel_array, rel_comma, rel_comma_at, rel_components,
    rel_constructor_call, rel_entries, rel_expr, rel_function_call, rel_operator, rel_tuple, rest, results_of,
    tried_in_order, Outcome,
};
use crate::ast::matchers::{
    advanced, getMatchLiteralBool, getMatchLiteralFloat, getMatchLiteralString, getMatchLiteralVoid,
    getMatchVariableDeclarationExpr, getMatchVariableExpr, identifierAt, keywordAt, positionAfter, token_type_at,
    typeAt,
};
use crate::ast::matchtype::{failures, successes, Match, MatchType};
use crate::ast::numbers::{isFloat, parseInteger};
use crate::ast::operatorexpr::{
    component_wf, fold_range, infix_tree, lemma_fold_range, lemma_root_operator, valid_length, OperationComponent,
    OperatorExpr,
};
use crate::ast::symbol::{
    ConstructorCallExpr, Expr, FunctionCallExpr, LiteralArray, LiteralChar, LiteralInteger, LiteralTuple, Symbol,
};
use crate::module::{Keyword, Module, ModulePos, Operator, ParenthesisType, QuoteType, TokenType};
use crate::text::charsOf;

verus! {

/// A successful outcome starts at `pos`, covers at least one token and lies inside its module.
pub open spec fn outcome_ok<T>(pos: ModulePos, out: Outcome<T>) -> bool {
    out matches Some(Ok(m)) ==> m.range.wf() && m.range.startPos == pos && m.range.length > 0
}

/// As `outcome_ok`, and the expression's own range lies inside its module too.
pub open spec fn expr_outcome_ok(pos: ModulePos, out: Outcome<Expr>) -> bool {
    &&& outcome_ok(pos, out)
    &&& out matches Some(Ok(m)) ==> m.value.spec_range().wf()
}

/// The module of the bracketed group of kind `kind` right after `pos`.
pub(crate) fn parenModuleAt(pos: &ModulePos, kind: ParenthesisType) -> (inner: Option<&Rc<Module>>)
    ensures
        match paren_module(*pos, kind) {
            None => inner is None,
            Some(m) => inner matches Some(i) && *i == m,
        },
{
    if pos.hasToken() {
        if let TokenType::Parenthesis(k, m) = pos.getToken().getTokenType() {
            if *k == kind {
                return Some(m);
            }
        }
    }
    None
}

/// The operator token right after `pos`, if that is the next token.
fn operatorAt(pos: &ModulePos) -> (operator: Option<Operator>)
    ensures
        operator == (match token_type_at(*pos) {
            Some(TokenType::Operator(op)) => Some(op),
            _ => None,
        }),
{
    if pos.hasToken() {
        if let TokenType::Operator(op) = pos.getToken().getTokenType() {
            return Some(*op);
        }
    }
    None
}

/// The expressions of the bracketed group `m`, read from its first position.
pub fn parseComma(m: &Rc<Module>) -> (out: Outcome<Vec<Expr>>)
    ensures
        rel_comma(*m, out),
        out matches Some(Ok(r)) ==> r.range.wf() && r.range.startPos.module == *m,
    decreases **m, m.len(), 10nat, 0nat,
{
    let pos = Module::getModulePos(m, 0);
    assert(pos == module_start(*m));
    parseCommaAt(&pos)
}

/// The expressions read at `pos`: the entries of a comma separated list
/// there, nothing in an empty module, and otherwise the one expression at the
/// start of the module.
pub fn parseCommaAt(pos: &ModulePos) -> (out: Outcome<Vec<Expr>>)
    requires
        pos.wf(),
    ensures
        rel_comma_at(*pos, out),
        out matches Some(Ok(r)) ==> r.range.wf() && r.range.startPos.module == pos.module,
    decreases *pos.module, pos.module.len(), 9nat, 0nat,
{
    if pos.hasToken() {
        if let TokenType::CommaList(mods) = pos.getToken().getTokenType() {
            let mut exprs: Vec<Expr> = Vec::new();
            let mut k: usize = 0;
            assert(rel_entries(*pos, *mods, 0, Some(Ok::<Seq<Expr>, ASTError>(exprs@))));
            while k < mods.len()
                invariant
                    k <= mods@.len(),
                    pos.has_token(),
                    token_type_at(*pos) == Some(TokenType::CommaList(*mods)),
                    rel_entries(*pos, *mods, k as nat, Some(Ok::<Seq<Expr>, ASTError>(exprs@))),
                decreases mods@.len() - k,
            {
                let entry = &mods[k];
                let start = Module::getModulePos(entry, 0);
                proof {
                    let m = pos.module;
                    let tt = m.tokenVec@[pos.tokenIndex as int].tokenType;
                    assert(decreases_to!(*m => m.tokenVec));
                    assert(decreases_to!(m.tokenVec => m.tokenVec@));
                    assert(decreases_to!(m.tokenVec@ => m.tokenVec@[pos.tokenIndex as int]));
                    assert(decreases_to!(m.tokenVec@[pos.tokenIndex as int] => tt));
                    assert(tt is CommaList && tt->CommaList_0 == *mods);
                    assert(decreases_to!(tt => tt->CommaList_0));
                    assert(decreases_to!(*mods => mods@));
                    assert(decreases_to!(mods@ => mods@[k as int]));
                }
                let r = parseExpr(false, false, &start);
                let ghost prev = Some(Ok::<Seq<Expr>, ASTError>(exprs@));
                assert(picked(prev));
                assert(picked(r));
                assert(((k + 1) - 1) as nat == k as nat);
                assert(start == module_start(mods@[k as int]));
                match r {
                    None => {
                        assert(rel_entries(*pos, *mods, (k + 1) as nat, None));
                        proof { lemma_entries_stuck(*pos, *mods, (k + 1) as nat, None); }
                        assert(picked(None::<Result<Seq<Expr>, ASTError>>));
                        return None;
                    },
                    Some(Err(e)) => {
                        assert(rel_entries(*pos, *mods, (k + 1) as nat, Some(Err::<Seq<Expr>, ASTError>(e))));
                        proof { lemma_entries_stuck(*pos, *mods, (k + 1) as nat, Some(Err::<Seq<Expr>, ASTError>(e))); }
                        assert(picked(Some(Err::<Seq<Expr>, ASTError>(e))));
                        return Some(Err(e));
                    },
                    Some(Ok(em)) => {
                        if em.getRange().getEndIndex() != entry.getTokenVector().len() {
                            let e = ASTError::ExpectedExclusive(em.getRange().getEndPos(), None);
                            assert(rel_entries(*pos, *mods, (k + 1) as nat, Some(Err::<Seq<Expr>, ASTError>(e))));
                            proof { lemma_entries_stuck(*pos, *mods, (k + 1) as nat, Some(Err::<Seq<Expr>, ASTError>(e))); }
                            assert(picked(Some(Err::<Seq<Expr>, ASTError>(e))));
                            return Some(Err(e));
                        }
                        let (_, value) = em.take();
                        exprs.push(value);
                        assert(rel_entries(*pos, *mods, (k + 1) as nat, Some(Ok::<Seq<Expr>, ASTError>(exprs@))));
                    },
                }
                k = k + 1;
            }
            assert(picked(Some(Ok::<Seq<Expr>, ASTError>(exprs@))));
            return Some(Ok(Match::new(pos.getRangeWithLength(1), exprs)));
        }
    }
    let m = pos.getModule();
    if m.getTokenVector().len() == 0 {
        let empty: Vec<Expr> = Vec::new();
        return Some(Ok(Match::new(pos.getRangeWithLength(0), empty)));
    }
    let start = Module::getModulePos(m, 0);
    assert(start == module_start(pos.module));
    let r = parseExpr(false, false, &start);
    assert(picked(r));
    match r {
        None => None,
        Some(Err(e)) => Some(Err(e)),
        Some(Ok(em)) => {
            let (range, value) = em.take();
            let mut single: Vec<Expr> = Vec::new();
            single.push(value);
            assert(single@ == seq![value]);
            Some(Ok(Match::new(range, single)))
        },
    }
}

/// `new Type(arguments)`
pub fn parseConstructorCall(pos: &ModulePos) -> (out: Outcome<Expr>)
    requires
        pos.wf(),
    ensures
        rel_constructor_call(*pos, out),
        expr_outcome_ok(*pos, out),
    decreases *pos.module, rest(*pos), 0nat, 0nat,
{
    if !keywordAt(pos, Keyword::New) {
        return Some(Err(ASTError::ExpectedToken(pos.duplicate(), TokenType::Keyword(Keyword::New))));
    }
    let typePos = positionAfter(pos, 1);
    if !typeAt(&typePos) {
        return Some(Err(ASTError::ExpectedType(typePos)));
    }
    let parenPos = positionAfter(pos, 2);
    assert(parenPos == advanced(*pos, 2) || !parenPos.has_token());
    match parenModuleAt(&parenPos, ParenthesisType::Rounded) {
        None => Some(Err(ASTError::ExpectedTokenDiscriminant(parenPos, crate::module::TokenTypeDiscriminants::Parenthesis))),
        Some(inner) => {
            let c = parseComma(inner);
            assert(picked(c));
            match c {
                None => None,
                Some(Err(e)) => Some(Err(e)),
                Some(Ok(cm)) => {
                    let range = pos.getRangeWithLength(3);
                    let (_, argVec) = cm.take();
                    Some(Ok(Match::new(range.duplicate(), Expr::ConstructorCall(ConstructorCallExpr { range, typeName: typePos, argVec }))))
                },
            }
        },
    }
}

/// `name(arguments)`
pub fn parseFunctionCall(pos: &ModulePos) -> (out: Outcome<Expr>)
    requires
        pos.wf(),
    ensures
        rel_function_call(*pos, out),
        expr_outcome_ok(*pos, out),
    decreases *pos.module, rest(*pos), 0nat, 0nat,
{
    if !identifierAt(pos) {
        return Some(Err(ASTError::ExpectedToken(pos.duplicate(), TokenType::Identifier)));
    }
    let parenPos = positionAfter(pos, 1);
    match parenModuleAt(&parenPos, ParenthesisType::Rounded) {
        None => Some(Err(ASTError::ExpectedTokenDiscriminant(parenPos, crate::module::TokenTypeDiscriminants::Parenthesis))),
        Some(inner) => {
            let c = parseComma(inner);
            assert(picked(c));
            match c {
                None => None,
                Some(Err(e)) => Some(Err(e)),
                Some(Ok(cm)) => {
                    let range = pos.getRangeWithLength(2);
                    let (_, argVec) = cm.take();
                    Some(Ok(Match::new(range.duplicate(), Expr::FunctionCall(FunctionCallExpr { range, functionName: pos.duplicate(), argVec }))))
                },
            }
        },
    }
}

/// `[a, b, c]` (when `square`) or `(a, b, c)`.
pub(crate) fn parseBracketList(pos: &ModulePos, square: bool) -> (out: Outcome<Expr>)
    requires
        pos.wf(),
    ensures
        square ==> rel_array(*pos, out),
        !square ==> rel_tuple(*pos, out),
        expr_outcome_ok(*pos, out),
    decreases *pos.module, rest(*pos), 0nat, 0nat,
{
    let kind = if square { ParenthesisType::Square } else { ParenthesisType::Rounded };
    match parenModuleAt(pos, kind) {
        None => Some(Err(ASTError::ExpectedTokenDiscriminant(pos.duplicate(), crate::module::TokenTypeDiscriminants::Parenthesis))),
        Some(inner) => {
            let c = parseComma(inner);
            assert(picked(c));
            match c {
                None => None,
                Some(Err(e)) => Some(Err(e)),
                Some(Ok(cm)) => {
                    let (range, exprVec) = cm.take();
                    let value = if square {
                        Expr::LiteralArray(LiteralArray { range, exprVec })
                    } else {
                        Expr::LiteralTuple(LiteralTuple { range, exprVec })
                    };
                    Some(Ok(Match::new(pos.getRangeWithLength(1), value)))
                },
            }
        },
    }
}

/// Alternative `i` of an expression at `pos`.
pub(crate) fn exprOption(excludeOperator: bool, excludeDeclaration: bool, i: usize, pos: &ModulePos) -> (r: Outcome<Expr>)
    requires
        pos.wf(),
        i < 13,
    ensures
        expr_option(excludeOperator, excludeDeclaration, i as int, *pos, r),
        expr_outcome_ok(*pos, r),
        i != 2 ==> (r matches Some(Ok(m)) ==> !(m.value is Operator)),
    decreases *pos.module, rest(*pos), expr_rank(excludeOperator), 0nat,
{
    if i == 0 {
        parseConstructorCall(pos)
    } else if i == 1 {
        parseFunctionCall(pos)
    } else if i == 2 {
        if excludeOperator {
            Some(Err(ASTError::MatchFailed(pos.duplicate())))
        } else {
            let o = parseOperator(pos);
            let ghost og = o;
            assert(picked(og));
            let r = match o {
                None => None,
                Some(Err(e)) => Some(Err(e)),
                Some(Ok(m)) => {
                    let (range, value) = m.take();
                    Some(Ok(Match::new(range, Expr::Operator(value))))
                },
            };
            assert(r == map_outcome(og, |v| Expr::Operator(v)));
            r
        }
    } else if i == 3 {
        if excludeDeclaration {
            Some(Err(ASTError::MatchFailed(pos.duplicate())))
        } else {
            match getMatchVariableDeclarationExpr().getMatch(pos.duplicate()) {
                Ok(m) => {
                    let (range, value) = m.take();
                    Some(Ok(Match::new(range, Expr::VariableDeclaration(value))))
                },
                Err(e) => Some(Err(e)),
            }
        }
    } else if i == 4 {
        match getMatchVariableExpr().getMatch(pos.duplicate()) {
            Ok(m) => {
                let (range, value) = m.take();
                Some(Ok(Match::new(range, Expr::Variable(value))))
            },
            Err(e) => Some(Err(e)),
        }
    } else if i == 5 {
        parseBracketList(pos, true)
    } else if i == 6 {
        match getMatchLiteralBool().getMatch(pos.duplicate()) {
            Ok(m) => {
                let (range, value) = m.take();
                Some(Ok(Match::new(range, Expr::LiteralBool(value))))
            },
            Err(e) => Some(Err(e)),
        }
    } else if i == 7 {
        parseLiteralChar(pos)
    } else if i == 8 {
        match getMatchLiteralFloat().getMatch(pos.duplicate()) {
            Ok(m) => {
                let (range, value) = m.take();
                Some(Ok(Match::new(range, Expr::LiteralFloat(value))))
            },
            Err(e) => Some(Err(e)),
        }
    } else if i == 9 {
        parseLiteralInteger(pos)
    } else if i == 10 {
        match getMatchLiteralString().getMatch(pos.duplicate()) {
            Ok(m) => {
                let (range, value) = m.take();
                Some(Ok(Match::new(range, Expr::LiteralString(value))))
            },
            Err(e) => Some(Err(e)),
        }
    } else if i == 11 {
        match getMatchLiteralVoid().getMatch(pos.duplicate()) {
            Ok(m) => {
                let (range, value) = m.take();
                Some(Ok(Match::new(range, Expr::LiteralVoid(value))))
            },
            Err(e) => Some(Err(e)),
        }
    } else {
        parseBracketList(pos, false)
    }
}

/// A character literal; `None` for one whose text is not exactly one byte long.
fn parseLiteralChar(pos: &ModulePos) -> (r: Outcome<Expr>)
    requires
        pos.wf(),
    ensures
        r == leaf_char(*pos),
        expr_outcome_ok(*pos, r),
{
    if pos.hasToken() {
        if let TokenType::String(quoteType, fileRange) = pos.getToken().getTokenType() {
            if *quoteType == QuoteType::Single {
                let source = fileRange.getSourceInRange();
                if source.len() != 1 {
                    return None;
                }
                let chars = charsOf(source);
                let range = pos.getRangeWithLength(1);
                let value = chars[0] as u32;
                return Some(Ok(Match::new(range.duplicate(), Expr::LiteralChar(LiteralChar { range, value }))));
            }
        }
    }
    Some(Err(ASTError::ExpectedTokenDiscriminant(pos.duplicate(), crate::module::TokenTypeDiscriminants::String)))
}

/// A whole number; `None` for one outside the range of 64-bit integers.
fn parseLiteralInteger(pos: &ModulePos) -> (r: Outcome<Expr>)
    requires
        pos.wf(),
    ensures
        r == leaf_integer(*pos),
        expr_outcome_ok(*pos, r),
{
    if pos.hasToken() {
        let token = pos.getToken();
        if let TokenType::Number = token.getTokenType() {
            if !isFloat(token.getSourceRange()) {
                return match parseInteger(token.getSourceRange().getSourceInRange()) {
                    Some(value) => {
                        let range = pos.getRangeWithLength(1);
                        Some(Ok(Match::new(range.duplicate(), Expr::LiteralInteger(LiteralInteger { range, value }))))
                    },
                    None => None,
                };
            }
        }
    }
    Some(Err(ASTError::ExpectedTokenDiscriminant(pos.duplicate(), crate::module::TokenTypeDiscriminants::Number)))
}

/// An expression at `pos`: every alternative is tried, and the resolver picks among those that matched.
pub fn parseExpr(excludeOperator: bool, excludeDeclaration: bool, pos: &ModulePos) -> (out: Outcome<Expr>)
    requires
        pos.wf(),
    ensures
        rel_expr(excludeOperator, excludeDeclaration, *pos, out),
        expr_outcome_ok(*pos, out),
        excludeOperator ==> (out matches Some(Ok(m)) ==> !(m.value is Operator)),
    decreases *pos.module, rest(*pos), expr_rank(excludeOperator), 2nat,
{
    let mut found: Vec<Match<Expr>> = Vec::new();
    let mut errors: Vec<ASTError> = Vec::new();
    let ghost mut rs: Seq<Outcome<Expr>> = Seq::empty();
    let mut i: usize = 0;
    while i < 13
        invariant
            i <= 13,
            pos.wf(),
            rs.len() == i,
            forall|j: int| 0 <= j < i ==> expr_option(excludeOperator, excludeDeclaration, j, *pos, #[trigger] rs[j]),
            forall|j: int| 0 <= j < i ==> (#[trigger] rs[j]) is Some,
            found@ == successes(results_of(rs)),
            errors@ == failures(results_of(rs)),
            forall|j: int| 0 <= j < found@.len() ==> expr_outcome_ok(*pos, Some(Ok::<Match<Expr>, ASTError>(#[trigger] found@[j]))),
            excludeOperator ==> forall|j: int| 0 <= j < found@.len() ==> !((#[trigger] found@[j]).value is Operator),
        decreases 13 - i,
    {
        let r = exprOption(excludeOperator, excludeDeclaration, i, pos);
        let ghost before = rs;
        proof {
            rs = rs.push(r);
        }
        match r {
            None => {
                assert(tried_in_order(rs, 13));
                assert(expr_options(excludeOperator, excludeDeclaration, *pos, rs));
                assert(choose_expr(*pos, rs, 13, None));
                assert(picked(rs));
                return None;
            },
            Some(result) => {
                assert(results_of(rs) =~= results_of(before).push(result));
                assert(results_of(before).push(result).drop_last() =~= results_of(before));
                match result {
                    Ok(m) => {
                        found.push(m);
                    },
                    Err(e) => {
                        errors.push(e);
                    },
                }
            },
        }
        i = i + 1;
    }
    assert(tried_in_order(rs, 13));
    assert(expr_options(excludeOperator, excludeDeclaration, *pos, rs));
    assert(picked(rs));
    if found.len() == 0 {
        let out = Some(Err(ASTError::MatchOptionsFailed(pos.duplicate(), errors)));
        assert(choose_expr(*pos, rs, 13, out));
        return out;
    }
    let ghost foundSeq = found@;
    let mut symbols: Vec<Match<Symbol>> = Vec::new();
    let mut source = found;
    while source.len() > 0
        invariant
            symbols@.len() + source@.len() == foundSeq.len(),
            symbols@ == as_symbols(foundSeq.take(symbols@.len() as int)),
            source@ == foundSeq.skip(symbols@.len() as int),
        decreases source@.len(),
    {
        let m = source.remove(0);
        let ghost k: int = symbols@.len() as int;
        let (range, value) = m.take();
        symbols.push(Match::new(range, value.toSymbol()));
        assert(foundSeq.take(k + 1) =~= foundSeq.take(k as int).push(foundSeq[k as int]));
        assert(as_symbols(foundSeq.take(k + 1)) =~= as_symbols(foundSeq.take(k as int)).push(
            Match { range: foundSeq[k as int].range, value: Symbol::Expr(foundSeq[k as int].value) },
        ));
        assert(source@ =~= foundSeq.skip(k + 1));
    }
    assert(foundSeq.take(foundSeq.len() as int) =~= foundSeq);
    let resolved = tryResolveSymbolConflict(pos.duplicate(), &symbols);
    match resolved {
        None => {
            assert(choose_expr(*pos, rs, 13, None));
            None
        },
        Some(Err(e)) => {
            let out = Some(Err(e));
            assert(choose_expr(*pos, rs, 13, out));
            out
        },
        Some(Ok(index)) => {
            let chosen = symbols.swap_remove(index);
            let (range, symbol) = chosen.take();
            match symbol.toExpression() {
                Some(value) => {
                    let out = Some(Ok(Match::new(range, value)));
                    assert(out == Some(Ok::<Match<Expr>, ASTError>(foundSeq[index as int])));
                    assert(choose_expr(*pos, rs, 13, out));
                    out
                },
                None => {
                    assert(false);
                    None
                },
            }
        },
    }
}

/// The components read one after another from `q` until one fails or the module ends.
fn parseComponents(q: &ModulePos) -> (cs: Option<Vec<Match<OperationComponent>>>)
    requires
        q.wf(),
    ensures
        rel_components(*q, match cs {
            None => None,
            Some(v) => Some(v@),
        }),
        cs matches Some(v) ==> forall|i: int| 0 <= i < v@.len() ==> {
            &&& (#[trigger] v@[i]).range.wf()
            &&& v@[i].range.startPos.module == q.module
            &&& q.tokenIndex <= v@[i].range.startPos.tokenIndex
            &&& v@[i].range.length > 0
            &&& component_wf(v@[i].value)
            &&& v@[i].value matches OperationComponent::Operator(r, _) ==> r == v@[i].range
            &&& !(v@[i].value matches OperationComponent::Expression(Expr::Operator(_)))
        },
    decreases *q.module, rest(*q), 3nat, 0nat,
{
    if !q.hasToken() {
        let empty: Vec<Match<OperationComponent>> = Vec::new();
        assert(empty@ =~= Seq::<Match<OperationComponent>>::empty());
        return Some(empty);
    }
    let e = parseExpr(true, true, q);
    let ghost eg = e;
    assert(picked(eg));
    match e {
        None => None,
        Some(er) => {
            let ghost erg = er;
            let operator = operatorAt(q);
            let c = match (er, operator) {
                (Ok(m), None) => {
                    let (range, value) = m.take();
                    Match::new(range, OperationComponent::Expression(value))
                },
                (Err(_), Some(op)) => Match::new(q.getRangeWithLength(1), OperationComponent::Operator(q.getRangeWithLength(1), op)),
                _ => {
                    let empty: Vec<Match<OperationComponent>> = Vec::new();
                    assert(component_from(*q, erg) is None);
                    assert(empty@ =~= Seq::<Match<OperationComponent>>::empty());
                    return Some(empty);
                },
            };
            assert(component_from(*q, erg) == Some(c));
            let next = c.getRange().getEndPos();
            let tail = parseComponents(&next);
            assert(picked(match tail {
                None => None,
                Some(v) => Some(v@),
            }));
            match tail {
                None => None,
                Some(t) => {
                    let ghost tv = t@;
                    let mut t = t;
                    t.insert(0, c);
                    assert(t@ =~= seq![c] + tv);
                    Some(t)
                },
            }
        },
    }
}

/// An operator expression at `pos`.
pub fn parseOperator(pos: &ModulePos) -> (out: Outcome<OperatorExpr>)
    requires
        pos.wf(),
    ensures
        rel_operator(*pos, out),
        outcome_ok(*pos, out),
        out matches Some(Ok(m)) ==> {
            &&& m.value.range.wf()
            &&& m.value.range.startPos.module == pos.module
            &&& pos.tokenIndex < m.value.range.end()
        },
    decreases *pos.module, rest(*pos), 4nat, 0nat,
{
    let first = parseExpr(true, false, pos);
    let ghost firstG = first;
    assert(picked(firstG));
    let mut components: Vec<OperationComponent> = Vec::new();
    let q = match first {
        None => {
            return None;
        },
        Some(Ok(m)) => {
            let (range, value) = m.take();
            components.push(OperationComponent::Expression(value));
            range.getEndPos()
        },
        Some(Err(_)) => pos.duplicate(),
    };
    let ghost lead = components@;
    let cs = parseComponents(&q);
    assert(picked(match cs {
        None => None,
        Some(v) => Some(v@),
    }));
    match cs {
        None => None,
        Some(found) => {
            let ghost foundSeq = found@;
            if found.len() == 0 {
                return Some(Err(ASTError::MatchFailed(q)));
            }
            let endIndex = found[found.len() - 1].getRange().getEndIndex();
            let range = pos.getRangeWithLength(endIndex - pos.getTokenIndex());
            let mut source = found;
            while source.len() > 0
                invariant
                    components@.len() == lead.len() + (foundSeq.len() - source@.len()),
                    components@ == lead + foundSeq.take(foundSeq.len() - source@.len()).map_values(
                        |c: Match<OperationComponent>| c.value,
                    ),
                    source@ == foundSeq.skip(foundSeq.len() - source@.len()),
                decreases source@.len(),
            {
                let ghost k: int = foundSeq.len() - source@.len();
                let c = source.remove(0);
                let (_, value) = c.take();
                components.push(value);
                assert(foundSeq.take(k + 1) =~= foundSeq.take(k).push(foundSeq[k]));
                assert(source@ =~= foundSeq.skip(k + 1));
            }
            assert(foundSeq.take(foundSeq.len() as int) =~= foundSeq);
            let ghost comps = components@;
            assert(comps == lead + foundSeq.map_values(|c: Match<OperationComponent>| c.value));
            assert forall|i: int| 0 <= i < comps.len() implies crate::ast::operatorexpr::component_wf(#[trigger] comps[i]) by {
                if i >= lead.len() {
                    assert(comps[i] == foundSeq[i - lead.len()].value);
                }
            }
            let ghost v = valid_length(comps);
            assert forall|i: int| 0 <= i < comps.len() implies !(#[trigger] comps[i] matches OperationComponent::Expression(Expr::Operator(_))) by {
                if i >= lead.len() {
                    assert(comps[i] == foundSeq[i - lead.len()].value);
                }
            }
            match OperatorExpr::getFromInfix(components) {
                Ok(oe) => {
                    proof {
                        let tree = infix_tree(comps).unwrap();
                        let t = comps.take(v as int);
                        assert(v <= comps.len()) by {
                            crate::ast::operatorexpr::lemma_valid_length_bound(comps);
                        }
                        assert forall|i: int| 0 <= i < t.len() implies !(#[trigger] t[i] matches OperationComponent::Expression(Expr::Operator(_))) by {
                            assert(t[i] == comps[i]);
                        }
                        lemma_root_operator(t, oe, tree);
                        let k = choose|k: int| 0 <= k < t.len() && #[trigger] t[k] is Operator && oe.range == fold_range(t[k]->Operator_0, oe.operands@);
                        assert(t[k] == comps[k]);
                        assert(k >= lead.len());
                        let c = foundSeq[k - lead.len()];
                        assert(comps[k] == c.value);
                        lemma_fold_range(c.range, oe.operands@);
                    }
                    Some(Ok(Match::new(range, oe)))
                },
                Err(e) => Some(Err(e)),
            }
        },
    }
}

} // verus!
