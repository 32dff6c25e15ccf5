//! The parser of statements and definitions: symbols, blocks, control flow,
//! functions and classes.
use std::rc::Rc;

use vstd::prelude::*;

use crate::ast::conflictresolution::{resolveClassDefinitionConflict, tryResolveSymbolConflict};
use crate::ast::error::ASTError;
use crate::ast::grammar::{
    adjusted, after_visibility, attributes_from, choose_member, choose_symbol, field_member, fields_of,
    is_operator_at, map_outcome, member_option, member_options, methods_of, module_start, paren_module, picked,
    rel_block, rel_class_definition, rel_class_member, rel_function_definition, rel_function_parameter, rel_if,
    rel_members_from, rel_parameter_entries, rel_parameters, rel_return, rel_symbol, rel_symbols_from, rel_while,
    rest, results_of, skip_semicolons, static_fields_of, symbol_expr_option, symbol_option, symbol_options,
    tried_in_order, visibility_at, whole_parameter, Outcome,
};
use crate::ast::matchers::{
    advanced, getMatchBreakSym, getMatchContinueSym, getMatchFunctionAttribute, getMatchImportSym,
    getMatchVisibility, identifierAt, keywordAt, positionAfter, token_type_at, typeAt,
};
use crate::ast::matchtype::{failures, successes, Match, MatchType};
use crate::ast::parser::{exprOption, outcome_ok, parenModuleAt, parseExpr, parseOperator};
use crate::ast::symbol::{
    BlockSym, ClassDefinitionSym, ClassFieldDefinition, ClassMember, ClassStaticFieldDefinition, ElseSym, Expr,
    FunctionAttribute, FunctionDefinitionSym, FunctionParameter, IfSym, Label, ReturnSym, Symbol, Visibility,
    WhileLoop,
};
use crate::module::{Keyword, Module, ModulePos, Operator, ParenthesisType, TokenType};

verus! {

fn semicolonAt(pos: &ModulePos) -> (found: bool)
    ensures
        found == (token_type_at(*pos) == Some(TokenType::SemiColan)),
{
    if pos.hasToken() {
        if let TokenType::SemiColan = pos.getToken().getTokenType() {
            return true;
        }
    }
    false
}

fn operatorIs(pos: &ModulePos, operator: Operator) -> (found: bool)
    ensures
        found == is_operator_at(*pos, operator),
{
    if pos.hasToken() {
        if let TokenType::Operator(op) = pos.getToken().getTokenType() {
            return *op == operator;
        }
    }
    false
}

/// The first position at or after `pos` that is not in front of a `;`.
fn skipSemicolons(pos: &ModulePos) -> (p: ModulePos)
    requires
        pos.wf(),
    ensures
        p == skip_semicolons(*pos),
        p.wf(),
        p.module == pos.module,
        pos.tokenIndex <= p.tokenIndex,
{
    let mut p = pos.duplicate();
    while semicolonAt(&p)
        invariant
            p.wf(),
            p.module == pos.module,
            pos.tokenIndex <= p.tokenIndex,
            skip_semicolons(p) == skip_semicolons(*pos),
        decreases rest(p),
    {
        p = positionAfter(&p, 1);
    }
    p
}

/// The visibility keyword right after `pos`, if there is one.
fn visibilityAt(pos: &ModulePos) -> (visibility: Option<Visibility>)
    requires
        pos.wf(),
    ensures
        visibility == visibility_at(*pos),
{
    match getMatchVisibility().getMatch(pos.duplicate()) {
        Ok(m) => Some(m.value),
        Err(_) => None,
    }
}

/// The position after an optional visibility keyword at `pos`.
fn afterVisibility(pos: &ModulePos) -> (next: ModulePos)
    requires
        pos.wf(),
    ensures
        next == after_visibility(*pos),
        next.wf(),
        next.module == pos.module,
        pos.tokenIndex <= next.tokenIndex,
{
    if visibilityAt(pos).is_some() {
        positionAfter(pos, 1)
    } else {
        pos.duplicate()
    }
}

/// The function attributes read one after another from `pos`, and the position after them.
fn attributesFrom(pos: &ModulePos) -> (read: (Vec<FunctionAttribute>, ModulePos))
    requires
        pos.wf(),
    ensures
        read.0@ == attributes_from(*pos),
        read.1 == advanced(*pos, read.0@.len()),
        read.1.wf(),
        pos.tokenIndex + read.0@.len() <= pos.module.len(),
{
    let mut attributes: Vec<FunctionAttribute> = Vec::new();
    let mut p = pos.duplicate();
    while p.hasToken()
        invariant
            p.wf(),
            p == advanced(*pos, attributes@.len()),
            pos.tokenIndex + attributes@.len() <= pos.module.len(),
            attributes_from(*pos) == attributes@ + attributes_from(p),
        ensures
            p.wf(),
            p == advanced(*pos, attributes@.len()),
            attributes_from(*pos) == attributes@ + attributes_from(p),
            attributes_from(p) == Seq::<FunctionAttribute>::empty(),
        decreases rest(p),
    {
        match getMatchFunctionAttribute().getMatch(p.duplicate()) {
            Ok(m) => {
                let ghost before = attributes@;
                attributes.push(m.value);
                assert(attributes_from(p) == seq![m.value] + attributes_from(advanced(p, 1)));
                assert(before + (seq![m.value] + attributes_from(advanced(p, 1))) == attributes@ + attributes_from(advanced(p, 1)));
                let ghost oldIndex = p.tokenIndex;
                p = positionAfter(&p, 1);
                assert(p.tokenIndex == oldIndex + 1);
                assert(oldIndex == pos.tokenIndex + before.len());
                assert(p.tokenIndex == pos.tokenIndex + attributes@.len());
                assert(p == advanced(*pos, attributes@.len()));
            },
            Err(_) => {
                break;
            },
        }
    }
    assert(attributes@ + Seq::<FunctionAttribute>::empty() == attributes@);
    (attributes, p)
}

/// The view of a parse of several values.
pub open spec fn seq_outcome<T>(out: Option<Result<Vec<T>, ASTError>>) -> Option<Result<Seq<T>, ASTError>> {
    match out {
        None => None,
        Some(Err(e)) => Some(Err(e)),
        Some(Ok(v)) => Some(Ok(v@)),
    }
}

/// `type name` or `type name = value`
pub fn parseFunctionParameter(pos: &ModulePos) -> (out: Outcome<FunctionParameter>)
    requires
        pos.wf(),
    ensures
        rel_function_parameter(*pos, out),
        outcome_ok(*pos, out),
{
    if !typeAt(pos) {
        return Some(Err(ASTError::ExpectedType(pos.duplicate())));
    }
    let name = positionAfter(pos, 1);
    if !identifierAt(&name) {
        return Some(Err(ASTError::ExpectedToken(name, TokenType::Identifier)));
    }
    let eq = positionAfter(pos, 2);
    if !operatorIs(&eq, Operator::AssignEq) {
        let range = pos.getRangeWithLength(2);
        return Some(Ok(Match::new(range, FunctionParameter { typeName: pos.duplicate(), parameterName: name, defaultExpr: None })));
    }
    let valuePos = positionAfter(pos, 3);
    let d = parseExpr(false, false, &valuePos);
    assert(picked(d));
    match d {
        None => None,
        Some(Err(_)) => {
            let range = pos.getRangeWithLength(2);
            Some(Ok(Match::new(range, FunctionParameter { typeName: pos.duplicate(), parameterName: name, defaultExpr: None })))
        },
        Some(Ok(dm)) => {
            let (valueRange, value) = dm.take();
            let endIndex = valueRange.getEndIndex();
            let range = pos.getRangeWithLength(endIndex - pos.getTokenIndex());
            Some(Ok(Match::new(
                range,
                FunctionParameter { typeName: pos.duplicate(), parameterName: name, defaultExpr: Some(value) },
            )))
        },
    }
}

/// A parameter that must fill its whole group `m`.
fn parseWholeParameter(m: &Rc<Module>) -> (out: Option<Result<FunctionParameter, ASTError>>)
    ensures
        exists|r: Outcome<FunctionParameter>| #[trigger] picked(r) && rel_function_parameter(module_start(*m), r)
            && out == whole_parameter(*m, r),
{
    let start = Module::getModulePos(m, 0);
    let r = parseFunctionParameter(&start);
    assert(picked(r));
    match r {
        None => None,
        Some(Err(e)) => Some(Err(e)),
        Some(Ok(pm)) => {
            if pm.getRange().getEndIndex() != m.getTokenVector().len() {
                Some(Err(ASTError::ExpectedExclusive(pm.getRange().getEndPos(), None)))
            } else {
                Some(Ok(pm.value))
            }
        },
    }
}

/// The parameters inside the round brackets `m` of a function definition.
pub fn parseParameters(m: &Rc<Module>) -> (out: Option<Result<Vec<FunctionParameter>, ASTError>>)
    ensures
        rel_parameters(*m, seq_outcome(out)),
{
    let length = m.getTokenVector().len();
    if length == 0 {
        let empty: Vec<FunctionParameter> = Vec::new();
        assert(empty@ =~= Seq::<FunctionParameter>::empty());
        return Some(Ok(empty));
    }
    if length == 1 {
        let start = Module::getModulePos(m, 0);
        if let TokenType::CommaList(mods) = start.getToken().getTokenType() {
            let mut parameters: Vec<FunctionParameter> = Vec::new();
            let mut k: usize = 0;
            assert(rel_parameter_entries(*m, *mods, 0, Some(Ok::<Seq<FunctionParameter>, ASTError>(parameters@))));
            while k < mods.len()
                invariant
                    k <= mods@.len(),
                    m.len() == 1,
                    m.tokenVec@[0].tokenType == TokenType::CommaList(*mods),
                    rel_parameter_entries(*m, *mods, k as nat, Some(Ok::<Seq<FunctionParameter>, ASTError>(parameters@))),
                decreases mods@.len() - k,
            {
                let ghost prev = Some(Ok::<Seq<FunctionParameter>, ASTError>(parameters@));
                assert(picked(prev));
                let w = parseWholeParameter(&mods[k]);
                assert(((k + 1) - 1) as nat == k as nat);
                match w {
                    None => {
                        assert(rel_parameter_entries(*m, *mods, (k + 1) as nat, None));
                        proof { crate::ast::grammar::lemma_parameter_entries_stuck(*m, *mods, (k + 1) as nat, None); }
                        assert(picked(None::<Result<Seq<FunctionParameter>, ASTError>>));
                        return None;
                    },
                    Some(Err(e)) => {
                        let ghost st = Some(Err::<Seq<FunctionParameter>, ASTError>(e));
                        assert(rel_parameter_entries(*m, *mods, (k + 1) as nat, st));
                        proof { crate::ast::grammar::lemma_parameter_entries_stuck(*m, *mods, (k + 1) as nat, st); }
                        assert(picked(st));
                        return Some(Err(e));
                    },
                    Some(Ok(parameter)) => {
                        parameters.push(parameter);
                        assert(rel_parameter_entries(*m, *mods, (k + 1) as nat, Some(Ok::<Seq<FunctionParameter>, ASTError>(parameters@))));
                    },
                }
                k = k + 1;
            }
            assert(picked(Some(Ok::<Seq<FunctionParameter>, ASTError>(parameters@))));
            return Some(Ok(parameters));
        }
    }
    let w = parseWholeParameter(m);
    match w {
        None => None,
        Some(Err(e)) => Some(Err(e)),
        Some(Ok(parameter)) => {
            let mut single: Vec<FunctionParameter> = Vec::new();
            single.push(parameter);
            assert(single@ == seq![parameter]);
            Some(Ok(single))
        },
    }
}

/// An operator expression read at `pos` has its own range in `pos`'s module, ending after `pos`.
pub open spec fn symbol_value_ok(value: Symbol, pos: ModulePos) -> bool {
    value matches Symbol::Expr(Expr::Operator(oe)) ==> {
        &&& oe.range.wf()
        &&& oe.range.startPos.module == pos.module
        &&& pos.tokenIndex < oe.range.end()
    }
}

/// The expression alternatives of a symbol.
fn symbolExprOption(i: usize, pos: &ModulePos) -> (e: Outcome<Expr>)
    requires
        pos.wf(),
        9 <= i < 22,
        i != 11,
    ensures
        symbol_expr_option(i as int, *pos, e),
        outcome_ok(*pos, e),
        e matches Some(Ok(m)) ==> m.value.spec_range().wf() && !(m.value is Operator),
{
    let j: usize = if i == 9 { 0 } else if i == 10 { 1 } else { i - 9 };
    exprOption(false, false, j, pos)
}

/// Alternative `i` of a symbol at `pos`.
fn symbolOption(i: usize, pos: &ModulePos) -> (r: Outcome<Symbol>)
    requires
        pos.wf(),
        i < 22,
    ensures
        symbol_option(i as int, *pos, r),
        outcome_ok(*pos, r),
        r matches Some(Ok(m)) ==> symbol_value_ok(m.value, *pos),
    decreases *pos.module, rest(*pos), 6nat, 0nat,
{
    if i == 0 {
        let o = parseBlock(pos);
        let ghost og = o;
        assert(picked(og));
        let r = match o {
            None => None,
            Some(Err(e)) => Some(Err(e)),
            Some(Ok(m)) => {
                let (range, value) = m.take();
                Some(Ok(Match::new(range, Symbol::Block(value))))
            },
        };
        assert(r == map_outcome(og, |v| Symbol::Block(v)));
        r
    } else if i == 1 {
        match getMatchBreakSym().getMatch(pos.duplicate()) {
            Ok(m) => {
                let (range, value) = m.take();
                Some(Ok(Match::new(range, Symbol::Break(value))))
            },
            Err(e) => Some(Err(e)),
        }
    } else if i == 2 {
        match getMatchContinueSym().getMatch(pos.duplicate()) {
            Ok(m) => {
                let (range, value) = m.take();
                Some(Ok(Match::new(range, Symbol::Continue(value))))
            },
            Err(e) => Some(Err(e)),
        }
    } else if i == 3 {
        let o = parseClassDefinition(pos);
        let ghost og = o;
        assert(picked(og));
        let r = match o {
            None => None,
            Some(Err(e)) => Some(Err(e)),
            Some(Ok(m)) => {
                let (range, value) = m.take();
                Some(Ok(Match::new(range, Symbol::ClassDefinition(value))))
            },
        };
        assert(r == map_outcome(og, |v| Symbol::ClassDefinition(v)));
        r
    } else if i == 4 {
        let o = parseFunctionDefinition(pos);
        let ghost og = o;
        assert(picked(og));
        let r = match o {
            None => None,
            Some(Err(e)) => Some(Err(e)),
            Some(Ok(m)) => {
                let (range, value) = m.take();
                Some(Ok(Match::new(range, Symbol::FunctionDefinition(value))))
            },
        };
        assert(r == map_outcome(og, |v| Symbol::FunctionDefinition(v)));
        r
    } else if i == 5 {
        let o = parseIf(pos);
        let ghost og = o;
        assert(picked(og));
        let r = match o {
            None => None,
            Some(Err(e)) => Some(Err(e)),
            Some(Ok(m)) => {
                let (range, value) = m.take();
                Some(Ok(Match::new(range, Symbol::IfSym(value))))
            },
        };
        assert(r == map_outcome(og, |v| Symbol::IfSym(v)));
        r
    } else if i == 6 {
        let o = parseWhile(pos);
        let ghost og = o;
        assert(picked(og));
        let r = match o {
            None => None,
            Some(Err(e)) => Some(Err(e)),
            Some(Ok(m)) => {
                let (range, value) = m.take();
                Some(Ok(Match::new(range, Symbol::While(value))))
            },
        };
        assert(r == map_outcome(og, |v| Symbol::While(v)));
        r
    } else if i == 7 {
        let o = parseReturn(pos);
        let ghost og = o;
        assert(picked(og));
        let r = match o {
            None => None,
            Some(Err(e)) => Some(Err(e)),
            Some(Ok(m)) => {
                let (range, value) = m.take();
                Some(Ok(Match::new(range, Symbol::Return(value))))
            },
        };
        assert(r == map_outcome(og, |v| Symbol::Return(v)));
        r
    } else if i == 8 {
        match getMatchImportSym().getMatch(pos.duplicate()) {
            Ok(m) => {
                let (range, value) = m.take();
                Some(Ok(Match::new(range, Symbol::ImportSym(value))))
            },
            Err(e) => Some(Err(e)),
        }
    } else if i == 11 {
        let o = parseOperator(pos);
        let ghost og = o;
        assert(picked(og));
        let r = match o {
            None => None,
            Some(Err(e)) => Some(Err(e)),
            Some(Ok(m)) => {
                let (range, value) = m.take();
                Some(Ok(Match::new(range, Symbol::Expr(Expr::Operator(value)))))
            },
        };
        assert(r == map_outcome(og, |v| Symbol::Expr(Expr::Operator(v))));
        r
    } else {
        let o = symbolExprOption(i, pos);
        let ghost og = o;
        assert(picked(og));
        let r = match o {
            None => None,
            Some(Err(e)) => Some(Err(e)),
            Some(Ok(m)) => {
                let (range, value) = m.take();
                Some(Ok(Match::new(range, Symbol::Expr(value))))
            },
        };
        assert(r == map_outcome(og, |v| Symbol::Expr(v)));
        r
    }
}

/// A symbol: any number of `;`, then the kind of symbol that the resolver picks among those that match.
pub fn parseSymbol(pos: &ModulePos) -> (out: Outcome<Symbol>)
    requires
        pos.wf(),
    ensures
        rel_symbol(*pos, out),
        outcome_ok(*pos, out),
    decreases *pos.module, rest(*pos), 6nat, 2nat,
{
    let p = skipSemicolons(pos);
    let mut found: Vec<Match<Symbol>> = Vec::new();
    let mut errors: Vec<ASTError> = Vec::new();
    let ghost mut rs: Seq<Outcome<Symbol>> = Seq::empty();
    let mut i: usize = 0;
    while i < 22
        invariant
            i <= 22,
            p.wf(),
            p.module == pos.module,
            pos.tokenIndex <= p.tokenIndex,
            p == skip_semicolons(*pos),
            rs.len() == i,
            forall|j: int| 0 <= j < i ==> symbol_option(j, p, #[trigger] rs[j]),
            forall|j: int| 0 <= j < i ==> (#[trigger] rs[j]) is Some,
            found@ == successes(results_of(rs)),
            errors@ == failures(results_of(rs)),
            forall|j: int| 0 <= j < found@.len() ==> outcome_ok(p, Some(Ok::<Match<Symbol>, ASTError>(#[trigger] found@[j])))
                && symbol_value_ok(found@[j].value, p),
        decreases 22 - i,
    {
        let r = symbolOption(i, &p);
        let ghost before = rs;
        proof {
            rs = rs.push(r);
        }
        match r {
            None => {
                assert(tried_in_order(rs, 22));
                assert(symbol_options(p, rs));
                assert(picked(rs));
                assert(choose_symbol(*pos, p, rs, None));
                return None;
            },
            Some(result) => {
                assert(results_of(rs) =~= results_of(before).push(result));
                assert(results_of(before).push(result).drop_last() =~= results_of(before));
                match result {
                    Ok(m) => {
                        found.push(m);
                    },
                    Err(e) => {
                        errors.push(e);
                    },
                }
            },
        }
        i = i + 1;
    }
    assert(tried_in_order(rs, 22));
    assert(symbol_options(p, rs));
    assert(picked(rs));
    if found.len() == 0 {
        let out = Some(Err(ASTError::MatchOptionsFailed(p, errors)));
        assert(adjusted(successes(results_of(rs))).len() == 0);
        assert(choose_symbol(*pos, p, rs, out));
        return out;
    }
    let ghost foundSeq = found@;
    let mut choices: Vec<Match<Symbol>> = Vec::new();
    let mut source = found;
    while source.len() > 0
        invariant
            choices@.len() + source@.len() == foundSeq.len(),
            choices@ == adjusted(foundSeq.take(choices@.len() as int)),
            source@ == foundSeq.skip(choices@.len() as int),
            forall|j: int| 0 <= j < foundSeq.len() ==> outcome_ok(p, Some(Ok::<Match<Symbol>, ASTError>(#[trigger] foundSeq[j])))
                && symbol_value_ok(foundSeq[j].value, p),
        decreases source@.len(),
    {
        let ghost k: int = choices@.len() as int;
        let m = source.remove(0);
        assert(m == foundSeq[k]);
        let (range, value) = m.take();
        let chosenRange = match &value {
            Symbol::Expr(Expr::Operator(oe)) => oe.range.duplicate(),
            _ => range,
        };
        choices.push(Match::new(chosenRange, value));
        assert(foundSeq.take(k + 1) =~= foundSeq.take(k).push(foundSeq[k]));
        assert(adjusted(foundSeq.take(k + 1)) =~= adjusted(foundSeq.take(k)).push(choices@[k]));
        assert(source@ =~= foundSeq.skip(k + 1));
    }
    assert(foundSeq.take(foundSeq.len() as int) =~= foundSeq);
    assert forall|j: int| 0 <= j < choices@.len() implies {
        &&& (#[trigger] choices@[j]).range.wf()
        &&& choices@[j].range.startPos.module == p.module
        &&& p.tokenIndex < choices@[j].range.end()
    } by {
        assert(outcome_ok(p, Some(Ok::<Match<Symbol>, ASTError>(foundSeq[j]))));
        assert(symbol_value_ok(foundSeq[j].value, p));
    }
    let resolved = tryResolveSymbolConflict(p.duplicate(), &choices);
    match resolved {
        None => {
            assert(choose_symbol(*pos, p, rs, None));
            None
        },
        Some(Err(e)) => {
            let out = Some(Err(e));
            assert(choose_symbol(*pos, p, rs, out));
            out
        },
        Some(Ok(index)) => {
            let ghost chosenMatch = choices@[index as int];
            let chosen = choices.swap_remove(index);
            let (range, value) = chosen.take();
            let endIndex = range.getEndIndex();
            let full = pos.getRangeWithLength(endIndex - pos.getTokenIndex());
            let out = Some(Ok(Match::new(full, value)));
            assert(choose_symbol(*pos, p, rs, out));
            out
        },
    }
}

/// The symbols read one after another from `pos` to the end of the module.
pub fn parseSymbolsFrom(pos: &ModulePos) -> (out: Option<Result<Vec<Symbol>, ASTError>>)
    requires
        pos.wf(),
    ensures
        rel_symbols_from(*pos, seq_outcome(out)),
    decreases *pos.module, rest(*pos), 7nat, 0nat,
{
    if !pos.hasToken() {
        let empty: Vec<Symbol> = Vec::new();
        assert(empty@ =~= Seq::<Symbol>::empty());
        return Some(Ok(empty));
    }
    let r = parseSymbol(pos);
    assert(picked(r));
    match r {
        None => None,
        Some(Err(e)) => Some(Err(e)),
        Some(Ok(m)) => {
            let ghost mg = m;
            let (range, value) = m.take();
            let next = range.getEndPos();
            let t = parseSymbolsFrom(&next);
            assert(picked(seq_outcome(t)));
            match t {
                None => None,
                Some(Err(e)) => Some(Err(e)),
                Some(Ok(tail)) => {
                    let ghost tv = tail@;
                    let mut all = tail;
                    all.insert(0, value);
                    assert(all@ =~= seq![value] + tv);
                    Some(Ok(all))
                },
            }
        },
    }
}

/// `{ symbols }`
pub fn parseBlock(pos: &ModulePos) -> (out: Outcome<BlockSym>)
    requires
        pos.wf(),
    ensures
        rel_block(*pos, out),
        outcome_ok(*pos, out),
    decreases *pos.module, rest(*pos), 0nat, 0nat,
{
    match parenModuleAt(pos, ParenthesisType::Curly) {
        None => Some(Err(ASTError::ExpectedTokenDiscriminant(pos.duplicate(), crate::module::TokenTypeDiscriminants::Parenthesis))),
        Some(inner) => {
            let start = Module::getModulePos(inner, 0);
            let symbols = parseSymbolsFrom(&start);
            assert(picked(seq_outcome(symbols)));
            match symbols {
                None => None,
                Some(Err(e)) => Some(Err(e)),
                Some(Ok(symbolVec)) => {
                    let length = inner.getTokenVector().len();
                    let range = Module::getModuleRange(inner, 0..length);
                    Some(Ok(Match::new(pos.getRangeWithLength(1), BlockSym { range, symbolVec })))
                },
            }
        },
    }
}

/// `if condition symbol` or `if condition symbol else symbol`
pub fn parseIf(pos: &ModulePos) -> (out: Outcome<IfSym>)
    requires
        pos.wf(),
    ensures
        rel_if(*pos, out),
        outcome_ok(*pos, out),
    decreases *pos.module, rest(*pos), 0nat, 0nat,
{
    if !keywordAt(pos, Keyword::If) {
        return Some(Err(ASTError::ExpectedToken(pos.duplicate(), TokenType::Keyword(Keyword::If))));
    }
    let condPos = positionAfter(pos, 1);
    let c = parseExpr(false, false, &condPos);
    assert(picked(c));
    match c {
        None => None,
        Some(Err(e)) => Some(Err(e)),
        Some(Ok(cm)) => {
            let (condRange, condition) = cm.take();
            let q = condRange.getEndPos();
            let b = parseSymbol(&q);
            assert(picked(b));
            match b {
                None => None,
                Some(Err(e)) => Some(Err(e)),
                Some(Ok(bm)) => {
                    let (bodyRange, body) = bm.take();
                    let r = bodyRange.getEndPos();
                    if keywordAt(&r, Keyword::Else) {
                        let elsePos = positionAfter(&r, 1);
                        let e = parseSymbol(&elsePos);
                        assert(picked(e));
                        match e {
                            None => {
                                return None;
                            },
                            Some(Ok(em)) => {
                                let (elseRange, elseSymbol) = em.take();
                                let endIndex = elseRange.getEndIndex();
                                let range = pos.getRangeWithLength(endIndex - pos.getTokenIndex());
                                return Some(Ok(Match::new(
                                    range.duplicate(),
                                    IfSym {
                                        symbol: Box::new(body),
                                        condition,
                                        range,
                                        elseExpr: Some(Box::new(ElseSym { symbol: elseSymbol })),
                                    },
                                )));
                            },
                            Some(Err(_)) => {},
                        }
                    }
                    let range = pos.getRangeWithLength(r.getTokenIndex() - pos.getTokenIndex());
                    Some(Ok(Match::new(range.duplicate(), IfSym { symbol: Box::new(body), condition, range, elseExpr: None })))
                },
            }
        },
    }
}

/// `label: while condition symbol` or `while condition symbol`
pub fn parseWhile(pos: &ModulePos) -> (out: Outcome<WhileLoop>)
    requires
        pos.wf(),
    ensures
        rel_while(*pos, out),
        outcome_ok(*pos, out),
    decreases *pos.module, rest(*pos), 0nat, 0nat,
{
    let colonPos = positionAfter(pos, 1);
    let labelled = identifierAt(pos) && operatorIs(&colonPos, Operator::Colon);
    let w = if labelled { positionAfter(pos, 2) } else { pos.duplicate() };
    if !keywordAt(&w, Keyword::While) {
        return Some(Err(ASTError::ExpectedToken(w, TokenType::Keyword(Keyword::While))));
    }
    let label = if labelled { Some(Label { identifier: pos.duplicate() }) } else { None };
    let condPos = positionAfter(&w, 1);
    let c = parseExpr(false, false, &condPos);
    assert(picked(c));
    match c {
        None => None,
        Some(Err(e)) => Some(Err(e)),
        Some(Ok(cm)) => {
            let (condRange, condition) = cm.take();
            let q = condRange.getEndPos();
            let b = parseSymbol(&q);
            assert(picked(b));
            match b {
                None => None,
                Some(Err(e)) => Some(Err(e)),
                Some(Ok(bm)) => {
                    let (bodyRange, body) = bm.take();
                    let endIndex = bodyRange.getEndIndex();
                    let range = pos.getRangeWithLength(endIndex - pos.getTokenIndex());
                    Some(Ok(Match::new(range.duplicate(), WhileLoop { range, condition, symbol: Box::new(body), label })))
                },
            }
        },
    }
}

/// `return` or `return value`
pub fn parseReturn(pos: &ModulePos) -> (out: Outcome<ReturnSym>)
    requires
        pos.wf(),
    ensures
        rel_return(*pos, out),
        outcome_ok(*pos, out),
    decreases *pos.module, rest(*pos), 0nat, 0nat,
{
    if !keywordAt(pos, Keyword::Return) {
        return Some(Err(ASTError::ExpectedToken(pos.duplicate(), TokenType::Keyword(Keyword::Return))));
    }
    let valuePos = positionAfter(pos, 1);
    let v = parseExpr(false, false, &valuePos);
    assert(picked(v));
    match v {
        None => None,
        Some(Err(_)) => {
            let range = pos.getRangeWithLength(1);
            Some(Ok(Match::new(range.duplicate(), ReturnSym { range, value: None })))
        },
        Some(Ok(vm)) => {
            let (valueRange, value) = vm.take();
            let endIndex = valueRange.getEndIndex();
            let range = pos.getRangeWithLength(endIndex - pos.getTokenIndex());
            Some(Ok(Match::new(range.duplicate(), ReturnSym { range, value: Some(value) })))
        },
    }
}

/// `visibility attributes returnType name(parameters) { symbols }`
pub fn parseFunctionDefinition(pos: &ModulePos) -> (out: Outcome<FunctionDefinitionSym>)
    requires
        pos.wf(),
    ensures
        rel_function_definition(*pos, out),
        outcome_ok(*pos, out),
    decreases *pos.module, rest(*pos), 0nat, 0nat,
{
    let visibility = match visibilityAt(pos) {
        Some(v) => v,
        None => Visibility::Private,
    };
    let a = afterVisibility(pos);
    let (attributeVec, r) = attributesFrom(&a);
    if !typeAt(&r) {
        return Some(Err(ASTError::ExpectedType(r)));
    }
    let name = positionAfter(&r, 1);
    if !identifierAt(&name) {
        return Some(Err(ASTError::ExpectedToken(name, TokenType::Identifier)));
    }
    let parenPos = positionAfter(&r, 2);
    match parenModuleAt(&parenPos, ParenthesisType::Rounded) {
        None => Some(Err(ASTError::ExpectedTokenDiscriminant(parenPos, crate::module::TokenTypeDiscriminants::Parenthesis))),
        Some(inner) => {
            let ps = parseParameters(inner);
            assert(picked(seq_outcome(ps)));
            match ps {
                None => None,
                Some(Err(e)) => Some(Err(e)),
                Some(Ok(parameters)) => {
                    let blockPos = positionAfter(&r, 3);
                    assert(r.tokenIndex + 2 < r.module.len());
                    assert(blockPos == advanced(r, 3));
                    assert(rest(blockPos) < rest(*pos));
                    let b = parseBlock(&blockPos);
                    assert(picked(b));
                    match b {
                        None => None,
                        Some(Err(e)) => Some(Err(e)),
                        Some(Ok(bm)) => {
                            assert(paren_module(blockPos, ParenthesisType::Curly) is Some);
                            assert(r.tokenIndex + 3 < r.module.len());
                            let range = pos.getRangeWithLength(r.getTokenIndex() + 4 - pos.getTokenIndex());
                            let (_, functionBlock) = bm.take();
                            Some(Ok(Match::new(
                                range.duplicate(),
                                FunctionDefinitionSym {
                                    range,
                                    attributeVec,
                                    returnType: r,
                                    functionName: name,
                                    parameters,
                                    functionBlock,
                                    visibility,
                                },
                            )))
                        },
                    }
                },
            }
        },
    }
}

/// A field with the given parts: a static one when `isStatic`.
fn fieldMember(
    isStatic: bool,
    name: ModulePos,
    visibility: Visibility,
    typeName: Option<ModulePos>,
    defaultValue: Option<Expr>,
) -> (member: ClassMember)
    ensures
        member == field_member(isStatic, name, visibility, typeName, defaultValue),
{
    if isStatic {
        ClassMember::StaticFieldDefinition(ClassStaticFieldDefinition { name, typeName, visibility, defaultValue })
    } else {
        ClassMember::FieldDefinition(ClassFieldDefinition { name, visibility, typeName, defaultValue })
    }
}

/// Alternative `i` of a class member at `pos`.
fn memberOption(i: usize, pos: &ModulePos) -> (r: Outcome<ClassMember>)
    requires
        pos.wf(),
        i < 3,
    ensures
        member_option(i as int, *pos, r),
        outcome_ok(*pos, r),
    decreases *pos.module, rest(*pos), 1nat, 0nat,
{
    if i == 2 {
        let o = parseFunctionDefinition(pos);
        let ghost og = o;
        assert(picked(og));
        let r = match o {
            None => None,
            Some(Err(e)) => Some(Err(e)),
            Some(Ok(m)) => {
                let (range, value) = m.take();
                Some(Ok(Match::new(range, ClassMember::FunctionDefinition(value))))
            },
        };
        assert(r == map_outcome(og, |v| ClassMember::FunctionDefinition(v)));
        return r;
    }
    let visibility = match visibilityAt(pos) {
        Some(v) => v,
        None => Visibility::Private,
    };
    let a = afterVisibility(pos);
    let isStatic = keywordAt(&a, Keyword::Static);
    let b = if isStatic { positionAfter(&a, 1) } else { a.duplicate() };
    let name = positionAfter(&b, 1);
    let eq = positionAfter(&b, 2);
    if i == 0 {
        if !typeAt(&b) {
            return Some(Err(ASTError::ExpectedType(b)));
        }
        if !identifierAt(&name) {
            return Some(Err(ASTError::ExpectedToken(name, TokenType::Identifier)));
        }
        if !operatorIs(&eq, Operator::AssignEq) {
            let range = pos.getRangeWithLength(eq.getTokenIndex() - pos.getTokenIndex());
            return Some(Ok(Match::new(range, fieldMember(isStatic, name, visibility, Some(b), None))));
        }
        let valuePos = positionAfter(&b, 3);
        let d = parseExpr(false, false, &valuePos);
        assert(picked(d));
        match d {
            None => None,
            Some(Err(_)) => {
                let range = pos.getRangeWithLength(eq.getTokenIndex() - pos.getTokenIndex());
                Some(Ok(Match::new(range, fieldMember(isStatic, name, visibility, Some(b), None))))
            },
            Some(Ok(dm)) => {
                let (valueRange, value) = dm.take();
                let endIndex = valueRange.getEndIndex();
                let range = pos.getRangeWithLength(endIndex - pos.getTokenIndex());
                Some(Ok(Match::new(range, fieldMember(isStatic, name, visibility, Some(b), Some(value)))))
            },
        }
    } else {
        if !keywordAt(&b, Keyword::Let) {
            return Some(Err(ASTError::ExpectedToken(b, TokenType::Keyword(Keyword::Let))));
        }
        if !identifierAt(&name) {
            return Some(Err(ASTError::ExpectedToken(name, TokenType::Identifier)));
        }
        if !operatorIs(&eq, Operator::AssignEq) {
            return Some(Err(ASTError::ExpectedToken(eq, TokenType::Operator(Operator::AssignEq))));
        }
        let valuePos = positionAfter(&b, 3);
        let d = parseExpr(false, false, &valuePos);
        assert(picked(d));
        match d {
            None => None,
            Some(Err(e)) => Some(Err(e)),
            Some(Ok(dm)) => {
                let (valueRange, value) = dm.take();
                let endIndex = valueRange.getEndIndex();
                let range = pos.getRangeWithLength(endIndex - pos.getTokenIndex());
                Some(Ok(Match::new(range, fieldMember(isStatic, name, visibility, None, Some(value)))))
            },
        }
    }
}

/// A member of a class definition: the resolver picks among the forms that match.
pub fn parseClassMember(pos: &ModulePos) -> (out: Outcome<ClassMember>)
    requires
        pos.wf(),
    ensures
        rel_class_member(*pos, out),
        outcome_ok(*pos, out),
    decreases *pos.module, rest(*pos), 1nat, 2nat,
{
    let mut found: Vec<Match<ClassMember>> = Vec::new();
    let mut errors: Vec<ASTError> = Vec::new();
    let ghost mut rs: Seq<Outcome<ClassMember>> = Seq::empty();
    let mut i: usize = 0;
    while i < 3
        invariant
            i <= 3,
            pos.wf(),
            rs.len() == i,
            forall|j: int| 0 <= j < i ==> member_option(j, *pos, #[trigger] rs[j]),
            forall|j: int| 0 <= j < i ==> (#[trigger] rs[j]) is Some,
            found@ == successes(results_of(rs)),
            errors@ == failures(results_of(rs)),
            forall|j: int| 0 <= j < found@.len() ==> outcome_ok(*pos, Some(Ok::<Match<ClassMember>, ASTError>(#[trigger] found@[j]))),
        decreases 3 - i,
    {
        let r = memberOption(i, pos);
        let ghost before = rs;
        proof {
            rs = rs.push(r);
        }
        match r {
            None => {
                assert(tried_in_order(rs, 3));
                assert(member_options(*pos, rs));
                assert(picked(rs));
                assert(choose_member(*pos, rs, None));
                return None;
            },
            Some(result) => {
                assert(results_of(rs) =~= results_of(before).push(result));
                assert(results_of(before).push(result).drop_last() =~= results_of(before));
                match result {
                    Ok(m) => {
                        found.push(m);
                    },
                    Err(e) => {
                        errors.push(e);
                    },
                }
            },
        }
        i = i + 1;
    }
    assert(tried_in_order(rs, 3));
    assert(member_options(*pos, rs));
    assert(picked(rs));
    if found.len() == 0 {
        let out = Some(Err(ASTError::MatchOptionsFailed(pos.duplicate(), errors)));
        assert(choose_member(*pos, rs, out));
        return out;
    }
    let resolved = resolveClassDefinitionConflict(pos.duplicate(), &found);
    match resolved {
        Err(e) => {
            let out = Some(Err(e));
            assert(choose_member(*pos, rs, out));
            out
        },
        Ok(index) => {
            let ghost chosen = found@[index as int];
            let out = Some(Ok(found.swap_remove(index)));
            assert(choose_member(*pos, rs, out));
            out
        },
    }
}

/// The class members read one after another from `pos` to the end of the module.
pub fn parseMembersFrom(pos: &ModulePos) -> (out: Option<Result<Vec<ClassMember>, ASTError>>)
    requires
        pos.wf(),
    ensures
        rel_members_from(*pos, seq_outcome(out)),
    decreases *pos.module, rest(*pos), 7nat, 0nat,
{
    if !pos.hasToken() {
        let empty: Vec<ClassMember> = Vec::new();
        assert(empty@ =~= Seq::<ClassMember>::empty());
        return Some(Ok(empty));
    }
    let r = parseClassMember(pos);
    assert(picked(r));
    match r {
        None => None,
        Some(Err(e)) => Some(Err(e)),
        Some(Ok(m)) => {
            let (range, value) = m.take();
            let next = range.getEndPos();
            let t = parseMembersFrom(&next);
            assert(picked(seq_outcome(t)));
            match t {
                None => None,
                Some(Err(e)) => Some(Err(e)),
                Some(Ok(tail)) => {
                    let ghost tv = tail@;
                    let mut all = tail;
                    all.insert(0, value);
                    assert(all@ =~= seq![value] + tv);
                    Some(Ok(all))
                },
            }
        },
    }
}

/// `visibility class name { members }`
pub fn parseClassDefinition(pos: &ModulePos) -> (out: Outcome<ClassDefinitionSym>)
    requires
        pos.wf(),
    ensures
        rel_class_definition(*pos, out),
        outcome_ok(*pos, out),
    decreases *pos.module, rest(*pos), 0nat, 0nat,
{
    let visibility = match visibilityAt(pos) {
        Some(v) => v,
        None => Visibility::Private,
    };
    let a = afterVisibility(pos);
    if !keywordAt(&a, Keyword::Class) {
        return Some(Err(ASTError::ExpectedToken(a, TokenType::Keyword(Keyword::Class))));
    }
    let name = positionAfter(&a, 1);
    if !identifierAt(&name) {
        return Some(Err(ASTError::ExpectedToken(name, TokenType::Identifier)));
    }
    let parenPos = positionAfter(&a, 2);
    match parenModuleAt(&parenPos, ParenthesisType::Curly) {
        None => Some(Err(ASTError::ExpectedTokenDiscriminant(parenPos, crate::module::TokenTypeDiscriminants::Parenthesis))),
        Some(inner) => {
            let start = Module::getModulePos(inner, 0);
            let ms = parseMembersFrom(&start);
            assert(picked(seq_outcome(ms)));
            match ms {
                None => None,
                Some(Err(e)) => Some(Err(e)),
                Some(Ok(members)) => {
                    let ghost all = members@;
                    let mut fields: Vec<ClassFieldDefinition> = Vec::new();
                    let mut methods: Vec<FunctionDefinitionSym> = Vec::new();
                    let mut staticFields: Vec<ClassStaticFieldDefinition> = Vec::new();
                    let mut source = members;
                    while source.len() > 0
                        invariant
                            source@.len() <= all.len(),
                            source@ == all.skip(all.len() - source@.len()),
                            fields@ == fields_of(all.take(all.len() - source@.len())),
                            methods@ == methods_of(all.take(all.len() - source@.len())),
                            staticFields@ == static_fields_of(all.take(all.len() - source@.len())),
                        decreases source@.len(),
                    {
                        let ghost k: int = all.len() - source@.len();
                        let member = source.remove(0);
                        assert(all.take(k + 1).drop_last() =~= all.take(k));
                        assert(all.take(k + 1).last() == member);
                        match member {
                            ClassMember::FieldDefinition(field) => fields.push(field),
                            ClassMember::FunctionDefinition(function) => methods.push(function),
                            ClassMember::StaticFieldDefinition(field) => staticFields.push(field),
                        }
                        assert(source@ =~= all.skip(k + 1));
                    }
                    assert(all.take(all.len() as int) =~= all);
                    let range = pos.getRangeWithLength(a.getTokenIndex() + 3 - pos.getTokenIndex());
                    let inherited: Vec<ModulePos> = Vec::new();
                    Some(Ok(Match::new(
                        range.duplicate(),
                        ClassDefinitionSym { visibility, range, name, fields, staticFields, methods, inherited },
                    )))
                },
            }
        },
    }
}

} // verus!
