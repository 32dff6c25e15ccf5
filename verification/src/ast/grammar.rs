//! The grammar of the language, stated as relations between a position and
//! the outcome of reading a rule there.
//!
//! An outcome is `None` where reading does not come back normally: a
//! conflict between matches that the resolver cannot settle without indexing
//! out of bounds, a literal whose text cannot be read, or a repetition that
//! stops advancing (the parser shows that every symbol, class member and
//! operator component it reads covers at least one token, so the last does
//! not occur). Otherwise it is the match that was read or the error.
use std::rc::Rc;

use vstd::prelude::*;

use crate::ast::conflictresolution::{
    all_indices, apply_preferences, class_member_preferences, resolution_succeeds, resolved_result, symbol_preferences,
};
use crate::ast::error::ASTError;
use crate::ast::matchers::{
    advanced, byte_len, is_identifier_at, is_keyword_at, is_type_at, number_at, quoted_at, spec_literal_bool, spec_literal_bool_errors,
    spec_literal_float_result, spec_literal_string_result, spec_literal_void_result, spec_variable_declaration,
    spec_variable_declaration_errors, spec_variable_result, token_type_at, spec_break_result, spec_continue_result,
    spec_function_attribute_result, spec_import_result, spec_visibility_result,
};
use crate::ast::matchtype::{failures, successes, Match};
use crate::ast::numbers::{spec_is_float, spec_parse_i64};
use crate::ast::operatorexpr::{denotes, infix_tree, start_of, valid_length, OperationComponent, OperatorExpr};
use crate::ast::symbol::{
    BlockSym, ClassDefinitionSym, ClassFieldDefinition, ClassMember, ClassStaticFieldDefinition, ConstructorCallExpr,
    ElseSym, Expr, FunctionAttribute, FunctionCallExpr, FunctionDefinitionSym, FunctionParameter, IfSym, Label,
    LiteralArray, LiteralChar, LiteralInteger, LiteralTuple, ReturnSym, Symbol, Visibility, WhileLoop,
};
use crate::module::{
    Keyword, Module, ModulePos, ModuleRange, Operator, ParenthesisType, QuoteType, TokenType,
    TokenTypeDiscriminants,
};

verus! {

/// What reading a rule gives: `None` where it does not come back, else the match or the error.
pub type Outcome<T> = Option<Result<Match<T>, ASTError>>;

/// Marks a value as the one an existential statement is about (used as its trigger).
pub open spec fn picked<T>(value: T) -> bool {
    true
}

/// The number of tokens from `pos` to the end of its module.
pub open spec fn rest(pos: ModulePos) -> nat {
    (pos.module.len() - pos.tokenIndex) as nat
}

/// The first position of module `m`.
pub open spec fn module_start(m: Rc<Module>) -> ModulePos {
    ModulePos { module: m, tokenIndex: 0 }
}

pub open spec fn map_value<T, U>(r: Result<Match<T>, ASTError>, f: spec_fn(T) -> U) -> Result<Match<U>, ASTError> {
    match r {
        Ok(m) => Ok(Match { range: m.range, value: f(m.value) }),
        Err(e) => Err(e),
    }
}

pub open spec fn map_outcome<T, U>(o: Outcome<T>, f: spec_fn(T) -> U) -> Outcome<U> {
    match o {
        Some(r) => Some(map_value(r, f)),
        None => None,
    }
}

/// A rule whose part ended in `r` (not a success) ends the same way.
pub open spec fn passes_on<T, U>(r: Outcome<T>, out: Outcome<U>) -> bool {
    match r {
        None => out is None,
        Some(Err(e)) => out == Some(Err::<Match<U>, ASTError>(e)),
        Some(Ok(_)) => false,
    }
}

/// The module of the bracketed group of kind `kind` right after `pos`, if that is the next token.
pub open spec fn paren_module(pos: ModulePos, kind: ParenthesisType) -> Option<Rc<Module>> {
    match token_type_at(pos) {
        Some(TokenType::Parenthesis(k, m)) => if k == kind { Some(m) } else { None },
        _ => None,
    }
}

pub open spec fn paren_error(pos: ModulePos) -> ASTError {
    ASTError::ExpectedTokenDiscriminant(pos, TokenTypeDiscriminants::Parenthesis)
}

// ---------------------------------------------------------------- one-token expressions

pub open spec fn leaf_variable_declaration(pos: ModulePos, out: Outcome<Expr>) -> bool {
    match spec_variable_declaration(pos) {
        Some(m) => out == Some(Ok::<Match<Expr>, ASTError>(Match { range: m.range, value: Expr::VariableDeclaration(m.value) })),
        None => out matches Some(Err(ASTError::MatchOptionsFailed(p, e))) && p == pos && e@ == spec_variable_declaration_errors(pos),
    }
}

pub open spec fn leaf_bool(pos: ModulePos, out: Outcome<Expr>) -> bool {
    match spec_literal_bool(pos) {
        Some(m) => out == Some(Ok::<Match<Expr>, ASTError>(Match { range: m.range, value: Expr::LiteralBool(m.value) })),
        None => out matches Some(Err(ASTError::MatchOptionsFailed(p, e))) && p == pos && e@ == spec_literal_bool_errors(pos),
    }
}

/// A character literal holds exactly one byte of text; its value is that character.
pub open spec fn leaf_char(pos: ModulePos) -> Outcome<Expr> {
    match quoted_at(pos, QuoteType::Single) {
        Some(text) => if byte_len(text.text@) != 1 {
            None
        } else {
            Some(Ok(Match {
                range: pos.spec_range(1),
                value: Expr::LiteralChar(LiteralChar { range: pos.spec_range(1), value: text.text@[0] as u32 }),
            }))
        },
        None => Some(Err(ASTError::ExpectedTokenDiscriminant(pos, TokenTypeDiscriminants::String))),
    }
}

/// A whole number that is not a valid 64-bit integer cannot be read.
pub open spec fn leaf_integer(pos: ModulePos) -> Outcome<Expr> {
    match number_at(pos) {
        Some(text) if !spec_is_float(text) => match spec_parse_i64(text) {
            Some(value) => Some(Ok(Match {
                range: pos.spec_range(1),
                value: Expr::LiteralInteger(LiteralInteger { range: pos.spec_range(1), value: value as i64 }),
            })),
            None => None,
        },
        _ => Some(Err(ASTError::ExpectedTokenDiscriminant(pos, TokenTypeDiscriminants::Number))),
    }
}

pub open spec fn leaf_float(pos: ModulePos) -> Outcome<Expr> {
    Some(map_value(spec_literal_float_result(pos), |v| Expr::LiteralFloat(v)))
}

pub open spec fn leaf_string(pos: ModulePos) -> Outcome<Expr> {
    Some(map_value(spec_literal_string_result(pos), |v| Expr::LiteralString(v)))
}

pub open spec fn leaf_void(pos: ModulePos) -> Outcome<Expr> {
    Some(map_value(spec_literal_void_result(pos), |v| Expr::LiteralVoid(v)))
}

pub open spec fn leaf_variable(pos: ModulePos) -> Outcome<Expr> {
    Some(map_value(spec_variable_result(pos), |v| Expr::Variable(v)))
}

// ---------------------------------------------------------------- choosing among expressions

/// Every alternative was tried in order, up to the first that did not come back.
pub open spec fn tried_in_order<T>(rs: Seq<Outcome<T>>, count: nat) -> bool {
    &&& 1 <= rs.len() <= count
    &&& rs.len() < count ==> rs.last() is None
    &&& forall|i: int| 0 <= i < rs.len() - 1 ==> (#[trigger] rs[i]) is Some
}

/// The results of alternatives that all came back.
pub open spec fn results_of<T>(rs: Seq<Outcome<T>>) -> Seq<Result<Match<T>, ASTError>> {
    rs.map_values(|o: Outcome<T>| o.unwrap())
}

/// The expression matches as symbols, for the resolver.
pub open spec fn as_symbols(found: Seq<Match<Expr>>) -> Seq<Match<Symbol>> {
    found.map_values(|m: Match<Expr>| Match { range: m.range, value: Symbol::Expr(m.value) })
}

/// How the outcomes `rs` of the alternatives at `pos` are settled into one expression.
pub open spec fn choose_expr(pos: ModulePos, rs: Seq<Outcome<Expr>>, count: nat, out: Outcome<Expr>) -> bool {
    if rs.len() < count || rs.last() is None {
        out is None
    } else {
        let found = successes(results_of(rs));
        let symbols = as_symbols(found);
        if found.len() == 0 {
            out matches Some(Err(ASTError::MatchOptionsFailed(p, e))) && p == pos && e@ == failures(results_of(rs))
        } else if !resolution_succeeds(symbols, symbol_preferences()) {
            out is None
        } else {
            exists|rr: Result<usize, ASTError>|
                #[trigger] resolved_result(
                    symbols,
                    apply_preferences(symbols, all_indices(symbols.len()), symbol_preferences()).unwrap(),
                    pos,
                    rr,
                ) && match rr {
                    Ok(i) => out == Some(Ok::<Match<Expr>, ASTError>(found[i as int])),
                    Err(e) => out == Some(Err::<Match<Expr>, ASTError>(e)),
                }
        }
    }
}

// ---------------------------------------------------------------- recursive rules

/// The expressions of a bracketed group `m`, read from its first position.
pub open spec fn rel_comma(m: Rc<Module>, out: Outcome<Vec<Expr>>) -> bool
    decreases *m, m.len(), 10nat, 0nat,
{
    rel_comma_at(module_start(m), out)
}

/// The expressions read at `pos`: the entries of a comma separated list
/// there, nothing in an empty module, and otherwise the one expression at the
/// start of the module.
pub open spec fn rel_comma_at(pos: ModulePos, out: Outcome<Vec<Expr>>) -> bool
    decreases *pos.module, pos.module.len(), 9nat, 0nat,
{
    match token_type_at(pos) {
        Some(TokenType::CommaList(mods)) => exists|entries: Option<Result<Seq<Expr>, ASTError>>|
            #[trigger] picked(entries) && rel_entries(pos, mods, mods@.len(), entries) && match entries {
                None => out is None,
                Some(Err(e)) => out == Some(Err::<Match<Vec<Expr>>, ASTError>(e)),
                Some(Ok(es)) => out matches Some(Ok(r)) && r.range == pos.spec_range(1) && r.value@ == es,
            },
        _ => if pos.module.len() == 0 {
            out matches Some(Ok(r)) && r.range == pos.spec_range(0) && r.value@.len() == 0
        } else {
            exists|r: Outcome<Expr>| #[trigger] picked(r) && rel_expr(false, false, module_start(pos.module), r) && match r {
                Some(Ok(e)) => out matches Some(Ok(o)) && o.range == e.range && o.value@ == seq![e.value],
                _ => passes_on(r, out),
            }
        },
    }
}

/// The first `n` entries of the comma list `mods` (the token after `pos`): each must be one whole expression.
pub open spec fn rel_entries(
    pos: ModulePos,
    mods: Vec<Rc<Module>>,
    n: nat,
    state: Option<Result<Seq<Expr>, ASTError>>,
) -> bool
    decreases *pos.module, pos.module.len(), 8nat, n,
{
    if token_type_at(pos) != Some(TokenType::CommaList(mods)) || n > mods@.len() {
        false
    } else if n == 0 {
        state == Some(Ok::<Seq<Expr>, ASTError>(Seq::empty()))
    } else {
        exists|prev: Option<Result<Seq<Expr>, ASTError>>| #[trigger] picked(prev) && rel_entries(pos, mods, (n - 1) as nat, prev) && match prev {
            None => state is None,
            Some(Err(e)) => state == Some(Err::<Seq<Expr>, ASTError>(e)),
            Some(Ok(es)) => {
                let entry = mods@[n - 1];
                proof {
                    let m = pos.module;
                    let tt = m.tokenVec@[pos.tokenIndex as int].tokenType;
                    assert(decreases_to!(*m => m.tokenVec));
                    assert(decreases_to!(m.tokenVec => m.tokenVec@));
                    assert(decreases_to!(m.tokenVec@ => m.tokenVec@[pos.tokenIndex as int]));
                    assert(decreases_to!(m.tokenVec@[pos.tokenIndex as int] => tt));
                    assert(tt is CommaList && tt->CommaList_0 == mods);
                    assert(decreases_to!(tt => tt->CommaList_0));
                    assert(decreases_to!(mods => mods@));
                    assert(decreases_to!(mods@ => entry));
                }
                exists|r: Outcome<Expr>| #[trigger] picked(r) && rel_expr(false, false, module_start(entry), r) && match r {
                    None => state is None,
                    Some(Err(e)) => state == Some(Err::<Seq<Expr>, ASTError>(e)),
                    Some(Ok(em)) => if em.range.end() != entry.len() {
                        state == Some(Err::<Seq<Expr>, ASTError>(ASTError::ExpectedExclusive(em.range.spec_end_pos(), None)))
                    } else {
                        state == Some(Ok::<Seq<Expr>, ASTError>(es.push(em.value)))
                    },
                }
            },
        }
    }
}

/// `new Type(arguments)`
pub open spec fn rel_constructor_call(pos: ModulePos, out: Outcome<Expr>) -> bool
    decreases *pos.module, rest(pos), 0nat, 0nat,
{
    if !is_keyword_at(pos, Keyword::New) {
        out == Some(Err::<Match<Expr>, ASTError>(ASTError::ExpectedToken(pos, TokenType::Keyword(Keyword::New))))
    } else if !is_type_at(advanced(pos, 1)) {
        out == Some(Err::<Match<Expr>, ASTError>(ASTError::ExpectedType(advanced(pos, 1))))
    } else {
        match paren_module(advanced(pos, 2), ParenthesisType::Rounded) {
            None => out == Some(Err::<Match<Expr>, ASTError>(paren_error(advanced(pos, 2)))),
            Some(inner) => exists|c: Outcome<Vec<Expr>>| #[trigger] picked(c) && rel_comma(inner, c) && match c {
                Some(Ok(cm)) => out == Some(Ok::<Match<Expr>, ASTError>(Match {
                    range: pos.spec_range(3),
                    value: Expr::ConstructorCall(ConstructorCallExpr { range: pos.spec_range(3), typeName: advanced(pos, 1), argVec: cm.value }),
                })),
                _ => passes_on(c, out),
            },
        }
    }
}

/// `name(arguments)`
pub open spec fn rel_function_call(pos: ModulePos, out: Outcome<Expr>) -> bool
    decreases *pos.module, rest(pos), 0nat, 0nat,
{
    if !is_identifier_at(pos) {
        out == Some(Err::<Match<Expr>, ASTError>(ASTError::ExpectedToken(pos, TokenType::Identifier)))
    } else {
        match paren_module(advanced(pos, 1), ParenthesisType::Rounded) {
            None => out == Some(Err::<Match<Expr>, ASTError>(paren_error(advanced(pos, 1)))),
            Some(inner) => exists|c: Outcome<Vec<Expr>>| #[trigger] picked(c) && rel_comma(inner, c) && match c {
                Some(Ok(cm)) => out == Some(Ok::<Match<Expr>, ASTError>(Match {
                    range: pos.spec_range(2),
                    value: Expr::FunctionCall(FunctionCallExpr { range: pos.spec_range(2), functionName: pos, argVec: cm.value }),
                })),
                _ => passes_on(c, out),
            },
        }
    }
}

/// `[a, b, c]`
pub open spec fn rel_array(pos: ModulePos, out: Outcome<Expr>) -> bool
    decreases *pos.module, rest(pos), 0nat, 0nat,
{
    match paren_module(pos, ParenthesisType::Square) {
        None => out == Some(Err::<Match<Expr>, ASTError>(paren_error(pos))),
        Some(inner) => exists|c: Outcome<Vec<Expr>>| #[trigger] picked(c) && rel_comma(inner, c) && match c {
            Some(Ok(cm)) => out == Some(Ok::<Match<Expr>, ASTError>(Match {
                range: pos.spec_range(1),
                value: Expr::LiteralArray(LiteralArray { range: cm.range, exprVec: cm.value }),
            })),
            _ => passes_on(c, out),
        },
    }
}

/// `(a, b, c)`
pub open spec fn rel_tuple(pos: ModulePos, out: Outcome<Expr>) -> bool
    decreases *pos.module, rest(pos), 0nat, 0nat,
{
    match paren_module(pos, ParenthesisType::Rounded) {
        None => out == Some(Err::<Match<Expr>, ASTError>(paren_error(pos))),
        Some(inner) => exists|c: Outcome<Vec<Expr>>| #[trigger] picked(c) && rel_comma(inner, c) && match c {
            Some(Ok(cm)) => out == Some(Ok::<Match<Expr>, ASTError>(Match {
                range: pos.spec_range(1),
                value: Expr::LiteralTuple(LiteralTuple { range: cm.range, exprVec: cm.value }),
            })),
            _ => passes_on(c, out),
        },
    }
}

pub open spec fn expr_rank(excludeOperator: bool) -> nat {
    if excludeOperator { 2 } else { 5 }
}

/// Alternative `i` of an expression at `pos`.
pub open spec fn expr_option(excludeOperator: bool, excludeDeclaration: bool, i: int, pos: ModulePos, r: Outcome<Expr>) -> bool
    decreases *pos.module, rest(pos), expr_rank(excludeOperator), 0nat,
{
    if i == 0 {
        rel_constructor_call(pos, r)
    } else if i == 1 {
        rel_function_call(pos, r)
    } else if i == 2 {
        if excludeOperator {
            r == Some(Err::<Match<Expr>, ASTError>(ASTError::MatchFailed(pos)))
        } else {
            exists|o: Outcome<OperatorExpr>| #[trigger] picked(o) && rel_operator(pos, o) && r == map_outcome(o, |v| Expr::Operator(v))
        }
    } else if i == 3 {
        if excludeDeclaration {
            r == Some(Err::<Match<Expr>, ASTError>(ASTError::MatchFailed(pos)))
        } else {
            leaf_variable_declaration(pos, r)
        }
    } else if i == 4 {
        r == leaf_variable(pos)
    } else if i == 5 {
        rel_array(pos, r)
    } else if i == 6 {
        leaf_bool(pos, r)
    } else if i == 7 {
        r == leaf_char(pos)
    } else if i == 8 {
        r == leaf_float(pos)
    } else if i == 9 {
        r == leaf_integer(pos)
    } else if i == 10 {
        r == leaf_string(pos)
    } else if i == 11 {
        r == leaf_void(pos)
    } else {
        rel_tuple(pos, r)
    }
}

pub open spec fn expr_options(excludeOperator: bool, excludeDeclaration: bool, pos: ModulePos, rs: Seq<Outcome<Expr>>) -> bool
    decreases *pos.module, rest(pos), expr_rank(excludeOperator), 1nat,
{
    &&& tried_in_order(rs, 13)
    &&& forall|i: int| 0 <= i < rs.len() ==> expr_option(excludeOperator, excludeDeclaration, i, pos, #[trigger] rs[i])
}

/// An expression; an operator expression only unless `excludeOperator`, a
/// declaration only unless `excludeDeclaration`.
pub open spec fn rel_expr(excludeOperator: bool, excludeDeclaration: bool, pos: ModulePos, out: Outcome<Expr>) -> bool
    decreases *pos.module, rest(pos), expr_rank(excludeOperator), 2nat,
{
    exists|rs: Seq<Outcome<Expr>>| #[trigger] picked(rs) && expr_options(excludeOperator, excludeDeclaration, pos, rs) && choose_expr(pos, rs, 13, out)
}

/// The component that starts at `q`: an expression that is neither an
/// operator expression nor a declaration, or an operator token.
pub open spec fn component_from(q: ModulePos, e: Result<Match<Expr>, ASTError>) -> Option<Match<OperationComponent>> {
    let operator = match token_type_at(q) {
        Some(TokenType::Operator(op)) => Some(op),
        _ => None,
    };
    match (e, operator) {
        (Ok(m), None) => Some(Match { range: m.range, value: OperationComponent::Expression(m.value) }),
        (Err(_), Some(op)) => Some(Match { range: q.spec_range(1), value: OperationComponent::Operator(q.spec_range(1), op) }),
        _ => None,
    }
}

/// The components read one after another from `q` until one fails or the module ends.
pub open spec fn rel_components(q: ModulePos, cs: Option<Seq<Match<OperationComponent>>>) -> bool
    decreases *q.module, rest(q), 3nat, 0nat,
{
    if !q.has_token() {
        cs == Some(Seq::<Match<OperationComponent>>::empty())
    } else {
        exists|e: Outcome<Expr>| #[trigger] picked(e) && rel_expr(true, true, q, e) && match e {
            None => cs is None,
            Some(er) => match component_from(q, er) {
                None => cs == Some(Seq::<Match<OperationComponent>>::empty()),
                Some(c) => {
                    let next = c.range.spec_end_pos();
                    if !(next.module == q.module && q.tokenIndex < next.tokenIndex <= q.module.len()) {
                        cs is None
                    } else {
                        exists|tail: Option<Seq<Match<OperationComponent>>>| #[trigger] picked(tail) && rel_components(next, tail) && match tail {
                            None => cs is None,
                            Some(t) => cs == Some(seq![c] + t),
                        }
                    }
                },
            },
        }
    }
}

/// An operator expression: an optional leading expression (possibly a
/// declaration), then at least one component, arranged by precedence.
pub open spec fn rel_operator(pos: ModulePos, out: Outcome<OperatorExpr>) -> bool
    decreases *pos.module, rest(pos), 4nat, 0nat,
{
    exists|first: Outcome<Expr>| #[trigger] picked(first) && rel_expr(true, false, pos, first) && match first {
        None => out is None,
        Some(f) => {
            let q = match f {
                Ok(m) => m.range.spec_end_pos(),
                Err(_) => pos,
            };
            let lead = match f {
                Ok(m) => seq![OperationComponent::Expression(m.value)],
                Err(_) => Seq::<OperationComponent>::empty(),
            };
            if !(q.module == pos.module && pos.tokenIndex <= q.tokenIndex <= pos.module.len()) {
                out is None
            } else {
            exists|cs: Option<Seq<Match<OperationComponent>>>| #[trigger] picked(cs) && rel_components(q, cs) && match cs {
                None => out is None,
                Some(found) => if found.len() == 0 {
                    out == Some(Err::<Match<OperatorExpr>, ASTError>(ASTError::MatchFailed(q)))
                } else {
                    let comps = lead + found.map_values(|c: Match<OperationComponent>| c.value);
                    let range = pos.spec_range((found.last().range.end() - pos.tokenIndex) as nat);
                    match infix_tree(comps) {
                        None => out == Some(Err::<Match<OperatorExpr>, ASTError>(ASTError::MatchFailed(start_of(comps[0])))),
                        Some(tree) => out matches Some(Ok(m)) && m.range == range && denotes(
                            comps.take(valid_length(comps) as int),
                            Expr::Operator(m.value),
                            tree,
                        ),
                    }
                },
            }
            }
        },
    }
}

// ---------------------------------------------------------------- statements

/// The first position at or after `pos` that is not in front of a `;`.
pub open spec fn skip_semicolons(pos: ModulePos) -> ModulePos
    decreases rest(pos),
{
    if pos.tokenIndex < pos.module.len() && token_type_at(pos) == Some(TokenType::SemiColan) {
        skip_semicolons(advanced(pos, 1))
    } else {
        pos
    }
}

/// The visibility keyword right after `pos`, if there is one.
pub open spec fn visibility_at(pos: ModulePos) -> Option<Visibility> {
    match spec_visibility_result(pos) {
        Ok(m) => Some(m.value),
        Err(_) => None,
    }
}

/// The position after an optional visibility keyword at `pos`.
pub open spec fn after_visibility(pos: ModulePos) -> ModulePos {
    if visibility_at(pos) is Some { advanced(pos, 1) } else { pos }
}

/// The function attributes read one after another from `pos`.
pub open spec fn attributes_from(pos: ModulePos) -> Seq<FunctionAttribute>
    decreases rest(pos),
{
    if pos.tokenIndex < pos.module.len() {
        match spec_function_attribute_result(pos) {
            Ok(m) => seq![m.value] + attributes_from(advanced(pos, 1)),
            Err(_) => Seq::empty(),
        }
    } else {
        Seq::empty()
    }
}

pub open spec fn is_operator_at(pos: ModulePos, operator: Operator) -> bool {
    token_type_at(pos) == Some(TokenType::Operator(operator))
}

/// `next` lies after `pos` in the same module.
pub open spec fn advances(pos: ModulePos, next: ModulePos) -> bool {
    next.module == pos.module && pos.tokenIndex < next.tokenIndex <= pos.module.len()
}

/// The range from `pos` to `end` (in the same module).
pub open spec fn range_to(pos: ModulePos, end: ModulePos) -> ModuleRange {
    pos.spec_range((end.tokenIndex - pos.tokenIndex) as nat)
}

/// Operator expressions among the matches cover their expression's own range.
pub open spec fn adjusted(found: Seq<Match<Symbol>>) -> Seq<Match<Symbol>> {
    found.map_values(|m: Match<Symbol>| match m.value {
        Symbol::Expr(Expr::Operator(oe)) => Match { range: oe.range, value: m.value },
        _ => m,
    })
}

/// How the outcomes `rs` of the alternatives at `p` (after the semicolons from `pos`) are settled into one symbol.
/// The symbol's range runs from `pos` to the end of the chosen match (for an
/// operator expression, to the end of the expression's own range).
pub open spec fn choose_symbol(pos: ModulePos, p: ModulePos, rs: Seq<Outcome<Symbol>>, out: Outcome<Symbol>) -> bool {
    if rs.len() < 22 || rs.last() is None {
        out is None
    } else {
        let found = adjusted(successes(results_of(rs)));
        if found.len() == 0 {
            out matches Some(Err(ASTError::MatchOptionsFailed(q, e))) && q == p && e@ == failures(results_of(rs))
        } else if !resolution_succeeds(found, symbol_preferences()) {
            out is None
        } else {
            exists|rr: Result<usize, ASTError>|
                #[trigger] resolved_result(
                    found,
                    apply_preferences(found, all_indices(found.len()), symbol_preferences()).unwrap(),
                    p,
                    rr,
                ) && match rr {
                    Ok(i) => out == Some(Ok::<Match<Symbol>, ASTError>(Match {
                        range: range_to(pos, found[i as int].range.spec_end_pos()),
                        value: found[i as int].value,
                    })),
                    Err(e) => out == Some(Err::<Match<Symbol>, ASTError>(e)),
                }
        }
    }
}

/// Alternative `i` of a symbol at `pos`.
pub open spec fn symbol_option(i: int, pos: ModulePos, r: Outcome<Symbol>) -> bool
    decreases *pos.module, rest(pos), 6nat, 0nat,
{
    if i == 0 {
        exists|o: Outcome<BlockSym>| #[trigger] picked(o) && rel_block(pos, o) && r == map_outcome(o, |v| Symbol::Block(v))
    } else if i == 1 {
        r == Some(map_value(spec_break_result(pos), |v| Symbol::Break(v)))
    } else if i == 2 {
        r == Some(map_value(spec_continue_result(pos), |v| Symbol::Continue(v)))
    } else if i == 3 {
        exists|o: Outcome<ClassDefinitionSym>| #[trigger] picked(o) && rel_class_definition(pos, o) && r == map_outcome(
            o,
            |v| Symbol::ClassDefinition(v),
        )
    } else if i == 4 {
        exists|o: Outcome<FunctionDefinitionSym>| #[trigger] picked(o) && rel_function_definition(pos, o) && r == map_outcome(
            o,
            |v| Symbol::FunctionDefinition(v),
        )
    } else if i == 5 {
        exists|o: Outcome<IfSym>| #[trigger] picked(o) && rel_if(pos, o) && r == map_outcome(o, |v| Symbol::IfSym(v))
    } else if i == 6 {
        exists|o: Outcome<WhileLoop>| #[trigger] picked(o) && rel_while(pos, o) && r == map_outcome(o, |v| Symbol::While(v))
    } else if i == 7 {
        exists|o: Outcome<ReturnSym>| #[trigger] picked(o) && rel_return(pos, o) && r == map_outcome(o, |v| Symbol::Return(v))
    } else if i == 8 {
        r == Some(map_value(spec_import_result(pos), |v| Symbol::ImportSym(v)))
    } else if i == 11 {
        exists|o: Outcome<OperatorExpr>| #[trigger] picked(o) && rel_operator(pos, o) && r == map_outcome(
            o,
            |v| Symbol::Expr(Expr::Operator(v)),
        )
    } else {
        exists|e: Outcome<Expr>| #[trigger] picked(e) && symbol_expr_option(i, pos, e) && r == map_outcome(e, |v| Symbol::Expr(v))
    }
}

/// The expression alternatives of a symbol (all but the operator expression).
pub open spec fn symbol_expr_option(i: int, pos: ModulePos, e: Outcome<Expr>) -> bool
    decreases *pos.module, rest(pos), 1nat, 0nat,
{
    if i == 9 {
        rel_constructor_call(pos, e)
    } else if i == 10 {
        rel_function_call(pos, e)
    } else if i == 12 {
        leaf_variable_declaration(pos, e)
    } else if i == 13 {
        e == leaf_variable(pos)
    } else if i == 14 {
        rel_array(pos, e)
    } else if i == 15 {
        leaf_bool(pos, e)
    } else if i == 16 {
        e == leaf_char(pos)
    } else if i == 17 {
        e == leaf_float(pos)
    } else if i == 18 {
        e == leaf_integer(pos)
    } else if i == 19 {
        e == leaf_string(pos)
    } else if i == 20 {
        e == leaf_void(pos)
    } else {
        rel_tuple(pos, e)
    }
}

pub open spec fn symbol_options(pos: ModulePos, rs: Seq<Outcome<Symbol>>) -> bool
    decreases *pos.module, rest(pos), 6nat, 1nat,
{
    &&& tried_in_order(rs, 22)
    &&& forall|i: int| 0 <= i < rs.len() ==> symbol_option(i, pos, #[trigger] rs[i])
}

/// A symbol: any number of `;`, then one of the kinds of symbol.
pub open spec fn rel_symbol(pos: ModulePos, out: Outcome<Symbol>) -> bool
    decreases *pos.module, rest(pos), 6nat, 2nat,
{
    let p = skip_semicolons(pos);
    if !(p.module == pos.module && pos.tokenIndex <= p.tokenIndex <= pos.module.len()) {
        out is None
    } else {
        exists|rs: Seq<Outcome<Symbol>>| #[trigger] picked(rs) && symbol_options(p, rs) && choose_symbol(pos, p, rs, out)
    }
}

/// The symbols read one after another from `pos` to the end of the module.
pub open spec fn rel_symbols_from(pos: ModulePos, out: Option<Result<Seq<Symbol>, ASTError>>) -> bool
    decreases *pos.module, rest(pos), 7nat, 0nat,
{
    if pos.tokenIndex >= pos.module.len() {
        out == Some(Ok::<Seq<Symbol>, ASTError>(Seq::empty()))
    } else {
        exists|r: Outcome<Symbol>| #[trigger] picked(r) && rel_symbol(pos, r) && match r {
            None => out is None,
            Some(Err(e)) => out == Some(Err::<Seq<Symbol>, ASTError>(e)),
            Some(Ok(m)) => {
                let next = m.range.spec_end_pos();
                if !advances(pos, next) {
                    out is None
                } else {
                    exists|t: Option<Result<Seq<Symbol>, ASTError>>| #[trigger] picked(t) && rel_symbols_from(next, t) && match t {
                        None => out is None,
                        Some(Err(e)) => out == Some(Err::<Seq<Symbol>, ASTError>(e)),
                        Some(Ok(tail)) => out == Some(Ok::<Seq<Symbol>, ASTError>(seq![m.value] + tail)),
                    }
                }
            },
        }
    }
}

/// `{ symbols }`
pub open spec fn rel_block(pos: ModulePos, out: Outcome<BlockSym>) -> bool
    decreases *pos.module, rest(pos), 0nat, 0nat,
{
    match paren_module(pos, ParenthesisType::Curly) {
        None => out == Some(Err::<Match<BlockSym>, ASTError>(paren_error(pos))),
        Some(inner) => exists|s: Option<Result<Seq<Symbol>, ASTError>>| #[trigger] picked(s) && rel_symbols_from(module_start(inner), s) && match s {
            None => out is None,
            Some(Err(e)) => out == Some(Err::<Match<BlockSym>, ASTError>(e)),
            Some(Ok(symbols)) => out matches Some(Ok(o)) && o.range == pos.spec_range(1)
                && o.value.range == module_start(inner).spec_range(inner.len()) && o.value.symbolVec@ == symbols,
        },
    }
}

/// `if condition symbol` or `if condition symbol else symbol`
pub open spec fn rel_if(pos: ModulePos, out: Outcome<IfSym>) -> bool
    decreases *pos.module, rest(pos), 0nat, 0nat,
{
    if !is_keyword_at(pos, Keyword::If) {
        out == Some(Err::<Match<IfSym>, ASTError>(ASTError::ExpectedToken(pos, TokenType::Keyword(Keyword::If))))
    } else {
        exists|c: Outcome<Expr>| #[trigger] picked(c) && rel_expr(false, false, advanced(pos, 1), c) && match c {
            Some(Ok(cm)) => {
                let q = cm.range.spec_end_pos();
                if !advances(pos, q) {
                    out is None
                } else {
                    exists|b: Outcome<Symbol>| #[trigger] picked(b) && rel_symbol(q, b) && match b {
                        Some(Ok(bm)) => {
                            let r = bm.range.spec_end_pos();
                            let noElse = Some(Ok::<Match<IfSym>, ASTError>(Match {
                                range: range_to(pos, r),
                                value: IfSym { symbol: Box::new(bm.value), condition: cm.value, range: range_to(pos, r), elseExpr: None },
                            }));
                            if !advances(pos, r) {
                                out is None
                            } else if !is_keyword_at(r, Keyword::Else) {
                                out == noElse
                            } else {
                                exists|e: Outcome<Symbol>| #[trigger] picked(e) && rel_symbol(advanced(r, 1), e) && match e {
                                    None => out is None,
                                    Some(Err(_)) => out == noElse,
                                    Some(Ok(em)) => {
                                        let end = em.range.spec_end_pos();
                                        if !advances(pos, end) {
                                            out is None
                                        } else {
                                            out == Some(Ok::<Match<IfSym>, ASTError>(Match {
                                                range: range_to(pos, end),
                                                value: IfSym {
                                                    symbol: Box::new(bm.value),
                                                    condition: cm.value,
                                                    range: range_to(pos, end),
                                                    elseExpr: Some(Box::new(ElseSym { symbol: em.value })),
                                                },
                                            }))
                                        }
                                    },
                                }
                            }
                        },
                        _ => passes_on(b, out),
                    }
                }
            },
            _ => passes_on(c, out),
        }
    }
}

/// `label: while condition symbol` or `while condition symbol`
pub open spec fn rel_while(pos: ModulePos, out: Outcome<WhileLoop>) -> bool
    decreases *pos.module, rest(pos), 0nat, 0nat,
{
    let labelled = is_identifier_at(pos) && is_operator_at(advanced(pos, 1), Operator::Colon);
    let w = if labelled { advanced(pos, 2) } else { pos };
    let label = if labelled { Some(Label { identifier: pos }) } else { None };
    if !is_keyword_at(w, Keyword::While) {
        out == Some(Err::<Match<WhileLoop>, ASTError>(ASTError::ExpectedToken(w, TokenType::Keyword(Keyword::While))))
    } else {
        exists|c: Outcome<Expr>| #[trigger] picked(c) && rel_expr(false, false, advanced(w, 1), c) && match c {
            Some(Ok(cm)) => {
                let q = cm.range.spec_end_pos();
                if !advances(pos, q) {
                    out is None
                } else {
                    exists|b: Outcome<Symbol>| #[trigger] picked(b) && rel_symbol(q, b) && match b {
                        Some(Ok(bm)) => {
                            let end = bm.range.spec_end_pos();
                            if !advances(pos, end) {
                                out is None
                            } else {
                                out == Some(Ok::<Match<WhileLoop>, ASTError>(Match {
                                    range: range_to(pos, end),
                                    value: WhileLoop { range: range_to(pos, end), condition: cm.value, symbol: Box::new(bm.value), label },
                                }))
                            }
                        },
                        _ => passes_on(b, out),
                    }
                }
            },
            _ => passes_on(c, out),
        }
    }
}

/// `return` or `return value`
pub open spec fn rel_return(pos: ModulePos, out: Outcome<ReturnSym>) -> bool
    decreases *pos.module, rest(pos), 0nat, 0nat,
{
    if !is_keyword_at(pos, Keyword::Return) {
        out == Some(Err::<Match<ReturnSym>, ASTError>(ASTError::ExpectedToken(pos, TokenType::Keyword(Keyword::Return))))
    } else {
        exists|v: Outcome<Expr>| #[trigger] picked(v) && rel_expr(false, false, advanced(pos, 1), v) && match v {
            None => out is None,
            Some(Err(_)) => out == Some(Ok::<Match<ReturnSym>, ASTError>(Match {
                range: pos.spec_range(1),
                value: ReturnSym { range: pos.spec_range(1), value: None },
            })),
            Some(Ok(vm)) => {
                let end = vm.range.spec_end_pos();
                if !advances(pos, end) {
                    out is None
                } else {
                    out == Some(Ok::<Match<ReturnSym>, ASTError>(Match {
                        range: range_to(pos, end),
                        value: ReturnSym { range: range_to(pos, end), value: Some(vm.value) },
                    }))
                }
            },
        }
    }
}

/// The value read after `= ` at `eq` (if `=` is there): `Ok` with the end of
/// what was read and the value, `None` where reading does not come back.
pub open spec fn default_value(eq: ModulePos, d: Outcome<Expr>) -> Option<(ModulePos, Option<Expr>)> {
    match d {
        None => None,
        Some(Err(_)) => Some((eq, None)),
        Some(Ok(dm)) => Some((dm.range.spec_end_pos(), Some(dm.value))),
    }
}

/// `type name` or `type name = value`
pub open spec fn rel_function_parameter(pos: ModulePos, out: Outcome<FunctionParameter>) -> bool
    decreases *pos.module, rest(pos), 0nat, 0nat,
{
    if !is_type_at(pos) {
        out == Some(Err::<Match<FunctionParameter>, ASTError>(ASTError::ExpectedType(pos)))
    } else if !is_identifier_at(advanced(pos, 1)) {
        out == Some(Err::<Match<FunctionParameter>, ASTError>(ASTError::ExpectedToken(advanced(pos, 1), TokenType::Identifier)))
    } else if !is_operator_at(advanced(pos, 2), Operator::AssignEq) {
        out == Some(Ok::<Match<FunctionParameter>, ASTError>(Match {
            range: pos.spec_range(2),
            value: FunctionParameter { typeName: pos, parameterName: advanced(pos, 1), defaultExpr: None },
        }))
    } else {
        exists|d: Outcome<Expr>| #[trigger] picked(d) && rel_expr(false, false, advanced(pos, 3), d) && match default_value(advanced(pos, 2), d) {
            None => out is None,
            Some((end, defaultExpr)) => if !advances(pos, end) {
                out is None
            } else {
                out == Some(Ok::<Match<FunctionParameter>, ASTError>(Match {
                    range: range_to(pos, end),
                    value: FunctionParameter { typeName: pos, parameterName: advanced(pos, 1), defaultExpr },
                }))
            },
        }
    }
}

/// A parameter that must fill its whole group `m`.
pub open spec fn whole_parameter(m: Rc<Module>, r: Outcome<FunctionParameter>) -> Option<Result<FunctionParameter, ASTError>> {
    match r {
        None => None,
        Some(Err(e)) => Some(Err(e)),
        Some(Ok(pm)) => if pm.range.end() != m.len() {
            Some(Err(ASTError::ExpectedExclusive(pm.range.spec_end_pos(), None)))
        } else {
            Some(Ok(pm.value))
        },
    }
}

/// The parameters inside the round brackets `m` of a function definition.
pub open spec fn rel_parameters(m: Rc<Module>, out: Option<Result<Seq<FunctionParameter>, ASTError>>) -> bool
    decreases *m, m.len(), 9nat, 0nat,
{
    if m.len() == 0 {
        out == Some(Ok::<Seq<FunctionParameter>, ASTError>(Seq::empty()))
    } else {
        match m.tokenVec@[0].tokenType {
            TokenType::CommaList(mods) if m.len() == 1 => exists|st: Option<Result<Seq<FunctionParameter>, ASTError>>|
                #[trigger] picked(st) && rel_parameter_entries(m, mods, mods@.len(), st) && out == st,
            _ => exists|r: Outcome<FunctionParameter>| #[trigger] picked(r) && rel_function_parameter(module_start(m), r) && match whole_parameter(m, r) {
                None => out is None,
                Some(Err(e)) => out == Some(Err::<Seq<FunctionParameter>, ASTError>(e)),
                Some(Ok(p)) => out == Some(Ok::<Seq<FunctionParameter>, ASTError>(seq![p])),
            },
        }
    }
}

/// The first `n` entries of the comma list `mods` (the only token of `m`), each one whole parameter.
pub open spec fn rel_parameter_entries(
    m: Rc<Module>,
    mods: Vec<Rc<Module>>,
    n: nat,
    state: Option<Result<Seq<FunctionParameter>, ASTError>>,
) -> bool
    decreases *m, m.len(), 8nat, n,
{
    if m.len() != 1 || m.tokenVec@[0].tokenType != TokenType::CommaList(mods) || n > mods@.len() {
        false
    } else if n == 0 {
        state == Some(Ok::<Seq<FunctionParameter>, ASTError>(Seq::empty()))
    } else {
        exists|prev: Option<Result<Seq<FunctionParameter>, ASTError>>| #[trigger] picked(prev) && rel_parameter_entries(m, mods, (n - 1) as nat, prev) && match prev {
            None => state is None,
            Some(Err(e)) => state == Some(Err::<Seq<FunctionParameter>, ASTError>(e)),
            Some(Ok(ps)) => {
                let entry = mods@[n - 1];
                proof {
                    let tt = m.tokenVec@[0].tokenType;
                    assert(decreases_to!(*m => m.tokenVec));
                    assert(decreases_to!(m.tokenVec => m.tokenVec@));
                    assert(decreases_to!(m.tokenVec@ => m.tokenVec@[0]));
                    assert(decreases_to!(m.tokenVec@[0] => m.tokenVec@[0].tokenType));
                    assert(tt is CommaList && tt->CommaList_0 == mods);
                    assert(decreases_to!(tt => tt->CommaList_0));
                    assert(decreases_to!(mods => mods@));
                    assert(decreases_to!(mods@ => entry));
                }
                exists|r: Outcome<FunctionParameter>| #[trigger] picked(r) && rel_function_parameter(module_start(entry), r) && match whole_parameter(entry, r) {
                    None => state is None,
                    Some(Err(e)) => state == Some(Err::<Seq<FunctionParameter>, ASTError>(e)),
                    Some(Ok(p)) => state == Some(Ok::<Seq<FunctionParameter>, ASTError>(ps.push(p))),
                }
            },
        }
    }
}

/// `visibility attributes returnType name(parameters) { symbols }`
pub open spec fn rel_function_definition(pos: ModulePos, out: Outcome<FunctionDefinitionSym>) -> bool
    decreases *pos.module, rest(pos), 0nat, 0nat,
{
    let a = after_visibility(pos);
    let attributes = attributes_from(a);
    let r = advanced(a, attributes.len());
    if !is_type_at(r) {
        out == Some(Err::<Match<FunctionDefinitionSym>, ASTError>(ASTError::ExpectedType(r)))
    } else if !is_identifier_at(advanced(r, 1)) {
        out == Some(Err::<Match<FunctionDefinitionSym>, ASTError>(ASTError::ExpectedToken(advanced(r, 1), TokenType::Identifier)))
    } else {
        match paren_module(advanced(r, 2), ParenthesisType::Rounded) {
            None => out == Some(Err::<Match<FunctionDefinitionSym>, ASTError>(paren_error(advanced(r, 2)))),
            Some(inner) => exists|ps: Option<Result<Seq<FunctionParameter>, ASTError>>| #[trigger] picked(ps) && rel_parameters(inner, ps) && match ps {
                None => out is None,
                Some(Err(e)) => out == Some(Err::<Match<FunctionDefinitionSym>, ASTError>(e)),
                Some(Ok(parameters)) => if !advances(pos, advanced(r, 3)) {
                    out is None
                } else {
                    exists|b: Outcome<BlockSym>| #[trigger] picked(b) && rel_block(advanced(r, 3), b) && match b {
                        Some(Ok(bm)) => out matches Some(Ok(o)) && o.range == range_to(pos, advanced(r, 4)) && o.value.range == o.range
                            && o.value.attributeVec@ == attributes && o.value.returnType == r && o.value.functionName == advanced(r, 1)
                            && o.value.parameters@ == parameters && o.value.functionBlock == bm.value
                            && o.value.visibility == visibility_at(pos).unwrap_or(Visibility::Private),
                        _ => passes_on(b, out),
                    }
                },
            },
        }
    }
}

/// The fields, the methods and the static fields among `members`, each in order.
pub open spec fn fields_of(members: Seq<ClassMember>) -> Seq<ClassFieldDefinition>
    decreases members.len(),
{
    if members.len() == 0 {
        Seq::empty()
    } else {
        match members.last() {
            ClassMember::FieldDefinition(f) => fields_of(members.drop_last()).push(f),
            _ => fields_of(members.drop_last()),
        }
    }
}

pub open spec fn methods_of(members: Seq<ClassMember>) -> Seq<FunctionDefinitionSym>
    decreases members.len(),
{
    if members.len() == 0 {
        Seq::empty()
    } else {
        match members.last() {
            ClassMember::FunctionDefinition(f) => methods_of(members.drop_last()).push(f),
            _ => methods_of(members.drop_last()),
        }
    }
}

pub open spec fn static_fields_of(members: Seq<ClassMember>) -> Seq<ClassStaticFieldDefinition>
    decreases members.len(),
{
    if members.len() == 0 {
        Seq::empty()
    } else {
        match members.last() {
            ClassMember::StaticFieldDefinition(f) => static_fields_of(members.drop_last()).push(f),
            _ => static_fields_of(members.drop_last()),
        }
    }
}

/// A field with the given parts: a static one when `isStatic`.
pub open spec fn field_member(
    isStatic: bool,
    name: ModulePos,
    visibility: Visibility,
    typeName: Option<ModulePos>,
    defaultValue: Option<Expr>,
) -> ClassMember {
    if isStatic {
        ClassMember::StaticFieldDefinition(ClassStaticFieldDefinition { name, typeName, visibility, defaultValue })
    } else {
        ClassMember::FieldDefinition(ClassFieldDefinition { name, visibility, typeName, defaultValue })
    }
}

/// Alternative `i` of a class member at `pos`: a typed field, a `let` field, or a method.
pub open spec fn member_option(i: int, pos: ModulePos, r: Outcome<ClassMember>) -> bool
    decreases *pos.module, rest(pos), 1nat, 0nat,
{
    let a = after_visibility(pos);
    let isStatic = is_keyword_at(a, Keyword::Static);
    let b = if isStatic { advanced(a, 1) } else { a };
    let visibility = visibility_at(pos).unwrap_or(Visibility::Private);
    if i == 0 {
        if !is_type_at(b) {
            r == Some(Err::<Match<ClassMember>, ASTError>(ASTError::ExpectedType(b)))
        } else if !is_identifier_at(advanced(b, 1)) {
            r == Some(Err::<Match<ClassMember>, ASTError>(ASTError::ExpectedToken(advanced(b, 1), TokenType::Identifier)))
        } else if !is_operator_at(advanced(b, 2), Operator::AssignEq) {
            r == Some(Ok::<Match<ClassMember>, ASTError>(Match {
                range: range_to(pos, advanced(b, 2)),
                value: field_member(isStatic, advanced(b, 1), visibility, Some(b), None),
            }))
        } else {
            exists|d: Outcome<Expr>| #[trigger] picked(d) && rel_expr(false, false, advanced(b, 3), d) && match default_value(advanced(b, 2), d) {
                None => r is None,
                Some((end, defaultValue)) => if !advances(pos, end) {
                    r is None
                } else {
                    r == Some(Ok::<Match<ClassMember>, ASTError>(Match {
                        range: range_to(pos, end),
                        value: field_member(isStatic, advanced(b, 1), visibility, Some(b), defaultValue),
                    }))
                },
            }
        }
    } else if i == 1 {
        if !is_keyword_at(b, Keyword::Let) {
            r == Some(Err::<Match<ClassMember>, ASTError>(ASTError::ExpectedToken(b, TokenType::Keyword(Keyword::Let))))
        } else if !is_identifier_at(advanced(b, 1)) {
            r == Some(Err::<Match<ClassMember>, ASTError>(ASTError::ExpectedToken(advanced(b, 1), TokenType::Identifier)))
        } else if !is_operator_at(advanced(b, 2), Operator::AssignEq) {
            r == Some(Err::<Match<ClassMember>, ASTError>(
                ASTError::ExpectedToken(advanced(b, 2), TokenType::Operator(Operator::AssignEq)),
            ))
        } else {
            exists|d: Outcome<Expr>| #[trigger] picked(d) && rel_expr(false, false, advanced(b, 3), d) && match d {
                None => r is None,
                Some(Err(e)) => r == Some(Err::<Match<ClassMember>, ASTError>(e)),
                Some(Ok(dm)) => {
                    let end = dm.range.spec_end_pos();
                    if !advances(pos, end) {
                        r is None
                    } else {
                        r == Some(Ok::<Match<ClassMember>, ASTError>(Match {
                            range: range_to(pos, end),
                            value: field_member(isStatic, advanced(b, 1), visibility, None, Some(dm.value)),
                        }))
                    }
                },
            }
        }
    } else {
        exists|o: Outcome<FunctionDefinitionSym>| #[trigger] picked(o) && rel_function_definition(pos, o) && r == map_outcome(
            o,
            |v| ClassMember::FunctionDefinition(v),
        )
    }
}

pub open spec fn member_options(pos: ModulePos, rs: Seq<Outcome<ClassMember>>) -> bool
    decreases *pos.module, rest(pos), 1nat, 1nat,
{
    &&& tried_in_order(rs, 3)
    &&& forall|i: int| 0 <= i < rs.len() ==> member_option(i, pos, #[trigger] rs[i])
}

/// How the outcomes `rs` of the alternatives at `pos` are settled into one class member.
pub open spec fn choose_member(pos: ModulePos, rs: Seq<Outcome<ClassMember>>, out: Outcome<ClassMember>) -> bool {
    if rs.len() < 3 || rs.last() is None {
        out is None
    } else {
        let found = successes(results_of(rs));
        if found.len() == 0 {
            out matches Some(Err(ASTError::MatchOptionsFailed(q, e))) && q == pos && e@ == failures(results_of(rs))
        } else {
            exists|rr: Result<usize, ASTError>|
                #[trigger] resolved_result(
                    found,
                    apply_preferences(found, all_indices(found.len()), class_member_preferences()).unwrap(),
                    pos,
                    rr,
                ) && match rr {
                    Ok(i) => out == Some(Ok::<Match<ClassMember>, ASTError>(found[i as int])),
                    Err(e) => out == Some(Err::<Match<ClassMember>, ASTError>(e)),
                }
        }
    }
}

/// A member of a class definition.
pub open spec fn rel_class_member(pos: ModulePos, out: Outcome<ClassMember>) -> bool
    decreases *pos.module, rest(pos), 1nat, 2nat,
{
    exists|rs: Seq<Outcome<ClassMember>>| #[trigger] picked(rs) && member_options(pos, rs) && choose_member(pos, rs, out)
}

/// The class members read one after another from `pos` to the end of the module.
pub open spec fn rel_members_from(pos: ModulePos, out: Option<Result<Seq<ClassMember>, ASTError>>) -> bool
    decreases *pos.module, rest(pos), 7nat, 0nat,
{
    if pos.tokenIndex >= pos.module.len() {
        out == Some(Ok::<Seq<ClassMember>, ASTError>(Seq::empty()))
    } else {
        exists|r: Outcome<ClassMember>| #[trigger] picked(r) && rel_class_member(pos, r) && match r {
            None => out is None,
            Some(Err(e)) => out == Some(Err::<Seq<ClassMember>, ASTError>(e)),
            Some(Ok(m)) => {
                let next = m.range.spec_end_pos();
                if !advances(pos, next) {
                    out is None
                } else {
                    exists|t: Option<Result<Seq<ClassMember>, ASTError>>| #[trigger] picked(t) && rel_members_from(next, t) && match t {
                        None => out is None,
                        Some(Err(e)) => out == Some(Err::<Seq<ClassMember>, ASTError>(e)),
                        Some(Ok(tail)) => out == Some(Ok::<Seq<ClassMember>, ASTError>(seq![m.value] + tail)),
                    }
                }
            },
        }
    }
}

/// `visibility class name { members }`
pub open spec fn rel_class_definition(pos: ModulePos, out: Outcome<ClassDefinitionSym>) -> bool
    decreases *pos.module, rest(pos), 0nat, 0nat,
{
    let a = after_visibility(pos);
    if !is_keyword_at(a, Keyword::Class) {
        out == Some(Err::<Match<ClassDefinitionSym>, ASTError>(ASTError::ExpectedToken(a, TokenType::Keyword(Keyword::Class))))
    } else if !is_identifier_at(advanced(a, 1)) {
        out == Some(Err::<Match<ClassDefinitionSym>, ASTError>(ASTError::ExpectedToken(advanced(a, 1), TokenType::Identifier)))
    } else {
        match paren_module(advanced(a, 2), ParenthesisType::Curly) {
            None => out == Some(Err::<Match<ClassDefinitionSym>, ASTError>(paren_error(advanced(a, 2)))),
            Some(inner) => exists|ms: Option<Result<Seq<ClassMember>, ASTError>>| #[trigger] picked(ms) && rel_members_from(module_start(inner), ms) && match ms {
                None => out is None,
                Some(Err(e)) => out == Some(Err::<Match<ClassDefinitionSym>, ASTError>(e)),
                Some(Ok(members)) => out matches Some(Ok(o)) && o.range == range_to(pos, advanced(a, 3)) && o.value.range == o.range
                    && o.value.visibility == visibility_at(pos).unwrap_or(Visibility::Private) && o.value.name == advanced(a, 1)
                    && o.value.fields@ == fields_of(members) && o.value.methods@ == methods_of(members)
                    && o.value.staticFields@ == static_fields_of(members) && o.value.inherited@.len() == 0,
            },
        }
    }
}

/// In an `if` read at `pos`, the condition is the expression read right after
/// the keyword, the then-branch is the symbol read right after the condition,
/// and the else-branch is the symbol read right after the `else` keyword that
/// follows the then-branch; there is no else-branch only where no `else`
/// follows or what follows it is not a symbol.
pub proof fn law_if_branches(pos: ModulePos, out: Outcome<IfSym>)
    requires
        rel_if(pos, out),
        out matches Some(Ok(_)),
    ensures
        exists|cm: Match<Expr>, bm: Match<Symbol>|
            #![trigger rel_expr(false, false, advanced(pos, 1), Some(Ok::<Match<Expr>, ASTError>(cm))), rel_symbol(cm.range.spec_end_pos(), Some(Ok::<Match<Symbol>, ASTError>(bm)))]
            rel_expr(false, false, advanced(pos, 1), Some(Ok::<Match<Expr>, ASTError>(cm)))
            && out->Some_0->Ok_0.value.condition == cm.value
            && rel_symbol(cm.range.spec_end_pos(), Some(Ok::<Match<Symbol>, ASTError>(bm)))
            && *out->Some_0->Ok_0.value.symbol == bm.value
            && match out->Some_0->Ok_0.value.elseExpr {
                Some(elseSym) => is_keyword_at(bm.range.spec_end_pos(), Keyword::Else) && exists|em: Match<Symbol>|
                    #[trigger] rel_symbol(advanced(bm.range.spec_end_pos(), 1), Some(Ok::<Match<Symbol>, ASTError>(em)))
                    && elseSym.symbol == em.value,
                None => !is_keyword_at(bm.range.spec_end_pos(), Keyword::Else) || exists|e: ASTError|
                    #[trigger] rel_symbol(advanced(bm.range.spec_end_pos(), 1), Some(Err::<Match<Symbol>, ASTError>(e))),
            },
{
    let c = choose|c: Outcome<Expr>| #[trigger] picked(c) && rel_expr(false, false, advanced(pos, 1), c) && match c {
        Some(Ok(cm)) => {
            let q = cm.range.spec_end_pos();
            if !advances(pos, q) {
                out is None
            } else {
                exists|b: Outcome<Symbol>| #[trigger] picked(b) && rel_symbol(q, b) && match b {
                    Some(Ok(bm)) => {
                        let r = bm.range.spec_end_pos();
                        let noElse = Some(Ok::<Match<IfSym>, ASTError>(Match {
                            range: range_to(pos, r),
                            value: IfSym { symbol: Box::new(bm.value), condition: cm.value, range: range_to(pos, r), elseExpr: None },
                        }));
                        if !advances(pos, r) {
                            out is None
                        } else if !is_keyword_at(r, Keyword::Else) {
                            out == noElse
                        } else {
                            exists|e: Outcome<Symbol>| #[trigger] picked(e) && rel_symbol(advanced(r, 1), e) && match e {
                                None => out is None,
                                Some(Err(_)) => out == noElse,
                                Some(Ok(em)) => {
                                    let end = em.range.spec_end_pos();
                                    if !advances(pos, end) {
                                        out is None
                                    } else {
                                        out == Some(Ok::<Match<IfSym>, ASTError>(Match {
                                            range: range_to(pos, end),
                                            value: IfSym {
                                                symbol: Box::new(bm.value),
                                                condition: cm.value,
                                                range: range_to(pos, end),
                                                elseExpr: Some(Box::new(ElseSym { symbol: em.value })),
                                            },
                                        }))
                                    }
                                },
                            }
                        }
                    },
                    _ => passes_on(b, out),
                }
            }
        },
        _ => passes_on(c, out),
    };
    let cm = c->Some_0->Ok_0;
    let q = cm.range.spec_end_pos();
    let b = choose|b: Outcome<Symbol>| #[trigger] picked(b) && rel_symbol(q, b) && match b {
        Some(Ok(bm)) => {
            let r = bm.range.spec_end_pos();
            let noElse = Some(Ok::<Match<IfSym>, ASTError>(Match {
                range: range_to(pos, r),
                value: IfSym { symbol: Box::new(bm.value), condition: cm.value, range: range_to(pos, r), elseExpr: None },
            }));
            if !advances(pos, r) {
                out is None
            } else if !is_keyword_at(r, Keyword::Else) {
                out == noElse
            } else {
                exists|e: Outcome<Symbol>| #[trigger] picked(e) && rel_symbol(advanced(r, 1), e) && match e {
                    None => out is None,
                    Some(Err(_)) => out == noElse,
                    Some(Ok(em)) => {
                        let end = em.range.spec_end_pos();
                        if !advances(pos, end) {
                            out is None
                        } else {
                            out == Some(Ok::<Match<IfSym>, ASTError>(Match {
                                range: range_to(pos, end),
                                value: IfSym {
                                    symbol: Box::new(bm.value),
                                    condition: cm.value,
                                    range: range_to(pos, end),
                                    elseExpr: Some(Box::new(ElseSym { symbol: em.value })),
                                },
                            }))
                        }
                    },
                }
            }
        },
        _ => passes_on(b, out),
    };
    let bm = b->Some_0->Ok_0;
    let r = bm.range.spec_end_pos();
    if is_keyword_at(r, Keyword::Else) {
        let e = choose|e: Outcome<Symbol>| #[trigger] picked(e) && rel_symbol(advanced(r, 1), e) && match e {
            None => out is None,
            Some(Err(_)) => out == Some(Ok::<Match<IfSym>, ASTError>(Match {
                range: range_to(pos, r),
                value: IfSym { symbol: Box::new(bm.value), condition: cm.value, range: range_to(pos, r), elseExpr: None },
            })),
            Some(Ok(em)) => {
                let end = em.range.spec_end_pos();
                if !advances(pos, end) {
                    out is None
                } else {
                    out == Some(Ok::<Match<IfSym>, ASTError>(Match {
                        range: range_to(pos, end),
                        value: IfSym {
                            symbol: Box::new(bm.value),
                            condition: cm.value,
                            range: range_to(pos, end),
                            elseExpr: Some(Box::new(ElseSym { symbol: em.value })),
                        },
                    }))
                }
            },
        };
        match e {
            Some(Ok(em)) => {
                assert(rel_symbol(advanced(r, 1), Some(Ok::<Match<Symbol>, ASTError>(em))));
            },
            Some(Err(err)) => {
                assert(rel_symbol(advanced(r, 1), Some(Err::<Match<Symbol>, ASTError>(err))));
            },
            None => {},
        }
    }
    assert(rel_expr(false, false, advanced(pos, 1), Some(Ok::<Match<Expr>, ASTError>(cm))));
    assert(rel_symbol(q, Some(Ok::<Match<Symbol>, ASTError>(bm))));
}

/// A loop label written as `name:` at `pos`, if there is one.
pub open spec fn label_in_front(pos: ModulePos) -> Option<Label> {
    if is_identifier_at(pos) && is_operator_at(advanced(pos, 1), Operator::Colon) {
        Some(Label { identifier: pos })
    } else {
        None
    }
}

/// Where the `while` keyword of a loop at `pos` stands: after its label, if it has one.
pub open spec fn while_keyword_at(pos: ModulePos) -> ModulePos {
    if label_in_front(pos) is Some { advanced(pos, 2) } else { pos }
}

/// A `while` read at `pos` carries the label written as `name:` in front of it
/// (if any); its condition is the expression read right after the keyword, and
/// its body is the symbol read right after the condition.
pub proof fn law_while_parts(pos: ModulePos, out: Outcome<WhileLoop>)
    requires
        rel_while(pos, out),
        out matches Some(Ok(_)),
    ensures
        is_keyword_at(while_keyword_at(pos), Keyword::While),
        out->Some_0->Ok_0.value.label == label_in_front(pos),
        exists|cm: Match<Expr>, bm: Match<Symbol>|
            #![trigger rel_expr(false, false, advanced(while_keyword_at(pos), 1), Some(Ok::<Match<Expr>, ASTError>(cm))), rel_symbol(cm.range.spec_end_pos(), Some(Ok::<Match<Symbol>, ASTError>(bm)))]
            rel_expr(false, false, advanced(while_keyword_at(pos), 1), Some(Ok::<Match<Expr>, ASTError>(cm)))
            && out->Some_0->Ok_0.value.condition == cm.value
            && rel_symbol(cm.range.spec_end_pos(), Some(Ok::<Match<Symbol>, ASTError>(bm)))
            && *out->Some_0->Ok_0.value.symbol == bm.value,
{
    let labelled = is_identifier_at(pos) && is_operator_at(advanced(pos, 1), Operator::Colon);
    let w = if labelled { advanced(pos, 2) } else { pos };
    let label = if labelled { Some(Label { identifier: pos }) } else { None };
    let c = choose|c: Outcome<Expr>| #[trigger] picked(c) && rel_expr(false, false, advanced(w, 1), c) && match c {
        Some(Ok(cm)) => {
            let q = cm.range.spec_end_pos();
            if !advances(pos, q) {
                out is None
            } else {
                exists|b: Outcome<Symbol>| #[trigger] picked(b) && rel_symbol(q, b) && match b {
                    Some(Ok(bm)) => {
                        let end = bm.range.spec_end_pos();
                        if !advances(pos, end) {
                            out is None
                        } else {
                            out == Some(Ok::<Match<WhileLoop>, ASTError>(Match {
                                range: range_to(pos, end),
                                value: WhileLoop { range: range_to(pos, end), condition: cm.value, symbol: Box::new(bm.value), label },
                            }))
                        }
                    },
                    _ => passes_on(b, out),
                }
            }
        },
        _ => passes_on(c, out),
    };
    let cm = c->Some_0->Ok_0;
    let q = cm.range.spec_end_pos();
    let b = choose|b: Outcome<Symbol>| #[trigger] picked(b) && rel_symbol(q, b) && match b {
        Some(Ok(bm)) => {
            let end = bm.range.spec_end_pos();
            if !advances(pos, end) {
                out is None
            } else {
                out == Some(Ok::<Match<WhileLoop>, ASTError>(Match {
                    range: range_to(pos, end),
                    value: WhileLoop { range: range_to(pos, end), condition: cm.value, symbol: Box::new(bm.value), label },
                }))
            }
        },
        _ => passes_on(b, out),
    };
    let bm = b->Some_0->Ok_0;
    assert(rel_expr(false, false, advanced(w, 1), Some(Ok::<Match<Expr>, ASTError>(cm))));
    assert(rel_symbol(q, Some(Ok::<Match<Symbol>, ASTError>(bm))));
}

/// A `return` read at `pos` returns the expression read right after the
/// keyword, covering it; where no expression can be read there it returns
/// nothing and covers the keyword alone.
pub proof fn law_return_value(pos: ModulePos, out: Outcome<ReturnSym>)
    requires
        rel_return(pos, out),
        out matches Some(Ok(_)),
    ensures
        is_keyword_at(pos, Keyword::Return),
        out->Some_0->Ok_0.range == out->Some_0->Ok_0.value.range,
        match out->Some_0->Ok_0.value.value {
            Some(v) => exists|vm: Match<Expr>|
                #[trigger] rel_expr(false, false, advanced(pos, 1), Some(Ok::<Match<Expr>, ASTError>(vm)))
                && v == vm.value && out->Some_0->Ok_0.range == range_to(pos, vm.range.spec_end_pos()),
            None => out->Some_0->Ok_0.range == pos.spec_range(1) && exists|e: ASTError|
                #[trigger] rel_expr(false, false, advanced(pos, 1), Some(Err::<Match<Expr>, ASTError>(e))),
        },
{
    let v = choose|v: Outcome<Expr>| #[trigger] picked(v) && rel_expr(false, false, advanced(pos, 1), v) && match v {
        None => out is None,
        Some(Err(_)) => out == Some(Ok::<Match<ReturnSym>, ASTError>(Match {
            range: pos.spec_range(1),
            value: ReturnSym { range: pos.spec_range(1), value: None },
        })),
        Some(Ok(vm)) => {
            let end = vm.range.spec_end_pos();
            if !advances(pos, end) {
                out is None
            } else {
                out == Some(Ok::<Match<ReturnSym>, ASTError>(Match {
                    range: range_to(pos, end),
                    value: ReturnSym { range: range_to(pos, end), value: Some(vm.value) },
                }))
            }
        },
    };
    match v {
        Some(Ok(vm)) => {
            assert(rel_expr(false, false, advanced(pos, 1), Some(Ok::<Match<Expr>, ASTError>(vm))));
        },
        Some(Err(e)) => {
            assert(rel_expr(false, false, advanced(pos, 1), Some(Err::<Match<Expr>, ASTError>(e))));
        },
        None => {},
    }
}

/// The method inside a member, for members that are methods.
pub open spec fn method_in(member: ClassMember) -> FunctionDefinitionSym {
    member->FunctionDefinition_0
}

pub open spec fn is_method(member: ClassMember) -> bool {
    member is FunctionDefinition
}

/// The methods among `members` are its method members, all of them and in order.
proof fn lemma_methods_of(members: Seq<ClassMember>)
    ensures
        methods_of(members) == members.filter(|m: ClassMember| is_method(m)).map_values(|m: ClassMember| method_in(m)),
    decreases members.len(),
{
    reveal(Seq::filter);
    if members.len() > 0 {
        lemma_methods_of(members.drop_last());
        let prior = members.drop_last().filter(|m: ClassMember| is_method(m));
        if is_method(members.last()) {
            assert(prior.push(members.last()).map_values(|m: ClassMember| method_in(m))
                =~= prior.map_values(|m: ClassMember| method_in(m)).push(method_in(members.last())));
        }
    } else {
        assert(members.filter(|m: ClassMember| is_method(m)).len() == 0);
        assert(members.filter(|m: ClassMember| is_method(m)).map_values(|m: ClassMember| method_in(m)) =~= Seq::<FunctionDefinitionSym>::empty());
    }
}

/// A class definition lists as its methods exactly the method members read
/// from its body, all of them, in the order they were read.
pub proof fn law_class_methods(pos: ModulePos, out: Outcome<ClassDefinitionSym>)
    requires
        rel_class_definition(pos, out),
        out matches Some(Ok(_)),
    ensures
        exists|inner: Rc<Module>, members: Seq<ClassMember>|
            #![trigger rel_members_from(module_start(inner), Some(Ok::<Seq<ClassMember>, ASTError>(members)))]
            paren_module(advanced(after_visibility(pos), 2), ParenthesisType::Curly) == Some(inner)
            && rel_members_from(module_start(inner), Some(Ok::<Seq<ClassMember>, ASTError>(members)))
            && out->Some_0->Ok_0.value.methods@ == members.filter(|m: ClassMember| is_method(m)).map_values(
                |m: ClassMember| method_in(m),
            ),
{
    let a = after_visibility(pos);
    let inner = paren_module(advanced(a, 2), ParenthesisType::Curly)->Some_0;
    let ms = choose|ms: Option<Result<Seq<ClassMember>, ASTError>>| #[trigger] picked(ms) && rel_members_from(module_start(inner), ms) && match ms {
        None => out is None,
        Some(Err(e)) => out == Some(Err::<Match<ClassDefinitionSym>, ASTError>(e)),
        Some(Ok(members)) => out matches Some(Ok(o)) && o.range == range_to(pos, advanced(a, 3)) && o.value.range == o.range
            && o.value.visibility == visibility_at(pos).unwrap_or(Visibility::Private) && o.value.name == advanced(a, 1)
            && o.value.fields@ == fields_of(members) && o.value.methods@ == methods_of(members)
            && o.value.staticFields@ == static_fields_of(members) && o.value.inherited@.len() == 0,
    };
    let members = ms->Some_0->Ok_0;
    lemma_methods_of(members);
}

/// The field inside a member, for members that are fields.
pub open spec fn field_in(member: ClassMember) -> ClassFieldDefinition {
    member->FieldDefinition_0
}

pub open spec fn is_field(member: ClassMember) -> bool {
    member is FieldDefinition
}

/// The static field inside a member, for members that are static fields.
pub open spec fn static_field_in(member: ClassMember) -> ClassStaticFieldDefinition {
    member->StaticFieldDefinition_0
}

pub open spec fn is_static_field(member: ClassMember) -> bool {
    member is StaticFieldDefinition
}

proof fn lemma_fields_of(members: Seq<ClassMember>)
    ensures
        fields_of(members) == members.filter(|m: ClassMember| is_field(m)).map_values(|m: ClassMember| field_in(m)),
        static_fields_of(members) == members.filter(|m: ClassMember| is_static_field(m)).map_values(
            |m: ClassMember| static_field_in(m),
        ),
    decreases members.len(),
{
    reveal(Seq::filter);
    if members.len() > 0 {
        lemma_fields_of(members.drop_last());
        let prior = members.drop_last().filter(|m: ClassMember| is_field(m));
        if is_field(members.last()) {
            assert(prior.push(members.last()).map_values(|m: ClassMember| field_in(m))
                =~= prior.map_values(|m: ClassMember| field_in(m)).push(field_in(members.last())));
        }
        let priorStatic = members.drop_last().filter(|m: ClassMember| is_static_field(m));
        if is_static_field(members.last()) {
            assert(priorStatic.push(members.last()).map_values(|m: ClassMember| static_field_in(m))
                =~= priorStatic.map_values(|m: ClassMember| static_field_in(m)).push(static_field_in(members.last())));
        }
    } else {
        assert(members.filter(|m: ClassMember| is_field(m)).len() == 0);
        assert(members.filter(|m: ClassMember| is_field(m)).map_values(|m: ClassMember| field_in(m)) =~= Seq::<ClassFieldDefinition>::empty());
        assert(members.filter(|m: ClassMember| is_static_field(m)).len() == 0);
        assert(members.filter(|m: ClassMember| is_static_field(m)).map_values(|m: ClassMember| static_field_in(m))
            =~= Seq::<ClassStaticFieldDefinition>::empty());
    }
}

/// A class definition lists as its fields and as its static fields exactly the
/// field members and the static field members read from its body, all of them,
/// each in the order they were read.
pub proof fn law_class_fields(pos: ModulePos, out: Outcome<ClassDefinitionSym>)
    requires
        rel_class_definition(pos, out),
        out matches Some(Ok(_)),
    ensures
        exists|inner: Rc<Module>, members: Seq<ClassMember>|
            #![trigger rel_members_from(module_start(inner), Some(Ok::<Seq<ClassMember>, ASTError>(members)))]
            paren_module(advanced(after_visibility(pos), 2), ParenthesisType::Curly) == Some(inner)
            && rel_members_from(module_start(inner), Some(Ok::<Seq<ClassMember>, ASTError>(members)))
            && out->Some_0->Ok_0.value.fields@ == members.filter(|m: ClassMember| is_field(m)).map_values(
                |m: ClassMember| field_in(m),
            )
            && out->Some_0->Ok_0.value.staticFields@ == members.filter(|m: ClassMember| is_static_field(m)).map_values(
                |m: ClassMember| static_field_in(m),
            ),
{
    let a = after_visibility(pos);
    let inner = paren_module(advanced(a, 2), ParenthesisType::Curly)->Some_0;
    let ms = choose|ms: Option<Result<Seq<ClassMember>, ASTError>>| #[trigger] picked(ms) && rel_members_from(module_start(inner), ms) && match ms {
        None => out is None,
        Some(Err(e)) => out == Some(Err::<Match<ClassDefinitionSym>, ASTError>(e)),
        Some(Ok(members)) => out matches Some(Ok(o)) && o.range == range_to(pos, advanced(a, 3)) && o.value.range == o.range
            && o.value.visibility == visibility_at(pos).unwrap_or(Visibility::Private) && o.value.name == advanced(a, 1)
            && o.value.fields@ == fields_of(members) && o.value.methods@ == methods_of(members)
            && o.value.staticFields@ == static_fields_of(members) && o.value.inherited@.len() == 0,
    };
    let members = ms->Some_0->Ok_0;
    lemma_fields_of(members);
}

/// The visibility written in front of a definition at `pos`: `public`,
/// `protected` or `private`, and private where none is written.
pub open spec fn written_visibility(pos: ModulePos) -> Visibility {
    if is_keyword_at(pos, Keyword::Public) {
        Visibility::Public
    } else if is_keyword_at(pos, Keyword::Protected) {
        Visibility::Protected
    } else {
        Visibility::Private
    }
}

/// A class read at `pos` has the visibility written in front of it, the name
/// right after `class`, no base classes, and covers the tokens up to and
/// including its body.
pub proof fn law_class_header(pos: ModulePos, out: Outcome<ClassDefinitionSym>)
    requires
        rel_class_definition(pos, out),
        out matches Some(Ok(_)),
    ensures
        ({
            let class = if is_keyword_at(pos, Keyword::Public) || is_keyword_at(pos, Keyword::Protected)
                || is_keyword_at(pos, Keyword::Private) {
                advanced(pos, 1)
            } else {
                pos
            };
            &&& is_keyword_at(class, Keyword::Class)
            &&& out->Some_0->Ok_0.value.visibility == written_visibility(pos)
            &&& out->Some_0->Ok_0.value.name == advanced(class, 1)
            &&& is_identifier_at(advanced(class, 1))
            &&& out->Some_0->Ok_0.value.inherited@.len() == 0
            &&& out->Some_0->Ok_0.range == pos.spec_range((class.tokenIndex + 3 - pos.tokenIndex) as nat)
            &&& out->Some_0->Ok_0.value.range == out->Some_0->Ok_0.range
        }),
{
    let a = after_visibility(pos);
    let inner = paren_module(advanced(a, 2), ParenthesisType::Curly)->Some_0;
    let ms = choose|ms: Option<Result<Seq<ClassMember>, ASTError>>| #[trigger] picked(ms) && rel_members_from(module_start(inner), ms) && match ms {
        None => out is None,
        Some(Err(e)) => out == Some(Err::<Match<ClassDefinitionSym>, ASTError>(e)),
        Some(Ok(members)) => out matches Some(Ok(o)) && o.range == range_to(pos, advanced(a, 3)) && o.value.range == o.range
            && o.value.visibility == visibility_at(pos).unwrap_or(Visibility::Private) && o.value.name == advanced(a, 1)
            && o.value.fields@ == fields_of(members) && o.value.methods@ == methods_of(members)
            && o.value.staticFields@ == static_fields_of(members) && o.value.inherited@.len() == 0,
    };
}

pub proof fn lemma_entries_stuck(pos: ModulePos, mods: Vec<Rc<Module>>, n: nat, state: Option<Result<Seq<Expr>, ASTError>>)
    requires
        rel_entries(pos, mods, n, state),
        !(state matches Some(Ok(_))),
        n <= mods@.len(),
    ensures
        rel_entries(pos, mods, mods@.len(), state),
    decreases mods@.len() - n,
{
    if n < mods@.len() {
        assert((((n + 1) as nat) - 1) as nat == n);
        assert(picked(state));
        assert(rel_entries(pos, mods, (n + 1) as nat, state));
        lemma_entries_stuck(pos, mods, (n + 1) as nat, state);
    }
}


pub proof fn lemma_parameter_entries_stuck(
    m: Rc<Module>,
    mods: Vec<Rc<Module>>,
    n: nat,
    state: Option<Result<Seq<FunctionParameter>, ASTError>>,
)
    requires
        rel_parameter_entries(m, mods, n, state),
        !(state matches Some(Ok(_))),
        n <= mods@.len(),
    ensures
        rel_parameter_entries(m, mods, mods@.len(), state),
    decreases mods@.len() - n,
{
    if n < mods@.len() {
        assert((((n + 1) as nat) - 1) as nat == n);
        assert(picked(state));
        assert(rel_parameter_entries(m, mods, (n + 1) as nat, state));
        lemma_parameter_entries_stuck(m, mods, (n + 1) as nat, state);
    }
}

} // verus!
