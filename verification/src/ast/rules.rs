//! The matchers of the grammar's recursive rules.
//!
//! Each reads its rule at a position and gives the outcome that the grammar
//! relates to that position: `None` where reading does not come back, and
//! otherwise the match or the error.

use vstd::prelude::*;

use crate::ast::grammar::{
    rel_array, rel_block, rel_class_definition, rel_class_member, rel_comma_at, rel_constructor_call, rel_expr,
    rel_function_call, rel_function_definition, rel_function_parameter, rel_if, rel_operator, rel_return,
    rel_symbol, rel_symbols_from, rel_tuple, rel_while, Outcome,
};
use crate::ast::matchtype::Match;
use crate::ast::operatorexpr::OperatorExpr;
use crate::ast::parser::{
    expr_outcome_ok, outcome_ok, parseBracketList, parseCommaAt, parseConstructorCall, parseExpr, parseFunctionCall,
    parseOperator,
};
use crate::ast::statementparser::{
    parseBlock, parseClassDefinition, parseClassMember, parseFunctionDefinition, parseFunctionParameter, parseIf,
    parseReturn, parseSymbol, parseSymbolsFrom, parseWhile,
};
use crate::ast::symbol::{
    BlockSym, ClassDefinitionSym, ClassMember, Expr, FunctionDefinitionSym, FunctionParameter, IfSym, ReturnSym,
    Symbol, WhileLoop,
};
use crate::module::ModulePos;

verus! {

/// A symbol: any number of `;` and then one statement or expression.
#[derive(Clone, Copy)]
pub struct MatchSymbol;

pub fn getMatchSymbol() -> (matcher: MatchSymbol) {
    MatchSymbol
}

impl MatchSymbol {
    pub fn getMatch(&self, startPos: ModulePos) -> (out: Outcome<Symbol>)
        requires
            startPos.wf(),
        ensures
            rel_symbol(startPos, out),
            outcome_ok(startPos, out),
    {
        parseSymbol(&startPos)
    }
}

/// Any expression.
#[derive(Clone, Copy)]
pub struct MatchExpr;

pub fn getMatchExpr() -> (matcher: MatchExpr) {
    MatchExpr
}

impl MatchExpr {
    pub fn getMatch(&self, startPos: ModulePos) -> (out: Outcome<Expr>)
        requires
            startPos.wf(),
        ensures
            rel_expr(false, false, startPos, out),
            outcome_ok(startPos, out),
    {
        parseExpr(false, false, &startPos)
    }
}

/// `{ symbols }`
#[derive(Clone, Copy)]
pub struct MatchBlockSym;

pub fn getMatchBlockSym() -> (matcher: MatchBlockSym) {
    MatchBlockSym
}

impl MatchBlockSym {
    pub fn getMatch(&self, startPos: ModulePos) -> (out: Outcome<BlockSym>)
        requires
            startPos.wf(),
        ensures
            rel_block(startPos, out),
            outcome_ok(startPos, out),
    {
        parseBlock(&startPos)
    }
}

/// A field or a method of a class.
#[derive(Clone, Copy)]
pub struct MatchClassMember;

pub fn getMatchClassMember() -> (matcher: MatchClassMember) {
    MatchClassMember
}

impl MatchClassMember {
    pub fn getMatch(&self, startPos: ModulePos) -> (out: Outcome<ClassMember>)
        requires
            startPos.wf(),
        ensures
            rel_class_member(startPos, out),
            outcome_ok(startPos, out),
    {
        parseClassMember(&startPos)
    }
}

/// `visibility class name { members }`
#[derive(Clone, Copy)]
pub struct MatchClassDefinitionSym;

pub fn getMatchClassDefinitionSym() -> (matcher: MatchClassDefinitionSym) {
    MatchClassDefinitionSym
}

impl MatchClassDefinitionSym {
    pub fn getMatch(&self, startPos: ModulePos) -> (out: Outcome<ClassDefinitionSym>)
        requires
            startPos.wf(),
        ensures
            rel_class_definition(startPos, out),
            outcome_ok(startPos, out),
    {
        parseClassDefinition(&startPos)
    }
}

/// `type name` or `type name = value`
#[derive(Clone, Copy)]
pub struct MatchFunctionParameter;

pub fn getMatchFunctionParameter() -> (matcher: MatchFunctionParameter) {
    MatchFunctionParameter
}

impl MatchFunctionParameter {
    pub fn getMatch(&self, startPos: ModulePos) -> (out: Outcome<FunctionParameter>)
        requires
            startPos.wf(),
        ensures
            rel_function_parameter(startPos, out),
            outcome_ok(startPos, out),
    {
        parseFunctionParameter(&startPos)
    }
}

/// `visibility attributes returnType name(parameters) { symbols }`
#[derive(Clone, Copy)]
pub struct MatchFunctionDefinitionSym;

pub fn getMatchFunctionDefinitionSym() -> (matcher: MatchFunctionDefinitionSym) {
    MatchFunctionDefinitionSym
}

impl MatchFunctionDefinitionSym {
    pub fn getMatch(&self, startPos: ModulePos) -> (out: Outcome<FunctionDefinitionSym>)
        requires
            startPos.wf(),
        ensures
            rel_function_definition(startPos, out),
            outcome_ok(startPos, out),
    {
        parseFunctionDefinition(&startPos)
    }
}

/// `if condition symbol`, optionally followed by `else symbol`.
#[derive(Clone, Copy)]
pub struct MatchIfSym;

pub fn getMatchIfSym() -> (matcher: MatchIfSym) {
    MatchIfSym
}

impl MatchIfSym {
    pub fn getMatch(&self, startPos: ModulePos) -> (out: Outcome<IfSym>)
        requires
            startPos.wf(),
        ensures
            rel_if(startPos, out),
            outcome_ok(startPos, out),
    {
        parseIf(&startPos)
    }
}

/// `while condition symbol`, optionally labelled with `label:`.
#[derive(Clone, Copy)]
pub struct MatchWhileSym;

pub fn getMatchWhileSym() -> (matcher: MatchWhileSym) {
    MatchWhileSym
}

impl MatchWhileSym {
    pub fn getMatch(&self, startPos: ModulePos) -> (out: Outcome<WhileLoop>)
        requires
            startPos.wf(),
        ensures
            rel_while(startPos, out),
            outcome_ok(startPos, out),
    {
        parseWhile(&startPos)
    }
}

/// `return` or `return value`
#[derive(Clone, Copy)]
pub struct MatchReturnSym;

pub fn getMatchReturnSym() -> (matcher: MatchReturnSym) {
    MatchReturnSym
}

impl MatchReturnSym {
    pub fn getMatch(&self, startPos: ModulePos) -> (out: Outcome<ReturnSym>)
        requires
            startPos.wf(),
        ensures
            rel_return(startPos, out),
            outcome_ok(startPos, out),
    {
        parseReturn(&startPos)
    }
}

/// An expression of operators and operands, arranged by precedence.
#[derive(Clone, Copy)]
pub struct MatchOperatorExpr;

pub fn getMatchOperatorExpr() -> (matcher: MatchOperatorExpr) {
    MatchOperatorExpr
}

impl MatchOperatorExpr {
    pub fn getMatch(&self, startPos: ModulePos) -> (out: Outcome<OperatorExpr>)
        requires
            startPos.wf(),
        ensures
            rel_operator(startPos, out),
            outcome_ok(startPos, out),
    {
        parseOperator(&startPos)
    }
}

/// An expression; an operator expression only unless `excludeOperator`, a
/// declaration only unless `excludeDeclaration`.
#[derive(Clone, Copy)]
pub struct MatchExcludingExpr {
    pub excludeOperator: bool,
    pub excludeDeclaration: bool,
}

pub fn getMatchExcludingExpr(excludeOperator: bool, excludeDeclaration: bool) -> (matcher: MatchExcludingExpr)
    ensures
        matcher.excludeOperator == excludeOperator,
        matcher.excludeDeclaration == excludeDeclaration,
{
    MatchExcludingExpr { excludeOperator, excludeDeclaration }
}

impl MatchExcludingExpr {
    pub fn getMatch(&self, startPos: ModulePos) -> (out: Outcome<Expr>)
        requires
            startPos.wf(),
        ensures
            rel_expr(self.excludeOperator, self.excludeDeclaration, startPos, out),
            expr_outcome_ok(startPos, out),
    {
        parseExpr(self.excludeOperator, self.excludeDeclaration, &startPos)
    }
}

/// `new Type(arguments)`
#[derive(Clone, Copy)]
pub struct MatchConstructorCallExpr;

pub fn getMatchConstructorCallExpr() -> (matcher: MatchConstructorCallExpr) {
    MatchConstructorCallExpr
}

impl MatchConstructorCallExpr {
    pub fn getMatch(&self, startPos: ModulePos) -> (out: Outcome<Expr>)
        requires
            startPos.wf(),
        ensures
            rel_constructor_call(startPos, out),
            expr_outcome_ok(startPos, out),
    {
        parseConstructorCall(&startPos)
    }
}

/// `name(arguments)`
#[derive(Clone, Copy)]
pub struct MatchFunctionCallExpr;

pub fn getMatchFunctionCallExpr() -> (matcher: MatchFunctionCallExpr) {
    MatchFunctionCallExpr
}

impl MatchFunctionCallExpr {
    pub fn getMatch(&self, startPos: ModulePos) -> (out: Outcome<Expr>)
        requires
            startPos.wf(),
        ensures
            rel_function_call(startPos, out),
            expr_outcome_ok(startPos, out),
    {
        parseFunctionCall(&startPos)
    }
}

/// `[a, b, c]`
#[derive(Clone, Copy)]
pub struct MatchLiteralArray;

pub fn getMatchLiteralArray() -> (matcher: MatchLiteralArray) {
    MatchLiteralArray
}

impl MatchLiteralArray {
    pub fn getMatch(&self, startPos: ModulePos) -> (out: Outcome<Expr>)
        requires
            startPos.wf(),
        ensures
            rel_array(startPos, out),
            expr_outcome_ok(startPos, out),
    {
        parseBracketList(&startPos, true)
    }
}

/// `(a, b, c)`
#[derive(Clone, Copy)]
pub struct MatchLiteralTuple;

pub fn getMatchLiteralTuple() -> (matcher: MatchLiteralTuple) {
    MatchLiteralTuple
}

impl MatchLiteralTuple {
    pub fn getMatch(&self, startPos: ModulePos) -> (out: Outcome<Expr>)
        requires
            startPos.wf(),
        ensures
            rel_tuple(startPos, out),
            expr_outcome_ok(startPos, out),
    {
        parseBracketList(&startPos, false)
    }
}

/// The expressions of a bracketed group: a comma separated list, nothing, or one expression.
#[derive(Clone, Copy)]
pub struct MatchExprCommaList;

pub fn getMatchExprCommaList() -> (matcher: MatchExprCommaList) {
    MatchExprCommaList
}

impl MatchExprCommaList {
    pub fn getMatch(&self, startPos: ModulePos) -> (out: Outcome<Vec<Expr>>)
        requires
            startPos.wf(),
        ensures
            rel_comma_at(startPos, out),
    {
        parseCommaAt(&startPos)
    }
}

/// Every symbol from a position to the end of its module.
#[derive(Clone, Copy)]
pub struct MatchSymbolsAll;

pub fn getMatchSymbolsAll() -> (matcher: MatchSymbolsAll) {
    MatchSymbolsAll
}

impl MatchSymbolsAll {
    /// The symbols with the range from `startPos` to the end of the module.
    pub fn getMatch(&self, startPos: ModulePos) -> (out: Outcome<Vec<Symbol>>)
        requires
            startPos.wf(),
        ensures
            match out {
                None => rel_symbols_from(startPos, None),
                Some(Err(e)) => rel_symbols_from(startPos, Some(Err(e))),
                Some(Ok(m)) => rel_symbols_from(startPos, Some(Ok(m.value@)))
                    && m.range == startPos.spec_range((startPos.module.len() - startPos.tokenIndex) as nat),
            },
    {
        let symbols = parseSymbolsFrom(&startPos);
        match symbols {
            None => None,
            Some(Err(e)) => Some(Err(e)),
            Some(Ok(symbolVec)) => {
                let length = startPos.getModule().getTokenVector().len() - startPos.getTokenIndex();
                Some(Ok(Match::new(startPos.getRangeWithLength(length), symbolVec)))
            },
        }
    }
}

} // verus!
