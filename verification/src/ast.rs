//! The syntax tree and the parser that builds it from token modules.
pub mod symbol;
pub mod error;
pub mod operatorexpr;
pub mod matchtype;
pub mod conflictresolution;
pub mod numbers;
pub mod matchers;
pub mod grammar;
pub mod parser;
pub mod statementparser;
pub mod rules;

use std::rc::Rc;

use vstd::prelude::*;

use crate::ast::error::ASTError;
use crate::ast::grammar::{module_start, rel_symbols_from};
use crate::ast::rules::getMatchSymbolsAll;
use crate::ast::symbol::Symbol;
use crate::module::Module;

verus! {

/// The symbols of a module, in order; `None` where reading does not come back.
pub fn parseTokenVec(module: Rc<Module>) -> (symbols: Option<Result<Vec<Symbol>, ASTError>>)
    ensures
        rel_symbols_from(module_start(module), match symbols {
            None => None,
            Some(Err(e)) => Some(Err(e)),
            Some(Ok(v)) => Some(Ok(v@)),
        }),
{
    let start = Module::getModulePos(&module, 0);
    match getMatchSymbolsAll().getMatch(start) {
        None => None,
        Some(Err(e)) => Some(Err(e)),
        Some(Ok(matched)) => Some(Ok(matched.take().1)),
    }
}

/// The symbols of a module, in order; `None` where reading does not come back.
pub fn parseModule(module: Rc<Module>) -> (symbols: Option<Result<Vec<Symbol>, ASTError>>)
    ensures
        rel_symbols_from(module_start(module), match symbols {
            None => None,
            Some(Err(e)) => Some(Err(e)),
            Some(Ok(v)) => Some(Ok(v@)),
        }),
{
    parseTokenVec(module)
}

/// The symbols of a module.
#[derive(Debug)]
pub struct AbstractSyntaxTree {
    pub symbolVec: Vec<Symbol>,
}

impl AbstractSyntaxTree {
    pub fn newFrom(symbolVec: Vec<Symbol>) -> (tree: Rc<Self>)
        ensures
            tree.symbolVec@ == symbolVec@,
    {
        Rc::new(AbstractSyntaxTree { symbolVec })
    }

    /// Reads the tree of a module; `None` where reading does not come back.
    pub fn new(module: Rc<Module>) -> (tree: Option<Result<Rc<Self>, ASTError>>)
        ensures
            rel_symbols_from(module_start(module), match tree {
                None => None,
                Some(Err(e)) => Some(Err(e)),
                Some(Ok(t)) => Some(Ok(t.symbolVec@)),
            }),
    {
        match parseModule(module) {
            None => None,
            Some(Err(e)) => Some(Err(e)),
            Some(Ok(symbolVec)) => Some(Ok(AbstractSyntaxTree::newFrom(symbolVec))),
        }
    }

    pub fn getSymbols(&self) -> (symbols: &Vec<Symbol>)
        ensures
            symbols@ == self.symbolVec@,
    {
        &self.symbolVec
    }

    /// The position of symbol `index` in `tree`.
    pub fn getPos(tree: &Rc<AbstractSyntaxTree>, index: usize) -> (pos: SymbolPos)
        requires
            index < tree.symbolVec@.len(),
        ensures
            pos.ast == *tree,
            pos.index == index,
    {
        SymbolPos { ast: Rc::clone(tree), index }
    }
}

/// A symbol of a tree, by its index.
pub struct SymbolPos {
    pub ast: Rc<AbstractSyntaxTree>,
    pub index: usize,
}

impl SymbolPos {
    pub open spec fn wf(&self) -> bool {
        self.index < self.ast.symbolVec@.len()
    }

    pub fn getSymbol(&self) -> (symbol: &Symbol)
        requires
            self.wf(),
        ensures
            *symbol == self.ast.symbolVec@[self.index as int],
    {
        &self.ast.symbolVec[self.index]
    }
}

} // verus!
