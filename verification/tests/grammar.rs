use std::rc::Rc;

use llvm_compiler::ast::error::ASTError;
use llvm_compiler::ast::{parseModule, AbstractSyntaxTree};
use llvm_compiler::ast::rules::{
    getMatchBlockSym, getMatchClassDefinitionSym, getMatchExpr, getMatchExprCommaList, getMatchFunctionDefinitionSym,
    getMatchIfSym, getMatchOperatorExpr, getMatchReturnSym, getMatchSymbol, getMatchSymbolsAll, getMatchWhileSym,
};
use llvm_compiler::ast::symbol::{ClassMember, Expr, Symbol, Visibility};
use llvm_compiler::module::{FileRange, Keyword, Module, ModulePos, Operator, ParenthesisType, QuoteType, Token, TokenType};

fn token(tokenType: TokenType) -> Token {
    Token::new(tokenType, FileRange::new(String::from("t")))
}

fn keyword(k: Keyword) -> Token {
    token(TokenType::Keyword(k))
}

fn op(o: Operator) -> Token {
    token(TokenType::Operator(o))
}

fn ident() -> Token {
    token(TokenType::Identifier)
}

fn number(text: &str) -> Token {
    Token::new(TokenType::Number, FileRange::new(text.to_string()))
}

fn semicolon() -> Token {
    token(TokenType::SemiColan)
}

fn group(kind: ParenthesisType, tokens: Vec<Token>) -> Token {
    token(TokenType::Parenthesis(kind, Module::newFrom(tokens)))
}

fn commaList(entries: Vec<Vec<Token>>) -> Token {
    token(TokenType::CommaList(entries.into_iter().map(Module::newFrom).collect()))
}

fn at(m: &Rc<Module>, index: usize) -> ModulePos {
    Module::getModulePos(m, index)
}

#[test]
fn precedenceInExpressions() {
    // a + b * c reads as a + (b * c)
    let m = Module::newFrom(vec![ident(), op(Operator::Plus), ident(), op(Operator::Mult), ident()]);
    let matched = getMatchExpr().getMatch(at(&m, 0)).unwrap().ok().unwrap();
    assert_eq!(matched.getRange().getLength(), 5);
    match &matched.value {
        Expr::Operator(sum) => {
            assert_eq!(sum.operator, Operator::Plus);
            assert_eq!(sum.operands.len(), 2);
            assert!(matches!(sum.operands[0], Expr::Variable(_)));
            match &sum.operands[1] {
                Expr::Operator(product) => assert_eq!(product.operator, Operator::Mult),
                _ => panic!("expected the product as the second operand"),
            }
        },
        _ => panic!("expected an operator expression"),
    }
}

#[test]
fn functionCallArguments() {
    // f(1, 2)
    let m = Module::newFrom(vec![
        ident(),
        group(ParenthesisType::Rounded, vec![commaList(vec![vec![number("1")], vec![number("2")]])]),
    ]);
    let matched = getMatchExpr().getMatch(at(&m, 0)).unwrap().ok().unwrap();
    match &matched.value {
        Expr::FunctionCall(call) => {
            assert_eq!(call.argVec.len(), 2);
            match &call.argVec[1] {
                Expr::LiteralInteger(value) => assert_eq!(value.value, 2),
                _ => panic!("expected an integer argument"),
            }
        },
        _ => panic!("expected a function call"),
    }
    // g() has no arguments
    let empty = Module::newFrom(vec![ident(), group(ParenthesisType::Rounded, vec![])]);
    match getMatchExpr().getMatch(at(&empty, 0)).unwrap().ok().unwrap().value {
        Expr::FunctionCall(call) => assert_eq!(call.argVec.len(), 0),
        _ => panic!("expected a function call"),
    }
}

#[test]
fn commaEntriesMustBeWhole() {
    // (1 2, 3): the first entry holds an extra token
    let inner = Module::newFrom(vec![commaList(vec![vec![number("1"), number("2")], vec![number("3")]])]);
    match getMatchExprCommaList().getMatch(at(&inner, 0)) {
        Some(Err(ASTError::ExpectedExclusive(pos, None))) => assert_eq!(pos.getTokenIndex(), 1),
        _ => panic!("expected the extra token to be reported"),
    }
}

#[test]
fn operatorExpressionNeedsAnOperator() {
    let m = Module::newFrom(vec![ident()]);
    assert!(matches!(getMatchOperatorExpr().getMatch(at(&m, 0)), Some(Err(_))));
}

#[test]
fn ifWithElse() {
    // if x { } else { }
    let m = Module::newFrom(vec![
        keyword(Keyword::If),
        ident(),
        group(ParenthesisType::Curly, vec![]),
        keyword(Keyword::Else),
        group(ParenthesisType::Curly, vec![]),
    ]);
    let matched = getMatchIfSym().getMatch(at(&m, 0)).unwrap().ok().unwrap();
    assert_eq!(matched.getRange().getLength(), 5);
    assert!(matched.value.elseExpr.is_some());
    match getMatchSymbol().getMatch(at(&m, 0)).unwrap().ok().unwrap().value {
        Symbol::IfSym(_) => {},
        _ => panic!("expected an if statement"),
    }
}

#[test]
fn whileWithLabel() {
    // outer: while x { break }
    let m = Module::newFrom(vec![
        ident(),
        op(Operator::Colon),
        keyword(Keyword::While),
        ident(),
        group(ParenthesisType::Curly, vec![keyword(Keyword::Break)]),
    ]);
    let matched = getMatchWhileSym().getMatch(at(&m, 0)).unwrap().ok().unwrap();
    assert_eq!(matched.getRange().getLength(), 5);
    assert_eq!(matched.value.label.as_ref().unwrap().identifier.getTokenIndex(), 0);
    match &*matched.value.symbol {
        Symbol::Block(block) => {
            assert_eq!(block.symbolVec.len(), 1);
            assert!(matches!(block.symbolVec[0], Symbol::Break(_)));
        },
        _ => panic!("expected a block"),
    }
}

#[test]
fn returnWithAndWithoutValue() {
    let m = Module::newFrom(vec![keyword(Keyword::Return), number("7")]);
    let matched = getMatchReturnSym().getMatch(at(&m, 0)).unwrap().ok().unwrap();
    assert_eq!(matched.getRange().getLength(), 2);
    assert!(matched.value.value.is_some());
    let bare = Module::newFrom(vec![keyword(Keyword::Return)]);
    let matched = getMatchReturnSym().getMatch(at(&bare, 0)).unwrap().ok().unwrap();
    assert_eq!(matched.getRange().getLength(), 1);
    assert!(matched.value.value.is_none());
}

#[test]
fn functionDefinition() {
    // public static int main(int a, int b = 1) { return a }
    let m = Module::newFrom(vec![
        keyword(Keyword::Public),
        keyword(Keyword::Static),
        ident(),
        ident(),
        group(
            ParenthesisType::Rounded,
            vec![commaList(vec![vec![ident(), ident()], vec![ident(), ident(), op(Operator::AssignEq), number("1")]])],
        ),
        group(ParenthesisType::Curly, vec![keyword(Keyword::Return), ident()]),
    ]);
    let matched = getMatchFunctionDefinitionSym().getMatch(at(&m, 0)).unwrap().ok().unwrap();
    let function = &matched.value;
    assert_eq!(matched.getRange().getLength(), 6);
    assert_eq!(function.visibility, Visibility::Public);
    assert_eq!(function.attributeVec.len(), 1);
    assert_eq!(function.returnType.getTokenIndex(), 2);
    assert_eq!(function.functionName.getTokenIndex(), 3);
    assert_eq!(function.parameters.len(), 2);
    assert!(function.parameters[0].defaultExpr.is_none());
    assert!(function.parameters[1].defaultExpr.is_some());
    assert_eq!(function.functionBlock.symbolVec.len(), 1);
}

#[test]
fn classDefinition() {
    // class A { int x = 1; static let y = 2; void f() { } }
    let m = Module::newFrom(vec![
        keyword(Keyword::Class),
        ident(),
        group(
            ParenthesisType::Curly,
            vec![
                ident(),
                ident(),
                op(Operator::AssignEq),
                number("1"),
                keyword(Keyword::Static),
                keyword(Keyword::Let),
                ident(),
                op(Operator::AssignEq),
                number("2"),
                keyword(Keyword::Void),
                ident(),
                group(ParenthesisType::Rounded, vec![]),
                group(ParenthesisType::Curly, vec![]),
            ],
        ),
    ]);
    let matched = getMatchClassDefinitionSym().getMatch(at(&m, 0)).unwrap().ok().unwrap();
    let class = &matched.value;
    assert_eq!(class.visibility, Visibility::Private);
    assert_eq!(class.name.getTokenIndex(), 1);
    assert_eq!(class.fields.len(), 1);
    assert_eq!(class.staticFields.len(), 1);
    assert_eq!(class.methods.len(), 1);
    assert!(class.fields[0].typeName.is_some());
    assert!(class.staticFields[0].typeName.is_none());
}

#[test]
fn blockOfStatements() {
    // { let x ; return x }
    let m = Module::newFrom(vec![group(
        ParenthesisType::Curly,
        vec![keyword(Keyword::Let), ident(), semicolon(), keyword(Keyword::Return), ident()],
    )]);
    let block = getMatchBlockSym().getMatch(at(&m, 0)).unwrap().ok().unwrap();
    assert_eq!(block.value.symbolVec.len(), 2);
    assert!(matches!(block.value.symbolVec[0], Symbol::Expr(Expr::VariableDeclaration(_))));
    assert!(matches!(block.value.symbolVec[1], Symbol::Return(_)));
}

#[test]
fn operatorPreferredOverItsFirstOperand() {
    // a + b as a symbol is the sum, not the variable a
    let m = Module::newFrom(vec![ident(), op(Operator::Plus), ident()]);
    let matched = getMatchSymbol().getMatch(at(&m, 0)).unwrap().ok().unwrap();
    assert_eq!(matched.getRange().getLength(), 3);
    assert!(matches!(matched.value, Symbol::Expr(Expr::Operator(_))));
}

#[test]
fn symbolsToTheEndOfTheModule() {
    let m = Module::newFrom(vec![keyword(Keyword::Break), semicolon(), keyword(Keyword::Continue)]);
    let all = getMatchSymbolsAll().getMatch(at(&m, 0)).unwrap().ok().unwrap();
    assert_eq!(all.value.len(), 2);
    assert_eq!(all.getRange().getLength(), 3);
    // a semicolon at the end of a module leaves nothing to read after it
    let trailing = Module::newFrom(vec![keyword(Keyword::Break), semicolon()]);
    assert!(matches!(getMatchSymbolsAll().getMatch(at(&trailing, 0)), Some(Err(ASTError::MatchOptionsFailed(_, _)))));
}

#[test]
fn unreadableIntegerDoesNotComeBack() {
    let m = Module::newFrom(vec![number("99999999999999999999")]);
    assert!(getMatchExpr().getMatch(at(&m, 0)).is_none());
}

#[test]
fn classMembersResolvedTowardsMethods() {
    let m = Module::newFrom(vec![keyword(Keyword::Void), ident(), group(ParenthesisType::Rounded, vec![]), group(ParenthesisType::Curly, vec![])]);
    let member = llvm_compiler::ast::rules::getMatchClassMember().getMatch(at(&m, 0)).unwrap().ok().unwrap();
    assert!(matches!(member.value, ClassMember::FunctionDefinition(_)));
}

#[test]
fn stringLiteralAsSymbol() {
    let m = Module::newFrom(vec![Token::new(
        TokenType::String(QuoteType::Double, FileRange::new(String::from("hi"))),
        FileRange::new(String::from("\"hi\"")),
    )]);
    assert!(matches!(getMatchSymbol().getMatch(at(&m, 0)).unwrap().ok().unwrap().value, Symbol::Expr(Expr::LiteralString(_))));
}

#[test]
fn wholeModuleAsSyntaxTree() {
    let m = Module::newFrom(vec![keyword(Keyword::Import), ident(), semicolon(), keyword(Keyword::Return), number("1")]);
    let symbols = parseModule(m.clone()).unwrap().ok().unwrap();
    assert_eq!(symbols.len(), 2);
    let tree = AbstractSyntaxTree::new(m).unwrap().ok().unwrap();
    assert_eq!(tree.getSymbols().len(), 2);
    let second = AbstractSyntaxTree::getPos(&tree, 1);
    assert!(matches!(second.getSymbol(), Symbol::Return(_)));
}

#[test]
fn characterLiteralOfOneByte() {
    let one = Module::newFrom(vec![Token::new(TokenType::String(QuoteType::Single, FileRange::new(String::from("a"))), FileRange::new(String::from("'a'")))]);
    match getMatchExpr().getMatch(at(&one, 0)).unwrap().ok().unwrap().value {
        Expr::LiteralChar(c) => assert_eq!(c.value, 97),
        _ => panic!("expected a character literal"),
    }
    // more than one byte between the quotes is not a character literal
    let two = Module::newFrom(vec![Token::new(TokenType::String(QuoteType::Single, FileRange::new(String::from("ab"))), FileRange::new(String::from("'ab'")))]);
    assert!(getMatchExpr().getMatch(at(&two, 0)).is_none());
}
