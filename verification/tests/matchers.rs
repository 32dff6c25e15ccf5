use std::rc::Rc;

use llvm_compiler::ast::error::ASTError;
use llvm_compiler::ast::matchers::{
    getMatchBreakSym, getMatchContinueSym, getMatchFunctionAttribute, getMatchIdentifier, getMatchImportSym,
    getMatchKeyword, getMatchLiteralBool, getMatchLiteralChar, getMatchLiteralFloat, getMatchLiteralInteger,
    getMatchLiteralString, getMatchLiteralVoid, getMatchOperator, getMatchSemicolan, getMatchType,
    getMatchVariableDeclarationExpr, getMatchVariableExpr, getMatchVisibility,
};
use llvm_compiler::ast::matchtype::{getRepeatingMatch, MatchType};
use llvm_compiler::ast::symbol::{FunctionAttribute, Visibility};
use llvm_compiler::module::{FileRange, Keyword, Module, ModulePos, Operator, QuoteType, Token, TokenType, TokenTypeDiscriminants};

fn token(tokenType: TokenType, text: &str) -> Token {
    Token::new(tokenType, FileRange::new(text.to_string()))
}

fn keyword(k: Keyword) -> Token {
    token(TokenType::Keyword(k), "kw")
}

fn ident(name: &str) -> Token {
    token(TokenType::Identifier, name)
}

fn number(text: &str) -> Token {
    token(TokenType::Number, text)
}

fn quoted(quote: QuoteType, text: &str) -> Token {
    Token::new(TokenType::String(quote, FileRange::new(text.to_string())), FileRange::new(text.to_string()))
}

fn module(tokens: Vec<Token>) -> Rc<Module> {
    Module::newFrom(tokens)
}

fn at(m: &Rc<Module>, index: usize) -> ModulePos {
    Module::getModulePos(m, index)
}

#[test]
fn keywordMatchesOnlyItsKeyword() {
    let m = module(vec![keyword(Keyword::Break), ident("x")]);
    let matched = getMatchKeyword(Keyword::Break).getMatch(at(&m, 0)).ok().unwrap();
    assert_eq!(matched.getRange().getStartIndex(), 0);
    assert_eq!(matched.getRange().getLength(), 1);
    match getMatchKeyword(Keyword::Break).getMatch(at(&m, 1)) {
        Err(ASTError::ExpectedToken(pos, TokenType::Keyword(Keyword::Break))) => assert_eq!(pos.getTokenIndex(), 1),
        _ => panic!("expected an error for a keyword that is not there"),
    }
    // the end of the module is no keyword either
    assert!(getMatchKeyword(Keyword::Break).getMatch(at(&m, 2)).is_err());
}

#[test]
fn operatorMatchesOnlyItsOperator() {
    let m = module(vec![token(TokenType::Operator(Operator::Plus), "+")]);
    assert!(getMatchOperator(Operator::Plus).getMatch(at(&m, 0)).is_ok());
    assert!(getMatchOperator(Operator::Minus).getMatch(at(&m, 0)).is_err());
}

#[test]
fn typeIdentifierAndSemicolon() {
    let m = module(vec![keyword(Keyword::Void), ident("x"), token(TokenType::SemiColan, ";")]);
    assert_eq!(getMatchType().getMatch(at(&m, 0)).ok().unwrap().value.getTokenIndex(), 0);
    assert_eq!(getMatchType().getMatch(at(&m, 1)).ok().unwrap().value.getTokenIndex(), 1);
    assert!(matches!(getMatchType().getMatch(at(&m, 2)), Err(ASTError::ExpectedType(_))));
    assert!(getMatchIdentifier().getMatch(at(&m, 0)).is_err());
    assert!(getMatchIdentifier().getMatch(at(&m, 1)).is_ok());
    assert!(getMatchSemicolan().getMatch(at(&m, 2)).is_ok());
    assert!(getMatchSemicolan().getMatch(at(&m, 1)).is_err());
}

#[test]
fn visibilityAndAttributes() {
    let m = module(vec![keyword(Keyword::Public), keyword(Keyword::Static), keyword(Keyword::Class)]);
    assert_eq!(getMatchVisibility().getMatch(at(&m, 0)).ok().unwrap().value, Visibility::Public);
    assert!(matches!(getMatchVisibility().getMatch(at(&m, 1)), Err(ASTError::MatchFailed(_))));
    assert_eq!(getMatchFunctionAttribute().getMatch(at(&m, 1)).ok().unwrap().value, FunctionAttribute::Static);
    assert!(matches!(
        getMatchFunctionAttribute().getMatch(at(&m, 2)),
        Err(ASTError::ExpectedTokenDiscriminant(_, TokenTypeDiscriminants::Keyword))
    ));
}

#[test]
fn breakWithAndWithoutLabel() {
    let m = module(vec![keyword(Keyword::Break), ident("outer"), keyword(Keyword::Continue)]);
    let labelled = getMatchBreakSym().getMatch(at(&m, 0)).ok().unwrap();
    assert_eq!(labelled.getRange().getLength(), 2);
    assert_eq!(labelled.value.label.as_ref().unwrap().identifier.getTokenIndex(), 1);
    let bare = getMatchContinueSym().getMatch(at(&m, 2)).ok().unwrap();
    assert_eq!(bare.getRange().getLength(), 1);
    assert!(bare.value.label.is_none());
    assert!(getMatchContinueSym().getMatch(at(&m, 0)).is_err());
}

#[test]
fn importWithAlias() {
    let m = module(vec![keyword(Keyword::Import), ident("io"), keyword(Keyword::As), ident("x")]);
    let matched = getMatchImportSym().getMatch(at(&m, 0)).ok().unwrap();
    assert_eq!(matched.getRange().getLength(), 4);
    assert_eq!(matched.value.packageName.getTokenIndex(), 1);
    assert_eq!(matched.value.localName.as_ref().unwrap().getTokenIndex(), 3);

    let plain = module(vec![keyword(Keyword::Import), ident("io")]);
    let matched = getMatchImportSym().getMatch(at(&plain, 0)).ok().unwrap();
    assert_eq!(matched.getRange().getLength(), 2);
    assert!(matched.value.localName.is_none());

    let missing = module(vec![keyword(Keyword::Import), number("1")]);
    match getMatchImportSym().getMatch(at(&missing, 0)) {
        Err(ASTError::ExpectedToken(pos, TokenType::Identifier)) => assert_eq!(pos.getTokenIndex(), 1),
        _ => panic!("expected the missing name to be reported"),
    }
}

#[test]
fn variableDeclarations() {
    let m = module(vec![keyword(Keyword::Let), ident("x"), ident("int"), ident("y"), number("5")]);
    let untyped = getMatchVariableDeclarationExpr().getMatch(at(&m, 0)).ok().unwrap();
    assert_eq!(untyped.value.variableName.getTokenIndex(), 1);
    assert!(untyped.value.explicitType.is_none());
    let typed = getMatchVariableDeclarationExpr().getMatch(at(&m, 2)).ok().unwrap();
    assert_eq!(typed.value.explicitType.as_ref().unwrap().getTokenIndex(), 2);
    assert_eq!(typed.value.variableName.getTokenIndex(), 3);
    match getMatchVariableDeclarationExpr().getMatch(at(&m, 4)) {
        Err(ASTError::MatchOptionsFailed(pos, errors)) => {
            assert_eq!(pos.getTokenIndex(), 4);
            assert_eq!(errors.len(), 2);
            assert!(matches!(errors[0], ASTError::ExpectedToken(_, TokenType::Keyword(Keyword::Let))));
            assert!(matches!(errors[1], ASTError::ExpectedType(_)));
        },
        _ => panic!("expected both forms to fail"),
    }
    assert!(getMatchVariableExpr().getMatch(at(&m, 1)).is_ok());
    assert!(getMatchVariableExpr().getMatch(at(&m, 4)).is_err());
}

#[test]
fn literals() {
    let m = module(vec![
        keyword(Keyword::True),
        keyword(Keyword::False),
        quoted(QuoteType::Single, "a"),
        quoted(QuoteType::Double, "hello"),
        number("42"),
        number("1.5"),
        keyword(Keyword::Void),
    ]);
    assert!(getMatchLiteralBool().getMatch(at(&m, 0)).ok().unwrap().value.value);
    assert!(!getMatchLiteralBool().getMatch(at(&m, 1)).ok().unwrap().value.value);
    match getMatchLiteralBool().getMatch(at(&m, 4)) {
        Err(ASTError::MatchOptionsFailed(_, errors)) => assert_eq!(errors.len(), 2),
        _ => panic!("expected both forms to fail"),
    }
    assert_eq!(getMatchLiteralChar().getMatch(at(&m, 2)).ok().unwrap().value.value, 'a' as u32);
    assert!(getMatchLiteralChar().getMatch(at(&m, 3)).is_err());
    let string = getMatchLiteralString().getMatch(at(&m, 3)).ok().unwrap();
    assert_eq!(string.value.fileRange.getSourceInRange(), "hello");
    assert_eq!(getMatchLiteralInteger().getMatch(at(&m, 4)).ok().unwrap().value.value, 42);
    assert!(getMatchLiteralInteger().getMatch(at(&m, 5)).is_err());
    assert!(getMatchLiteralFloat().getMatch(at(&m, 5)).is_ok());
    assert!(matches!(
        getMatchLiteralFloat().getMatch(at(&m, 4)),
        Err(ASTError::ExpectedTokenDiscriminant(_, TokenTypeDiscriminants::Number))
    ));
    assert!(getMatchLiteralVoid().getMatch(at(&m, 6)).is_ok());
    assert!(getMatchLiteralVoid().getMatch(at(&m, 0)).is_err());
}

#[test]
fn loweringTheMinimumKeepsTheMatch() {
    let m = module(vec![ident("x"), ident("y"), ident("z"), token(TokenType::SemiColan, ";")]);
    let strict = getRepeatingMatch(2, getMatchIdentifier()).getMatch(at(&m, 0)).ok().unwrap();
    let lax = getRepeatingMatch(0, getMatchIdentifier()).getMatch(at(&m, 0)).ok().unwrap();
    assert_eq!(strict.range.getStartIndex(), lax.range.getStartIndex());
    assert_eq!(strict.range.getLength(), 3);
    assert_eq!(lax.range.getLength(), 3);
    let strictIndices: Vec<usize> = strict.value.iter().map(|pos| pos.getTokenIndex()).collect();
    let laxIndices: Vec<usize> = lax.value.iter().map(|pos| pos.getTokenIndex()).collect();
    assert_eq!(strictIndices, vec![0, 1, 2]);
    assert_eq!(strictIndices, laxIndices);
    // with no minimum, nothing read is still a success
    let none = getRepeatingMatch(0, getMatchIdentifier()).getMatch(at(&m, 3)).ok().unwrap();
    assert_eq!(none.range.getLength(), 0);
    assert!(matches!(getRepeatingMatch(2, getMatchIdentifier()).getMatch(at(&m, 2)), Err(ASTError::MatchFailed(_))));
}
