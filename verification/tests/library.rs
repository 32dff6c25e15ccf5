use std::rc::Rc;

use llvm_compiler::ast::conflictresolution::{resolveClassDefinitionConflict, resolveSymbolConflict, tryResolveSymbolConflict};
use llvm_compiler::ast::error::{quotedList, ASTError, ConflictOption};
use llvm_compiler::ast::matchtype::Match;
use llvm_compiler::ast::numbers::{isFloat, parseInteger};
use llvm_compiler::ast::symbol::{
    ClassFieldDefinition, ClassMember, Expr, FunctionAttribute, LiteralBool, Symbol, SymbolDiscriminants, VariableExpr,
    Visibility,
};
use llvm_compiler::backend::link::{getBitcodeCompilerPath, getExecutableExtension, getLinkerPath, toolCheckExitCode, TargetOs};
use llvm_compiler::compiler::CompilerError;
use llvm_compiler::module::{FileRange, Keyword, Module, ModulePos, ModuleRange, Operator, Token, TokenType};
use llvm_compiler::text::{charsOf, decimalText, repeatText, replaceChar};

fn sourceToken(tokenType: TokenType, text: &str) -> Token {
    Token::new(tokenType, FileRange::new(text.to_string()))
}

fn words(count: usize) -> Rc<Module> {
    let mut tokens = Vec::new();
    for i in 0..count {
        tokens.push(sourceToken(TokenType::Identifier, &format!("w{i} ")));
    }
    Module::newFrom(tokens)
}

fn at(m: &Rc<Module>, index: usize) -> ModulePos {
    Module::getModulePos(m, index)
}

#[test]
fn decimalSpelling() {
    assert_eq!(decimalText(0), "0");
    assert_eq!(decimalText(7), "7");
    assert_eq!(decimalText(1204), "1204");
}

#[test]
fn textRewriting() {
    assert_eq!(replaceChar("a\nb\n", '\n', "\n\t"), "a\n\tb\n\t");
    assert_eq!(replaceChar("x\r\ny", '\r', ""), "x\ny");
    assert_eq!(replaceChar("", 'a', "b"), "");
    assert_eq!(repeatText(" ", 3), "   ");
    assert_eq!(repeatText("ab", 0), "");
    assert_eq!(charsOf("héllo"), vec!['h', 'é', 'l', 'l', 'o']);
}

#[test]
fn integersAsTheStandardLibraryReadsThem() {
    for text in ["0", "42", "-7", "+13", "9223372036854775807", "-9223372036854775808", "9223372036854775808", "", "-", "1a", "1.5", " 1"] {
        assert_eq!(parseInteger(text), text.parse::<i64>().ok(), "reading {text:?}");
    }
}

#[test]
fn floatsHaveAPoint() {
    assert!(isFloat(&FileRange::new(String::from("1.5"))));
    assert!(!isFloat(&FileRange::new(String::from("15"))));
}

#[test]
fn operatorTable() {
    assert_eq!(Operator::Plus.getOperands(), 2);
    assert_eq!(Operator::Increment.getOperands(), 1);
    assert!(Operator::Mult.getPrecedence() > Operator::Plus.getPrecedence());
    assert!(Operator::Increment.getPrecedence() > Operator::Div.getPrecedence());
    assert_eq!(Operator::Plus.getCharacters(), "+");
}

#[test]
fn combinedRangeCoversBoth() {
    let m = words(10);
    let first = at(&m, 2).getRangeWithLength(2);
    let second = at(&m, 6).getRangeWithLength(3);
    let combined = second.getCombined(&first);
    assert_eq!(combined.getStartIndex(), 2);
    assert_eq!(combined.getEndIndex(), 9);
    let mut range = at(&m, 3).getRangeWithLength(2);
    range.setEndIndex(8);
    assert_eq!(range.getLength(), 5);
    range.setStartIndex(1);
    assert_eq!(range.getLength(), 7);
    assert_eq!(range.getEndIndex(), 8);
}

fn symbolMatch(m: &Rc<Module>, index: usize, length: usize, symbol: Symbol) -> Match<Symbol> {
    Match::new(at(m, index).getRangeWithLength(length), symbol)
}

#[test]
fn conflictResolution() {
    let m = words(6);
    // no candidates
    assert!(matches!(resolveSymbolConflict(at(&m, 0), &vec![]), Err(ASTError::MatchFailed(_))));
    // a single candidate is chosen
    let single = vec![symbolMatch(&m, 0, 1, Symbol::Expr(Expr::Variable(VariableExpr { range: at(&m, 0).getRangeWithLength(1) })))];
    assert_eq!(resolveSymbolConflict(at(&m, 0), &single).ok(), Some(0));
    // two candidates of kinds without a preference between them
    let two = vec![
        symbolMatch(&m, 0, 1, Symbol::Expr(Expr::LiteralBool(LiteralBool::new(at(&m, 0).getRangeWithLength(1), true)))),
        symbolMatch(&m, 0, 1, Symbol::Expr(Expr::Variable(VariableExpr { range: at(&m, 0).getRangeWithLength(1) }))),
    ];
    match tryResolveSymbolConflict(at(&m, 0), &two) {
        Some(Err(ASTError::MultipleConflict(_, reported))) => {
            let kinds: Vec<&str> = reported.iter().map(|option| option.kind.as_str()).collect();
            assert_eq!(kinds, vec!["LiteralBool", "Variable"]);
            assert_eq!(reported[0].source, "w0 ");
            assert_eq!(reported[0].tokens, vec!["Identifier".to_string()]);
            assert_eq!(reported[1].range.getStartIndex(), 0);
            assert_eq!(reported[1].range.getLength(), 1);
        }
        _ => panic!("expected both candidates to survive"),
    }
    // a method is preferred over a field
    let members = vec![
        Match::new(
            at(&m, 0).getRangeWithLength(2),
            ClassMember::FieldDefinition(ClassFieldDefinition {
                name: at(&m, 1),
                visibility: Visibility::Private,
                typeName: Some(at(&m, 0)),
                defaultValue: None,
            }),
        ),
    ];
    assert_eq!(resolveClassDefinitionConflict(at(&m, 0), &members).ok(), Some(0));
    assert_eq!(SymbolDiscriminants::Operator.getName(), "Operator");
}

#[test]
fn errorMessages() {
    let m = Module::newFrom(vec![
        sourceToken(TokenType::Identifier, "a"),
        sourceToken(TokenType::Operator(Operator::Plus), "+"),
        sourceToken(TokenType::Keyword(Keyword::Return), "return"),
    ]);
    let failed = ASTError::MatchFailed(at(&m, 1));
    assert_eq!(failed.getErrorMessage(), "failed to find match at token 1");
    let expected = ASTError::ExpectedToken(at(&m, 2), TokenType::Identifier);
    assert_eq!(expected.getErrorMessage(), "expected Identifier at token 2, found Keyword(Return)");
    let atEnd = ASTError::ExpectedType(at(&m, 3));
    assert_eq!(atEnd.getErrorMessage(), "expected type at token 3, found end of module");
    assert_eq!(failed.getModulePos().getTokenIndex(), 1);
    let (source, caret) = failed.getTokenSource();
    assert_eq!(source, "a+return");
    assert_eq!(caret, 2);
    assert_eq!(
        failed.getDisplayMessage(),
        "error: failed to find match at token 1\n\t(at token 1)\n\t> \"a+return\"\n\t   ^"
    );
    let nested = ASTError::MatchOptionsFailed(at(&m, 0), vec![ASTError::MatchFailed(at(&m, 0))]);
    assert!(nested.getErrorMessage().starts_with("all potential matches failed at token 0\n\terror: failed to find match at token 0\n\t\t(at token 0)"));
    assert_eq!(quotedList(&vec![String::from("a"), String::from("b")]), "[\"a\", \"b\"]");
}

#[test]
fn compilerErrorMessages() {
    assert_eq!(CompilerError::ReadSourceError(String::from("missing")).getErrorMessage(), "Failed to read source: missing");
    assert_eq!(CompilerError::TokenParseError(String::from("bad")).getErrorMessage(), "Failed to parse tokens: bad");
    assert_eq!(
        CompilerError::ResolutionError(vec![String::from("A"), String::from("B")]).getErrorMessage(),
        "Failed to resolve symbols: [A, B]"
    );
    assert_eq!(CompilerError::ResolutionError(vec![]).getErrorMessage(), "Failed to resolve symbols: []");
    let m = Module::newFrom(vec![sourceToken(TokenType::Identifier, "x")]);
    let message = CompilerError::ASTParseError(ASTError::MatchFailed(at(&m, 0))).getErrorMessage();
    assert!(message.starts_with("Failed to match syntax: error: failed to find match at token 0"));
}

#[test]
fn linking() {
    assert_eq!(getExecutableExtension(TargetOs::Linux), "");
    assert_eq!(getExecutableExtension(TargetOs::Windows), ".exe");
    assert_eq!(getLinkerPath(TargetOs::Windows), "lld-link.exe");
    assert_eq!(getLinkerPath(TargetOs::Linux), "ld.lld");
    assert_eq!(getBitcodeCompilerPath(TargetOs::Windows), "llc.exe");
    assert_eq!(getBitcodeCompilerPath(TargetOs::Linux), "llc");
    assert_eq!(toolCheckExitCode(false, false), Some(2));
    assert_eq!(toolCheckExitCode(true, false), Some(3));
    assert_eq!(toolCheckExitCode(true, true), None);
}

#[test]
fn attributesFromKeywords() {
    assert_eq!(FunctionAttribute::fromKeyword(Keyword::Static), Some(FunctionAttribute::Static));
    assert_eq!(FunctionAttribute::fromKeyword(Keyword::Class), None);
    assert_eq!(Visibility::fromKeyword(Keyword::Protected), Some(Visibility::Protected));
}

#[test]
fn remainingErrorMessages() {
    let m = Module::newFrom(vec![sourceToken(TokenType::Identifier, "x"), sourceToken(TokenType::SemiColan, ";")]);
    assert_eq!(ASTError::ExpectedSymbol(at(&m, 1)).getErrorMessage(), "failed to match symbol (at token 1)");
    assert_eq!(
        ASTError::ExpectedTokenDiscriminant(at(&m, 1), llvm_compiler::module::TokenTypeDiscriminants::Number).getErrorMessage(),
        "expected Number at token 1, found SemiColan"
    );
    assert_eq!(
        ASTError::ExpectedExclusive(at(&m, 1), None).getErrorMessage(),
        "expected single token, found extra SemiColan token"
    );
    assert_eq!(
        ASTError::EliminatedConflict(at(&m, 0), vec![ConflictOption::new(&at(&m, 0).getRangeWithLength(1), "Variable")])
            .getErrorMessage(),
        "cannot determine appropriate symbol from multiple conflicting matches at token 0; all possibilities eliminated ([(\"x\", [\"Identifier\"], Variable at token 0)])"
    );
    assert_eq!(
        ASTError::MultipleConflict(
            at(&m, 0),
            vec![
                ConflictOption::new(&at(&m, 0).getRangeWithLength(2), "Operator"),
                ConflictOption::new(&at(&m, 1).getRangeWithLength(1), "LiteralVoid"),
            ]
        )
        .getErrorMessage(),
        "conflict resolution returned multiple potential symbols at token 0: [(\"x;\", [\"Identifier\", \"SemiColan\"], Operator at token 0), (\";\", [\"SemiColan\"], LiteralVoid at token 1)]"
    );
}
