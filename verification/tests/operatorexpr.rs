use std::rc::Rc;

use llvm_compiler::ast::error::ASTError;
use llvm_compiler::ast::operatorexpr::{OperationComponent, OperatorExpr};
use llvm_compiler::ast::symbol::{Expr, LiteralInteger};
use llvm_compiler::module::{FileRange, Module, ModulePos, ModuleRange, Operator, Token, TokenType};

fn getDummyToken() -> Token {
    Token::new(TokenType::SemiColan, FileRange::new(String::new()))
}

fn getModule() -> Rc<Module> {
    let mut tokens = Vec::new();
    for _ in 0..12 {
        tokens.push(getDummyToken());
    }
    Module::newFrom(tokens)
}

fn getPosIndex(module: &Rc<Module>, index: usize) -> ModulePos {
    Module::getModulePos(module, index)
}

fn getExpr(module: &Rc<Module>, index: usize) -> Expr {
    Expr::LiteralInteger(LiteralInteger { range: getPosIndex(module, index).getRangeWithLength(0), value: 0 })
}

fn getExprComponent(module: &Rc<Module>, index: usize) -> OperationComponent {
    OperationComponent::Expression(getExpr(module, index))
}

fn getOperatorComponent(module: &Rc<Module>, index: usize, operator: Operator) -> OperationComponent {
    OperationComponent::Operator(getPosIndex(module, index).getRangeWithLength(0), operator)
}

fn sameRange(expected: &ModuleRange, provided: &ModuleRange) -> bool {
    Rc::ptr_eq(expected.getModule(), provided.getModule())
        && expected.getStartIndex() == provided.getStartIndex()
        && expected.getLength() == provided.getLength()
}

fn checkEqualRef(expected: &OperatorExpr, provided: &OperatorExpr) {
    assert_eq!(provided.operator.getOperands(), provided.operands.len(), "operand count does not match the arity");
    assert_eq!(expected.operator, provided.operator, "operator mismatch");
    assert_eq!(expected.operands.len(), provided.operands.len(), "operand mismatch");

    for index in 0..expected.operands.len() {
        match (&expected.operands[index], &provided.operands[index]) {
            (Expr::LiteralInteger(expectedInteger), Expr::LiteralInteger(providedInteger)) => {
                assert!(sameRange(&expectedInteger.range, &providedInteger.range), "operand {index} range mismatch");
            }
            (Expr::LiteralInteger(_), _) => panic!("operand {index} mismatch, expected an integer"),
            (Expr::Operator(expectedOperand), Expr::Operator(providedOperand)) => {
                checkEqualRef(expectedOperand, providedOperand);
            }
            (Expr::Operator(_), _) => panic!("operand {index} mismatch, expected an operator expression"),
            _ => {}
        }
    }
}

fn checkEq(expected: OperatorExpr, provided: Result<OperatorExpr, ASTError>) {
    let provided = match provided {
        Ok(expr) => expr,
        Err(_) => panic!("expected an operator expression, found an error"),
    };
    checkEqualRef(&expected, &provided);
}

fn boxed(expr: OperatorExpr) -> Expr {
    Expr::Operator(expr)
}

#[test]
fn testAddition() {
    // a + b
    let m = getModule();
    let expr = OperatorExpr::getFromInfix(vec![
        getExprComponent(&m, 1),
        getOperatorComponent(&m, 2, Operator::Plus),
        getExprComponent(&m, 3),
    ]);
    let expected = OperatorExpr::binaryExpr(getExpr(&m, 1), Operator::Plus, getExpr(&m, 3));
    checkEq(expected, expr);
}

#[test]
fn testAdditionMultiple() {
    // a + b + c
    let m = getModule();
    let expr = OperatorExpr::getFromInfix(vec![
        getExprComponent(&m, 1),
        getOperatorComponent(&m, 2, Operator::Plus),
        getExprComponent(&m, 3),
        getOperatorComponent(&m, 4, Operator::Plus),
        getExprComponent(&m, 5),
    ]);
    let expected = OperatorExpr::binaryExpr(
        boxed(OperatorExpr::binaryExpr(getExpr(&m, 1), Operator::Plus, getExpr(&m, 3))),
        Operator::Plus,
        getExpr(&m, 5),
    );
    checkEq(expected, expr);
}

#[test]
fn testAdditionDivision() {
    // a / b + c
    let m = getModule();
    let expr = OperatorExpr::getFromInfix(vec![
        getExprComponent(&m, 0),
        getOperatorComponent(&m, 1, Operator::Div),
        getExprComponent(&m, 2),
        getOperatorComponent(&m, 3, Operator::Plus),
        getExprComponent(&m, 4),
    ]);
    let expected = OperatorExpr::binaryExpr(
        boxed(OperatorExpr::binaryExpr(getExpr(&m, 0), Operator::Div, getExpr(&m, 2))),
        Operator::Plus,
        getExpr(&m, 4),
    );
    checkEq(expected, expr);
}

#[test]
fn testAdditionDivisionPriority() {
    // a + b / c
    // a + (b / c)
    let m = getModule();
    let expr = OperatorExpr::getFromInfix(vec![
        getExprComponent(&m, 0),
        getOperatorComponent(&m, 1, Operator::Plus),
        getExprComponent(&m, 2),
        getOperatorComponent(&m, 3, Operator::Div),
        getExprComponent(&m, 4),
    ]);
    let expected = OperatorExpr::binaryExpr(
        getExpr(&m, 0),
        Operator::Plus,
        boxed(OperatorExpr::binaryExpr(getExpr(&m, 2), Operator::Div, getExpr(&m, 4))),
    );
    checkEq(expected, expr);
}

#[test]
fn testIncrement() {
    // a++
    let m = getModule();
    let expr = OperatorExpr::getFromInfix(vec![
        getExprComponent(&m, 1),
        getOperatorComponent(&m, 2, Operator::Increment),
    ]);
    let expected = OperatorExpr::unaryOperator(getExpr(&m, 1), Operator::Increment, getPosIndex(&m, 2).getRangeWithLength(1));
    checkEq(expected, expr);
}

#[test]
fn testIncrementDivision() {
    // a++ / b
    // (a++) / b
    let m = getModule();
    let expr = OperatorExpr::getFromInfix(vec![
        getExprComponent(&m, 0),
        getOperatorComponent(&m, 1, Operator::Increment),
        getOperatorComponent(&m, 2, Operator::Div),
        getExprComponent(&m, 3),
    ]);
    let expected = OperatorExpr::binaryExpr(
        boxed(OperatorExpr::unaryOperator(getExpr(&m, 0), Operator::Increment, getPosIndex(&m, 1).getRangeWithLength(1))),
        Operator::Div,
        getExpr(&m, 3),
    );
    checkEq(expected, expr);
}

#[test]
fn testPlusIncrementDivision() {
    // a + b++ / c
    // a + ((b++) / c)
    let m = getModule();
    let expr = OperatorExpr::getFromInfix(vec![
        getExprComponent(&m, 0),
        getOperatorComponent(&m, 1, Operator::Plus),
        getExprComponent(&m, 2),
        getOperatorComponent(&m, 3, Operator::Increment),
        getOperatorComponent(&m, 4, Operator::Div),
        getExprComponent(&m, 5),
    ]);
    let expected = OperatorExpr::binaryExpr(
        getExpr(&m, 0),
        Operator::Plus,
        boxed(OperatorExpr::binaryExpr(
            boxed(OperatorExpr::unaryOperator(getExpr(&m, 2), Operator::Increment, getPosIndex(&m, 3).getRangeWithLength(1))),
            Operator::Div,
            getExpr(&m, 5),
        )),
    );
    checkEq(expected, expr);
}

#[test]
fn testInvalidNoOperators() {
    // a
    let m = getModule();
    let expr = OperatorExpr::getFromInfix(vec![getExprComponent(&m, 1)]);
    assert!(expr.is_err());
}

#[test]
fn testInvalidMultiNoOperators() {
    // a b
    let m = getModule();
    let expr = OperatorExpr::getFromInfix(vec![getExprComponent(&m, 1), getExprComponent(&m, 2)]);
    assert!(expr.is_err());
}

#[test]
fn testInvalidNoOperands() {
    // +
    let m = getModule();
    let expr = OperatorExpr::getFromInfix(vec![getExprComponent(&m, 1)]);
    assert!(expr.is_err());
}

#[test]
fn testInvalidMultiNoOperands() {
    // + +
    let m = getModule();
    let expr = OperatorExpr::getFromInfix(vec![
        getOperatorComponent(&m, 1, Operator::Plus),
        getOperatorComponent(&m, 2, Operator::Plus),
    ]);
    assert!(expr.is_err());
}

#[test]
fn testInvalidBinary() {
    // a +
    let m = getModule();
    let expr = OperatorExpr::getFromInfix(vec![getExprComponent(&m, 1), getOperatorComponent(&m, 2, Operator::Plus)]);
    assert!(expr.is_err());
}

#[test]
fn testInvalidUnary() {
    let m = getModule();
    let expr = OperatorExpr::getFromInfix(vec![getOperatorComponent(&m, 0, Operator::Increment)]);
    assert!(expr.is_err());
}

#[test]
fn testPartialInvalidUnary() {
    let m = getModule();
    let expected = OperatorExpr::unaryOperator(getExpr(&m, 1), Operator::Increment, getPosIndex(&m, 2).getRangeWithLength(1));
    // a ++ b
    let expr = OperatorExpr::getFromInfix(vec![
        getExprComponent(&m, 1),
        getOperatorComponent(&m, 2, Operator::Increment),
        getExprComponent(&m, 3),
    ]);
    checkEq(expected, expr);
}

#[test]
fn sameBindingGroupsFromTheLeft() {
    // a - b + c reads as (a - b) + c
    let m = getModule();
    let expr = OperatorExpr::getFromInfix(vec![
        getExprComponent(&m, 0),
        getOperatorComponent(&m, 1, Operator::Minus),
        getExprComponent(&m, 2),
        getOperatorComponent(&m, 3, Operator::Plus),
        getExprComponent(&m, 4),
    ]);
    let expected = OperatorExpr::binaryExpr(
        boxed(OperatorExpr::binaryExpr(getExpr(&m, 0), Operator::Minus, getExpr(&m, 2))),
        Operator::Plus,
        getExpr(&m, 4),
    );
    checkEq(expected, expr);
}

#[test]
fn componentDescriptions() {
    let m = getModule();
    assert_eq!(getOperatorComponent(&m, 1, Operator::Mult).describe(), "*");
    assert_eq!(getExprComponent(&m, 7).describe(), "7");
}

fn leafStarts(expr: &Expr, out: &mut Vec<usize>) {
    match expr {
        Expr::Operator(oe) => {
            for operand in oe.operands.iter() {
                leafStarts(operand, out);
            }
        }
        Expr::LiteralInteger(literal) => out.push(literal.range.getStartIndex()),
        _ => panic!("unexpected leaf"),
    }
}

#[test]
fn leavesFollowTheComponents() {
    // a + b * c - d: the operands come out once each, left to right
    let m = getModule();
    let expr = OperatorExpr::getFromInfix(vec![
        getExprComponent(&m, 0),
        getOperatorComponent(&m, 1, Operator::Plus),
        getExprComponent(&m, 2),
        getOperatorComponent(&m, 3, Operator::Mult),
        getExprComponent(&m, 4),
        getOperatorComponent(&m, 5, Operator::Minus),
        getExprComponent(&m, 6),
    ])
    .ok()
    .unwrap();
    let mut starts = Vec::new();
    leafStarts(&Expr::Operator(expr), &mut starts);
    assert_eq!(starts, vec![0, 2, 4, 6]);
}
