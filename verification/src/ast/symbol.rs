//! The symbols of the syntax tree.
use vstd::prelude::*;

use crate::ast::operatorexpr::OperatorExpr;
use crate::module::{FileRange, Keyword, ModulePos, ModuleRange};

verus! {

/// Something that covers a range of tokens.
pub trait SymbolType {
    spec fn spec_range(&self) -> ModuleRange;

    fn getRange(&self) -> (range: &ModuleRange)
        ensures
            *range == self.spec_range(),
    ;
}

/// An expression symbol.
pub trait ExprType: SymbolType {
}

/// A literal expression.
pub trait LiteralType: ExprType {
}

/// A loop, which may carry a label.
pub trait LoopType: SymbolType {
    spec fn spec_label(&self) -> Option<Label>;

    fn getLabel(&self) -> (label: Option<&Label>)
        ensures
            label.is_some() == self.spec_label().is_some(),
            label.is_some() ==> *label.unwrap() == self.spec_label().unwrap(),
    ;
}

#[derive(Debug, Clone, Copy, PartialEq, Eq, Structural)]
pub enum Visibility {
    Public,
    Private,
    Protected,
}

pub open spec fn spec_visibility_from_keyword(keyword: Keyword) -> Option<Visibility> {
    match keyword {
        Keyword::Public => Some(Visibility::Public),
        Keyword::Private => Some(Visibility::Private),
        Keyword::Protected => Some(Visibility::Protected),
        _ => None,
    }
}

impl Visibility {
    pub fn fromKeyword(keyword: Keyword) -> (visibility: Option<Visibility>)
        ensures
            visibility == spec_visibility_from_keyword(keyword),
    {
        match keyword {
            Keyword::Public => Some(Visibility::Public),
            Keyword::Private => Some(Visibility::Private),
            Keyword::Protected => Some(Visibility::Protected),
            _ => None,
        }
    }
}

/// The name given to a loop.
#[derive(Debug)]
pub struct Label {
    pub identifier: ModulePos,
}

#[derive(Debug)]
pub struct BlockSym {
    pub range: ModuleRange,
    pub symbolVec: Vec<Symbol>,
}

#[derive(Debug)]
pub struct BreakSym {
    pub range: ModuleRange,
    pub label: Option<Label>,
}

#[derive(Debug)]
pub struct ContinueSym {
    pub range: ModuleRange,
    pub label: Option<Label>,
}

#[derive(Debug)]
pub struct ClassFieldDefinition {
    pub name: ModulePos,
    pub visibility: Visibility,
    // typeName or defaultValue (or both) is present
    pub typeName: Option<ModulePos>,
    pub defaultValue: Option<Expr>,
}

#[derive(Debug)]
pub struct ClassStaticFieldDefinition {
    pub name: ModulePos,
    pub typeName: Option<ModulePos>,
    pub visibility: Visibility,
    pub defaultValue: Option<Expr>,
}

#[derive(Debug)]
pub enum ClassMember {
    FieldDefinition(ClassFieldDefinition),
    FunctionDefinition(FunctionDefinitionSym),
    StaticFieldDefinition(ClassStaticFieldDefinition),
}

#[derive(Debug, Clone, Copy, PartialEq, Eq, Structural)]
pub enum ClassMemberDiscriminants {
    FieldDefinition,
    FunctionDefinition,
    StaticFieldDefinition,
}

#[derive(Debug)]
pub struct ClassDefinitionSym {
    pub visibility: Visibility,
    pub range: ModuleRange,
    pub name: ModulePos,
    pub fields: Vec<ClassFieldDefinition>,
    pub staticFields: Vec<ClassStaticFieldDefinition>,
    pub methods: Vec<FunctionDefinitionSym>,
    pub inherited: Vec<ModulePos>,
}

#[derive(Debug)]
pub struct FunctionParameter {
    pub typeName: ModulePos,
    pub parameterName: ModulePos,
    pub defaultExpr: Option<Expr>,
}

#[derive(Debug, Clone, Copy, PartialEq, Eq, Structural)]
pub enum FunctionAttribute {
    Static,
}

pub open spec fn spec_attribute_from_keyword(keyword: Keyword) -> Option<FunctionAttribute> {
    match keyword {
        Keyword::Static => Some(FunctionAttribute::Static),
        _ => None,
    }
}

impl FunctionAttribute {
    pub fn fromKeyword(keyword: Keyword) -> (attribute: Option<FunctionAttribute>)
        ensures
            attribute == spec_attribute_from_keyword(keyword),
    {
        match keyword {
            Keyword::Static => Some(FunctionAttribute::Static),
            _ => None,
        }
    }
}

#[derive(Debug)]
pub struct FunctionDefinitionSym {
    pub range: ModuleRange,
    pub attributeVec: Vec<FunctionAttribute>,
    pub returnType: ModulePos,
    pub functionName: ModulePos,
    pub parameters: Vec<FunctionParameter>,
    pub functionBlock: BlockSym,
    pub visibility: Visibility,
}

#[derive(Debug)]
pub struct ElseSym {
    pub symbol: Symbol,
}

#[derive(Debug)]
pub struct IfSym {
    pub symbol: Box<Symbol>,
    pub condition: Expr,
    pub range: ModuleRange,
    pub elseExpr: Option<Box<ElseSym>>,
}

#[derive(Debug)]
pub struct ImportSym {
    pub range: ModuleRange,
    pub packageName: ModulePos,
    pub localName: Option<ModulePos>,
}

#[derive(Debug)]
pub struct WhileLoop {
    pub range: ModuleRange,
    pub condition: Expr,
    pub symbol: Box<Symbol>,
    pub label: Option<Label>,
}

#[derive(Debug)]
pub struct Loop {
    pub range: ModuleRange,
    pub label: Option<Label>,
}

#[derive(Debug)]
pub struct ForLoop {
    pub range: ModuleRange,
    pub label: Option<Label>,
}

#[derive(Debug)]
pub struct ReturnSym {
    pub range: ModuleRange,
    pub value: Option<Expr>,
}

#[derive(Debug)]
pub struct PrintSym {
    pub range: ModuleRange,
    pub expr: Expr,
}

#[derive(Debug)]
pub struct ConstructorCallExpr {
    pub range: ModuleRange,
    pub typeName: ModulePos,
    pub argVec: Vec<Expr>,
}

#[derive(Debug)]
pub struct FunctionCallExpr {
    pub range: ModuleRange,
    pub functionName: ModulePos,
    pub argVec: Vec<Expr>,
}

#[derive(Debug)]
pub struct MemberAccessExpr {
    pub range: ModuleRange,
    pub structureName: Expr,
    pub variable: VariableExpr,
}

#[derive(Debug)]
pub struct MethodCallExpr {
    pub range: ModuleRange,
    pub structureName: Expr,
    pub functionCall: FunctionCallExpr,
}

#[derive(Debug)]
pub struct ParenthesisExpr {
    pub range: ModuleRange,
    pub expression: Expr,
}

#[derive(Debug)]
pub struct ReadExpr {
    pub range: ModuleRange,
}

#[derive(Debug)]
pub struct VariableDeclarationExpr {
    pub range: ModuleRange,
    pub variableName: ModulePos,
    pub explicitType: Option<ModulePos>,
}

#[derive(Debug)]
pub struct VariableExpr {
    pub range: ModuleRange,
}

#[derive(Debug)]
pub struct LiteralArray {
    pub range: ModuleRange,
    pub exprVec: Vec<Expr>,
}

#[derive(Debug)]
pub struct LiteralBool {
    pub range: ModuleRange,
    pub value: bool,
}

impl LiteralBool {
    pub fn new(range: ModuleRange, value: bool) -> (literal: Self)
        ensures
            literal.range == range,
            literal.value == value,
    {
        LiteralBool { range, value }
    }
}

#[derive(Debug)]
pub struct LiteralChar {
    pub range: ModuleRange,
    pub value: u32,
}

#[derive(Debug)]
pub struct LiteralFixed {
    pub range: ModuleRange,
}

/// A floating point literal; its value is the number written in the token's source.
#[derive(Debug)]
pub struct LiteralFloat {
    pub range: ModuleRange,
}

#[derive(Debug)]
pub struct LiteralInteger {
    pub range: ModuleRange,
    pub value: i64,
}

#[derive(Debug)]
pub struct LiteralString {
    pub range: ModuleRange,
    pub fileRange: FileRange,
}

#[derive(Debug)]
pub struct LiteralTuple {
    pub range: ModuleRange,
    pub exprVec: Vec<Expr>,
}

#[derive(Debug)]
pub struct LiteralVoid {
    pub range: ModuleRange,
}

#[derive(Debug)]
pub enum Expr {
    ConstructorCall(ConstructorCallExpr),
    FunctionCall(FunctionCallExpr),
    Operator(OperatorExpr),
    VariableDeclaration(VariableDeclarationExpr),
    Variable(VariableExpr),
    LiteralArray(LiteralArray),
    LiteralBool(LiteralBool),
    LiteralChar(LiteralChar),
    LiteralFloat(LiteralFloat),
    LiteralInteger(LiteralInteger),
    LiteralString(LiteralString),
    LiteralVoid(LiteralVoid),
    LiteralTuple(LiteralTuple),
}

#[derive(Debug)]
pub enum Symbol {
    // common symbols
    Block(BlockSym),
    // control flow
    Break(BreakSym),
    Continue(ContinueSym),
    While(WhileLoop),
    Return(ReturnSym),
    IfSym(IfSym),
    // structures
    ClassDefinition(ClassDefinitionSym),
    FunctionDefinition(FunctionDefinitionSym),
    ImportSym(ImportSym),
    // expressions
    Expr(Expr),
}

#[derive(Debug, Clone, Copy, PartialEq, Eq, Structural)]
pub enum SymbolDiscriminants {
    Block,
    Break,
    Continue,
    While,
    Return,
    IfSym,
    ClassDefinition,
    FunctionDefinition,
    ImportSym,
    ConstructorCall,
    FunctionCall,
    Operator,
    VariableDeclaration,
    Variable,
    LiteralArray,
    LiteralBool,
    LiteralChar,
    LiteralFloat,
    LiteralInteger,
    LiteralString,
    LiteralVoid,
    LiteralTuple,
}

impl Expr {
    pub open spec fn spec_range(&self) -> ModuleRange {
        match self {
            Expr::ConstructorCall(v) => v.range,
            Expr::FunctionCall(v) => v.range,
            Expr::Operator(v) => v.range,
            Expr::VariableDeclaration(v) => v.range,
            Expr::Variable(v) => v.range,
            Expr::LiteralArray(v) => v.range,
            Expr::LiteralBool(v) => v.range,
            Expr::LiteralChar(v) => v.range,
            Expr::LiteralFloat(v) => v.range,
            Expr::LiteralInteger(v) => v.range,
            Expr::LiteralString(v) => v.range,
            Expr::LiteralVoid(v) => v.range,
            Expr::LiteralTuple(v) => v.range,
        }
    }

    pub fn getRange(&self) -> (range: &ModuleRange)
        ensures
            *range == self.spec_range(),
    {
        match self {
            Expr::ConstructorCall(v) => &v.range,
            Expr::FunctionCall(v) => &v.range,
            Expr::Operator(v) => &v.range,
            Expr::VariableDeclaration(v) => &v.range,
            Expr::Variable(v) => &v.range,
            Expr::LiteralArray(v) => &v.range,
            Expr::LiteralBool(v) => &v.range,
            Expr::LiteralChar(v) => &v.range,
            Expr::LiteralFloat(v) => &v.range,
            Expr::LiteralInteger(v) => &v.range,
            Expr::LiteralString(v) => &v.range,
            Expr::LiteralVoid(v) => &v.range,
            Expr::LiteralTuple(v) => &v.range,
        }
    }

    pub fn toSymbol(self) -> (symbol: Symbol)
        ensures
            symbol == Symbol::Expr(self),
    {
        Symbol::Expr(self)
    }
}

impl Symbol {
    pub open spec fn spec_range(&self) -> ModuleRange {
        match self {
            Symbol::Block(v) => v.range,
            Symbol::Break(v) => v.range,
            Symbol::Continue(v) => v.range,
            Symbol::While(v) => v.range,
            Symbol::Return(v) => v.range,
            Symbol::IfSym(v) => v.range,
            Symbol::ClassDefinition(v) => v.range,
            Symbol::FunctionDefinition(v) => v.range,
            Symbol::ImportSym(v) => v.range,
            Symbol::Expr(e) => e.spec_range(),
        }
    }

    pub fn getRange(&self) -> (range: &ModuleRange)
        ensures
            *range == self.spec_range(),
    {
        match self {
            Symbol::Block(v) => &v.range,
            Symbol::Break(v) => &v.range,
            Symbol::Continue(v) => &v.range,
            Symbol::While(v) => &v.range,
            Symbol::Return(v) => &v.range,
            Symbol::IfSym(v) => &v.range,
            Symbol::ClassDefinition(v) => &v.range,
            Symbol::FunctionDefinition(v) => &v.range,
            Symbol::ImportSym(v) => &v.range,
            Symbol::Expr(e) => e.getRange(),
        }
    }

    /// The expression this symbol is, if it is one.
    pub fn getExpression(&self) -> (expr: Option<&Expr>)
        ensures
            match self {
                Symbol::Expr(e) => expr == Some(e),
                _ => expr.is_none(),
            },
    {
        if let Symbol::Expr(expr) = self {
            Some(expr)
        } else {
            None
        }
    }

    pub fn toExpression(self) -> (expr: Option<Expr>)
        ensures
            match self {
                Symbol::Expr(e) => expr == Some(e),
                _ => expr.is_none(),
            },
    {
        if let Symbol::Expr(expr) = self {
            Some(expr)
        } else {
            None
        }
    }
}

pub open spec fn spec_symbol_discriminant(symbol: Symbol) -> SymbolDiscriminants {
    match symbol {
        Symbol::Block(_) => SymbolDiscriminants::Block,
        Symbol::Break(_) => SymbolDiscriminants::Break,
        Symbol::Continue(_) => SymbolDiscriminants::Continue,
        Symbol::While(_) => SymbolDiscriminants::While,
        Symbol::Return(_) => SymbolDiscriminants::Return,
        Symbol::IfSym(_) => SymbolDiscriminants::IfSym,
        Symbol::ClassDefinition(_) => SymbolDiscriminants::ClassDefinition,
        Symbol::FunctionDefinition(_) => SymbolDiscriminants::FunctionDefinition,
        Symbol::ImportSym(_) => SymbolDiscriminants::ImportSym,
        Symbol::Expr(expr) => match expr {
            Expr::ConstructorCall(_) => SymbolDiscriminants::ConstructorCall,
            Expr::FunctionCall(_) => SymbolDiscriminants::FunctionCall,
            Expr::Operator(_) => SymbolDiscriminants::Operator,
            Expr::VariableDeclaration(_) => SymbolDiscriminants::VariableDeclaration,
            Expr::Variable(_) => SymbolDiscriminants::Variable,
            Expr::LiteralArray(_) => SymbolDiscriminants::LiteralArray,
            Expr::LiteralBool(_) => SymbolDiscriminants::LiteralBool,
            Expr::LiteralChar(_) => SymbolDiscriminants::LiteralChar,
            Expr::LiteralFloat(_) => SymbolDiscriminants::LiteralFloat,
            Expr::LiteralInteger(_) => SymbolDiscriminants::LiteralInteger,
            Expr::LiteralString(_) => SymbolDiscriminants::LiteralString,
            Expr::LiteralVoid(_) => SymbolDiscriminants::LiteralVoid,
            Expr::LiteralTuple(_) => SymbolDiscriminants::LiteralTuple,
        },
    }
}

impl SymbolDiscriminants {
    /// The discriminant of a symbol.
    pub fn fromSymbol(value: &Symbol) -> (discriminant: SymbolDiscriminants)
        ensures
            discriminant == spec_symbol_discriminant(*value),
    {
        match value {
            Symbol::Block(_) => SymbolDiscriminants::Block,
            Symbol::Break(_) => SymbolDiscriminants::Break,
            Symbol::Continue(_) => SymbolDiscriminants::Continue,
            Symbol::While(_) => SymbolDiscriminants::While,
            Symbol::Return(_) => SymbolDiscriminants::Return,
            Symbol::IfSym(_) => SymbolDiscriminants::IfSym,
            Symbol::ClassDefinition(_) => SymbolDiscriminants::ClassDefinition,
            Symbol::FunctionDefinition(_) => SymbolDiscriminants::FunctionDefinition,
            Symbol::ImportSym(_) => SymbolDiscriminants::ImportSym,
            Symbol::Expr(expr) => match expr {
                Expr::ConstructorCall(_) => SymbolDiscriminants::ConstructorCall,
                Expr::FunctionCall(_) => SymbolDiscriminants::FunctionCall,
                Expr::Operator(_) => SymbolDiscriminants::Operator,
                Expr::VariableDeclaration(_) => SymbolDiscriminants::VariableDeclaration,
                Expr::Variable(_) => SymbolDiscriminants::Variable,
                Expr::LiteralArray(_) => SymbolDiscriminants::LiteralArray,
                Expr::LiteralBool(_) => SymbolDiscriminants::LiteralBool,
                Expr::LiteralChar(_) => SymbolDiscriminants::LiteralChar,
                Expr::LiteralFloat(_) => SymbolDiscriminants::LiteralFloat,
                Expr::LiteralInteger(_) => SymbolDiscriminants::LiteralInteger,
                Expr::LiteralString(_) => SymbolDiscriminants::LiteralString,
                Expr::LiteralVoid(_) => SymbolDiscriminants::LiteralVoid,
                Expr::LiteralTuple(_) => SymbolDiscriminants::LiteralTuple,
            },
        }
    }
}

pub open spec fn spec_class_member_discriminant(member: ClassMember) -> ClassMemberDiscriminants {
    match member {
        ClassMember::FieldDefinition(_) => ClassMemberDiscriminants::FieldDefinition,
        ClassMember::FunctionDefinition(_) => ClassMemberDiscriminants::FunctionDefinition,
        ClassMember::StaticFieldDefinition(_) => ClassMemberDiscriminants::StaticFieldDefinition,
    }
}

impl ClassMemberDiscriminants {
    /// The discriminant of a class member.
    pub fn fromMember(value: &ClassMember) -> (discriminant: ClassMemberDiscriminants)
        ensures
            discriminant == spec_class_member_discriminant(*value),
    {
        match value {
            ClassMember::FieldDefinition(_) => ClassMemberDiscriminants::FieldDefinition,
            ClassMember::FunctionDefinition(_) => ClassMemberDiscriminants::FunctionDefinition,
            ClassMember::StaticFieldDefinition(_) => ClassMemberDiscriminants::StaticFieldDefinition,
        }
    }
}


impl SymbolType for BlockSym {
    open spec fn spec_range(&self) -> ModuleRange {
        self.range
    }

    fn getRange(&self) -> (range: &ModuleRange) {
        &self.range
    }
}

impl SymbolType for BreakSym {
    open spec fn spec_range(&self) -> ModuleRange {
        self.range
    }

    fn getRange(&self) -> (range: &ModuleRange) {
        &self.range
    }
}

impl SymbolType for ContinueSym {
    open spec fn spec_range(&self) -> ModuleRange {
        self.range
    }

    fn getRange(&self) -> (range: &ModuleRange) {
        &self.range
    }
}

impl SymbolType for ClassDefinitionSym {
    open spec fn spec_range(&self) -> ModuleRange {
        self.range
    }

    fn getRange(&self) -> (range: &ModuleRange) {
        &self.range
    }
}

impl SymbolType for FunctionDefinitionSym {
    open spec fn spec_range(&self) -> ModuleRange {
        self.range
    }

    fn getRange(&self) -> (range: &ModuleRange) {
        &self.range
    }
}

impl SymbolType for IfSym {
    open spec fn spec_range(&self) -> ModuleRange {
        self.range
    }

    fn getRange(&self) -> (range: &ModuleRange) {
        &self.range
    }
}

impl SymbolType for ImportSym {
    open spec fn spec_range(&self) -> ModuleRange {
        self.range
    }

    fn getRange(&self) -> (range: &ModuleRange) {
        &self.range
    }
}

impl SymbolType for WhileLoop {
    open spec fn spec_range(&self) -> ModuleRange {
        self.range
    }

    fn getRange(&self) -> (range: &ModuleRange) {
        &self.range
    }
}

impl SymbolType for Loop {
    open spec fn spec_range(&self) -> ModuleRange {
        self.range
    }

    fn getRange(&self) -> (range: &ModuleRange) {
        &self.range
    }
}

impl SymbolType for ForLoop {
    open spec fn spec_range(&self) -> ModuleRange {
        self.range
    }

    fn getRange(&self) -> (range: &ModuleRange) {
        &self.range
    }
}

impl SymbolType for ReturnSym {
    open spec fn spec_range(&self) -> ModuleRange {
        self.range
    }

    fn getRange(&self) -> (range: &ModuleRange) {
        &self.range
    }
}

impl SymbolType for PrintSym {
    open spec fn spec_range(&self) -> ModuleRange {
        self.range
    }

    fn getRange(&self) -> (range: &ModuleRange) {
        &self.range
    }
}

impl SymbolType for ConstructorCallExpr {
    open spec fn spec_range(&self) -> ModuleRange {
        self.range
    }

    fn getRange(&self) -> (range: &ModuleRange) {
        &self.range
    }
}

impl SymbolType for FunctionCallExpr {
    open spec fn spec_range(&self) -> ModuleRange {
        self.range
    }

    fn getRange(&self) -> (range: &ModuleRange) {
        &self.range
    }
}

impl SymbolType for MemberAccessExpr {
    open spec fn spec_range(&self) -> ModuleRange {
        self.range
    }

    fn getRange(&self) -> (range: &ModuleRange) {
        &self.range
    }
}

impl SymbolType for MethodCallExpr {
    open spec fn spec_range(&self) -> ModuleRange {
        self.range
    }

    fn getRange(&self) -> (range: &ModuleRange) {
        &self.range
    }
}

impl SymbolType for ParenthesisExpr {
    open spec fn spec_range(&self) -> ModuleRange {
        self.range
    }

    fn getRange(&self) -> (range: &ModuleRange) {
        &self.range
    }
}

impl SymbolType for ReadExpr {
    open spec fn spec_range(&self) -> ModuleRange {
        self.range
    }

    fn getRange(&self) -> (range: &ModuleRange) {
        &self.range
    }
}

impl SymbolType for VariableDeclarationExpr {
    open spec fn spec_range(&self) -> ModuleRange {
        self.range
    }

    fn getRange(&self) -> (range: &ModuleRange) {
        &self.range
    }
}

impl SymbolType for VariableExpr {
    open spec fn spec_range(&self) -> ModuleRange {
        self.range
    }

    fn getRange(&self) -> (range: &ModuleRange) {
        &self.range
    }
}

impl SymbolType for LiteralArray {
    open spec fn spec_range(&self) -> ModuleRange {
        self.range
    }

    fn getRange(&self) -> (range: &ModuleRange) {
        &self.range
    }
}

impl SymbolType for LiteralBool {
    open spec fn spec_range(&self) -> ModuleRange {
        self.range
    }

    fn getRange(&self) -> (range: &ModuleRange) {
        &self.range
    }
}

impl SymbolType for LiteralChar {
    open spec fn spec_range(&self) -> ModuleRange {
        self.range
    }

    fn getRange(&self) -> (range: &ModuleRange) {
        &self.range
    }
}

impl SymbolType for LiteralFixed {
    open spec fn spec_range(&self) -> ModuleRange {
        self.range
    }

    fn getRange(&self) -> (range: &ModuleRange) {
        &self.range
    }
}

impl SymbolType for LiteralFloat {
    open spec fn spec_range(&self) -> ModuleRange {
        self.range
    }

    fn getRange(&self) -> (range: &ModuleRange) {
        &self.range
    }
}

impl SymbolType for LiteralInteger {
    open spec fn spec_range(&self) -> ModuleRange {
        self.range
    }

    fn getRange(&self) -> (range: &ModuleRange) {
        &self.range
    }
}

impl SymbolType for LiteralString {
    open spec fn spec_range(&self) -> ModuleRange {
        self.range
    }

    fn getRange(&self) -> (range: &ModuleRange) {
        &self.range
    }
}

impl SymbolType for LiteralTuple {
    open spec fn spec_range(&self) -> ModuleRange {
        self.range
    }

    fn getRange(&self) -> (range: &ModuleRange) {
        &self.range
    }
}

impl SymbolType for LiteralVoid {
    open spec fn spec_range(&self) -> ModuleRange {
        self.range
    }

    fn getRange(&self) -> (range: &ModuleRange) {
        &self.range
    }
}

impl ExprType for ConstructorCallExpr {}

impl ExprType for FunctionCallExpr {}

impl ExprType for MemberAccessExpr {}

impl ExprType for MethodCallExpr {}

impl ExprType for ParenthesisExpr {}

impl ExprType for ReadExpr {}

impl ExprType for VariableDeclarationExpr {}

impl ExprType for VariableExpr {}

impl ExprType for LiteralArray {}

impl ExprType for LiteralBool {}

impl ExprType for LiteralChar {}

impl ExprType for LiteralFixed {}

impl ExprType for LiteralFloat {}

impl ExprType for LiteralInteger {}

impl ExprType for LiteralString {}

impl ExprType for LiteralTuple {}

impl ExprType for LiteralVoid {}

impl LiteralType for LiteralArray {}

impl LiteralType for LiteralBool {}

impl LiteralType for LiteralChar {}

impl LiteralType for LiteralFixed {}

impl LiteralType for LiteralFloat {}

impl LiteralType for LiteralInteger {}

impl LiteralType for LiteralString {}

impl LiteralType for LiteralTuple {}

impl LiteralType for LiteralVoid {}

impl LoopType for WhileLoop {
    open spec fn spec_label(&self) -> Option<Label> {
        self.label
    }

    fn getLabel(&self) -> (label: Option<&Label>) {
        self.label.as_ref()
    }
}

impl LoopType for Loop {
    open spec fn spec_label(&self) -> Option<Label> {
        self.label
    }

    fn getLabel(&self) -> (label: Option<&Label>) {
        self.label.as_ref()
    }
}

impl LoopType for ForLoop {
    open spec fn spec_label(&self) -> Option<Label> {
        self.label
    }

    fn getLabel(&self) -> (label: Option<&Label>) {
        self.label.as_ref()
    }
}

impl SymbolDiscriminants {
    pub open spec fn spec_name(self) -> Seq<char> {
        match self {
            SymbolDiscriminants::Block => "Block"@,
            SymbolDiscriminants::Break => "Break"@,
            SymbolDiscriminants::Continue => "Continue"@,
            SymbolDiscriminants::While => "While"@,
            SymbolDiscriminants::Return => "Return"@,
            SymbolDiscriminants::IfSym => "IfSym"@,
            SymbolDiscriminants::ClassDefinition => "ClassDefinition"@,
            SymbolDiscriminants::FunctionDefinition => "FunctionDefinition"@,
            SymbolDiscriminants::ImportSym => "ImportSym"@,
            SymbolDiscriminants::ConstructorCall => "ConstructorCall"@,
            SymbolDiscriminants::FunctionCall => "FunctionCall"@,
            SymbolDiscriminants::Operator => "Operator"@,
            SymbolDiscriminants::VariableDeclaration => "VariableDeclaration"@,
            SymbolDiscriminants::Variable => "Variable"@,
            SymbolDiscriminants::LiteralArray => "LiteralArray"@,
            SymbolDiscriminants::LiteralBool => "LiteralBool"@,
            SymbolDiscriminants::LiteralChar => "LiteralChar"@,
            SymbolDiscriminants::LiteralFloat => "LiteralFloat"@,
            SymbolDiscriminants::LiteralInteger => "LiteralInteger"@,
            SymbolDiscriminants::LiteralString => "LiteralString"@,
            SymbolDiscriminants::LiteralVoid => "LiteralVoid"@,
            SymbolDiscriminants::LiteralTuple => "LiteralTuple"@,
        }
    }

    /// The variant's name.
    pub fn getName(self) -> (name: &'static str)
        ensures
            name@ == self.spec_name(),
    {
        match self {
            SymbolDiscriminants::Block => "Block",
            SymbolDiscriminants::Break => "Break",
            SymbolDiscriminants::Continue => "Continue",
            SymbolDiscriminants::While => "While",
            SymbolDiscriminants::Return => "Return",
            SymbolDiscriminants::IfSym => "IfSym",
            SymbolDiscriminants::ClassDefinition => "ClassDefinition",
            SymbolDiscriminants::FunctionDefinition => "FunctionDefinition",
            SymbolDiscriminants::ImportSym => "ImportSym",
            SymbolDiscriminants::ConstructorCall => "ConstructorCall",
            SymbolDiscriminants::FunctionCall => "FunctionCall",
            SymbolDiscriminants::Operator => "Operator",
            SymbolDiscriminants::VariableDeclaration => "VariableDeclaration",
            SymbolDiscriminants::Variable => "Variable",
            SymbolDiscriminants::LiteralArray => "LiteralArray",
            SymbolDiscriminants::LiteralBool => "LiteralBool",
            SymbolDiscriminants::LiteralChar => "LiteralChar",
            SymbolDiscriminants::LiteralFloat => "LiteralFloat",
            SymbolDiscriminants::LiteralInteger => "LiteralInteger",
            SymbolDiscriminants::LiteralString => "LiteralString",
            SymbolDiscriminants::LiteralVoid => "LiteralVoid",
            SymbolDiscriminants::LiteralTuple => "LiteralTuple",
        }
    }
}

impl ClassMemberDiscriminants {
    pub open spec fn spec_name(self) -> Seq<char> {
        match self {
            ClassMemberDiscriminants::FieldDefinition => "FieldDefinition"@,
            ClassMemberDiscriminants::FunctionDefinition => "FunctionDefinition"@,
            ClassMemberDiscriminants::StaticFieldDefinition => "StaticFieldDefinition"@,
        }
    }

    /// The variant's name.
    pub fn getName(self) -> (name: &'static str)
        ensures
            name@ == self.spec_name(),
    {
        match self {
            ClassMemberDiscriminants::FieldDefinition => "FieldDefinition",
            ClassMemberDiscriminants::FunctionDefinition => "FunctionDefinition",
            ClassMemberDiscriminants::StaticFieldDefinition => "StaticFieldDefinition",
        }
    }
}

} // verus!
