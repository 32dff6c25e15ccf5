//! Tokens, token modules and positions inside a module.
//!
//! A module is an immutable sequence of tokens. Bracketed groups are single
//! tokens that own a nested module, so the token structure is a tree.
use std::ops::Range;
use std::rc::Rc;

use vstd::prelude::*;
use vstd::string::StringExecFns;

use crate::text::{decimalText, spec_decimal};

verus! {

/// Reserved words of the language.
#[derive(Debug, Clone, Copy, PartialEq, Eq, Structural)]
pub enum Keyword {
    Void,
    Break,
    Continue,
    Static,
    Class,
    Let,
    If,
    Else,
    While,
    Return,
    Import,
    As,
    New,
    True,
    False,
    Public,
    Private,
    Protected,
}

/// Operators of the language; each has a fixed number of operands and a
/// binding strength (a higher precedence binds tighter).
#[derive(Debug, Clone, Copy, PartialEq, Eq, Structural)]
pub enum Operator {
    Not,
    Plus,
    Minus,
    Mult,
    Div,
    Mod,
    And,
    Or,
    Greater,
    Less,
    GreaterEq,
    LessEq,
    CompareEq,
    CompareNotEq,
    Increment,
    Decrement,
    PlusAssign,
    MinusAssign,
    MultAssign,
    DivAssign,
    ModAssign,
    AssignEq,
    Cast,
    Dot,
    Range,
    Ellipsis,
    Colon,
    ErrorPropagation,
}

/// Number of operands an operator takes.
pub open spec fn spec_operands(operator: Operator) -> nat {
    match operator {
        Operator::Not | Operator::Increment | Operator::Decrement
        | Operator::ErrorPropagation => 1,
        _ => 2,
    }
}

/// Binding strength of an operator.
pub open spec fn spec_precedence(operator: Operator) -> nat {
    match operator {
        Operator::Dot => 12,
        Operator::Increment | Operator::Decrement | Operator::ErrorPropagation => 11,
        Operator::Not => 10,
        Operator::Cast => 9,
        Operator::Mult | Operator::Div | Operator::Mod => 8,
        Operator::Plus | Operator::Minus => 7,
        Operator::Range | Operator::Ellipsis => 6,
        Operator::Greater | Operator::Less | Operator::GreaterEq | Operator::LessEq => 5,
        Operator::CompareEq | Operator::CompareNotEq => 4,
        Operator::And => 3,
        Operator::Or => 2,
        Operator::PlusAssign | Operator::MinusAssign | Operator::MultAssign
        | Operator::DivAssign | Operator::ModAssign | Operator::AssignEq => 1,
        Operator::Colon => 0,
    }
}

/// Source spelling of an operator.
pub open spec fn spec_characters(operator: Operator) -> Seq<char> {
    match operator {
        Operator::Not => "!"@,
        Operator::Plus => "+"@,
        Operator::Minus => "-"@,
        Operator::Mult => "*"@,
        Operator::Div => "/"@,
        Operator::Mod => "%"@,
        Operator::And => "&&"@,
        Operator::Or => "||"@,
        Operator::Greater => ">"@,
        Operator::Less => "<"@,
        Operator::GreaterEq => ">="@,
        Operator::LessEq => "<="@,
        Operator::CompareEq => "=="@,
        Operator::CompareNotEq => "!="@,
        Operator::Increment => "++"@,
        Operator::Decrement => "--"@,
        Operator::PlusAssign => "+="@,
        Operator::MinusAssign => "-="@,
        Operator::MultAssign => "*="@,
        Operator::DivAssign => "/="@,
        Operator::ModAssign => "%="@,
        Operator::AssignEq => "="@,
        Operator::Cast => "as"@,
        Operator::Dot => "."@,
        Operator::Range => ".."@,
        Operator::Ellipsis => "..."@,
        Operator::Colon => ":"@,
        Operator::ErrorPropagation => "?"@,
    }
}

impl Operator {
    pub fn getOperands(self) -> (operands: usize)
        ensures
            operands == spec_operands(self),
            1 <= operands <= 2,
    {
        match self {
            Operator::Not | Operator::Increment | Operator::Decrement
            | Operator::ErrorPropagation => 1,
            _ => 2,
        }
    }

    pub fn getPrecedence(self) -> (precedence: u8)
        ensures
            precedence == spec_precedence(self),
    {
        match self {
            Operator::Dot => 12,
            Operator::Increment | Operator::Decrement | Operator::ErrorPropagation => 11,
            Operator::Not => 10,
            Operator::Cast => 9,
            Operator::Mult | Operator::Div | Operator::Mod => 8,
            Operator::Plus | Operator::Minus => 7,
            Operator::Range | Operator::Ellipsis => 6,
            Operator::Greater | Operator::Less | Operator::GreaterEq | Operator::LessEq => 5,
            Operator::CompareEq | Operator::CompareNotEq => 4,
            Operator::And => 3,
            Operator::Or => 2,
            Operator::PlusAssign | Operator::MinusAssign | Operator::MultAssign
            | Operator::DivAssign | Operator::ModAssign | Operator::AssignEq => 1,
            Operator::Colon => 0,
        }
    }

    pub fn getCharacters(self) -> (characters: &'static str)
        ensures
            characters@ == spec_characters(self),
    {
        match self {
            Operator::Not => "!",
            Operator::Plus => "+",
            Operator::Minus => "-",
            Operator::Mult => "*",
            Operator::Div => "/",
            Operator::Mod => "%",
            Operator::And => "&&",
            Operator::Or => "||",
            Operator::Greater => ">",
            Operator::Less => "<",
            Operator::GreaterEq => ">=",
            Operator::LessEq => "<=",
            Operator::CompareEq => "==",
            Operator::CompareNotEq => "!=",
            Operator::Increment => "++",
            Operator::Decrement => "--",
            Operator::PlusAssign => "+=",
            Operator::MinusAssign => "-=",
            Operator::MultAssign => "*=",
            Operator::DivAssign => "/=",
            Operator::ModAssign => "%=",
            Operator::AssignEq => "=",
            Operator::Cast => "as",
            Operator::Dot => ".",
            Operator::Range => "..",
            Operator::Ellipsis => "...",
            Operator::Colon => ":",
            Operator::ErrorPropagation => "?",
        }
    }
}

/// Kind of a bracketed group.
#[derive(Debug, Clone, Copy, PartialEq, Eq, Structural)]
pub enum ParenthesisType {
    Rounded,
    Square,
    Curly,
}

/// Kind of a quoted literal.
#[derive(Debug, Clone, Copy, PartialEq, Eq, Structural)]
pub enum QuoteType {
    Single,
    Double,
}

/// The variant of a token type, without its payload.
#[derive(Debug, Clone, Copy, PartialEq, Eq, Structural)]
pub enum TokenTypeDiscriminants {
    Keyword,
    Operator,
    Identifier,
    SemiColan,
    Parenthesis,
    String,
    Number,
    CommaList,
}

/// The source text that a token was read from.
#[derive(Debug)]
pub struct FileRange {
    pub text: Rc<String>,
}

impl FileRange {
    pub fn new(text: String) -> (range: Self)
        ensures
            range.text@ == text@,
    {
        FileRange { text: Rc::new(text) }
    }

    pub fn getSourceInRange(&self) -> (source: &str)
        ensures
            source@ == self.text@,
    {
        self.text.as_str()
    }

    /// A second handle on the same source text.
    pub fn duplicate(&self) -> (range: Self)
        ensures
            range == *self,
    {
        FileRange { text: Rc::clone(&self.text) }
    }
}

#[derive(Debug)]
pub enum TokenType {
    Keyword(Keyword),
    Operator(Operator),
    Identifier,
    SemiColan,
    /// A bracketed group; its contents form a module of their own.
    Parenthesis(ParenthesisType, Rc<Module>),
    /// A quoted literal; the range holds the text between the quotes.
    String(QuoteType, FileRange),
    Number,
    /// Comma separated entries, each a module of its own.
    CommaList(Vec<Rc<Module>>),
}

impl TokenType {
    pub open spec fn spec_discriminant(&self) -> TokenTypeDiscriminants {
        match self {
            TokenType::Keyword(_) => TokenTypeDiscriminants::Keyword,
            TokenType::Operator(_) => TokenTypeDiscriminants::Operator,
            TokenType::Identifier => TokenTypeDiscriminants::Identifier,
            TokenType::SemiColan => TokenTypeDiscriminants::SemiColan,
            TokenType::Parenthesis(..) => TokenTypeDiscriminants::Parenthesis,
            TokenType::String(..) => TokenTypeDiscriminants::String,
            TokenType::Number => TokenTypeDiscriminants::Number,
            TokenType::CommaList(_) => TokenTypeDiscriminants::CommaList,
        }
    }

    pub fn getDiscriminant(&self) -> (discriminant: TokenTypeDiscriminants)
        ensures
            discriminant == self.spec_discriminant(),
    {
        match self {
            TokenType::Keyword(_) => TokenTypeDiscriminants::Keyword,
            TokenType::Operator(_) => TokenTypeDiscriminants::Operator,
            TokenType::Identifier => TokenTypeDiscriminants::Identifier,
            TokenType::SemiColan => TokenTypeDiscriminants::SemiColan,
            TokenType::Parenthesis(..) => TokenTypeDiscriminants::Parenthesis,
            TokenType::String(..) => TokenTypeDiscriminants::String,
            TokenType::Number => TokenTypeDiscriminants::Number,
            TokenType::CommaList(_) => TokenTypeDiscriminants::CommaList,
        }
    }
}

#[derive(Debug)]
pub struct Token {
    pub tokenType: TokenType,
    pub sourceRange: FileRange,
}

impl Token {
    pub fn new(tokenType: TokenType, sourceRange: FileRange) -> (token: Self)
        ensures
            token.tokenType == tokenType,
            token.sourceRange == sourceRange,
    {
        Token { tokenType, sourceRange }
    }

    pub fn getTokenType(&self) -> (tokenType: &TokenType)
        ensures
            *tokenType == self.tokenType,
    {
        &self.tokenType
    }

    pub fn getSourceRange(&self) -> (sourceRange: &FileRange)
        ensures
            *sourceRange == self.sourceRange,
    {
        &self.sourceRange
    }
}

/// An immutable sequence of tokens.
#[derive(Debug)]
pub struct Module {
    pub tokenVec: Vec<Token>,
}

impl Module {
    pub open spec fn len(&self) -> nat {
        self.tokenVec.len() as nat
    }

    pub fn newFrom(tokenVec: Vec<Token>) -> (module: Rc<Self>)
        ensures
            module.tokenVec@ == tokenVec@,
    {
        Rc::new(Module { tokenVec })
    }

    pub fn getTokenVector(&self) -> (tokens: &Vec<Token>)
        ensures
            tokens@ == self.tokenVec@,
    {
        &self.tokenVec
    }

    /// The position in front of token `tokenIndex` (the module's length is the end position).
    pub fn getModulePos(module: &Rc<Module>, tokenIndex: usize) -> (pos: ModulePos)
        requires
            tokenIndex <= module.len(),
        ensures
            pos.wf(),
            pos.module == *module,
            pos.tokenIndex == tokenIndex,
    {
        ModulePos { module: Rc::clone(module), tokenIndex }
    }

    /// The tokens `range.start..range.end` of the module.
    pub fn getModuleRange(module: &Rc<Module>, range: Range<usize>) -> (moduleRange: ModuleRange)
        requires
            range.start <= range.end <= module.len(),
        ensures
            moduleRange.wf(),
            moduleRange.startPos.module == *module,
            moduleRange.startPos.tokenIndex == range.start,
            moduleRange.length == range.end - range.start,
    {
        let startPos = Module::getModulePos(module, range.start);
        ModuleRange { startPos, length: range.end - range.start }
    }
}

/// A position between tokens of a module.
#[derive(Debug)]
pub struct ModulePos {
    pub module: Rc<Module>,
    pub tokenIndex: usize,
}

impl ModulePos {
    pub open spec fn wf(&self) -> bool {
        self.tokenIndex <= self.module.len()
    }

    /// There is a token right after this position.
    pub open spec fn has_token(&self) -> bool {
        self.tokenIndex < self.module.len()
    }

    pub open spec fn spec_token(&self) -> Token {
        self.module.tokenVec@[self.tokenIndex as int]
    }

    pub fn duplicate(&self) -> (pos: Self)
        ensures
            pos == *self,
    {
        ModulePos { module: Rc::clone(&self.module), tokenIndex: self.tokenIndex }
    }

    pub fn getModule(&self) -> (module: &Rc<Module>)
        ensures
            *module == self.module,
    {
        &self.module
    }

    pub fn getTokenIndex(&self) -> (tokenIndex: usize)
        ensures
            tokenIndex == self.tokenIndex,
    {
        self.tokenIndex
    }

    /// Whether a token follows this position.
    pub fn hasToken(&self) -> (present: bool)
        ensures
            present == self.has_token(),
    {
        self.tokenIndex < self.module.tokenVec.len()
    }

    pub fn getToken(&self) -> (token: &Token)
        requires
            self.has_token(),
        ensures
            *token == self.spec_token(),
    {
        &self.module.tokenVec[self.tokenIndex]
    }

    pub open spec fn spec_range(&self, length: nat) -> ModuleRange {
        ModuleRange { startPos: *self, length: length as usize }
    }

    /// The `length` tokens that start at this position.
    pub fn getRange(&self, length: usize) -> (range: ModuleRange)
        requires
            self.wf(),
            self.tokenIndex + length <= self.module.len(),
        ensures
            range == self.spec_range(length as nat),
            range.wf(),
    {
        ModuleRange { startPos: self.duplicate(), length }
    }

    /// The `length` tokens that start at this position.
    pub fn getRangeWithLength(&self, length: usize) -> (range: ModuleRange)
        requires
            self.wf(),
            self.tokenIndex + length <= self.module.len(),
        ensures
            range == self.spec_range(length as nat),
            range.wf(),
    {
        self.getRange(length)
    }
}

/// A run of consecutive tokens of a module.
#[derive(Debug)]
pub struct ModuleRange {
    pub startPos: ModulePos,
    pub length: usize,
}

impl ModuleRange {
    pub open spec fn wf(&self) -> bool {
        self.startPos.tokenIndex + self.length <= self.startPos.module.len()
    }

    pub open spec fn start(&self) -> nat {
        self.startPos.tokenIndex as nat
    }

    pub open spec fn end(&self) -> nat {
        (self.startPos.tokenIndex + self.length) as nat
    }

    pub open spec fn spec_end_pos(&self) -> ModulePos {
        ModulePos { module: self.startPos.module, tokenIndex: (self.startPos.tokenIndex + self.length) as usize }
    }

    pub fn duplicate(&self) -> (range: Self)
        ensures
            range == *self,
    {
        ModuleRange { startPos: self.startPos.duplicate(), length: self.length }
    }

    pub fn getModule(&self) -> (module: &Rc<Module>)
        ensures
            *module == self.startPos.module,
    {
        &self.startPos.module
    }

    pub fn getStartPos(&self) -> (pos: ModulePos)
        ensures
            pos == self.startPos,
    {
        self.startPos.duplicate()
    }

    pub fn getEndPos(&self) -> (pos: ModulePos)
        requires
            self.wf(),
        ensures
            pos == self.spec_end_pos(),
            pos.wf(),
    {
        ModulePos { module: Rc::clone(&self.startPos.module), tokenIndex: self.startPos.tokenIndex + self.length }
    }

    pub fn getLength(&self) -> (length: usize)
        ensures
            length == self.length,
    {
        self.length
    }

    pub fn getStartIndex(&self) -> (index: usize)
        ensures
            index == self.start(),
    {
        self.startPos.tokenIndex
    }

    pub fn getEndIndex(&self) -> (index: usize)
        requires
            self.wf(),
        ensures
            index == self.end(),
    {
        self.startPos.tokenIndex + self.length
    }

    /// Moves the start of the range and keeps its end.
    pub fn setStartIndex(&mut self, index: usize)
        requires
            old(self).wf(),
            index <= old(self).end(),
        ensures
            final(self).wf(),
            final(self).startPos.module == old(self).startPos.module,
            final(self).start() == index,
            final(self).end() == old(self).end(),
    {
        let end = self.startPos.tokenIndex + self.length;
        self.startPos.tokenIndex = index;
        self.length = end - index;
    }

    /// Moves the end of the range and keeps its start.
    pub fn setEndIndex(&mut self, index: usize)
        requires
            old(self).wf(),
            old(self).start() <= index <= old(self).startPos.module.len(),
        ensures
            final(self).wf(),
            final(self).startPos == old(self).startPos,
            final(self).end() == index,
    {
        self.length = index - self.startPos.tokenIndex;
    }

    /// The smallest range of this range's module that covers both ranges, cut at
    /// the end of this range's module.
    pub open spec fn spec_combined(&self, other: ModuleRange) -> ModuleRange {
        let start = if other.start() < self.start() { other.start() } else { self.start() };
        let end0 = if other.end() > self.end() { other.end() } else { self.end() };
        let end = if end0 > self.startPos.module.len() { self.startPos.module.len() } else { end0 };
        ModuleRange {
            startPos: ModulePos { module: self.startPos.module, tokenIndex: start as usize },
            length: (end - start) as usize,
        }
    }

    pub fn getCombined(&self, other: &ModuleRange) -> (range: ModuleRange)
        requires
            self.wf(),
            other.wf(),
        ensures
            range == self.spec_combined(*other),
            range.wf(),
    {
        let start = if other.startPos.tokenIndex < self.startPos.tokenIndex {
            other.startPos.tokenIndex
        } else {
            self.startPos.tokenIndex
        };
        let selfEnd = self.startPos.tokenIndex + self.length;
        let otherEnd = other.startPos.tokenIndex + other.length;
        let end0 = if otherEnd > selfEnd { otherEnd } else { selfEnd };
        let moduleLength = self.startPos.module.tokenVec.len();
        let end = if end0 > moduleLength { moduleLength } else { end0 };
        ModuleRange {
            startPos: ModulePos { module: Rc::clone(&self.startPos.module), tokenIndex: start },
            length: end - start,
        }
    }
}


impl Keyword {
    /// The variant's name as written in the source of this library.
    pub open spec fn spec_name(self) -> Seq<char> {
        match self {
            Keyword::Void => "Void"@,
            Keyword::Break => "Break"@,
            Keyword::Continue => "Continue"@,
            Keyword::Static => "Static"@,
            Keyword::Class => "Class"@,
            Keyword::Let => "Let"@,
            Keyword::If => "If"@,
            Keyword::Else => "Else"@,
            Keyword::While => "While"@,
            Keyword::Return => "Return"@,
            Keyword::Import => "Import"@,
            Keyword::As => "As"@,
            Keyword::New => "New"@,
            Keyword::True => "True"@,
            Keyword::False => "False"@,
            Keyword::Public => "Public"@,
            Keyword::Private => "Private"@,
            Keyword::Protected => "Protected"@,
        }
    }

    pub fn getName(self) -> (name: &'static str)
        ensures
            name@ == self.spec_name(),
    {
        match self {
            Keyword::Void => "Void",
            Keyword::Break => "Break",
            Keyword::Continue => "Continue",
            Keyword::Static => "Static",
            Keyword::Class => "Class",
            Keyword::Let => "Let",
            Keyword::If => "If",
            Keyword::Else => "Else",
            Keyword::While => "While",
            Keyword::Return => "Return",
            Keyword::Import => "Import",
            Keyword::As => "As",
            Keyword::New => "New",
            Keyword::True => "True",
            Keyword::False => "False",
            Keyword::Public => "Public",
            Keyword::Private => "Private",
            Keyword::Protected => "Protected",
        }
    }
}

impl Operator {
    /// The variant's name as written in the source of this library.
    pub open spec fn spec_name(self) -> Seq<char> {
        match self {
            Operator::Not => "Not"@,
            Operator::Plus => "Plus"@,
            Operator::Minus => "Minus"@,
            Operator::Mult => "Mult"@,
            Operator::Div => "Div"@,
            Operator::Mod => "Mod"@,
            Operator::And => "And"@,
            Operator::Or => "Or"@,
            Operator::Greater => "Greater"@,
            Operator::Less => "Less"@,
            Operator::GreaterEq => "GreaterEq"@,
            Operator::LessEq => "LessEq"@,
            Operator::CompareEq => "CompareEq"@,
            Operator::CompareNotEq => "CompareNotEq"@,
            Operator::Increment => "Increment"@,
            Operator::Decrement => "Decrement"@,
            Operator::PlusAssign => "PlusAssign"@,
            Operator::MinusAssign => "MinusAssign"@,
            Operator::MultAssign => "MultAssign"@,
            Operator::DivAssign => "DivAssign"@,
            Operator::ModAssign => "ModAssign"@,
            Operator::AssignEq => "AssignEq"@,
            Operator::Cast => "Cast"@,
            Operator::Dot => "Dot"@,
            Operator::Range => "Range"@,
            Operator::Ellipsis => "Ellipsis"@,
            Operator::Colon => "Colon"@,
            Operator::ErrorPropagation => "ErrorPropagation"@,
        }
    }

    pub fn getName(self) -> (name: &'static str)
        ensures
            name@ == self.spec_name(),
    {
        match self {
            Operator::Not => "Not",
            Operator::Plus => "Plus",
            Operator::Minus => "Minus",
            Operator::Mult => "Mult",
            Operator::Div => "Div",
            Operator::Mod => "Mod",
            Operator::And => "And",
            Operator::Or => "Or",
            Operator::Greater => "Greater",
            Operator::Less => "Less",
            Operator::GreaterEq => "GreaterEq",
            Operator::LessEq => "LessEq",
            Operator::CompareEq => "CompareEq",
            Operator::CompareNotEq => "CompareNotEq",
            Operator::Increment => "Increment",
            Operator::Decrement => "Decrement",
            Operator::PlusAssign => "PlusAssign",
            Operator::MinusAssign => "MinusAssign",
            Operator::MultAssign => "MultAssign",
            Operator::DivAssign => "DivAssign",
            Operator::ModAssign => "ModAssign",
            Operator::AssignEq => "AssignEq",
            Operator::Cast => "Cast",
            Operator::Dot => "Dot",
            Operator::Range => "Range",
            Operator::Ellipsis => "Ellipsis",
            Operator::Colon => "Colon",
            Operator::ErrorPropagation => "ErrorPropagation",
        }
    }
}

impl ParenthesisType {
    /// The variant's name as written in the source of this library.
    pub open spec fn spec_name(self) -> Seq<char> {
        match self {
            ParenthesisType::Rounded => "Rounded"@,
            ParenthesisType::Square => "Square"@,
            ParenthesisType::Curly => "Curly"@,
        }
    }

    pub fn getName(self) -> (name: &'static str)
        ensures
            name@ == self.spec_name(),
    {
        match self {
            ParenthesisType::Rounded => "Rounded",
            ParenthesisType::Square => "Square",
            ParenthesisType::Curly => "Curly",
        }
    }
}

impl QuoteType {
    /// The variant's name as written in the source of this library.
    pub open spec fn spec_name(self) -> Seq<char> {
        match self {
            QuoteType::Single => "Single"@,
            QuoteType::Double => "Double"@,
        }
    }

    pub fn getName(self) -> (name: &'static str)
        ensures
            name@ == self.spec_name(),
    {
        match self {
            QuoteType::Single => "Single",
            QuoteType::Double => "Double",
        }
    }
}

impl TokenTypeDiscriminants {
    /// The variant's name as written in the source of this library.
    pub open spec fn spec_name(self) -> Seq<char> {
        match self {
            TokenTypeDiscriminants::Keyword => "Keyword"@,
            TokenTypeDiscriminants::Operator => "Operator"@,
            TokenTypeDiscriminants::Identifier => "Identifier"@,
            TokenTypeDiscriminants::SemiColan => "SemiColan"@,
            TokenTypeDiscriminants::Parenthesis => "Parenthesis"@,
            TokenTypeDiscriminants::String => "String"@,
            TokenTypeDiscriminants::Number => "Number"@,
            TokenTypeDiscriminants::CommaList => "CommaList"@,
        }
    }

    pub fn getName(self) -> (name: &'static str)
        ensures
            name@ == self.spec_name(),
    {
        match self {
            TokenTypeDiscriminants::Keyword => "Keyword",
            TokenTypeDiscriminants::Operator => "Operator",
            TokenTypeDiscriminants::Identifier => "Identifier",
            TokenTypeDiscriminants::SemiColan => "SemiColan",
            TokenTypeDiscriminants::Parenthesis => "Parenthesis",
            TokenTypeDiscriminants::String => "String",
            TokenTypeDiscriminants::Number => "Number",
            TokenTypeDiscriminants::CommaList => "CommaList",
        }
    }
}


impl TokenType {
    /// A short description: the kind of token and, for keywords, operators,
    /// brackets and quotes, which one.
    pub open spec fn spec_describe(&self) -> Seq<char> {
        match self {
            TokenType::Keyword(k) => "Keyword("@ + k.spec_name() + ")"@,
            TokenType::Operator(o) => "Operator("@ + o.spec_name() + ")"@,
            TokenType::Identifier => "Identifier"@,
            TokenType::SemiColan => "SemiColan"@,
            TokenType::Parenthesis(p, _) => "Parenthesis("@ + p.spec_name() + ")"@,
            TokenType::String(q, _) => "String("@ + q.spec_name() + ")"@,
            TokenType::Number => "Number"@,
            TokenType::CommaList(_) => "CommaList"@,
        }
    }

    pub fn describe(&self) -> (text: String)
        ensures
            text@ == self.spec_describe(),
    {
        match self {
            TokenType::Keyword(k) => String::from_str("Keyword(").concat(k.getName()).concat(")"),
            TokenType::Operator(o) => String::from_str("Operator(").concat(o.getName()).concat(")"),
            TokenType::Identifier => String::from_str("Identifier"),
            TokenType::SemiColan => String::from_str("SemiColan"),
            TokenType::Parenthesis(p, _) => String::from_str("Parenthesis(").concat(p.getName()).concat(")"),
            TokenType::String(q, _) => String::from_str("String(").concat(q.getName()).concat(")"),
            TokenType::Number => String::from_str("Number"),
            TokenType::CommaList(_) => String::from_str("CommaList"),
        }
    }
}

impl ModulePos {
    /// Where the position is: the index of the token that follows it.
    pub open spec fn spec_describe(&self) -> Seq<char> {
        "token "@ + spec_decimal(self.tokenIndex as nat)
    }

    pub fn describe(&self) -> (text: String)
        ensures
            text@ == self.spec_describe(),
    {
        String::from_str("token ").concat(decimalText(self.tokenIndex).as_str())
    }

    /// The token that follows the position, or the end of the module.
    pub open spec fn spec_describe_token(&self) -> Seq<char> {
        if self.has_token() {
            self.spec_token().tokenType.spec_describe()
        } else {
            "end of module"@
        }
    }

    pub fn describeToken(&self) -> (text: String)
        ensures
            text@ == self.spec_describe_token(),
    {
        if self.hasToken() {
            self.getToken().getTokenType().describe()
        } else {
            String::from_str("end of module")
        }
    }
}

} // verus!
