//! The matchers of the language's grammar.
//!
//! Each matcher looks at the tokens that follow a position. A matcher that
//! finds no token (at the end of a module) fails as it would on a token of
//! the wrong kind.
use std::rc::Rc;

use vstd::prelude::*;
use vstd::utf8::encode_utf8;

use crate::ast::error::ASTError;
use crate::ast::matchtype::{Match, MatchType};
use crate::ast::numbers::{isFloat, parseInteger, spec_is_float, spec_parse_i64};
use crate::ast::symbol::{
    spec_attribute_from_keyword, spec_visibility_from_keyword, BreakSym, ContinueSym, FunctionAttribute, ImportSym,
    Label, LiteralBool, LiteralChar, LiteralFloat, LiteralInteger, LiteralString, LiteralVoid, VariableDeclarationExpr,
    VariableExpr, Visibility,
};
use crate::module::{
    FileRange, Keyword, Module, ModulePos, ModuleRange, Operator, ParenthesisType, QuoteType, TokenType,
    TokenTypeDiscriminants,
};
use crate::text::charsOf;

verus! {

/// The position `n` tokens after `pos`.
pub open spec fn advanced(pos: ModulePos, n: nat) -> ModulePos {
    ModulePos { module: pos.module, tokenIndex: (pos.tokenIndex + n) as usize }
}

/// The token type right after `pos`, if there is a token.
pub open spec fn token_type_at(pos: ModulePos) -> Option<TokenType> {
    if pos.has_token() {
        Some(pos.spec_token().tokenType)
    } else {
        None
    }
}

pub open spec fn is_keyword_at(pos: ModulePos, keyword: Keyword) -> bool {
    token_type_at(pos) == Some(TokenType::Keyword(keyword))
}

pub open spec fn is_identifier_at(pos: ModulePos) -> bool {
    token_type_at(pos) == Some(TokenType::Identifier)
}

/// A type name is `void` or an identifier.
pub open spec fn is_type_at(pos: ModulePos) -> bool {
    is_keyword_at(pos, Keyword::Void) || is_identifier_at(pos)
}

/// The one-token match at `pos` with value `value`.
pub open spec fn single<V>(pos: ModulePos, value: V) -> Result<Match<V>, ASTError> {
    Ok(Match { range: pos.spec_range(1), value })
}

// ---------------------------------------------------------------- keyword

#[derive(Clone, Copy)]
pub struct MatchKeyword {
    pub keyword: Keyword,
}

pub open spec fn spec_keyword_result(keyword: Keyword, pos: ModulePos) -> Result<Match<()>, ASTError> {
    if is_keyword_at(pos, keyword) {
        single(pos, ())
    } else {
        Err(ASTError::ExpectedToken(pos, TokenType::Keyword(keyword)))
    }
}

pub fn getMatchKeyword(keyword: Keyword) -> (matcher: MatchKeyword)
    ensures
        matcher.keyword == keyword,
{
    MatchKeyword { keyword }
}

impl MatchType for MatchKeyword {
    type Value = ();

    open spec fn can_match(&self, startPos: ModulePos) -> bool {
        true
    }

    open spec fn matches_at(&self, startPos: ModulePos, result: Result<Match<()>, ASTError>) -> bool {
        result == spec_keyword_result(self.keyword, startPos)
    }

    fn getMatch(&self, startPos: ModulePos) -> (result: Result<Match<()>, ASTError>) {
        if startPos.hasToken() {
            if let TokenType::Keyword(value) = startPos.getToken().getTokenType() {
                if *value == self.keyword {
                    return Ok(Match::new(startPos.getRangeWithLength(1), ()));
                }
            }
        }
        Err(ASTError::ExpectedToken(startPos, TokenType::Keyword(self.keyword)))
    }
}

// ---------------------------------------------------------------- operator

#[derive(Clone, Copy)]
pub struct MatchOperator {
    pub operator: Operator,
}

pub open spec fn spec_operator_result(operator: Operator, pos: ModulePos) -> Result<Match<()>, ASTError> {
    if token_type_at(pos) == Some(TokenType::Operator(operator)) {
        single(pos, ())
    } else {
        Err(ASTError::ExpectedToken(pos, TokenType::Operator(operator)))
    }
}

pub fn getMatchOperator(operator: Operator) -> (matcher: MatchOperator)
    ensures
        matcher.operator == operator,
{
    MatchOperator { operator }
}

impl MatchType for MatchOperator {
    type Value = ();

    open spec fn can_match(&self, startPos: ModulePos) -> bool {
        true
    }

    open spec fn matches_at(&self, startPos: ModulePos, result: Result<Match<()>, ASTError>) -> bool {
        result == spec_operator_result(self.operator, startPos)
    }

    fn getMatch(&self, startPos: ModulePos) -> (result: Result<Match<()>, ASTError>) {
        if startPos.hasToken() {
            if let TokenType::Operator(value) = startPos.getToken().getTokenType() {
                if *value == self.operator {
                    return Ok(Match::new(startPos.getRangeWithLength(1), ()));
                }
            }
        }
        Err(ASTError::ExpectedToken(startPos, TokenType::Operator(self.operator)))
    }
}

// ---------------------------------------------------------------- function attribute

#[derive(Clone, Copy)]
pub struct MatchFunctionAttribute;

pub open spec fn spec_function_attribute_result(pos: ModulePos) -> Result<Match<FunctionAttribute>, ASTError> {
    match token_type_at(pos) {
        Some(TokenType::Keyword(keyword)) => match spec_attribute_from_keyword(keyword) {
            Some(attribute) => single(pos, attribute),
            None => Err(ASTError::ExpectedTokenDiscriminant(pos, TokenTypeDiscriminants::Keyword)),
        },
        _ => Err(ASTError::ExpectedTokenDiscriminant(pos, TokenTypeDiscriminants::Keyword)),
    }
}

pub fn getMatchFunctionAttribute() -> (matcher: MatchFunctionAttribute) {
    MatchFunctionAttribute
}

impl MatchType for MatchFunctionAttribute {
    type Value = FunctionAttribute;

    open spec fn can_match(&self, startPos: ModulePos) -> bool {
        true
    }

    open spec fn matches_at(&self, startPos: ModulePos, result: Result<Match<FunctionAttribute>, ASTError>) -> bool {
        result == spec_function_attribute_result(startPos)
    }

    fn getMatch(&self, startPos: ModulePos) -> (result: Result<Match<FunctionAttribute>, ASTError>) {
        if startPos.hasToken() {
            if let TokenType::Keyword(keyword) = startPos.getToken().getTokenType() {
                return match FunctionAttribute::fromKeyword(*keyword) {
                    Some(attribute) => Ok(Match::new(startPos.getRangeWithLength(1), attribute)),
                    None => Err(ASTError::ExpectedTokenDiscriminant(startPos, TokenTypeDiscriminants::Keyword)),
                };
            }
        }
        Err(ASTError::ExpectedTokenDiscriminant(startPos, TokenTypeDiscriminants::Keyword))
    }
}

// ---------------------------------------------------------------- visibility

#[derive(Clone, Copy)]
pub struct MatchVisibility;

pub open spec fn spec_visibility_result(pos: ModulePos) -> Result<Match<Visibility>, ASTError> {
    match token_type_at(pos) {
        Some(TokenType::Keyword(keyword)) => match spec_visibility_from_keyword(keyword) {
            Some(visibility) => single(pos, visibility),
            None => Err(ASTError::MatchFailed(pos)),
        },
        _ => Err(ASTError::MatchFailed(pos)),
    }
}

pub fn getMatchVisibility() -> (matcher: MatchVisibility) {
    MatchVisibility
}

impl MatchType for MatchVisibility {
    type Value = Visibility;

    open spec fn can_match(&self, startPos: ModulePos) -> bool {
        true
    }

    open spec fn matches_at(&self, startPos: ModulePos, result: Result<Match<Visibility>, ASTError>) -> bool {
        result == spec_visibility_result(startPos)
    }

    fn getMatch(&self, startPos: ModulePos) -> (result: Result<Match<Visibility>, ASTError>) {
        if startPos.hasToken() {
            if let TokenType::Keyword(keyword) = startPos.getToken().getTokenType() {
                return match Visibility::fromKeyword(*keyword) {
                    Some(visibility) => Ok(Match::new(startPos.getRangeWithLength(1), visibility)),
                    None => Err(ASTError::MatchFailed(startPos)),
                };
            }
        }
        Err(ASTError::MatchFailed(startPos))
    }
}

// ---------------------------------------------------------------- type name

/// Matches a type name; the value is the position of the name.
#[derive(Clone, Copy)]
pub struct MatchTypeName;

pub open spec fn spec_type_result(pos: ModulePos) -> Result<Match<ModulePos>, ASTError> {
    if is_type_at(pos) {
        single(pos, pos)
    } else {
        Err(ASTError::ExpectedType(pos))
    }
}

pub fn getMatchType() -> (matcher: MatchTypeName) {
    MatchTypeName
}

impl MatchType for MatchTypeName {
    type Value = ModulePos;

    open spec fn can_match(&self, startPos: ModulePos) -> bool {
        true
    }

    open spec fn matches_at(&self, startPos: ModulePos, result: Result<Match<ModulePos>, ASTError>) -> bool {
        result == spec_type_result(startPos)
    }

    fn getMatch(&self, startPos: ModulePos) -> (result: Result<Match<ModulePos>, ASTError>) {
        if startPos.hasToken() {
            match startPos.getToken().getTokenType() {
                TokenType::Keyword(Keyword::Void) | TokenType::Identifier => {
                    return Ok(Match::new(startPos.getRangeWithLength(1), startPos.duplicate()));
                },
                _ => {},
            }
        }
        Err(ASTError::ExpectedType(startPos))
    }
}

// ---------------------------------------------------------------- identifier

/// Matches an identifier; the value is its position.
#[derive(Clone, Copy)]
pub struct MatchIdentifier;

pub open spec fn spec_identifier_result(pos: ModulePos) -> Result<Match<ModulePos>, ASTError> {
    if is_identifier_at(pos) {
        single(pos, pos)
    } else {
        Err(ASTError::ExpectedToken(pos, TokenType::Identifier))
    }
}

pub fn getMatchIdentifier() -> (matcher: MatchIdentifier) {
    MatchIdentifier
}

impl MatchType for MatchIdentifier {
    type Value = ModulePos;

    open spec fn can_match(&self, startPos: ModulePos) -> bool {
        true
    }

    open spec fn matches_at(&self, startPos: ModulePos, result: Result<Match<ModulePos>, ASTError>) -> bool {
        result == spec_identifier_result(startPos)
    }

    fn getMatch(&self, startPos: ModulePos) -> (result: Result<Match<ModulePos>, ASTError>) {
        if startPos.hasToken() {
            if let TokenType::Identifier = startPos.getToken().getTokenType() {
                return Ok(Match::new(startPos.getRangeWithLength(1), startPos.duplicate()));
            }
        }
        Err(ASTError::ExpectedToken(startPos, TokenType::Identifier))
    }
}

// ---------------------------------------------------------------- semicolon

/// Matches a `;`; the value is its position.
#[derive(Clone, Copy)]
pub struct MatchSemicolan;

pub open spec fn spec_semicolan_result(pos: ModulePos) -> Result<Match<ModulePos>, ASTError> {
    if token_type_at(pos) == Some(TokenType::SemiColan) {
        single(pos, pos)
    } else {
        Err(ASTError::ExpectedToken(pos, TokenType::SemiColan))
    }
}

pub fn getMatchSemicolan() -> (matcher: MatchSemicolan) {
    MatchSemicolan
}

impl MatchType for MatchSemicolan {
    type Value = ModulePos;

    open spec fn can_match(&self, startPos: ModulePos) -> bool {
        true
    }

    open spec fn matches_at(&self, startPos: ModulePos, result: Result<Match<ModulePos>, ASTError>) -> bool {
        result == spec_semicolan_result(startPos)
    }

    fn getMatch(&self, startPos: ModulePos) -> (result: Result<Match<ModulePos>, ASTError>) {
        if startPos.hasToken() {
            if let TokenType::SemiColan = startPos.getToken().getTokenType() {
                return Ok(Match::new(startPos.getRangeWithLength(1), startPos.duplicate()));
            }
        }
        Err(ASTError::ExpectedToken(startPos, TokenType::SemiColan))
    }
}


// ---------------------------------------------------------------- parenthesis

/// Matches a bracketed group of the given kind and reads a value from its contents.
#[derive(Clone)]
pub struct MatchParenthesis<F> {
    pub parenthesis: ParenthesisType,
    pub function: F,
}

pub fn getMatchParenthesis<T, F: Fn(&Rc<Module>) -> Result<T, ASTError>>(parenthesis: ParenthesisType, function: F) -> (matcher: MatchParenthesis<F>)
    ensures
        matcher.parenthesis == parenthesis,
        matcher.function == function,
{
    MatchParenthesis { parenthesis, function }
}

impl<T, F: Fn(&Rc<Module>) -> Result<T, ASTError>> MatchType for MatchParenthesis<F> {
    type Value = T;

    open spec fn can_match(&self, startPos: ModulePos) -> bool {
        match token_type_at(startPos) {
            Some(TokenType::Parenthesis(kind, module)) => kind == self.parenthesis ==> call_requires(self.function, (&module,)),
            _ => true,
        }
    }

    open spec fn matches_at(&self, startPos: ModulePos, result: Result<Match<T>, ASTError>) -> bool {
        match token_type_at(startPos) {
            Some(TokenType::Parenthesis(kind, module)) if kind == self.parenthesis => exists|inner: Result<T, ASTError>|
                #[trigger] call_ensures(self.function, (&module,), inner) && match inner {
                    Ok(value) => result == single(startPos, value),
                    Err(e) => result == Err::<Match<T>, ASTError>(e),
                },
            _ => result == Err::<Match<T>, ASTError>(
                ASTError::ExpectedTokenDiscriminant(startPos, TokenTypeDiscriminants::Parenthesis),
            ),
        }
    }

    fn getMatch(&self, startPos: ModulePos) -> (result: Result<Match<T>, ASTError>) {
        if startPos.hasToken() {
            if let TokenType::Parenthesis(parenthesisType, module) = startPos.getToken().getTokenType() {
                if *parenthesisType == self.parenthesis {
                    let inner = (self.function)(module);
                    return match inner {
                        Ok(value) => Ok(Match::new(startPos.getRangeWithLength(1), value)),
                        Err(e) => Err(e),
                    };
                }
            }
        }
        Err(ASTError::ExpectedTokenDiscriminant(startPos, TokenTypeDiscriminants::Parenthesis))
    }
}

// ---------------------------------------------------------------- quote

/// Matches a quoted literal of the given kind and reads a value from its text.
#[derive(Clone)]
pub struct MatchQuote<F> {
    pub quote: QuoteType,
    pub function: F,
}

pub fn getMatchQuote<T, F: Fn(ModuleRange, &FileRange) -> Result<T, ASTError>>(quote: QuoteType, function: F) -> (matcher: MatchQuote<F>)
    ensures
        matcher.quote == quote,
        matcher.function == function,
{
    MatchQuote { quote, function }
}

impl<T, F: Fn(ModuleRange, &FileRange) -> Result<T, ASTError>> MatchType for MatchQuote<F> {
    type Value = T;

    open spec fn can_match(&self, startPos: ModulePos) -> bool {
        match token_type_at(startPos) {
            Some(TokenType::String(kind, text)) => kind == self.quote ==> call_requires(
                self.function,
                (startPos.spec_range(1), &text),
            ),
            _ => true,
        }
    }

    open spec fn matches_at(&self, startPos: ModulePos, result: Result<Match<T>, ASTError>) -> bool {
        match token_type_at(startPos) {
            Some(TokenType::String(kind, text)) if kind == self.quote => exists|inner: Result<T, ASTError>|
                #[trigger] call_ensures(self.function, (startPos.spec_range(1), &text), inner) && match inner {
                    Ok(value) => result == single(startPos, value),
                    Err(e) => result == Err::<Match<T>, ASTError>(e),
                },
            _ => result == Err::<Match<T>, ASTError>(
                ASTError::ExpectedTokenDiscriminant(startPos, TokenTypeDiscriminants::String),
            ),
        }
    }

    fn getMatch(&self, startPos: ModulePos) -> (result: Result<Match<T>, ASTError>) {
        if startPos.hasToken() {
            if let TokenType::String(quoteType, fileRange) = startPos.getToken().getTokenType() {
                if *quoteType == self.quote {
                    let range = startPos.getRangeWithLength(1);
                    let kept = range.duplicate();
                    let inner = (self.function)(range, fileRange);
                    return match inner {
                        Ok(value) => Ok(Match::new(kept, value)),
                        Err(e) => Err(e),
                    };
                }
            }
        }
        Err(ASTError::ExpectedTokenDiscriminant(startPos, TokenTypeDiscriminants::String))
    }
}

// ---------------------------------------------------------------- break / continue

/// A jump keyword (`break` or `continue`) with an optional label after it:
/// the range it covers and the label.
pub open spec fn spec_jump_result(keyword: Keyword, pos: ModulePos) -> Result<(ModuleRange, Option<Label>), ASTError> {
    if !is_keyword_at(pos, keyword) {
        Err(ASTError::ExpectedToken(pos, TokenType::Keyword(keyword)))
    } else if is_identifier_at(advanced(pos, 1)) {
        Ok((pos.spec_range(2), Some(Label { identifier: advanced(pos, 1) })))
    } else {
        Ok((pos.spec_range(1), None))
    }
}

/// Reads a jump keyword and its optional label.
fn matchJump(keyword: Keyword, startPos: &ModulePos) -> (result: Result<(ModuleRange, Option<Label>), ASTError>)
    requires
        startPos.wf(),
    ensures
        result == spec_jump_result(keyword, *startPos),
        result matches Ok((range, _)) ==> range.wf(),
{
    if startPos.hasToken() {
        if let TokenType::Keyword(value) = startPos.getToken().getTokenType() {
            if *value == keyword {
                let next = Module::getModulePos(startPos.getModule(), startPos.getTokenIndex() + 1);
                assert(next == advanced(*startPos, 1));
                if next.hasToken() {
                    if let TokenType::Identifier = next.getToken().getTokenType() {
                        return Ok((startPos.getRangeWithLength(2), Some(Label { identifier: next })));
                    }
                }
                return Ok((startPos.getRangeWithLength(1), None));
            }
        }
    }
    Err(ASTError::ExpectedToken(startPos.duplicate(), TokenType::Keyword(keyword)))
}

/// Matches `break` or `break label`.
#[derive(Clone, Copy)]
pub struct MatchBreakSym;

pub open spec fn spec_break_result(pos: ModulePos) -> Result<Match<BreakSym>, ASTError> {
    match spec_jump_result(Keyword::Break, pos) {
        Ok((range, label)) => Ok(Match { range, value: BreakSym { range, label } }),
        Err(e) => Err(e),
    }
}

pub fn getMatchBreakSym() -> (matcher: MatchBreakSym) {
    MatchBreakSym
}

impl MatchType for MatchBreakSym {
    type Value = BreakSym;

    open spec fn can_match(&self, startPos: ModulePos) -> bool {
        true
    }

    open spec fn matches_at(&self, startPos: ModulePos, result: Result<Match<BreakSym>, ASTError>) -> bool {
        result == spec_break_result(startPos)
    }

    fn getMatch(&self, startPos: ModulePos) -> (result: Result<Match<BreakSym>, ASTError>) {
        match matchJump(Keyword::Break, &startPos) {
            Ok((range, label)) => Ok(Match::new(range.duplicate(), BreakSym { range, label })),
            Err(e) => Err(e),
        }
    }
}

/// Matches `continue` or `continue label`.
#[derive(Clone, Copy)]
pub struct MatchContinueSym;

pub open spec fn spec_continue_result(pos: ModulePos) -> Result<Match<ContinueSym>, ASTError> {
    match spec_jump_result(Keyword::Continue, pos) {
        Ok((range, label)) => Ok(Match { range, value: ContinueSym { range, label } }),
        Err(e) => Err(e),
    }
}

pub fn getMatchContinueSym() -> (matcher: MatchContinueSym) {
    MatchContinueSym
}

impl MatchType for MatchContinueSym {
    type Value = ContinueSym;

    open spec fn can_match(&self, startPos: ModulePos) -> bool {
        true
    }

    open spec fn matches_at(&self, startPos: ModulePos, result: Result<Match<ContinueSym>, ASTError>) -> bool {
        result == spec_continue_result(startPos)
    }

    fn getMatch(&self, startPos: ModulePos) -> (result: Result<Match<ContinueSym>, ASTError>) {
        match matchJump(Keyword::Continue, &startPos) {
            Ok((range, label)) => Ok(Match::new(range.duplicate(), ContinueSym { range, label })),
            Err(e) => Err(e),
        }
    }
}

/// The label that a jump keyword at `pos` carries: the name right after it, if there is one.
pub open spec fn label_after(pos: ModulePos) -> Option<Label> {
    if is_identifier_at(advanced(pos, 1)) {
        Some(Label { identifier: advanced(pos, 1) })
    } else {
        None
    }
}

/// `break` reads the name right after it, if any, as its label, and covers the
/// keyword and that name.
pub proof fn law_break_label(pos: ModulePos, result: Result<Match<BreakSym>, ASTError>)
    requires
        is_keyword_at(pos, Keyword::Break),
        (MatchBreakSym).matches_at(pos, result),
    ensures
        result matches Ok(m) && m.value.label == label_after(pos) && m.value.range == m.range
            && m.range == pos.spec_range(if label_after(pos) is Some { 2 } else { 1 }),
{
}

/// `continue` reads the name right after it, if any, as its label, and covers
/// the keyword and that name.
pub proof fn law_continue_label(pos: ModulePos, result: Result<Match<ContinueSym>, ASTError>)
    requires
        is_keyword_at(pos, Keyword::Continue),
        (MatchContinueSym).matches_at(pos, result),
    ensures
        result matches Ok(m) && m.value.label == label_after(pos) && m.value.range == m.range
            && m.range == pos.spec_range(if label_after(pos) is Some { 2 } else { 1 }),
{
}

// ---------------------------------------------------------------- import

/// Matches `import name` or `import name as alias`.
#[derive(Clone, Copy)]
pub struct MatchImportSym;

pub open spec fn spec_import_result(pos: ModulePos) -> Result<Match<ImportSym>, ASTError> {
    if !is_keyword_at(pos, Keyword::Import) {
        Err(ASTError::ExpectedToken(pos, TokenType::Keyword(Keyword::Import)))
    } else if !is_identifier_at(advanced(pos, 1)) {
        Err(ASTError::ExpectedToken(advanced(pos, 1), TokenType::Identifier))
    } else if is_keyword_at(advanced(pos, 2), Keyword::As) && is_identifier_at(advanced(pos, 3)) {
        let range = pos.spec_range(4);
        Ok(Match { range, value: ImportSym { range, packageName: advanced(pos, 1), localName: Some(advanced(pos, 3)) } })
    } else {
        let range = pos.spec_range(2);
        Ok(Match { range, value: ImportSym { range, packageName: advanced(pos, 1), localName: None } })
    }
}

pub fn getMatchImportSym() -> (matcher: MatchImportSym) {
    MatchImportSym
}

/// Whether the token after `pos` (if any) is the keyword `keyword`.
pub(crate) fn keywordAt(pos: &ModulePos, keyword: Keyword) -> (found: bool)
    ensures
        found == is_keyword_at(*pos, keyword),
{
    if pos.hasToken() {
        if let TokenType::Keyword(value) = pos.getToken().getTokenType() {
            return *value == keyword;
        }
    }
    false
}

/// Whether the token after `pos` (if any) is an identifier.
pub(crate) fn identifierAt(pos: &ModulePos) -> (found: bool)
    ensures
        found == is_identifier_at(*pos),
{
    if pos.hasToken() {
        if let TokenType::Identifier = pos.getToken().getTokenType() {
            return true;
        }
    }
    false
}

/// Whether the token after `pos` (if any) names a type.
pub(crate) fn typeAt(pos: &ModulePos) -> (found: bool)
    ensures
        found == is_type_at(*pos),
{
    keywordAt(pos, Keyword::Void) || identifierAt(pos)
}

/// The position `offset` tokens after `pos`, clamped to the end of its module.
pub(crate) fn positionAfter(pos: &ModulePos, offset: usize) -> (next: ModulePos)
    requires
        pos.wf(),
    ensures
        next.wf(),
        next.module == pos.module,
        pos.tokenIndex + offset <= pos.module.len() ==> next == advanced(*pos, offset as nat),
        pos.tokenIndex + offset > pos.module.len() ==> next.tokenIndex == pos.module.len(),
{
    let length = pos.getModule().getTokenVector().len();
    let index = if offset <= length - pos.getTokenIndex() { pos.getTokenIndex() + offset } else { length };
    Module::getModulePos(pos.getModule(), index)
}

impl MatchType for MatchImportSym {
    type Value = ImportSym;

    open spec fn can_match(&self, startPos: ModulePos) -> bool {
        true
    }

    open spec fn matches_at(&self, startPos: ModulePos, result: Result<Match<ImportSym>, ASTError>) -> bool {
        result == spec_import_result(startPos)
    }

    fn getMatch(&self, startPos: ModulePos) -> (result: Result<Match<ImportSym>, ASTError>) {
        if !keywordAt(&startPos, Keyword::Import) {
            return Err(ASTError::ExpectedToken(startPos, TokenType::Keyword(Keyword::Import)));
        }
        let name = positionAfter(&startPos, 1);
        if !identifierAt(&name) {
            return Err(ASTError::ExpectedToken(name, TokenType::Identifier));
        }
        let asPos = positionAfter(&startPos, 2);
        let alias = positionAfter(&startPos, 3);
        if keywordAt(&asPos, Keyword::As) && identifierAt(&alias) {
            let range = startPos.getRangeWithLength(4);
            Ok(Match::new(range.duplicate(), ImportSym { range, packageName: name, localName: Some(alias) }))
        } else {
            let range = startPos.getRangeWithLength(2);
            Ok(Match::new(range.duplicate(), ImportSym { range, packageName: name, localName: None }))
        }
    }
}


/// `import name` imports the package `name` under its own name, and
/// `import name as alias` under `alias`; the match covers those tokens.
pub proof fn law_import_names(pos: ModulePos, result: Result<Match<ImportSym>, ASTError>)
    requires
        is_keyword_at(pos, Keyword::Import),
        is_identifier_at(advanced(pos, 1)),
        (MatchImportSym).matches_at(pos, result),
    ensures
        result matches Ok(m) && m.value.packageName == advanced(pos, 1) && m.value.range == m.range
            && if is_keyword_at(advanced(pos, 2), Keyword::As) && is_identifier_at(advanced(pos, 3)) {
                m.value.localName == Some(advanced(pos, 3)) && m.range == pos.spec_range(4)
            } else {
                m.value.localName is None && m.range == pos.spec_range(2)
            },
{
}

// ---------------------------------------------------------------- variables

/// Matches `let name` or `type name`.
#[derive(Clone, Copy)]
pub struct MatchVariableDeclarationExpr;

/// The result of a matcher that tries several forms: `Ok` with the form that
/// matched, or the failure of every form, in order.
pub open spec fn choice_result<V>(
    pos: ModulePos,
    found: Option<Match<V>>,
    errors: Seq<ASTError>,
    result: Result<Match<V>, ASTError>,
) -> bool {
    match found {
        Some(m) => result == Ok::<Match<V>, ASTError>(m),
        None => result matches Err(ASTError::MatchOptionsFailed(p, e)) && p == pos && e@ == errors,
    }
}

pub open spec fn spec_variable_declaration(pos: ModulePos) -> Option<Match<VariableDeclarationExpr>> {
    let name = advanced(pos, 1);
    let range = pos.spec_range(2);
    if is_keyword_at(pos, Keyword::Let) && is_identifier_at(name) {
        Some(Match { range, value: VariableDeclarationExpr { range, variableName: name, explicitType: None } })
    } else if is_type_at(pos) && is_identifier_at(name) {
        Some(Match { range, value: VariableDeclarationExpr { range, variableName: name, explicitType: Some(pos) } })
    } else {
        None
    }
}

/// Where the `let name` form and the `type name` form stopped.
pub open spec fn spec_variable_declaration_errors(pos: ModulePos) -> Seq<ASTError> {
    let name = advanced(pos, 1);
    let letError = if is_keyword_at(pos, Keyword::Let) {
        ASTError::ExpectedToken(name, TokenType::Identifier)
    } else {
        ASTError::ExpectedToken(pos, TokenType::Keyword(Keyword::Let))
    };
    let typeError = if is_type_at(pos) {
        ASTError::ExpectedToken(name, TokenType::Identifier)
    } else {
        ASTError::ExpectedType(pos)
    };
    seq![letError, typeError]
}

pub fn getMatchVariableDeclarationExpr() -> (matcher: MatchVariableDeclarationExpr) {
    MatchVariableDeclarationExpr
}

impl MatchType for MatchVariableDeclarationExpr {
    type Value = VariableDeclarationExpr;

    open spec fn can_match(&self, startPos: ModulePos) -> bool {
        true
    }

    open spec fn matches_at(&self, startPos: ModulePos, result: Result<Match<VariableDeclarationExpr>, ASTError>) -> bool {
        choice_result(startPos, spec_variable_declaration(startPos), spec_variable_declaration_errors(startPos), result)
    }

    fn getMatch(&self, startPos: ModulePos) -> (result: Result<Match<VariableDeclarationExpr>, ASTError>) {
        let name = positionAfter(&startPos, 1);
        let isLet = keywordAt(&startPos, Keyword::Let);
        let isType = typeAt(&startPos);
        let named = identifierAt(&name);
        assert(startPos.has_token() ==> name == advanced(startPos, 1));
        if isLet && named {
            let range = startPos.getRangeWithLength(2);
            return Ok(Match::new(range.duplicate(), VariableDeclarationExpr { range, variableName: name, explicitType: None }));
        }
        if isType && named {
            let range = startPos.getRangeWithLength(2);
            return Ok(Match::new(range.duplicate(), VariableDeclarationExpr { range, variableName: name, explicitType: Some(startPos) }));
        }
        let letError = if isLet {
            ASTError::ExpectedToken(name.duplicate(), TokenType::Identifier)
        } else {
            ASTError::ExpectedToken(startPos.duplicate(), TokenType::Keyword(Keyword::Let))
        };
        let typeError = if isType {
            ASTError::ExpectedToken(name, TokenType::Identifier)
        } else {
            ASTError::ExpectedType(startPos.duplicate())
        };
        let errors = vec![letError, typeError];
        assert(errors@ == spec_variable_declaration_errors(startPos));
        Err(ASTError::MatchOptionsFailed(startPos, errors))
    }
}

/// Matches a variable's name.
#[derive(Clone, Copy)]
pub struct MatchVariableExpr;

pub open spec fn spec_variable_result(pos: ModulePos) -> Result<Match<VariableExpr>, ASTError> {
    if is_identifier_at(pos) {
        Ok(Match { range: pos.spec_range(1), value: VariableExpr { range: pos.spec_range(1) } })
    } else {
        Err(ASTError::ExpectedToken(pos, TokenType::Identifier))
    }
}

pub fn getMatchVariableExpr() -> (matcher: MatchVariableExpr) {
    MatchVariableExpr
}

impl MatchType for MatchVariableExpr {
    type Value = VariableExpr;

    open spec fn can_match(&self, startPos: ModulePos) -> bool {
        true
    }

    open spec fn matches_at(&self, startPos: ModulePos, result: Result<Match<VariableExpr>, ASTError>) -> bool {
        result == spec_variable_result(startPos)
    }

    fn getMatch(&self, startPos: ModulePos) -> (result: Result<Match<VariableExpr>, ASTError>) {
        if identifierAt(&startPos) {
            let range = startPos.getRangeWithLength(1);
            Ok(Match::new(range.duplicate(), VariableExpr { range }))
        } else {
            Err(ASTError::ExpectedToken(startPos, TokenType::Identifier))
        }
    }
}

// ---------------------------------------------------------------- literals

/// Matches `true` or `false`.
#[derive(Clone, Copy)]
pub struct MatchLiteralBool;

pub open spec fn spec_literal_bool(pos: ModulePos) -> Option<Match<LiteralBool>> {
    if is_keyword_at(pos, Keyword::True) {
        Some(Match { range: pos.spec_range(1), value: LiteralBool { range: pos.spec_range(1), value: true } })
    } else if is_keyword_at(pos, Keyword::False) {
        Some(Match { range: pos.spec_range(1), value: LiteralBool { range: pos.spec_range(1), value: false } })
    } else {
        None
    }
}

pub open spec fn spec_literal_bool_errors(pos: ModulePos) -> Seq<ASTError> {
    seq![
        ASTError::ExpectedToken(pos, TokenType::Keyword(Keyword::True)),
        ASTError::ExpectedToken(pos, TokenType::Keyword(Keyword::False)),
    ]
}

pub fn getMatchLiteralBool() -> (matcher: MatchLiteralBool) {
    MatchLiteralBool
}

impl MatchType for MatchLiteralBool {
    type Value = LiteralBool;

    open spec fn can_match(&self, startPos: ModulePos) -> bool {
        true
    }

    open spec fn matches_at(&self, startPos: ModulePos, result: Result<Match<LiteralBool>, ASTError>) -> bool {
        choice_result(startPos, spec_literal_bool(startPos), spec_literal_bool_errors(startPos), result)
    }

    fn getMatch(&self, startPos: ModulePos) -> (result: Result<Match<LiteralBool>, ASTError>) {
        if keywordAt(&startPos, Keyword::True) {
            let range = startPos.getRangeWithLength(1);
            return Ok(Match::new(range.duplicate(), LiteralBool::new(range, true)));
        }
        if keywordAt(&startPos, Keyword::False) {
            let range = startPos.getRangeWithLength(1);
            return Ok(Match::new(range.duplicate(), LiteralBool::new(range, false)));
        }
        let errors = vec![
            ASTError::ExpectedToken(startPos.duplicate(), TokenType::Keyword(Keyword::True)),
            ASTError::ExpectedToken(startPos.duplicate(), TokenType::Keyword(Keyword::False)),
        ];
        assert(errors@ == spec_literal_bool_errors(startPos));
        Err(ASTError::MatchOptionsFailed(startPos, errors))
    }
}

/// Matches the keyword `void` used as a value.
#[derive(Clone, Copy)]
pub struct MatchLiteralVoid;

pub open spec fn spec_literal_void_result(pos: ModulePos) -> Result<Match<LiteralVoid>, ASTError> {
    if is_keyword_at(pos, Keyword::Void) {
        Ok(Match { range: pos.spec_range(1), value: LiteralVoid { range: pos.spec_range(1) } })
    } else {
        Err(ASTError::ExpectedToken(pos, TokenType::Keyword(Keyword::Void)))
    }
}

pub fn getMatchLiteralVoid() -> (matcher: MatchLiteralVoid) {
    MatchLiteralVoid
}

impl MatchType for MatchLiteralVoid {
    type Value = LiteralVoid;

    open spec fn can_match(&self, startPos: ModulePos) -> bool {
        true
    }

    open spec fn matches_at(&self, startPos: ModulePos, result: Result<Match<LiteralVoid>, ASTError>) -> bool {
        result == spec_literal_void_result(startPos)
    }

    fn getMatch(&self, startPos: ModulePos) -> (result: Result<Match<LiteralVoid>, ASTError>) {
        if keywordAt(&startPos, Keyword::Void) {
            let range = startPos.getRangeWithLength(1);
            Ok(Match::new(range.duplicate(), LiteralVoid { range }))
        } else {
            Err(ASTError::ExpectedToken(startPos, TokenType::Keyword(Keyword::Void)))
        }
    }
}

/// The text of the quoted literal of kind `quote` right after `pos`, if that is the next token.
pub open spec fn quoted_at(pos: ModulePos, quote: QuoteType) -> Option<FileRange> {
    match token_type_at(pos) {
        Some(TokenType::String(kind, text)) => if kind == quote { Some(text) } else { None },
        _ => None,
    }
}

/// The length in bytes of `text`, as `str::len` reports it.
pub open spec fn byte_len(text: Seq<char>) -> usize {
    encode_utf8(text).len() as usize
}

/// Matches a character literal such as `'a'`; its value is the character's code point.
#[derive(Clone, Copy)]
pub struct MatchLiteralChar;

pub open spec fn spec_literal_char_result(pos: ModulePos) -> Result<Match<LiteralChar>, ASTError> {
    match quoted_at(pos, QuoteType::Single) {
        Some(text) => Ok(
            Match { range: pos.spec_range(1), value: LiteralChar { range: pos.spec_range(1), value: text.text@[0] as u32 } },
        ),
        None => Err(ASTError::ExpectedTokenDiscriminant(pos, TokenTypeDiscriminants::String)),
    }
}

pub fn getMatchLiteralChar() -> (matcher: MatchLiteralChar) {
    MatchLiteralChar
}

impl MatchType for MatchLiteralChar {
    type Value = LiteralChar;

    /// A character literal holds exactly one byte of text.
    open spec fn can_match(&self, startPos: ModulePos) -> bool {
        quoted_at(startPos, QuoteType::Single) matches Some(text) ==> byte_len(text.text@) == 1
    }

    open spec fn matches_at(&self, startPos: ModulePos, result: Result<Match<LiteralChar>, ASTError>) -> bool {
        result == spec_literal_char_result(startPos)
    }

    fn getMatch(&self, startPos: ModulePos) -> (result: Result<Match<LiteralChar>, ASTError>) {
        if startPos.hasToken() {
            if let TokenType::String(quoteType, fileRange) = startPos.getToken().getTokenType() {
                if *quoteType == QuoteType::Single {
                    let chars = charsOf(fileRange.getSourceInRange());
                    let range = startPos.getRangeWithLength(1);
                    let value = chars[0] as u32;
                    return Ok(Match::new(range.duplicate(), LiteralChar { range, value }));
                }
            }
        }
        Err(ASTError::ExpectedTokenDiscriminant(startPos, TokenTypeDiscriminants::String))
    }
}

/// Matches a string literal such as `"abc"`; it keeps the text between the quotes.
#[derive(Clone, Copy)]
pub struct MatchLiteralString;

pub open spec fn spec_literal_string_result(pos: ModulePos) -> Result<Match<LiteralString>, ASTError> {
    match quoted_at(pos, QuoteType::Double) {
        Some(text) => Ok(Match { range: pos.spec_range(1), value: LiteralString { range: pos.spec_range(1), fileRange: text } }),
        None => Err(ASTError::ExpectedTokenDiscriminant(pos, TokenTypeDiscriminants::String)),
    }
}

pub fn getMatchLiteralString() -> (matcher: MatchLiteralString) {
    MatchLiteralString
}

impl MatchType for MatchLiteralString {
    type Value = LiteralString;

    open spec fn can_match(&self, startPos: ModulePos) -> bool {
        true
    }

    open spec fn matches_at(&self, startPos: ModulePos, result: Result<Match<LiteralString>, ASTError>) -> bool {
        result == spec_literal_string_result(startPos)
    }

    fn getMatch(&self, startPos: ModulePos) -> (result: Result<Match<LiteralString>, ASTError>) {
        if startPos.hasToken() {
            if let TokenType::String(quoteType, fileRange) = startPos.getToken().getTokenType() {
                if *quoteType == QuoteType::Double {
                    let range = startPos.getRangeWithLength(1);
                    return Ok(Match::new(range.duplicate(), LiteralString { range, fileRange: fileRange.duplicate() }));
                }
            }
        }
        Err(ASTError::ExpectedTokenDiscriminant(startPos, TokenTypeDiscriminants::String))
    }
}

/// The text of the number right after `pos`, if that is the next token.
pub open spec fn number_at(pos: ModulePos) -> Option<Seq<char>> {
    if token_type_at(pos) == Some(TokenType::Number) {
        Some(pos.spec_token().sourceRange.text@)
    } else {
        None
    }
}

/// Matches a whole number such as `42`.
#[derive(Clone, Copy)]
pub struct MatchLiteralInteger;

pub open spec fn spec_literal_integer_result(pos: ModulePos) -> Result<Match<LiteralInteger>, ASTError> {
    match number_at(pos) {
        Some(text) if !spec_is_float(text) => Ok(
            Match {
                range: pos.spec_range(1),
                value: LiteralInteger { range: pos.spec_range(1), value: spec_parse_i64(text).unwrap() as i64 },
            },
        ),
        _ => Err(ASTError::ExpectedTokenDiscriminant(pos, TokenTypeDiscriminants::Number)),
    }
}

pub fn getMatchLiteralInteger() -> (matcher: MatchLiteralInteger) {
    MatchLiteralInteger
}

impl MatchType for MatchLiteralInteger {
    type Value = LiteralInteger;

    /// A whole number must be a valid 64-bit integer.
    open spec fn can_match(&self, startPos: ModulePos) -> bool {
        number_at(startPos) matches Some(text) ==> (!spec_is_float(text) ==> spec_parse_i64(text) is Some)
    }

    open spec fn matches_at(&self, startPos: ModulePos, result: Result<Match<LiteralInteger>, ASTError>) -> bool {
        result == spec_literal_integer_result(startPos)
    }

    fn getMatch(&self, startPos: ModulePos) -> (result: Result<Match<LiteralInteger>, ASTError>) {
        if startPos.hasToken() {
            let token = startPos.getToken();
            if let TokenType::Number = token.getTokenType() {
                if !isFloat(token.getSourceRange()) {
                    let range = startPos.getRangeWithLength(1);
                    if let Some(value) = parseInteger(token.getSourceRange().getSourceInRange()) {
                        return Ok(Match::new(range.duplicate(), LiteralInteger { range, value }));
                    }
                }
            }
        }
        Err(ASTError::ExpectedTokenDiscriminant(startPos, TokenTypeDiscriminants::Number))
    }
}

/// Matches a number with a decimal point such as `1.5`.
#[derive(Clone, Copy)]
pub struct MatchLiteralFloat;

pub open spec fn spec_literal_float_result(pos: ModulePos) -> Result<Match<LiteralFloat>, ASTError> {
    match number_at(pos) {
        Some(text) if spec_is_float(text) => Ok(
            Match { range: pos.spec_range(1), value: LiteralFloat { range: pos.spec_range(1) } },
        ),
        _ => Err(ASTError::ExpectedTokenDiscriminant(pos, TokenTypeDiscriminants::Number)),
    }
}

pub fn getMatchLiteralFloat() -> (matcher: MatchLiteralFloat) {
    MatchLiteralFloat
}

impl MatchType for MatchLiteralFloat {
    type Value = LiteralFloat;

    open spec fn can_match(&self, startPos: ModulePos) -> bool {
        true
    }

    open spec fn matches_at(&self, startPos: ModulePos, result: Result<Match<LiteralFloat>, ASTError>) -> bool {
        result == spec_literal_float_result(startPos)
    }

    fn getMatch(&self, startPos: ModulePos) -> (result: Result<Match<LiteralFloat>, ASTError>) {
        if startPos.hasToken() {
            let token = startPos.getToken();
            if let TokenType::Number = token.getTokenType() {
                if isFloat(token.getSourceRange()) {
                    let range = startPos.getRangeWithLength(1);
                    return Ok(Match::new(range.duplicate(), LiteralFloat { range }));
                }
            }
        }
        Err(ASTError::ExpectedTokenDiscriminant(startPos, TokenTypeDiscriminants::Number))
    }
}

} // verus!
