//! Errors raised while turning tokens into symbols.
use vstd::prelude::*;

use vstd::string::StringExecFns;
use vstd::utf8::encode_utf8;

use crate::module::{ModulePos, ModuleRange, Token, TokenType, TokenTypeDiscriminants};
use crate::text::{repeatText, replaceChar, spec_repeat, spec_replace};

verus! {

#[derive(Debug)]
pub enum ASTError {
    /// misc match fail
    MatchFailed(ModulePos),
    /// failed to match symbol
    ExpectedSymbol(ModulePos),
    /// failed to match a type name
    ExpectedType(ModulePos),
    /// position, expected exact token
    ExpectedToken(ModulePos, TokenType),
    /// position, expected token type discriminant
    ExpectedTokenDiscriminant(ModulePos, TokenTypeDiscriminants),
    /// expected token to be exclusive in module, found extraneous symbols
    ExpectedExclusive(ModulePos, Option<TokenTypeDiscriminants>),
    /// conflict resolution returned multiple; one entry per surviving reading
    MultipleConflict(ModulePos, Vec<ConflictOption>),
    /// conflict resolution returned none; one entry per reading
    EliminatedConflict(ModulePos, Vec<ConflictOption>),
    /// all potential matches failed
    MatchOptionsFailed(ModulePos, Vec<ASTError>),
}


/// The source texts of tokens `a..b`, one after another.
pub open spec fn concat_sources(tokens: Seq<Token>, a: nat, b: nat) -> Seq<char>
    decreases b,
{
    if b <= a || b > tokens.len() {
        Seq::empty()
    } else {
        concat_sources(tokens, a, (b - 1) as nat) + tokens[b - 1].sourceRange.text@
    }
}

/// The source around `pos` (up to five tokens on either side), on one line, and
/// the byte offset just after the token at `pos` (zero at the end of the module).
pub open spec fn spec_token_source(pos: ModulePos) -> (Seq<char>, nat) {
    let idx = pos.tokenIndex as nat;
    let len = pos.module.len();
    let end: nat = if len - idx < 5 { len } else { idx + 5 };
    let start: nat = if idx >= 5 { (idx - 5) as nat } else { 0 };
    let tokens = pos.module.tokenVec@;
    let raw = concat_sources(tokens, start, end);
    let index: nat = if idx < end { (encode_utf8(concat_sources(tokens, start, idx + 1)).len() as usize) as nat } else { 0 };
    (spec_replace(spec_replace(raw, '\n', " "@), '\r', ""@), index)
}

/// One competing reading named by a conflict error.
#[derive(Debug)]
pub struct ConflictOption {
    /// The tokens that the reading covers.
    pub range: ModuleRange,
    /// The source texts of those tokens, one after another.
    pub source: String,
    /// A description of each of those tokens.
    pub tokens: Vec<String>,
    /// The kind of symbol that the reading gives.
    pub kind: String,
}

/// The end of `range`, cut at the end of its module.
pub open spec fn clipped_end(range: ModuleRange) -> nat {
    if range.end() <= range.startPos.module.len() {
        range.end()
    } else {
        range.startPos.module.len()
    }
}

impl ConflictOption {
    /// This entry describes the reading of kind `kind` over `range`.
    pub open spec fn reports(&self, range: ModuleRange, kind: Seq<char>) -> bool {
        let tokens = range.startPos.module.tokenVec@;
        let start = range.start();
        let end = clipped_end(range);
        &&& self.range == range
        &&& self.source@ == concat_sources(tokens, start, end)
        &&& self.tokens@.len() == (if start <= end { end - start } else { 0 })
        &&& forall|i: int| 0 <= i < self.tokens@.len() ==> (#[trigger] self.tokens@[i])@
            == tokens[start + i].tokenType.spec_describe()
        &&& self.kind@ == kind
    }

    /// Describes the reading of kind `kind` over `range`.
    pub fn new(range: &ModuleRange, kind: &str) -> (option: Self)
        ensures
            option.reports(*range, kind@),
    {
        let tokens = range.getModule().getTokenVector();
        let ghost all = range.startPos.module.tokenVec@;
        let start = range.getStartIndex();
        let length = range.getLength();
        let moduleLength = tokens.len();
        let end: usize = if start > moduleLength {
            start
        } else if length <= moduleLength - start {
            start + length
        } else {
            moduleLength
        };
        let mut source = String::new();
        let mut descriptions: Vec<String> = Vec::new();
        let mut i: usize = start;
        while i < end
            invariant
                tokens@ == all,
                moduleLength == all.len(),
                start <= end <= moduleLength || end == start,
                start <= i <= end,
                source@ == concat_sources(all, start as nat, i as nat),
                descriptions@.len() == i - start,
                forall|j: int| 0 <= j < descriptions@.len() ==> (#[trigger] descriptions@[j])@
                    == all[start + j].tokenType.spec_describe(),
            decreases end - i,
        {
            let token = &tokens[i];
            source.append(token.getSourceRange().getSourceInRange());
            descriptions.push(token.getTokenType().describe());
            i = i + 1;
        }
        ConflictOption { range: range.duplicate(), source, tokens: descriptions, kind: String::from_str(kind) }
    }
}

/// An entry of a conflict error as it appears in the message: its source, its
/// tokens, and its kind with the position where it starts.
pub open spec fn spec_option_text(option: ConflictOption) -> Seq<char> {
    "(\""@ + option.source@ + "\", "@ + spec_quoted_list(option.tokens@) + ", "@ + option.kind@ + " at "@
        + option.range.startPos.spec_describe() + ")"@
}

pub open spec fn spec_option_items(options: Seq<ConflictOption>) -> Seq<char>
    decreases options.len(),
{
    if options.len() == 0 {
        Seq::empty()
    } else if options.len() == 1 {
        spec_option_text(options[0])
    } else {
        spec_option_items(options.drop_last()) + ", "@ + spec_option_text(options.last())
    }
}

/// The entries of a conflict error as a bracketed list.
pub open spec fn spec_option_list(options: Seq<ConflictOption>) -> Seq<char> {
    "["@ + spec_option_items(options) + "]"@
}

impl ConflictOption {
    pub fn describe(&self) -> (text: String)
        ensures
            text@ == spec_option_text(*self),
    {
        String::from_str("(\"").concat(self.source.as_str()).concat("\", ").concat(quotedList(&self.tokens).as_str())
            .concat(", ").concat(self.kind.as_str()).concat(" at ").concat(self.range.startPos.describe().as_str())
            .concat(")")
    }
}

pub fn optionList(options: &Vec<ConflictOption>) -> (text: String)
    ensures
        text@ == spec_option_list(options@),
{
    let mut items = String::new();
    let mut i: usize = 0;
    while i < options.len()
        invariant
            i <= options@.len(),
            items@ == spec_option_items(options@.take(i as int)),
        decreases options@.len() - i,
    {
        assert(options@.take(i + 1).drop_last() == options@.take(i as int));
        assert(options@.take(i + 1).last() == options@[i as int]);
        if i > 0 {
            items.append(", ");
        } else {
            assert(options@.take(0).len() == 0);
        }
        items.append(options[i].describe().as_str());
        i = i + 1;
    }
    assert(options@.take(options@.len() as int) == options@);
    String::from_str("[").concat(items.as_str()).concat("]")
}

/// `names` as a bracketed list of quoted strings.
pub open spec fn spec_quoted_list(names: Seq<String>) -> Seq<char> {
    "["@ + spec_quoted_items(names) + "]"@
}

pub open spec fn spec_quoted_items(names: Seq<String>) -> Seq<char>
    decreases names.len(),
{
    if names.len() == 0 {
        Seq::empty()
    } else if names.len() == 1 {
        "\""@ + names[0]@ + "\""@
    } else {
        spec_quoted_items(names.drop_last()) + ", \""@ + names.last()@ + "\""@
    }
}

pub fn quotedList(names: &Vec<String>) -> (text: String)
    ensures
        text@ == spec_quoted_list(names@),
{
    let mut items = String::new();
    let mut i: usize = 0;
    while i < names.len()
        invariant
            i <= names@.len(),
            items@ == spec_quoted_items(names@.take(i as int)),
        decreases names@.len() - i,
    {
        assert(names@.take(i + 1).drop_last() == names@.take(i as int));
        assert(names@.take(i + 1).last() == names@[i as int]);
        if i == 0 {
            assert(names@.take(0).len() == 0);
            items.append("\"");
        } else {
            items.append(", \"");
        }
        items.append(names[i].as_str());
        items.append("\"");
        i = i + 1;
    }
    assert(names@.take(names@.len() as int) == names@);
    String::from_str("[").concat(items.as_str()).concat("]")
}

impl ASTError {
    pub open spec fn spec_pos(&self) -> ModulePos {
        match self {
            ASTError::MatchFailed(pos) => *pos,
            ASTError::ExpectedSymbol(pos) => *pos,
            ASTError::ExpectedType(pos) => *pos,
            ASTError::ExpectedToken(pos, _) => *pos,
            ASTError::ExpectedTokenDiscriminant(pos, _) => *pos,
            ASTError::ExpectedExclusive(pos, _) => *pos,
            ASTError::MultipleConflict(pos, _) => *pos,
            ASTError::EliminatedConflict(pos, _) => *pos,
            ASTError::MatchOptionsFailed(pos, _) => *pos,
        }
    }

    /// All positions in the error, nested errors included, lie inside their modules.
    pub open spec fn wf(&self) -> bool
        decreases self,
    {
        &&& self.spec_pos().wf()
        &&& match self {
            ASTError::MatchOptionsFailed(_, errors) => forall|i: int|
                0 <= i < errors@.len() ==> (#[trigger] errors@[i]).wf(),
            _ => true,
        }
    }

    pub fn getModulePos(&self) -> (pos: &ModulePos)
        ensures
            *pos == self.spec_pos(),
    {
        match self {
            ASTError::MatchFailed(pos) | ASTError::ExpectedSymbol(pos) | ASTError::ExpectedType(pos)
            | ASTError::ExpectedToken(pos, _) | ASTError::ExpectedTokenDiscriminant(pos, _)
            | ASTError::ExpectedExclusive(pos, _) | ASTError::MultipleConflict(pos, _)
            | ASTError::EliminatedConflict(pos, _) => pos,
            ASTError::MatchOptionsFailed(pos, _) => pos,
        }
    }

    /// The source around the error position and the offset of the caret.
    pub fn getTokenSource(&self) -> (source: (String, usize))
        requires
            self.spec_pos().wf(),
        ensures
            source.0@ == spec_token_source(self.spec_pos()).0,
            source.1 == spec_token_source(self.spec_pos()).1,
    {
        let pos = self.getModulePos();
        let tokens = pos.getModule().getTokenVector();
        let moduleLength = tokens.len();
        let tokenIndex = pos.getTokenIndex();
        let end = if moduleLength - tokenIndex < 5 { moduleLength } else { tokenIndex + 5 };
        let mut range = pos.getRange(end - tokenIndex);
        let start = if range.getStartIndex() >= 5 { range.getStartIndex() - 5 } else { 0 };
        range.setStartIndex(start);
        let ghost allTokens = pos.module.tokenVec@;
        let mut source = String::new();
        let mut sourceIndex: usize = 0;
        let mut offset: usize = 0;
        let count = range.getLength();
        while offset < count
            invariant
                count == end - start,
                start <= tokenIndex <= end <= moduleLength,
                tokens@ == allTokens,
                moduleLength == allTokens.len(),
                offset <= count,
                source@ == concat_sources(allTokens, start as nat, (start + offset) as nat),
                sourceIndex == if tokenIndex < start + offset {
                    encode_utf8(concat_sources(allTokens, start as nat, (tokenIndex + 1) as nat)).len() as usize
                } else {
                    0
                },
            decreases count - offset,
        {
            let token = &tokens[start + offset];
            source.append(token.getSourceRange().getSourceInRange());
            if offset == tokenIndex - start {
                let text = source.as_str();
                assert(text@ == concat_sources(allTokens, start as nat, (tokenIndex + 1) as nat));
                sourceIndex = text.len();
            }
            offset = offset + 1;
        }
        let oneLine = replaceChar(replaceChar(source.as_str(), '\n', " ").as_str(), '\r', "");
        (oneLine, sourceIndex)
    }
}


/// The message of an error.
pub open spec fn spec_error_message(error: ASTError) -> Seq<char>
    decreases error, 1nat, 0nat,
{
    match error {
        ASTError::MatchFailed(pos) => "failed to find match at "@ + pos.spec_describe(),
        ASTError::ExpectedSymbol(pos) => "failed to match symbol (at "@ + pos.spec_describe() + ")"@,
        ASTError::ExpectedType(pos) => "expected type at "@ + pos.spec_describe() + ", found "@
            + pos.spec_describe_token(),
        ASTError::ExpectedToken(pos, expected) => "expected "@ + expected.spec_describe() + " at "@
            + pos.spec_describe() + ", found "@ + pos.spec_describe_token(),
        ASTError::ExpectedTokenDiscriminant(pos, expected) => "expected "@ + expected.spec_name() + " at "@
            + pos.spec_describe() + ", found "@ + pos.spec_describe_token(),
        ASTError::ExpectedExclusive(pos, expected) => match expected {
            Some(expected) => "expected single "@ + expected.spec_name() + " token, found extra "@
                + pos.spec_describe_token() + " token"@,
            None => "expected single token, found extra "@ + pos.spec_describe_token() + " token"@,
        },
        ASTError::MultipleConflict(pos, options) => "conflict resolution returned multiple potential symbols at "@
            + pos.spec_describe() + ": "@ + spec_option_list(options@),
        ASTError::EliminatedConflict(pos, options) =>
            "cannot determine appropriate symbol from multiple conflicting matches at "@ + pos.spec_describe()
            + "; all possibilities eliminated ("@ + spec_option_list(options@) + ")"@,
        ASTError::MatchOptionsFailed(pos, _) => "all potential matches failed at "@ + pos.spec_describe()
            + spec_nested_messages(error, nested_count(error)),
    }
}

pub open spec fn nested_count(error: ASTError) -> nat {
    match error {
        ASTError::MatchOptionsFailed(_, errors) => errors@.len(),
        _ => 0,
    }
}

/// The display messages of the first `n` nested errors, each on its own
/// indented line.
pub open spec fn spec_nested_messages(error: ASTError, n: nat) -> Seq<char>
    decreases error, 0nat, n,
{
    match error {
        ASTError::MatchOptionsFailed(_, errors) => {
            if n == 0 || n > errors@.len() {
                Seq::empty()
            } else {
                spec_nested_messages(error, (n - 1) as nat) + "\n\t"@ + spec_replace(
                    spec_display_message(errors@[n - 1]),
                    '\n',
                    "\n\t"@,
                )
            }
        },
        _ => Seq::empty(),
    }
}

/// The full report of an error: its message, its position, the source around
/// it and a caret under the offending token.
pub open spec fn spec_display_message(error: ASTError) -> Seq<char>
    decreases error, 2nat, 0nat,
{
    let (source, index) = spec_token_source(error.spec_pos());
    "error: "@ + spec_error_message(error) + "\n\t(at "@ + error.spec_pos().spec_describe() + ")\n\t> \""@ + source
        + "\"\n\t "@ + spec_repeat(" "@, index) + "^"@
}

impl ASTError {
    pub fn getErrorMessage(&self) -> (message: String)
        requires
            self.wf(),
        ensures
            message@ == spec_error_message(*self),
        decreases self, 1nat,
    {
        match self {
            ASTError::MatchFailed(pos) => String::from_str("failed to find match at ").concat(pos.describe().as_str()),
            ASTError::ExpectedSymbol(pos) => String::from_str("failed to match symbol (at ").concat(
                pos.describe().as_str(),
            ).concat(")"),
            ASTError::ExpectedType(pos) => String::from_str("expected type at ").concat(pos.describe().as_str()).concat(
                ", found ",
            ).concat(pos.describeToken().as_str()),
            ASTError::ExpectedToken(pos, expected) => String::from_str("expected ").concat(
                expected.describe().as_str(),
            ).concat(" at ").concat(pos.describe().as_str()).concat(", found ").concat(pos.describeToken().as_str()),
            ASTError::ExpectedTokenDiscriminant(pos, expected) => String::from_str("expected ").concat(
                expected.getName(),
            ).concat(" at ").concat(pos.describe().as_str()).concat(", found ").concat(pos.describeToken().as_str()),
            ASTError::ExpectedExclusive(pos, expected) => match expected {
                Some(expected) => String::from_str("expected single ").concat(expected.getName()).concat(
                    " token, found extra ",
                ).concat(pos.describeToken().as_str()).concat(" token"),
                None => String::from_str("expected single token, found extra ").concat(
                    pos.describeToken().as_str(),
                ).concat(" token"),
            },
            ASTError::MultipleConflict(pos, options) => String::from_str(
                "conflict resolution returned multiple potential symbols at ",
            ).concat(pos.describe().as_str()).concat(": ").concat(optionList(options).as_str()),
            ASTError::EliminatedConflict(pos, options) => String::from_str(
                "cannot determine appropriate symbol from multiple conflicting matches at ",
            ).concat(pos.describe().as_str()).concat("; all possibilities eliminated (").concat(
                optionList(options).as_str(),
            ).concat(")"),
            ASTError::MatchOptionsFailed(pos, errors) => {
                let mut message = String::from_str("all potential matches failed at ").concat(pos.describe().as_str());
                let ghost head = message@;
                let mut i: usize = 0;
                while i < errors.len()
                    invariant
                        self.wf(),
                        *self == ASTError::MatchOptionsFailed(*pos, *errors),
                        i <= errors@.len(),
                        message@ == head + spec_nested_messages(*self, i as nat),
                    decreases errors@.len() - i,
                {
                    assert(errors@[i as int].wf());
                    let nested = errors[i].getDisplayMessage();
                    message.append("\n\t");
                    message.append(replaceChar(nested.as_str(), '\n', "\n\t").as_str());
                    i = i + 1;
                }
                message
            },
        }
    }

    pub fn getDisplayMessage(&self) -> (message: String)
        requires
            self.wf(),
        ensures
            message@ == spec_display_message(*self),
        decreases self, 2nat,
    {
        let (source, index) = self.getTokenSource();
        String::from_str("error: ").concat(self.getErrorMessage().as_str()).concat("\n\t(at ").concat(
            self.getModulePos().describe().as_str(),
        ).concat(")\n\t> \"").concat(source.as_str()).concat("\"\n\t ").concat(repeatText(" ", index).as_str()).concat(
            "^",
        )
    }
}

} // verus!
