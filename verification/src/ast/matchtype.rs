//! Matchers: objects that try to read a value from the tokens at a position.
use vstd::prelude::*;

use crate::ast::error::ASTError;
use crate::module::{Module, ModulePos, ModuleRange};

verus! {

/// A value read from a range of tokens.
#[derive(Debug)]
pub struct Match<T> {
    pub range: ModuleRange,
    pub value: T,
}

impl<T> Match<T> {
    pub fn new(range: ModuleRange, value: T) -> (matched: Self)
        ensures
            matched.range == range,
            matched.value == value,
    {
        Match { range, value }
    }

    pub fn getRange(&self) -> (range: &ModuleRange)
        ensures
            *range == self.range,
    {
        &self.range
    }

    pub fn getValue(&self) -> (value: &T)
        ensures
            *value == self.value,
    {
        &self.value
    }

    pub fn take(self) -> (parts: (ModuleRange, T))
        ensures
            parts.0 == self.range,
            parts.1 == self.value,
    {
        (self.range, self.value)
    }
}


/// A successful match starts at the position it was asked for and lies inside its module.
pub open spec fn match_range_ok<V>(startPos: ModulePos, result: Result<Match<V>, ASTError>) -> bool {
    result matches Ok(m) ==> m.range.wf() && m.range.startPos == startPos
}

/// Something that reads a value from the tokens at a position.
pub trait MatchType: Sized {
    type Value;

    /// Matching at `startPos` is allowed (it neither panics nor loops).
    spec fn can_match(&self, startPos: ModulePos) -> bool;

    /// `result` is an outcome of matching at `startPos`.
    spec fn matches_at(&self, startPos: ModulePos, result: Result<Match<Self::Value>, ASTError>) -> bool;

    fn getMatch(&self, startPos: ModulePos) -> (result: Result<Match<Self::Value>, ASTError>)
        requires
            startPos.wf(),
            self.can_match(startPos),
        ensures
            self.matches_at(startPos, result),
            match_range_ok(startPos, result),
    ;
}

/// Matches `T` if it can; otherwise matches nothing, with an empty range.
#[derive(Clone)]
pub struct OptionalMatch<T>(pub T);

impl<T: MatchType> OptionalMatch<T> {
    pub fn new(value: T) -> (matcher: Self)
        ensures
            matcher.0 == value,
    {
        OptionalMatch(value)
    }
}

impl<T: MatchType> MatchType for OptionalMatch<T> {
    type Value = Option<T::Value>;

    open spec fn can_match(&self, startPos: ModulePos) -> bool {
        self.0.can_match(startPos)
    }

    open spec fn matches_at(&self, startPos: ModulePos, result: Result<Match<Option<T::Value>>, ASTError>) -> bool {
        exists|inner: Result<Match<T::Value>, ASTError>| #[trigger] self.0.matches_at(startPos, inner) && result == match inner {
            Ok(m) => Ok::<Match<Option<T::Value>>, ASTError>(Match { range: m.range, value: Some(m.value) }),
            Err(_) => Ok::<Match<Option<T::Value>>, ASTError>(Match { range: startPos.spec_range(0), value: None }),
        }
    }

    fn getMatch(&self, startPos: ModulePos) -> (result: Result<Match<Option<T::Value>>, ASTError>) {
        let inner = self.0.getMatch(startPos.duplicate());
        match inner {
            Ok(matched) => {
                let (range, value) = matched.take();
                Ok(Match::new(range, Some(value)))
            },
            Err(_) => Ok(Match::new(startPos.getRange(0), None)),
        }
    }
}

/// A matcher made from a function of the start position.
#[derive(Clone)]
pub struct MatchFrom<F> {
    pub description: String,
    pub function: F,
}

pub fn getMatchFrom<S, F: Fn(ModulePos) -> Result<Match<S>, ASTError>>(description: String, function: F) -> (matcher: MatchFrom<F>)
    ensures
        matcher.description@ == description@,
        matcher.function == function,
{
    MatchFrom { description, function }
}

impl<S, F: Fn(ModulePos) -> Result<Match<S>, ASTError>> MatchType for MatchFrom<F> {
    type Value = S;

    open spec fn can_match(&self, startPos: ModulePos) -> bool {
        &&& call_requires(self.function, (startPos,))
        &&& forall|result: Result<Match<S>, ASTError>| #[trigger] call_ensures(self.function, (startPos,), result) ==> match_range_ok(startPos, result)
    }

    open spec fn matches_at(&self, startPos: ModulePos, result: Result<Match<S>, ASTError>) -> bool {
        call_ensures(self.function, (startPos,), result)
    }

    fn getMatch(&self, startPos: ModulePos) -> (result: Result<Match<S>, ASTError>) {
        (self.function)(startPos)
    }
}

/// Matches `T` and turns its value with a function of the range and the value.
#[derive(Clone)]
pub struct MappedMatch<T, F> {
    pub matcher: T,
    pub function: F,
}

pub fn getMappedMatch<S, T: MatchType, F: Fn(ModuleRange, T::Value) -> Result<S, ASTError>>(matcher: T, function: F) -> (mapped: MappedMatch<T, F>)
    ensures
        mapped.matcher == matcher,
        mapped.function == function,
{
    MappedMatch { matcher, function }
}

impl<S, T: MatchType, F: Fn(ModuleRange, T::Value) -> Result<S, ASTError>> MatchType for MappedMatch<T, F> {
    type Value = S;

    open spec fn can_match(&self, startPos: ModulePos) -> bool {
        &&& self.matcher.can_match(startPos)
        &&& forall|m: Match<T::Value>| #[trigger] self.matcher.matches_at(startPos, Ok(m)) ==> call_requires(self.function, (m.range, m.value))
    }

    open spec fn matches_at(&self, startPos: ModulePos, result: Result<Match<S>, ASTError>) -> bool {
        exists|inner: Result<Match<T::Value>, ASTError>| #[trigger] self.matcher.matches_at(startPos, inner) && match inner {
            Err(e) => result == Err::<Match<S>, ASTError>(e),
            Ok(m) => exists|mapped: Result<S, ASTError>| #[trigger] call_ensures(self.function, (m.range, m.value), mapped) && match mapped {
                Err(e) => result == Err::<Match<S>, ASTError>(e),
                Ok(v) => result == Ok::<Match<S>, ASTError>(Match { range: m.range, value: v }),
            },
        }
    }

    fn getMatch(&self, startPos: ModulePos) -> (result: Result<Match<S>, ASTError>) {
        let inner = self.matcher.getMatch(startPos);
        match inner {
            Err(e) => Err(e),
            Ok(matched) => {
                let ghost m = matched;
                let (range, value) = matched.take();
                let kept = range.duplicate();
                let mapped = (self.function)(range, value);
                match mapped {
                    Err(e) => Err(e),
                    Ok(v) => Ok(Match::new(kept, v)),
                }
            },
        }
    }
}

/// The range from the start of `first` to the end of `second`.
pub open spec fn joined_range(first: ModuleRange, second: ModuleRange) -> ModuleRange {
    ModuleRange { startPos: first.startPos, length: (second.end() - first.start()) as usize }
}

/// Matches `A` and then `B` right after it.
impl<A: MatchType, B: MatchType> MatchType for (A, B) {
    type Value = (A::Value, B::Value);

    open spec fn can_match(&self, startPos: ModulePos) -> bool {
        &&& self.0.can_match(startPos)
        &&& forall|m: Match<A::Value>| #[trigger] self.0.matches_at(startPos, Ok(m)) ==> self.1.can_match(m.range.spec_end_pos())
    }

    open spec fn matches_at(&self, startPos: ModulePos, result: Result<Match<(A::Value, B::Value)>, ASTError>) -> bool {
        exists|first: Result<Match<A::Value>, ASTError>| #[trigger] self.0.matches_at(startPos, first) && match first {
            Err(e) => result == Err::<Match<(A::Value, B::Value)>, ASTError>(e),
            Ok(m) => exists|second: Result<Match<B::Value>, ASTError>| #[trigger] self.1.matches_at(m.range.spec_end_pos(), second)
                && match second {
                Err(e) => result == Err::<Match<(A::Value, B::Value)>, ASTError>(e),
                Ok(n) => result == Ok::<Match<(A::Value, B::Value)>, ASTError>(
                    Match { range: joined_range(m.range, n.range), value: (m.value, n.value) },
                ),
            },
        }
    }

    fn getMatch(&self, startPos: ModulePos) -> (result: Result<Match<(A::Value, B::Value)>, ASTError>) {
        let first = self.0.getMatch(startPos);
        match first {
            Err(e) => Err(e),
            Ok(firstMatch) => {
                let ghost fm = firstMatch;
                let endPos = firstMatch.getRange().getEndPos();
                let ghost ep = endPos;
                let second = self.1.getMatch(endPos);
                match second {
                    Err(e) => Err(e),
                    Ok(secondMatch) => {
                        let (mut firstRange, firstValue) = firstMatch.take();
                        let (range, value) = secondMatch.take();
                        assert(range.startPos == ep);
                        assert(range.wf());
                        assert(ep.module == firstRange.startPos.module);
                        assert(range.end() >= ep.tokenIndex);
                        firstRange.setEndIndex(range.getEndIndex());
                        assert(firstRange == joined_range(fm.range, range));
                        Ok(Match::new(firstRange, (firstValue, value)))
                    },
                }
            },
        }
    }
}


/// `values` are read one after another from `startPos` by `m`, the last one ending at `endPos`.
pub open spec fn repeated_run<T: MatchType>(m: T, startPos: ModulePos, values: Seq<T::Value>, endPos: ModulePos) -> bool
    decreases values.len(),
{
    if values.len() == 0 {
        endPos == startPos
    } else {
        exists|previous: ModulePos, last: Match<T::Value>|
            #![trigger m.matches_at(previous, Ok(last))]
            repeated_run(m, startPos, values.drop_last(), previous) && m.matches_at(previous, Ok(last))
                && match_range_ok(previous, Ok::<Match<T::Value>, ASTError>(last)) && last.value == values.last()
                && last.range.spec_end_pos() == endPos
    }
}

/// `m` may be used anywhere in the module of `startPos`, and every match it makes
/// in front of a token covers at least one token.
pub open spec fn usable_throughout<T: MatchType>(m: T, startPos: ModulePos) -> bool {
    &&& forall|p: ModulePos| p.module == startPos.module && p.wf() ==> #[trigger] m.can_match(p)
    &&& forall|p: ModulePos, r: Match<T::Value>|
        #![trigger m.matches_at(p, Ok(r))]
        p.has_token() && m.matches_at(p, Ok(r)) ==> r.range.length > 0
}

/// The end position of the module of `pos`.
pub open spec fn module_end(pos: ModulePos) -> ModulePos {
    ModulePos { module: pos.module, tokenIndex: pos.module.len() as usize }
}

proof fn lemma_run_extend<T: MatchType>(
    m: T,
    startPos: ModulePos,
    values: Seq<T::Value>,
    previous: ModulePos,
    last: Match<T::Value>,
)
    requires
        repeated_run(m, startPos, values, previous),
        m.matches_at(previous, Ok(last)),
        match_range_ok(previous, Ok::<Match<T::Value>, ASTError>(last)),
    ensures
        repeated_run(m, startPos, values.push(last.value), last.range.spec_end_pos()),
{
    assert(values.push(last.value).drop_last() == values);
    assert(values.push(last.value).last() == last.value);
}

/// Reads `T` repeatedly until it fails or the module ends; fails unless at least
/// `minimum` values were read.
#[derive(Clone)]
pub struct RepeatingMatch<T> {
    pub minimum: usize,
    pub matcher: T,
}

pub fn getRepeatingMatch<T: MatchType>(minimum: usize, matchValue: T) -> (matcher: RepeatingMatch<T>)
    ensures
        matcher.minimum == minimum,
        matcher.matcher == matchValue,
{
    RepeatingMatch { minimum, matcher: matchValue }
}

impl<T: MatchType> MatchType for RepeatingMatch<T> {
    type Value = Vec<T::Value>;

    open spec fn can_match(&self, startPos: ModulePos) -> bool {
        usable_throughout(self.matcher, startPos)
    }

    open spec fn matches_at(&self, startPos: ModulePos, result: Result<Match<Vec<T::Value>>, ASTError>) -> bool {
        exists|values: Seq<T::Value>, endPos: ModulePos|
            #![trigger repeated_run(self.matcher, startPos, values, endPos)]
            repeated_run(self.matcher, startPos, values, endPos) && (!endPos.has_token() || exists|e: ASTError|
                #[trigger] self.matcher.matches_at(endPos, Err(e))) && if values.len() < self.minimum {
                result == Err::<Match<Vec<T::Value>>, ASTError>(ASTError::MatchFailed(startPos))
            } else {
                result matches Ok(r) && r.value@ == values && r.range.startPos == startPos && r.range.spec_end_pos()
                    == endPos
            }
    }

    fn getMatch(&self, startPos: ModulePos) -> (result: Result<Match<Vec<T::Value>>, ASTError>) {
        let mut matchVec: Vec<T::Value> = Vec::new();
        let module = startPos.getModule();
        let endIndex = module.getTokenVector().len();
        let mut pos = startPos.duplicate();
        assert(repeated_run(self.matcher, startPos, matchVec@, pos));
        while pos.getTokenIndex() != endIndex
            invariant_except_break
                pos.wf(),
                pos.module == startPos.module,
                startPos.tokenIndex <= pos.tokenIndex,
                endIndex == startPos.module.len(),
                usable_throughout(self.matcher, startPos),
                repeated_run(self.matcher, startPos, matchVec@, pos),
            ensures
                pos.wf(),
                pos.module == startPos.module,
                startPos.tokenIndex <= pos.tokenIndex,
                repeated_run(self.matcher, startPos, matchVec@, pos),
                !pos.has_token() || exists|e: ASTError| #[trigger] self.matcher.matches_at(pos, Err(e)),
            decreases endIndex - pos.tokenIndex,
        {
            let nextMatch = self.matcher.getMatch(pos.duplicate());
            match nextMatch {
                Ok(matched) => {
                    let ghost previous = pos;
                    let ghost last = matched;
                    proof { lemma_run_extend(self.matcher, startPos, matchVec@, previous, last); }
                    let (range, value) = matched.take();
                    pos = range.getEndPos();
                    matchVec.push(value);
                },
                Err(e) => {
                    break;
                },
            }
        }
        if matchVec.len() < self.minimum {
            Err(ASTError::MatchFailed(startPos))
        } else {
            let startIndex = startPos.getTokenIndex();
            let range = Module::getModuleRange(startPos.getModule(), startIndex..pos.getTokenIndex());
            Ok(Match::new(range, matchVec))
        }
    }
}

/// Lowering the minimum of a repeating matcher keeps every success it makes,
/// with the same range and the same values.
pub proof fn law_lower_minimum<T: MatchType>(
    matcher: T,
    low: usize,
    high: usize,
    startPos: ModulePos,
    result: Result<Match<Vec<T::Value>>, ASTError>,
)
    requires
        low <= high,
        (RepeatingMatch { minimum: high, matcher: matcher }).matches_at(startPos, result),
        result is Ok,
    ensures
        (RepeatingMatch { minimum: low, matcher: matcher }).matches_at(startPos, result),
{
    let (values, endPos) = choose|values: Seq<T::Value>, endPos: ModulePos|
        #![trigger repeated_run(matcher, startPos, values, endPos)]
        repeated_run(matcher, startPos, values, endPos) && (!endPos.has_token() || exists|e: ASTError|
            #[trigger] matcher.matches_at(endPos, Err(e))) && if values.len() < high {
            result == Err::<Match<Vec<T::Value>>, ASTError>(ASTError::MatchFailed(startPos))
        } else {
            result matches Ok(r) && r.value@ == values && r.range.startPos == startPos && r.range.spec_end_pos()
                == endPos
        };
    let lowered = RepeatingMatch { minimum: low, matcher: matcher };
    assert(lowered.matcher == matcher);
    assert(repeated_run(lowered.matcher, startPos, values, endPos));
    assert(values.len() >= low);
}

/// A repeating matcher with no minimum never fails.
pub proof fn law_no_minimum_succeeds<T: MatchType>(
    matcher: T,
    startPos: ModulePos,
    result: Result<Match<Vec<T::Value>>, ASTError>,
)
    requires
        (RepeatingMatch { minimum: 0, matcher: matcher }).matches_at(startPos, result),
    ensures
        result is Ok,
{
}

/// Reads `T` again and again until the module ends; the first failure is the result.
#[derive(Clone)]
pub struct MatchAll<T> {
    pub matcher: T,
}

pub fn getMatchAll<T: MatchType>(matchType: T) -> (matcher: MatchAll<T>)
    ensures
        matcher.matcher == matchType,
{
    MatchAll { matcher: matchType }
}

impl<T: MatchType> MatchType for MatchAll<T> {
    type Value = Vec<T::Value>;

    open spec fn can_match(&self, startPos: ModulePos) -> bool {
        usable_throughout(self.matcher, startPos)
    }

    open spec fn matches_at(&self, startPos: ModulePos, result: Result<Match<Vec<T::Value>>, ASTError>) -> bool {
        match result {
            Ok(r) => {
                &&& repeated_run(self.matcher, startPos, r.value@, module_end(startPos))
                &&& r.range.startPos == startPos
                &&& r.range.spec_end_pos() == module_end(startPos)
            },
            Err(e) => exists|values: Seq<T::Value>, endPos: ModulePos|
                #![trigger repeated_run(self.matcher, startPos, values, endPos)]
                repeated_run(self.matcher, startPos, values, endPos) && endPos.has_token()
                    && self.matcher.matches_at(endPos, Err(e)),
        }
    }

    fn getMatch(&self, startPos: ModulePos) -> (result: Result<Match<Vec<T::Value>>, ASTError>) {
        let startIndex = startPos.getTokenIndex();
        let endIndex = startPos.getModule().getTokenVector().len();
        let mut matchVec: Vec<T::Value> = Vec::new();
        let mut pos = startPos.duplicate();
        assert(repeated_run(self.matcher, startPos, matchVec@, pos));
        while pos.getTokenIndex() != endIndex
            invariant
                pos.wf(),
                pos.module == startPos.module,
                startPos.tokenIndex <= pos.tokenIndex,
                endIndex == startPos.module.len(),
                usable_throughout(self.matcher, startPos),
                repeated_run(self.matcher, startPos, matchVec@, pos),
            decreases endIndex - pos.tokenIndex,
        {
            let matchValue = self.matcher.getMatch(pos.duplicate());
            match matchValue {
                Ok(matched) => {
                    let ghost previous = pos;
                    let ghost last = matched;
                    proof { lemma_run_extend(self.matcher, startPos, matchVec@, previous, last); }
                    let (range, value) = matched.take();
                    pos = range.getEndPos();
                    matchVec.push(value);
                },
                Err(e) => {
                    return Err(e);
                },
            }
        }
        assert(pos == module_end(startPos));
        let range = Module::getModuleRange(startPos.getModule(), startIndex..endIndex);
        Ok(Match::new(range, matchVec))
    }
}


/// The successful results among `results`, in order.
pub open spec fn successes<S>(results: Seq<Result<Match<S>, ASTError>>) -> Seq<Match<S>>
    decreases results.len(),
{
    if results.len() == 0 {
        Seq::empty()
    } else {
        match results.last() {
            Ok(m) => successes(results.drop_last()).push(m),
            Err(_) => successes(results.drop_last()),
        }
    }
}

/// The errors among `results`, in order.
pub open spec fn failures<S>(results: Seq<Result<Match<S>, ASTError>>) -> Seq<ASTError>
    decreases results.len(),
{
    if results.len() == 0 {
        Seq::empty()
    } else {
        match results.last() {
            Ok(_) => failures(results.drop_last()),
            Err(e) => failures(results.drop_last()).push(e),
        }
    }
}

proof fn lemma_split_concat<S>(a: Seq<Result<Match<S>, ASTError>>, b: Seq<Result<Match<S>, ASTError>>)
    ensures
        successes(a + b) == successes(a) + successes(b),
        failures(a + b) == failures(a) + failures(b),
    decreases b.len(),
{
    if b.len() == 0 {
        assert(a + b == a);
        assert(successes(b) == Seq::<Match<S>>::empty());
        assert(successes(a) + successes(b) == successes(a));
        assert(failures(a) + failures(b) == failures(a));
    } else {
        lemma_split_concat(a, b.drop_last());
        assert((a + b).drop_last() == a + b.drop_last());
        assert((a + b).last() == b.last());
        match b.last() {
            Ok(m) => {
                assert(successes(a) + successes(b.drop_last()).push(m) == (successes(a) + successes(b.drop_last())).push(m));
            },
            Err(e) => {
                assert(failures(a) + failures(b.drop_last()).push(e) == (failures(a) + failures(b.drop_last())).push(e));
            },
        }
    }
}

/// One alternative of a choice: a matcher and a function that turns its value
/// into the choice's value.
#[derive(Clone)]
pub struct MatchOption<F, M> {
    pub matchType: F,
    pub mappingFunction: M,
}

impl<F, M> MatchOption<F, M> {
    pub fn new<S, T>(matchType: F, mappingFunction: M) -> (option: Self)
        where F: MatchType<Value = T>, M: Fn(&ModuleRange, T) -> Result<S, ASTError>
        ensures
            option.matchType == matchType,
            option.mappingFunction == mappingFunction,
    {
        MatchOption { matchType, mappingFunction }
    }
}

/// A list of alternatives, each tried at the same position.
pub trait MatchOptions: Sized {
    type Value;

    spec fn can_match_all(&self, startPos: ModulePos) -> bool;

    /// `results` are outcomes of trying every alternative, in order.
    spec fn outcomes(&self, startPos: ModulePos, results: Seq<Result<Match<Self::Value>, ASTError>>) -> bool;

    fn collect(&self, startPos: &ModulePos, matches: &mut Vec<Match<Self::Value>>, errors: &mut Vec<ASTError>)
        requires
            startPos.wf(),
            self.can_match_all(*startPos),
        ensures
            exists|results: Seq<Result<Match<Self::Value>, ASTError>>| #[trigger] self.outcomes(*startPos, results)
                && final(matches)@ == old(matches)@ + successes(results)
                && final(errors)@ == old(errors)@ + failures(results),
            forall|i: int| old(matches)@.len() <= i < final(matches)@.len() ==> match_range_ok(
                *startPos,
                Ok::<Match<Self::Value>, ASTError>(#[trigger] final(matches)@[i]),
            ),
            forall|i: int| 0 <= i < old(matches)@.len() ==> final(matches)@[i] == old(matches)@[i],
    ;
}

impl<S, T, F: MatchType<Value = T>, M: Fn(&ModuleRange, T) -> Result<S, ASTError>> MatchOptions for MatchOption<F, M> {
    type Value = S;

    open spec fn can_match_all(&self, startPos: ModulePos) -> bool {
        &&& self.matchType.can_match(startPos)
        &&& forall|m: Match<T>| #[trigger] self.matchType.matches_at(startPos, Ok(m)) ==> call_requires(
            self.mappingFunction,
            (&m.range, m.value),
        )
    }

    open spec fn outcomes(&self, startPos: ModulePos, results: Seq<Result<Match<S>, ASTError>>) -> bool {
        &&& results.len() == 1
        &&& exists|inner: Result<Match<T>, ASTError>| #[trigger] self.matchType.matches_at(startPos, inner) && match inner {
            Err(e) => results[0] == Err::<Match<S>, ASTError>(e),
            Ok(m) => exists|mapped: Result<S, ASTError>| #[trigger] call_ensures(self.mappingFunction, (&m.range, m.value), mapped)
                && match mapped {
                Err(e) => results[0] == Err::<Match<S>, ASTError>(e),
                Ok(v) => results[0] == Ok::<Match<S>, ASTError>(Match { range: m.range, value: v }),
            },
        }
    }

    fn collect(&self, startPos: &ModulePos, matches: &mut Vec<Match<S>>, errors: &mut Vec<ASTError>) {
        let inner = self.matchType.getMatch(startPos.duplicate());
        let ghost result: Result<Match<S>, ASTError>;
        match inner {
            Err(e) => {
                proof { result = Err(e); }
                errors.push(e);
            },
            Ok(matched) => {
                let (range, value) = matched.take();
                let mapped = (self.mappingFunction)(&range, value);
                match mapped {
                    Err(e) => {
                        proof { result = Err(e); }
                        errors.push(e);
                    },
                    Ok(v) => {
                        let m = Match::new(range, v);
                        proof { result = Ok(m); }
                        matches.push(m);
                    },
                }
            },
        }
        let ghost results = seq![result];
        assert(results.drop_last() =~= Seq::<Result<Match<S>, ASTError>>::empty());
        assert(successes(Seq::<Result<Match<S>, ASTError>>::empty()) == Seq::<Match<S>>::empty());
        assert(failures(Seq::<Result<Match<S>, ASTError>>::empty()) == Seq::<ASTError>::empty());
        assert(self.outcomes(*startPos, results));
    }
}

impl<A: MatchOptions, B: MatchOptions<Value = A::Value>> MatchOptions for (A, B) {
    type Value = A::Value;

    open spec fn can_match_all(&self, startPos: ModulePos) -> bool {
        self.0.can_match_all(startPos) && self.1.can_match_all(startPos)
    }

    open spec fn outcomes(&self, startPos: ModulePos, results: Seq<Result<Match<A::Value>, ASTError>>) -> bool {
        exists|first: Seq<Result<Match<A::Value>, ASTError>>, second: Seq<Result<Match<A::Value>, ASTError>>|
            #![trigger self.0.outcomes(startPos, first), self.1.outcomes(startPos, second)]
            self.0.outcomes(startPos, first) && self.1.outcomes(startPos, second) && results == first + second
    }

    fn collect(&self, startPos: &ModulePos, matches: &mut Vec<Match<A::Value>>, errors: &mut Vec<ASTError>) {
        let ghost matches0 = matches@;
        let ghost errors0 = errors@;
        self.0.collect(startPos, matches, errors);
        let ghost matches1 = matches@;
        let ghost errors1 = errors@;
        self.1.collect(startPos, matches, errors);
        let ghost first = choose|r: Seq<Result<Match<A::Value>, ASTError>>| #[trigger] self.0.outcomes(*startPos, r)
            && matches1 == matches0 + successes(r) && errors1 == errors0 + failures(r);
        let ghost second = choose|r: Seq<Result<Match<A::Value>, ASTError>>| #[trigger] self.1.outcomes(*startPos, r)
            && matches@ == matches1 + successes(r) && errors@ == errors1 + failures(r);
        proof {
            lemma_split_concat(first, second);
            assert(matches@ == matches0 + successes(first + second));
            assert(errors@ == errors0 + failures(first + second));
            assert(self.outcomes(*startPos, first + second));
        }
    }
}

/// Tries every alternative and lets `resolver` pick from the successes and failures.
#[derive(Clone)]
pub struct MatchAnyOf<L, R> {
    pub options: L,
    pub resolver: R,
}

pub fn getMatchAnyOf<S, L: MatchOptions<Value = S>, R: Fn(ModulePos, Vec<Match<S>>, Vec<ASTError>) -> Result<Match<S>, ASTError>>(
    options: L,
    conflictResolver: R,
) -> (matcher: MatchAnyOf<L, R>)
    ensures
        matcher.options == options,
        matcher.resolver == conflictResolver,
{
    MatchAnyOf { options, resolver: conflictResolver }
}

pub open spec fn all_ranges_ok<S>(startPos: ModulePos, matches: Seq<Match<S>>) -> bool {
    forall|i: int| 0 <= i < matches.len() ==> match_range_ok(startPos, Ok::<Match<S>, ASTError>(#[trigger] matches[i]))
}

impl<L: MatchOptions, R: Fn(ModulePos, Vec<Match<L::Value>>, Vec<ASTError>) -> Result<Match<L::Value>, ASTError>> MatchType for MatchAnyOf<L, R> {
    type Value = L::Value;

    open spec fn can_match(&self, startPos: ModulePos) -> bool {
        &&& self.options.can_match_all(startPos)
        &&& forall|matches: Vec<Match<L::Value>>, errors: Vec<ASTError>| #[trigger] call_requires(self.resolver, (startPos, matches, errors))
        &&& forall|matches: Vec<Match<L::Value>>, errors: Vec<ASTError>, result: Result<Match<L::Value>, ASTError>|
            all_ranges_ok(startPos, matches@) && #[trigger] call_ensures(self.resolver, (startPos, matches, errors), result)
                ==> match_range_ok(startPos, result)
    }

    open spec fn matches_at(&self, startPos: ModulePos, result: Result<Match<L::Value>, ASTError>) -> bool {
        exists|results: Seq<Result<Match<L::Value>, ASTError>>, matches: Vec<Match<L::Value>>, errors: Vec<ASTError>|
            #![trigger self.options.outcomes(startPos, results), call_ensures(self.resolver, (startPos, matches, errors), result)]
            self.options.outcomes(startPos, results) && matches@ == successes(results) && errors@ == failures(results)
                && call_ensures(self.resolver, (startPos, matches, errors), result)
    }

    fn getMatch(&self, startPos: ModulePos) -> (result: Result<Match<L::Value>, ASTError>) {
        let mut matchVec: Vec<Match<L::Value>> = Vec::new();
        let mut errVec: Vec<ASTError> = Vec::new();
        self.options.collect(&startPos, &mut matchVec, &mut errVec);
        assert(matchVec@ =~= Seq::<Match<L::Value>>::empty() + matchVec@);
        let ghost matches = matchVec;
        let ghost errors = errVec;
        let ghost results = choose|r: Seq<Result<Match<L::Value>, ASTError>>| #[trigger] self.options.outcomes(startPos, r)
            && matchVec@ == Seq::<Match<L::Value>>::empty() + successes(r) && errVec@ == Seq::<ASTError>::empty() + failures(r);
        assert(all_ranges_ok(startPos, matchVec@));
        let result = (self.resolver)(startPos, matchVec, errVec);
        assert(successes(results) == matches@);
        assert(failures(results) == errors@);
        result
    }
}

/// Tries every alternative; succeeds when exactly one succeeds.
#[derive(Clone)]
pub struct MatchOneOf<L> {
    pub options: L,
}

pub fn getMatchOneOf<L: MatchOptions>(options: L) -> (matcher: MatchOneOf<L>)
    ensures
        matcher.options == options,
{
    MatchOneOf { options }
}

/// The choice among the outcomes `results` of all alternatives at `startPos`.
pub open spec fn one_of_result<S>(startPos: ModulePos, results: Seq<Result<Match<S>, ASTError>>, result: Result<Match<S>, ASTError>) -> bool {
    let found = successes(results);
    if found.len() == 1 {
        result == Ok::<Match<S>, ASTError>(found[0])
    } else if found.len() == 0 {
        result matches Err(ASTError::MatchOptionsFailed(p, errors)) && p == startPos && errors@ == failures(results)
    } else {
        result == Err::<Match<S>, ASTError>(ASTError::MatchFailed(startPos))
    }
}

impl<L: MatchOptions> MatchType for MatchOneOf<L> {
    type Value = L::Value;

    open spec fn can_match(&self, startPos: ModulePos) -> bool {
        self.options.can_match_all(startPos)
    }

    open spec fn matches_at(&self, startPos: ModulePos, result: Result<Match<L::Value>, ASTError>) -> bool {
        exists|results: Seq<Result<Match<L::Value>, ASTError>>| #[trigger] self.options.outcomes(startPos, results)
            && one_of_result(startPos, results, result)
    }

    fn getMatch(&self, startPos: ModulePos) -> (result: Result<Match<L::Value>, ASTError>) {
        let mut matchVec: Vec<Match<L::Value>> = Vec::new();
        let mut errVec: Vec<ASTError> = Vec::new();
        self.options.collect(&startPos, &mut matchVec, &mut errVec);
        let ghost results = choose|r: Seq<Result<Match<L::Value>, ASTError>>| #[trigger] self.options.outcomes(startPos, r)
            && matchVec@ == Seq::<Match<L::Value>>::empty() + successes(r) && errVec@ == Seq::<ASTError>::empty() + failures(r);
        assert(Seq::<Match<L::Value>>::empty() + successes(results) == successes(results));
        assert(Seq::<ASTError>::empty() + failures(results) == failures(results));
        if matchVec.len() == 1 {
            let found = matchVec.pop().unwrap();
            Ok(found)
        } else if matchVec.len() == 0 {
            Err(ASTError::MatchOptionsFailed(startPos, errVec))
        } else {
            Err(ASTError::MatchFailed(startPos))
        }
    }
}

} // verus!
