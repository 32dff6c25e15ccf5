//! Choosing one symbol when several matchers succeed at the same position.
//!
//! Preferences are applied in the order they were set. A plain preference
//! `(prefer, over)` drops every option of kind `over` when an option of kind
//! `prefer` is present. A longer-only preference compares the first option of
//! each kind; when the `prefer` option is shorter, every option of its kind is
//! dropped, and otherwise one survivor is dropped by position (see
//! `apply_preference`).
use vstd::prelude::*;

use crate::ast::error::{ASTError, ConflictOption};
use crate::ast::matchtype::Match;
use crate::ast::symbol::{
    spec_class_member_discriminant, spec_symbol_discriminant, ClassMember, ClassMemberDiscriminants, Symbol,
    SymbolDiscriminants,
};
use crate::module::ModulePos;

verus! {

/// A kind of symbol, as used by conflict resolution.
pub trait SymbolKind: Sized + Copy {
    spec fn spec_kind_name(&self) -> Seq<char>;

    fn isSameKind(&self, other: &Self) -> (same: bool)
        ensures
            same == (*self == *other),
    ;

    fn kindName(&self) -> (name: &'static str)
        ensures
            name@ == self.spec_kind_name(),
    ;
}

/// A value that has a kind.
pub trait HasKind {
    type Kind: SymbolKind;

    spec fn spec_kind(&self) -> Self::Kind;

    fn getKind(&self) -> (kind: Self::Kind)
        ensures
            kind == self.spec_kind(),
    ;
}

impl SymbolKind for SymbolDiscriminants {
    open spec fn spec_kind_name(&self) -> Seq<char> {
        self.spec_name()
    }

    fn isSameKind(&self, other: &Self) -> (same: bool) {
        *self == *other
    }

    fn kindName(&self) -> (name: &'static str) {
        self.getName()
    }
}

impl SymbolKind for ClassMemberDiscriminants {
    open spec fn spec_kind_name(&self) -> Seq<char> {
        self.spec_name()
    }

    fn isSameKind(&self, other: &Self) -> (same: bool) {
        *self == *other
    }

    fn kindName(&self) -> (name: &'static str) {
        self.getName()
    }
}

impl HasKind for Symbol {
    type Kind = SymbolDiscriminants;

    open spec fn spec_kind(&self) -> SymbolDiscriminants {
        spec_symbol_discriminant(*self)
    }

    fn getKind(&self) -> (kind: SymbolDiscriminants) {
        SymbolDiscriminants::fromSymbol(self)
    }
}

impl HasKind for ClassMember {
    type Kind = ClassMemberDiscriminants;

    open spec fn spec_kind(&self) -> ClassMemberDiscriminants {
        spec_class_member_discriminant(*self)
    }

    fn getKind(&self) -> (kind: ClassMemberDiscriminants) {
        ClassMemberDiscriminants::fromMember(self)
    }
}

/// `idx` with position `p` removed; the last entry takes its place.
pub open spec fn spec_swap_remove(idx: Seq<usize>, p: int) -> Seq<usize> {
    idx.update(p, idx.last()).drop_last()
}

/// The surviving indices after removing, from position `p` on, every index
/// whose option satisfies `pred` (removed entries are replaced by the last entry).
pub open spec fn remove_if_from<S>(
    options: Seq<Match<S>>,
    idx: Seq<usize>,
    pred: spec_fn(Match<S>) -> bool,
    p: nat,
) -> Seq<usize>
    decreases idx.len() - p,
{
    if p >= idx.len() {
        idx
    } else if pred(options[idx[p as int] as int]) {
        remove_if_from(options, spec_swap_remove(idx, p as int), pred, p)
    } else {
        remove_if_from(options, idx, pred, p + 1)
    }
}

pub open spec fn kind_is<S: HasKind>(kind: S::Kind) -> spec_fn(Match<S>) -> bool {
    |m: Match<S>| m.value.spec_kind() == kind
}

/// The first position from `p` on whose option has kind `kind`.
pub open spec fn first_with_kind<S: HasKind>(options: Seq<Match<S>>, idx: Seq<usize>, kind: S::Kind, p: nat) -> Option<nat>
    decreases idx.len() - p,
{
    if p >= idx.len() {
        None
    } else if options[idx[p as int] as int].value.spec_kind() == kind {
        Some(p)
    } else {
        first_with_kind(options, idx, kind, p + 1)
    }
}

/// The surviving indices after one preference; `None` where the index to drop
/// is not a position of the survivor list.
///
/// A longer-only preference that keeps the preferred option drops the survivor
/// whose *position in the survivor list* equals the `over` option's index among
/// all options. Once earlier preferences have removed survivors, that position
/// can name a different survivor than the `over` option, or none at all; this
/// is how resolution behaves, and the contracts below state it as it is.
pub open spec fn apply_preference<S: HasKind>(
    options: Seq<Match<S>>,
    idx: Seq<usize>,
    preference: (S::Kind, S::Kind, bool),
) -> Option<Seq<usize>> {
    let (preferred, over, longerOnly) = preference;
    match first_with_kind(options, idx, preferred, 0) {
        None => Some(idx),
        Some(pp) => if longerOnly {
            match first_with_kind(options, idx, over, 0) {
                None => Some(idx),
                Some(op) => {
                    let preferredLength = options[idx[pp as int] as int].range.length;
                    let overLength = options[idx[op as int] as int].range.length;
                    if overLength <= preferredLength {
                        let overIndex = idx[op as int];
                        if overIndex < idx.len() {
                            Some(spec_swap_remove(idx, overIndex as int))
                        } else {
                            None
                        }
                    } else {
                        Some(remove_if_from(options, idx, kind_is::<S>(preferred), 0))
                    }
                },
            }
        } else {
            Some(remove_if_from(options, idx, kind_is::<S>(over), 0))
        },
    }
}

/// Surviving indices after applying `prefs` in order to the survivors `start`.
pub open spec fn apply_preferences<S: HasKind>(
    options: Seq<Match<S>>,
    start: Seq<usize>,
    prefs: Seq<(S::Kind, S::Kind, bool)>,
) -> Option<Seq<usize>>
    decreases prefs.len(),
{
    if prefs.len() == 0 {
        Some(start)
    } else {
        match apply_preferences(options, start, prefs.drop_last()) {
            None => None,
            Some(idx) => apply_preference(options, idx, prefs.last()),
        }
    }
}

pub open spec fn all_indices(n: nat) -> Seq<usize> {
    Seq::new(n, |i: int| i as usize)
}

pub open spec fn indices_in_bounds(idx: Seq<usize>, n: nat) -> bool {
    forall|i: int| 0 <= i < idx.len() ==> #[trigger] idx[i] < n
}

/// The index chosen among `options` under `prefs`, or the error reported.
pub open spec fn resolution_succeeds<S: HasKind>(options: Seq<Match<S>>, prefs: Seq<(S::Kind, S::Kind, bool)>) -> bool {
    apply_preferences(options, all_indices(options.len()), prefs) is Some
}

struct ConflictResolver<'a, S: HasKind> {
    pos: ModulePos,
    indexVec: Vec<usize>,
    options: &'a Vec<Match<S>>,
    preferVec: Vec<(S::Kind, S::Kind, bool)>,
}

proof fn lemma_swap_remove_bounds(idx: Seq<usize>, p: int, n: nat)
    requires
        indices_in_bounds(idx, n),
        0 <= p < idx.len(),
    ensures
        indices_in_bounds(spec_swap_remove(idx, p), n),
        spec_swap_remove(idx, p).len() == idx.len() - 1,
{
    let r = spec_swap_remove(idx, p);
    assert forall|i: int| 0 <= i < r.len() implies #[trigger] r[i] < n by {
        if i == p {
            assert(r[i] == idx[idx.len() - 1]);
        } else {
            assert(r[i] == idx[i]);
        }
    }
}

proof fn lemma_first_with_kind<S: HasKind>(options: Seq<Match<S>>, idx: Seq<usize>, kind: S::Kind, p: nat)
    ensures
        first_with_kind(options, idx, kind, p) matches Some(q) ==> p <= q < idx.len()
            && options[idx[q as int] as int].value.spec_kind() == kind,
        first_with_kind(options, idx, kind, p) is None ==> forall|q: int|
            p <= q < idx.len() ==> options[idx[q] as int].value.spec_kind() != kind,
    decreases idx.len() - p,
{
    if p < idx.len() {
        lemma_first_with_kind(options, idx, kind, p + 1);
    }
}

impl<'a, S: HasKind> ConflictResolver<'a, S> {
    spec fn wf(&self) -> bool {
        indices_in_bounds(self.indexVec@, self.options@.len())
    }

    fn new(pos: ModulePos, options: &'a Vec<Match<S>>) -> (resolver: Self)
        ensures
            resolver.wf(),
            resolver.pos == pos,
            resolver.options == options,
            resolver.indexVec@ == all_indices(options@.len()),
            resolver.preferVec@.len() == 0,
    {
        let mut indexVec: Vec<usize> = Vec::new();
        let mut index: usize = 0;
        while index < options.len()
            invariant
                index <= options@.len(),
                indexVec@ == all_indices(index as nat),
            decreases options@.len() - index,
        {
            indexVec.push(index);
            index = index + 1;
            assert(indexVec@ =~= all_indices(index as nat));
        }
        ConflictResolver { pos, indexVec, options, preferVec: Vec::new() }
    }

    /// Drops the survivor at position `index` of the survivor list.
    fn removeIndex(&mut self, index: usize)
        requires
            old(self).wf(),
            index < old(self).indexVec@.len(),
        ensures
            final(self).wf(),
            final(self).indexVec@ == spec_swap_remove(old(self).indexVec@, index as int),
            final(self).pos == old(self).pos,
            final(self).options == old(self).options,
            final(self).preferVec == old(self).preferVec,
    {
        proof { lemma_swap_remove_bounds(self.indexVec@, index as int, self.options@.len()); }
        self.indexVec.swap_remove(index);
    }

    /// Drops every survivor whose option satisfies `f`.
    fn removeIf<F: Fn(&'a Match<S>) -> bool>(&mut self, f: F, Ghost(pred): Ghost<spec_fn(Match<S>) -> bool>)
        requires
            old(self).wf(),
            forall|m: &'a Match<S>| #[trigger] f.requires((m,)),
            forall|m: &'a Match<S>, b: bool| #[trigger] f.ensures((m,), b) ==> b == pred(*m),
        ensures
            final(self).wf(),
            final(self).indexVec@ == remove_if_from(old(self).options@, old(self).indexVec@, pred, 0),
            final(self).pos == old(self).pos,
            final(self).options == old(self).options,
            final(self).preferVec == old(self).preferVec,
    {
        let ghost target = remove_if_from(self.options@, self.indexVec@, pred, 0);
        let mut indexVecIndex: usize = 0;
        while indexVecIndex < self.indexVec.len()
            invariant
                self.wf(),
                self.options == old(self).options,
                self.pos == old(self).pos,
                self.preferVec == old(self).preferVec,
                forall|m: &'a Match<S>| #[trigger] f.requires((m,)),
                forall|m: &'a Match<S>, b: bool| #[trigger] f.ensures((m,), b) ==> b == pred(*m),
                remove_if_from(self.options@, self.indexVec@, pred, indexVecIndex as nat) == target,
            decreases self.indexVec@.len() - indexVecIndex,
        {
            let option = &self.options[self.indexVec[indexVecIndex]];
            if f(option) {
                self.removeIndex(indexVecIndex);
            } else {
                indexVecIndex = indexVecIndex + 1;
            }
        }
    }

    /// Drops every survivor of kind `value`.
    fn removeSymbol(&mut self, value: S::Kind)
        requires
            old(self).wf(),
        ensures
            final(self).wf(),
            final(self).indexVec@ == remove_if_from(old(self).options@, old(self).indexVec@, kind_is::<S>(value), 0),
            final(self).pos == old(self).pos,
            final(self).options == old(self).options,
            final(self).preferVec == old(self).preferVec,
    {
        let f = |symbol: &'a Match<S>| -> (same: bool)
            ensures
                same == (symbol.value.spec_kind() == value),
            { symbol.value.getKind().isSameKind(&value) };
        self.removeIf(f, Ghost(kind_is::<S>(value)));
    }

    /// The first survivor of kind `value`, with its index among the options.
    fn contains(&self, value: S::Kind) -> (found: Option<(&'a Match<S>, usize)>)
        requires
            self.wf(),
        ensures
            match first_with_kind(self.options@, self.indexVec@, value, 0) {
                None => found is None,
                Some(p) => found matches Some((m, i)) && i == self.indexVec@[p as int] && *m == self.options@[i as int],
            },
    {
        let mut p: usize = 0;
        while p < self.indexVec.len()
            invariant
                self.wf(),
                p <= self.indexVec@.len(),
                first_with_kind(self.options@, self.indexVec@, value, 0) == first_with_kind(
                    self.options@,
                    self.indexVec@,
                    value,
                    p as nat,
                ),
            decreases self.indexVec@.len() - p,
        {
            let index = self.indexVec[p];
            if self.options[index].value.getKind().isSameKind(&value) {
                return Some((&self.options[index], index));
            }
            p = p + 1;
        }
        None
    }

    fn setPreferred(&mut self, prefer: S::Kind, over: S::Kind)
        requires
            old(self).wf(),
        ensures
            final(self).wf(),
            final(self).preferVec@ == old(self).preferVec@.push((prefer, over, false)),
            final(self).pos == old(self).pos,
            final(self).options == old(self).options,
            final(self).indexVec == old(self).indexVec,
    {
        self.preferVec.push((prefer, over, false));
    }

    fn setPreferredOnlyIfLonger(&mut self, prefer: S::Kind, over: S::Kind)
        requires
            old(self).wf(),
        ensures
            final(self).wf(),
            final(self).preferVec@ == old(self).preferVec@.push((prefer, over, true)),
            final(self).pos == old(self).pos,
            final(self).options == old(self).options,
            final(self).indexVec == old(self).indexVec,
    {
        self.preferVec.push((prefer, over, true));
    }
}


/// What resolution reports for the surviving indices `survivors`.
pub open spec fn resolved_result<S: HasKind>(
    options: Seq<Match<S>>,
    survivors: Seq<usize>,
    pos: ModulePos,
    result: Result<usize, ASTError>,
) -> bool {
    if survivors.len() == 0 {
        &&& result matches Err(ASTError::EliminatedConflict(p, reported)) && p == pos
            && reported@.len() == options.len()
            && forall|m: int| 0 <= m < options.len() ==> (#[trigger] reported@[m]).reports(
                options[m].range,
                options[m].value.spec_kind().spec_kind_name(),
            )
    } else if survivors.len() == 1 {
        result == Ok::<usize, ASTError>(survivors[0])
    } else {
        &&& result matches Err(ASTError::MultipleConflict(p, reported)) && p == pos
            && reported@.len() == survivors.len()
            && forall|m: int| 0 <= m < survivors.len() ==> (#[trigger] reported@[m]).reports(
                options[survivors[m] as int].range,
                options[survivors[m] as int].value.spec_kind().spec_kind_name(),
            )
    }
}

proof fn lemma_apply_preferences_prefix<S: HasKind>(
    options: Seq<Match<S>>,
    start: Seq<usize>,
    prefs: Seq<(S::Kind, S::Kind, bool)>,
    j: nat,
)
    requires
        j <= prefs.len(),
        apply_preferences(options, start, prefs) is Some,
    ensures
        apply_preferences(options, start, prefs.take(j as int)) is Some,
    decreases prefs.len(),
{
    if j == prefs.len() {
        assert(prefs.take(j as int) == prefs);
    } else {
        assert(prefs.drop_last().take(j as int) == prefs.take(j as int));
        lemma_apply_preferences_prefix(options, start, prefs.drop_last(), j);
    }
}

proof fn lemma_remove_if_keeps<S>(options: Seq<Match<S>>, idx: Seq<usize>, pred: spec_fn(Match<S>) -> bool, p: nat)
    requires
        forall|i: int| p <= i < idx.len() ==> !pred(options[#[trigger] idx[i] as int]),
    ensures
        remove_if_from(options, idx, pred, p) == idx,
    decreases idx.len() - p,
{
    if p < idx.len() {
        lemma_remove_if_keeps(options, idx, pred, p + 1);
    }
}

/// With a single option, no preference between two different kinds removes it.
proof fn lemma_single_option_survives<S: HasKind>(options: Seq<Match<S>>, prefs: Seq<(S::Kind, S::Kind, bool)>)
    requires
        options.len() == 1,
        forall|i: int| 0 <= i < prefs.len() ==> (#[trigger] prefs[i]).0 != prefs[i].1,
    ensures
        apply_preferences(options, seq![0usize], prefs) == Some(seq![0usize]),
    decreases prefs.len(),
{
    if prefs.len() > 0 {
        assert forall|i: int| 0 <= i < prefs.drop_last().len() implies (#[trigger] prefs.drop_last()[i]).0 != prefs.drop_last()[i].1 by {
            assert(prefs.drop_last()[i] == prefs[i]);
        }
        lemma_single_option_survives(options, prefs.drop_last());
        let (preferred, over, longerOnly) = prefs.last();
        assert(prefs[prefs.len() - 1] == prefs.last());
        let idx = seq![0usize];
        let kind = options[0].value.spec_kind();
        lemma_first_with_kind(options, idx, preferred, 0);
        lemma_first_with_kind(options, idx, over, 0);
        if kind == preferred {
            lemma_remove_if_keeps(options, idx, kind_is::<S>(over), 0);
        }
    }
}

impl<'a, S: HasKind> ConflictResolver<'a, S> {
    /// Applies the preferences in order and reports the single survivor.
    /// `None` where a preference would drop a survivor by a position past the
    /// end of the survivor list.
    fn getResolved(self) -> (result: Option<Result<usize, ASTError>>)
        requires
            self.wf(),
        ensures
            self.options@.len() == 0 ==> (result matches Some(Err(ASTError::MatchFailed(p))) && p == self.pos),
            self.options@.len() > 0 ==> match apply_preferences(self.options@, self.indexVec@, self.preferVec@) {
                None => result is None,
                Some(survivors) => result matches Some(r) && resolved_result(self.options@, survivors, self.pos, r),
            },
            result matches Some(Ok(i)) ==> i < self.options@.len(),
    {
        let mut resolver = self;
        if resolver.options.len() == 0 {
            return Some(Err(ASTError::MatchFailed(resolver.pos)));
        }
        let ghost options = resolver.options@;
        let ghost start = resolver.indexVec@;
        let ghost prefs = resolver.preferVec@;
        let ghost pos0 = resolver.pos;
        let mut preferVec = Vec::new();
        std::mem::swap(&mut resolver.preferVec, &mut preferVec);
        let mut k: usize = 0;
        assert(preferVec@.take(0) =~= Seq::<(S::Kind, S::Kind, bool)>::empty());
        while k < preferVec.len()
            invariant
                resolver.wf(),
                resolver.options@ == options,
                resolver.pos == pos0,
                preferVec@ == prefs,
                k <= prefs.len(),
                options == self.options@,
                start == self.indexVec@,
                prefs == self.preferVec@,
                pos0 == self.pos,
                options.len() > 0,
                apply_preferences(options, start, prefs.take(k as int)) == Some(resolver.indexVec@),
            decreases prefs.len() - k,
        {
            let (preferredDiscriminant, over, longerOnly) = preferVec[k];
            proof {
                assert(prefs.take(k + 1).drop_last() == prefs.take(k as int));
                assert(prefs.take(k + 1).last() == prefs[k as int]);
                lemma_first_with_kind(options, resolver.indexVec@, preferredDiscriminant, 0);
                lemma_first_with_kind(options, resolver.indexVec@, over, 0);
            }
            if let Some((preferred, _)) = resolver.contains(preferredDiscriminant) {
                if longerOnly {
                    if let Some((overMatch, overIndex)) = resolver.contains(over) {
                        let preferredLength = preferred.getRange().getLength();
                        let overLength = overMatch.getRange().getLength();
                        if overLength <= preferredLength {
                            if overIndex >= resolver.indexVec.len() {
                                proof {
                                    assert(apply_preferences(options, start, prefs.take(k + 1)) is None);
                                    if apply_preferences(options, start, prefs) is Some {
                                        lemma_apply_preferences_prefix(options, start, prefs, (k + 1) as nat);
                                    }
                                }
                                return None;
                            }
                            resolver.removeIndex(overIndex);
                        } else {
                            resolver.removeSymbol(preferredDiscriminant);
                        }
                    }
                } else {
                    resolver.removeSymbol(over);
                }
            }
            k = k + 1;
        }
        assert(prefs.take(prefs.len() as int) == prefs);
        let survivorCount = resolver.indexVec.len();
        if survivorCount == 0 {
            let mut reported: Vec<ConflictOption> = Vec::new();
            let mut m: usize = 0;
            while m < resolver.options.len()
                invariant
                    resolver.options@ == options,
                    m <= options.len(),
                    reported@.len() == m,
                    forall|j: int| 0 <= j < m ==> (#[trigger] reported@[j]).reports(
                        options[j].range,
                        options[j].value.spec_kind().spec_kind_name(),
                    ),
                decreases options.len() - m,
            {
                let option = &resolver.options[m];
                reported.push(ConflictOption::new(&option.range, option.value.getKind().kindName()));
                m = m + 1;
            }
            Some(Err(ASTError::EliminatedConflict(resolver.pos, reported)))
        } else if survivorCount == 1 {
            Some(Ok(resolver.indexVec[0]))
        } else {
            let mut reported: Vec<ConflictOption> = Vec::new();
            let mut m: usize = 0;
            while m < resolver.indexVec.len()
                invariant
                    resolver.wf(),
                    resolver.options@ == options,
                    m <= resolver.indexVec@.len(),
                    reported@.len() == m,
                    forall|j: int| 0 <= j < m ==> (#[trigger] reported@[j]).reports(
                        options[resolver.indexVec@[j] as int].range,
                        options[resolver.indexVec@[j] as int].value.spec_kind().spec_kind_name(),
                    ),
                decreases resolver.indexVec@.len() - m,
            {
                let option = &resolver.options[resolver.indexVec[m]];
                reported.push(ConflictOption::new(&option.range, option.value.getKind().kindName()));
                m = m + 1;
            }
            Some(Err(ASTError::MultipleConflict(resolver.pos, reported)))
        }
    }
}

/// Preferences between class members: a method over a field.
pub open spec fn class_member_preferences() -> Seq<(ClassMemberDiscriminants, ClassMemberDiscriminants, bool)> {
    seq![(ClassMemberDiscriminants::FunctionDefinition, ClassMemberDiscriminants::FieldDefinition, false)]
}

/// Where the two readings of a class member are a method and a field, the
/// method is chosen, whatever the lengths.
pub proof fn law_method_over_field(options: Seq<Match<ClassMember>>, win: nat, pos: ModulePos, result: Result<usize, ASTError>)
    requires
        options.len() == 2,
        win < 2,
        options[win as int].value.spec_kind() == ClassMemberDiscriminants::FunctionDefinition,
        options[1 - win].value.spec_kind() == ClassMemberDiscriminants::FieldDefinition,
    ensures
        resolution_succeeds(options, class_member_preferences()),
        resolved_result(options, apply_preferences(options, all_indices(2), class_member_preferences()).unwrap(), pos, result)
            <==> result == Ok::<usize, ASTError>(win as usize),
{
    let prefs = class_member_preferences();
    let idx = all_indices(2);
    assert(idx =~= seq![0usize, 1usize]);
    assert(prefs.drop_last() =~= Seq::<(ClassMemberDiscriminants, ClassMemberDiscriminants, bool)>::empty());
    assert(apply_preferences(options, idx, prefs.drop_last()) == Some(idx));
    let pref = prefs.last();
    assert(pref == (ClassMemberDiscriminants::FunctionDefinition, ClassMemberDiscriminants::FieldDefinition, false));
    lemma_first_with_kind(options, idx, pref.0, 0);
    assert(first_with_kind(options, idx, pref.0, 0) == Some(win));
    let pred = kind_is::<ClassMember>(ClassMemberDiscriminants::FieldDefinition);
    if win == 1 {
        assert(spec_swap_remove(idx, 0) =~= seq![1usize]);
        assert(remove_if_from(options, idx, pred, 0) == remove_if_from(options, seq![1usize], pred, 0));
        assert(remove_if_from(options, seq![1usize], pred, 1) == seq![1usize]);
    } else {
        assert(spec_swap_remove(idx, 1) =~= seq![0usize]);
        assert(remove_if_from(options, idx, pred, 1) == remove_if_from(options, seq![0usize], pred, 1));
        assert(remove_if_from(options, seq![0usize], pred, 1) == seq![0usize]);
    }
    assert(apply_preferences(options, idx, prefs) == Some(seq![win as usize]));
}

/// Picks one class member among competing matches at `pos`.
pub fn resolveClassDefinitionConflict(pos: ModulePos, options: &Vec<Match<ClassMember>>) -> (result: Result<usize, ASTError>)
    ensures
        resolution_succeeds(options@, class_member_preferences()),
        options@.len() == 0 ==> (result matches Err(ASTError::MatchFailed(p)) && p == pos),
        options@.len() > 0 ==> resolved_result(
            options@,
            apply_preferences(options@, all_indices(options@.len()), class_member_preferences()).unwrap(),
            pos,
            result,
        ),
        options@.len() == 1 ==> result == Ok::<usize, ASTError>(0),
        result matches Ok(i) ==> i < options@.len(),
{
    let mut resolver = ConflictResolver::new(pos, options);
    resolver.setPreferred(ClassMemberDiscriminants::FunctionDefinition, ClassMemberDiscriminants::FieldDefinition);
    assert(resolver.preferVec@ =~= class_member_preferences());
    proof {
        if options@.len() == 1 {
            assert(all_indices(1) =~= seq![0usize]);
            lemma_single_option_survives(options@, class_member_preferences());
        }
        let prefs = class_member_preferences();
        let start = all_indices(options@.len());
        assert(prefs.drop_last() =~= Seq::<(ClassMemberDiscriminants, ClassMemberDiscriminants, bool)>::empty());
        assert(apply_preferences(options@, start, prefs.drop_last()) == Some(start));
        assert(prefs.last() == (ClassMemberDiscriminants::FunctionDefinition, ClassMemberDiscriminants::FieldDefinition, false));
        assert(apply_preference(options@, start, prefs.last()) is Some);
    }
    match resolver.getResolved() {
        Some(result) => result,
        None => unreached(),
    }
}


/// Preferences between symbols, applied in this order.
pub open spec fn symbol_preferences() -> Seq<(SymbolDiscriminants, SymbolDiscriminants, bool)> {
    seq![
        (SymbolDiscriminants::FunctionCall, SymbolDiscriminants::Variable, false),
        (SymbolDiscriminants::VariableDeclaration, SymbolDiscriminants::Variable, false),
        (SymbolDiscriminants::FunctionDefinition, SymbolDiscriminants::VariableDeclaration, false),
        (SymbolDiscriminants::FunctionDefinition, SymbolDiscriminants::LiteralVoid, false),
        (SymbolDiscriminants::While, SymbolDiscriminants::Operator, false),
        (SymbolDiscriminants::While, SymbolDiscriminants::Variable, false),
        (SymbolDiscriminants::Operator, SymbolDiscriminants::FunctionCall, true),
        (SymbolDiscriminants::Operator, SymbolDiscriminants::VariableDeclaration, true),
        (SymbolDiscriminants::Operator, SymbolDiscriminants::Variable, true),
        (SymbolDiscriminants::Operator, SymbolDiscriminants::LiteralArray, true),
        (SymbolDiscriminants::Operator, SymbolDiscriminants::LiteralBool, true),
        (SymbolDiscriminants::Operator, SymbolDiscriminants::LiteralChar, true),
        (SymbolDiscriminants::Operator, SymbolDiscriminants::LiteralFloat, true),
        (SymbolDiscriminants::Operator, SymbolDiscriminants::LiteralInteger, true),
        (SymbolDiscriminants::Operator, SymbolDiscriminants::LiteralString, true),
        (SymbolDiscriminants::Operator, SymbolDiscriminants::LiteralVoid, true),
        (SymbolDiscriminants::Operator, SymbolDiscriminants::LiteralTuple, true),
    ]
}

/// The kinds that an operator expression is preferred over when it is at least as long.
pub open spec fn operator_contender(kind: SymbolDiscriminants) -> bool {
    ||| kind == SymbolDiscriminants::FunctionCall
    ||| kind == SymbolDiscriminants::VariableDeclaration
    ||| kind == SymbolDiscriminants::Variable
    ||| kind == SymbolDiscriminants::LiteralArray
    ||| kind == SymbolDiscriminants::LiteralBool
    ||| kind == SymbolDiscriminants::LiteralChar
    ||| kind == SymbolDiscriminants::LiteralFloat
    ||| kind == SymbolDiscriminants::LiteralInteger
    ||| kind == SymbolDiscriminants::LiteralString
    ||| kind == SymbolDiscriminants::LiteralVoid
    ||| kind == SymbolDiscriminants::LiteralTuple
}

/// A preference that cannot act on the survivors `idx`: one of its two kinds is missing.
spec fn pref_idle<S: HasKind>(options: Seq<Match<S>>, idx: Seq<usize>, pref: (S::Kind, S::Kind, bool)) -> bool {
    first_with_kind(options, idx, pref.0, 0) is None || first_with_kind(options, idx, pref.1, 0) is None
}

proof fn lemma_pref_idle<S: HasKind>(options: Seq<Match<S>>, idx: Seq<usize>, pref: (S::Kind, S::Kind, bool))
    requires
        pref_idle(options, idx, pref),
    ensures
        apply_preference(options, idx, pref) == Some(idx),
{
    let (preferred, over, longerOnly) = pref;
    lemma_first_with_kind(options, idx, over, 0);
    if first_with_kind(options, idx, preferred, 0) is Some && !longerOnly {
        lemma_remove_if_keeps(options, idx, kind_is::<S>(over), 0);
    }
}

proof fn lemma_prefs_step<S: HasKind>(
    options: Seq<Match<S>>,
    start: Seq<usize>,
    prefs: Seq<(S::Kind, S::Kind, bool)>,
    i: nat,
    idx: Seq<usize>,
)
    requires
        i < prefs.len(),
        apply_preferences(options, start, prefs.take(i as int)) == Some(idx),
    ensures
        apply_preferences(options, start, prefs.take((i + 1) as int)) == apply_preference(options, idx, prefs[i as int]),
{
    assert(prefs.take((i + 1) as int).drop_last() =~= prefs.take(i as int));
    assert(prefs.take((i + 1) as int).last() == prefs[i as int]);
}

/// Where the position of `(Operator, contender, true)` among the symbol preferences is.
spec fn contender_index(kind: SymbolDiscriminants) -> nat {
    if kind == SymbolDiscriminants::FunctionCall { 6 }
    else if kind == SymbolDiscriminants::VariableDeclaration { 7 }
    else if kind == SymbolDiscriminants::Variable { 8 }
    else if kind == SymbolDiscriminants::LiteralArray { 9 }
    else if kind == SymbolDiscriminants::LiteralBool { 10 }
    else if kind == SymbolDiscriminants::LiteralChar { 11 }
    else if kind == SymbolDiscriminants::LiteralFloat { 12 }
    else if kind == SymbolDiscriminants::LiteralInteger { 13 }
    else if kind == SymbolDiscriminants::LiteralString { 14 }
    else if kind == SymbolDiscriminants::LiteralVoid { 15 }
    else { 16 }
}

/// The survivors after the first `i` symbol preferences when the two options are
/// an operator expression (at `op`) and a contender (at `1 - op`).
proof fn lemma_contest(options: Seq<Match<Symbol>>, op: nat, i: nat)
    requires
        options.len() == 2,
        op < 2,
        options[op as int].value.spec_kind() == SymbolDiscriminants::Operator,
        operator_contender(options[1 - op].value.spec_kind()),
        i <= 17,
    ensures
        apply_preferences(options, all_indices(2), symbol_preferences().take(i as int)) == Some(
            if i <= contender_index(options[1 - op].value.spec_kind()) {
                all_indices(2)
            } else if options[op as int].range.length >= options[1 - op].range.length {
                seq![op as usize]
            } else {
                seq![(1 - op) as usize]
            },
        ),
    decreases i,
{
    let prefs = symbol_preferences();
    let x = options[1 - op].value.spec_kind();
    let k = contender_index(x);
    let both = all_indices(2);
    assert(both =~= seq![0usize, 1usize]);
    if i == 0 {
        assert(prefs.take(0) =~= Seq::<(SymbolDiscriminants, SymbolDiscriminants, bool)>::empty());
    } else {
        let j = (i - 1) as nat;
        lemma_contest(options, op, j);
        let idx = apply_preferences(options, all_indices(2), prefs.take(j as int))->Some_0;
        lemma_prefs_step(options, all_indices(2), prefs, j, idx);
        let pref = prefs[j as int];
        assert(pref.0 != pref.1);
        lemma_first_with_kind(options, idx, pref.0, 0);
        lemma_first_with_kind(options, idx, pref.1, 0);
        if j < k {
            assert(pref_idle(options, idx, pref));
            lemma_pref_idle(options, idx, pref);
        } else if j == k {
            assert(pref == (SymbolDiscriminants::Operator, x, true));
            assert(first_with_kind(options, idx, SymbolDiscriminants::Operator, 0) == Some(op));
            assert(first_with_kind(options, idx, x, 0) == Some((1 - op) as nat));
            if options[op as int].range.length >= options[1 - op].range.length {
                assert(spec_swap_remove(idx, (1 - op) as int) =~= seq![op as usize]);
            } else {
                let pred = kind_is::<Symbol>(SymbolDiscriminants::Operator);
                if op == 0 {
                    assert(spec_swap_remove(idx, 0) =~= seq![1usize]);
                    assert(remove_if_from(options, idx, pred, 0) == remove_if_from(options, seq![1usize], pred, 0));
                    assert(remove_if_from(options, seq![1usize], pred, 1) == seq![1usize]);
                } else {
                    assert(spec_swap_remove(idx, 1) =~= seq![0usize]);
                    assert(remove_if_from(options, idx, pred, 1) == remove_if_from(options, seq![0usize], pred, 1));
                    assert(remove_if_from(options, seq![0usize], pred, 1) == seq![0usize]);
                }
            }
        } else {
            assert(pref_idle(options, idx, pref));
            lemma_pref_idle(options, idx, pref);
        }
    }
}

/// Where the two readings at a position are an operator expression and a call,
/// a declaration, a variable or a literal, the longer reading is chosen, and the
/// operator expression when both are equally long.
pub proof fn law_longer_operator_wins(options: Seq<Match<Symbol>>, op: nat, pos: ModulePos, result: Result<usize, ASTError>)
    requires
        options.len() == 2,
        op < 2,
        options[op as int].value.spec_kind() == SymbolDiscriminants::Operator,
        operator_contender(options[1 - op].value.spec_kind()),
    ensures
        resolution_succeeds(options, symbol_preferences()),
        resolved_result(options, apply_preferences(options, all_indices(2), symbol_preferences()).unwrap(), pos, result)
            <==> result == Ok::<usize, ASTError>(
            if options[op as int].range.length >= options[1 - op].range.length { op as usize } else { (1 - op) as usize },
        ),
{
    lemma_contest(options, op, 17);
    assert(symbol_preferences().take(17) =~= symbol_preferences());
}

/// The plain preferences among symbols: a reading of the first kind always
/// wins over one of the second.
pub open spec fn plain_preference(preferred: SymbolDiscriminants, over: SymbolDiscriminants) -> bool {
    ||| preferred == SymbolDiscriminants::FunctionCall && over == SymbolDiscriminants::Variable
    ||| preferred == SymbolDiscriminants::VariableDeclaration && over == SymbolDiscriminants::Variable
    ||| preferred == SymbolDiscriminants::FunctionDefinition && over == SymbolDiscriminants::VariableDeclaration
    ||| preferred == SymbolDiscriminants::FunctionDefinition && over == SymbolDiscriminants::LiteralVoid
    ||| preferred == SymbolDiscriminants::While && over == SymbolDiscriminants::Operator
    ||| preferred == SymbolDiscriminants::While && over == SymbolDiscriminants::Variable
}

spec fn plain_index(preferred: SymbolDiscriminants, over: SymbolDiscriminants) -> nat {
    if preferred == SymbolDiscriminants::FunctionCall { 0 }
    else if preferred == SymbolDiscriminants::VariableDeclaration { 1 }
    else if preferred == SymbolDiscriminants::FunctionDefinition && over == SymbolDiscriminants::VariableDeclaration { 2 }
    else if preferred == SymbolDiscriminants::FunctionDefinition { 3 }
    else if over == SymbolDiscriminants::Operator { 4 }
    else { 5 }
}

proof fn lemma_plain_contest(options: Seq<Match<Symbol>>, win: nat, i: nat)
    requires
        options.len() == 2,
        win < 2,
        plain_preference(options[win as int].value.spec_kind(), options[1 - win].value.spec_kind()),
        i <= 17,
    ensures
        apply_preferences(options, all_indices(2), symbol_preferences().take(i as int)) == Some(
            if i <= plain_index(options[win as int].value.spec_kind(), options[1 - win].value.spec_kind()) {
                all_indices(2)
            } else {
                seq![win as usize]
            },
        ),
    decreases i,
{
    let prefs = symbol_preferences();
    let pk = options[win as int].value.spec_kind();
    let ok = options[1 - win].value.spec_kind();
    let k = plain_index(pk, ok);
    let both = all_indices(2);
    assert(both =~= seq![0usize, 1usize]);
    if i == 0 {
        assert(prefs.take(0) =~= Seq::<(SymbolDiscriminants, SymbolDiscriminants, bool)>::empty());
    } else {
        let j = (i - 1) as nat;
        lemma_plain_contest(options, win, j);
        let idx = apply_preferences(options, all_indices(2), prefs.take(j as int))->Some_0;
        lemma_prefs_step(options, all_indices(2), prefs, j, idx);
        let pref = prefs[j as int];
        assert(pref.0 != pref.1);
        lemma_first_with_kind(options, idx, pref.0, 0);
        lemma_first_with_kind(options, idx, pref.1, 0);
        if j < k {
            assert(pref_idle(options, idx, pref));
            lemma_pref_idle(options, idx, pref);
        } else if j == k {
            assert(pref == (pk, ok, false));
            assert(first_with_kind(options, idx, pk, 0) == Some(win));
            let pred = kind_is::<Symbol>(ok);
            if win == 1 {
                assert(spec_swap_remove(idx, 0) =~= seq![1usize]);
                assert(remove_if_from(options, idx, pred, 0) == remove_if_from(options, seq![1usize], pred, 0));
                assert(remove_if_from(options, seq![1usize], pred, 1) == seq![1usize]);
            } else {
                assert(spec_swap_remove(idx, 1) =~= seq![0usize]);
                assert(remove_if_from(options, idx, pred, 1) == remove_if_from(options, seq![0usize], pred, 1));
                assert(remove_if_from(options, seq![0usize], pred, 1) == seq![0usize]);
            }
        } else {
            assert(pref_idle(options, idx, pref));
            lemma_pref_idle(options, idx, pref);
        }
    }
}

/// Where the two readings at a position are of kinds with a plain preference
/// between them (a call over a variable, a declaration over a variable, a
/// function definition over a declaration or over `void`, a loop over an
/// operator expression or a variable), the preferred reading is chosen,
/// whatever the lengths.
pub proof fn law_preferred_kind_wins(options: Seq<Match<Symbol>>, win: nat, pos: ModulePos, result: Result<usize, ASTError>)
    requires
        options.len() == 2,
        win < 2,
        plain_preference(options[win as int].value.spec_kind(), options[1 - win].value.spec_kind()),
    ensures
        resolution_succeeds(options, symbol_preferences()),
        resolved_result(options, apply_preferences(options, all_indices(2), symbol_preferences()).unwrap(), pos, result)
            <==> result == Ok::<usize, ASTError>(win as usize),
{
    lemma_plain_contest(options, win, 17);
    assert(symbol_preferences().take(17) =~= symbol_preferences());
}

/// Picks one symbol among competing matches at `pos`.
pub fn resolveSymbolConflict(pos: ModulePos, options: &Vec<Match<Symbol>>) -> (result: Result<usize, ASTError>)
    requires
        resolution_succeeds(options@, symbol_preferences()),
    ensures
        options@.len() == 0 ==> (result matches Err(ASTError::MatchFailed(p)) && p == pos),
        options@.len() > 0 ==> resolved_result(
            options@,
            apply_preferences(options@, all_indices(options@.len()), symbol_preferences()).unwrap(),
            pos,
            result,
        ),
        options@.len() == 1 ==> result == Ok::<usize, ASTError>(0),
{
    match tryResolveSymbolConflict(pos, options) {
        Some(result) => result,
        None => unreached(),
    }
}

/// Picks one symbol among competing matches at `pos`; `None` where a
/// preference would drop a survivor by a position past the end of the
/// survivor list.
pub fn tryResolveSymbolConflict(pos: ModulePos, options: &Vec<Match<Symbol>>) -> (result: Option<Result<usize, ASTError>>)
    ensures
        options@.len() == 0 ==> (result matches Some(Err(ASTError::MatchFailed(p))) && p == pos),
        options@.len() > 0 ==> match apply_preferences(options@, all_indices(options@.len()), symbol_preferences()) {
            None => result is None,
            Some(survivors) => result matches Some(r) && resolved_result(options@, survivors, pos, r),
        },
        options@.len() == 1 ==> result == Some(Ok::<usize, ASTError>(0)),
        result matches Some(Ok(i)) ==> i < options@.len(),
{
    let mut resolver = ConflictResolver::new(pos, options);

    resolver.setPreferred(SymbolDiscriminants::FunctionCall, SymbolDiscriminants::Variable);
    resolver.setPreferred(SymbolDiscriminants::VariableDeclaration, SymbolDiscriminants::Variable);
    resolver.setPreferred(SymbolDiscriminants::FunctionDefinition, SymbolDiscriminants::VariableDeclaration);
    resolver.setPreferred(SymbolDiscriminants::FunctionDefinition, SymbolDiscriminants::LiteralVoid);
    resolver.setPreferred(SymbolDiscriminants::While, SymbolDiscriminants::Operator);
    resolver.setPreferred(SymbolDiscriminants::While, SymbolDiscriminants::Variable);

    resolver.setPreferredOnlyIfLonger(SymbolDiscriminants::Operator, SymbolDiscriminants::FunctionCall);
    resolver.setPreferredOnlyIfLonger(SymbolDiscriminants::Operator, SymbolDiscriminants::VariableDeclaration);
    resolver.setPreferredOnlyIfLonger(SymbolDiscriminants::Operator, SymbolDiscriminants::Variable);
    resolver.setPreferredOnlyIfLonger(SymbolDiscriminants::Operator, SymbolDiscriminants::LiteralArray);
    resolver.setPreferredOnlyIfLonger(SymbolDiscriminants::Operator, SymbolDiscriminants::LiteralBool);
    resolver.setPreferredOnlyIfLonger(SymbolDiscriminants::Operator, SymbolDiscriminants::LiteralChar);
    resolver.setPreferredOnlyIfLonger(SymbolDiscriminants::Operator, SymbolDiscriminants::LiteralFloat);
    resolver.setPreferredOnlyIfLonger(SymbolDiscriminants::Operator, SymbolDiscriminants::LiteralInteger);
    resolver.setPreferredOnlyIfLonger(SymbolDiscriminants::Operator, SymbolDiscriminants::LiteralString);
    resolver.setPreferredOnlyIfLonger(SymbolDiscriminants::Operator, SymbolDiscriminants::LiteralVoid);
    resolver.setPreferredOnlyIfLonger(SymbolDiscriminants::Operator, SymbolDiscriminants::LiteralTuple);

    assert(resolver.preferVec@ =~= symbol_preferences());
    proof {
        if options@.len() == 1 {
            assert(all_indices(1) =~= seq![0usize]);
            lemma_single_option_survives(options@, symbol_preferences());
        }
    }
    resolver.getResolved()
}

} // verus!
