//! The pattern matcher: decides whether an archive entry path satisfies one
//! of the requested file patterns, and tracks which patterns are satisfied.
//!
//! Patterns are either literal names/paths or a compiled set of regular
//! expressions; exactly one representation is active per run. A ledger of
//! satisfied pattern indices grows while entries are offered; it is cleared
//! when a fresh batch of targets begins a new resolution.

use vstd::prelude::*;
use vstd::set_lib::lemma_int_range;
use vstd::set_lib::lemma_len_subset;
use vstd::set_lib::lemma_subset_equality;
use vstd::set_lib::set_int_range;

use crate::strutil::basename_of;
use crate::strutil::has_slash;
use crate::strutil::{basename, contains_slash};

verus! {

#[verifier::external_type_specification]
#[verifier::external_body]
pub struct ExRegexSet(regex::RegexSet);

#[verifier::external_type_specification]
#[verifier::external_body]
pub struct ExRegexError(regex::Error);

/// The patterns a compiled regular-expression set was built from, in order.
pub uninterp spec fn regex_set_patterns(rs: regex::RegexSet) -> Seq<Seq<char>>;

/// Whether a list of patterns compiles as a set of regular expressions.
pub uninterp spec fn regex_set_compiles(patterns: Seq<Seq<char>>) -> bool;

/// Whether one regular expression matches a text anywhere (unanchored).
pub uninterp spec fn regex_matches(pattern: Seq<char>, text: Seq<char>) -> bool;

/// Relies on regex::RegexSet::new: the set is built from the given patterns
/// in order, and construction fails exactly when some pattern is not a valid
/// regular expression.
#[verifier::external_body]
fn regex_set_new(patterns: &Vec<String>) -> (r: Result<regex::RegexSet, regex::Error>)
    ensures
        r is Ok <==> regex_set_compiles(patterns.deep_view()),
        r is Ok ==> regex_set_patterns(r->Ok_0) == patterns.deep_view(),
{
    regex::RegexSet::new(patterns)
}

/// Relies on regex::RegexSet::len: the number of patterns the set was built
/// from.
#[verifier::external_body]
fn regex_set_len(rs: &regex::RegexSet) -> (r: usize)
    ensures
        r == regex_set_patterns(*rs).len(),
{
    rs.len()
}

/// Relies on regex::RegexSet::matches: the returned indices are exactly those
/// of the patterns that match the text, in ascending order.
#[verifier::external_body]
fn regex_set_matched_indices(rs: &regex::RegexSet, text: &str) -> (r: Vec<usize>)
    ensures
        forall|a: int, b: int| 0 <= a < b < r@.len() ==> r@[a] < r@[b],
        forall|a: int|
            0 <= a < r@.len() ==> #[trigger] r@[a] < regex_set_patterns(*rs).len()
                && regex_matches(regex_set_patterns(*rs)[r@[a] as int], text@),
        forall|i: int|
            0 <= i < regex_set_patterns(*rs).len() && #[trigger] regex_matches(
                regex_set_patterns(*rs)[i],
                text@,
            ) ==> exists|a: int| 0 <= a < r@.len() && r@[a] == i,
{
    rs.matches(text).iter().collect()
}

/// Failure to build a matcher: one of the requested patterns is not a valid
/// regular expression.
#[derive(Debug)]
pub enum PatternError {
    Compile(regex::Error),
}

/// The active pattern representation: a compiled regular-expression set or a
/// list of literal names/paths.
pub enum MatchWith {
    Regex(regex::RegexSet),
    Files(Vec<String>),
}

impl MatchWith {
    /// The patterns, in order, whichever representation is active.
    pub closed spec fn patterns(self) -> Seq<Seq<char>> {
        match self {
            MatchWith::Regex(rs) => regex_set_patterns(rs),
            MatchWith::Files(f) => f.deep_view(),
        }
    }

    /// Whether the regular-expression representation is active.
    pub closed spec fn is_regex(self) -> bool {
        self is Regex
    }

    /// Compiles the patterns when regular-expression matching was requested,
    /// keeps them as literals otherwise. Fails exactly when a requested
    /// regular expression does not compile.
    pub fn new(regex: bool, files: Vec<String>) -> (r: Result<Self, PatternError>)
        ensures
            regex ==> ((r is Ok) <==> regex_set_compiles(files.deep_view())),
            !regex ==> r is Ok,
            r is Ok ==> (r->Ok_0).patterns() == files.deep_view(),
            r is Ok ==> (r->Ok_0).is_regex() == regex,
    {
        if regex {
            match regex_set_new(&files) {
                Ok(rs) => Ok(MatchWith::Regex(rs)),
                Err(e) => Err(PatternError::Compile(e)),
            }
        } else {
            Ok(MatchWith::Files(files))
        }
    }
}

/// A literal pattern matches a name when it equals it, or when it is the
/// wildcard pattern "*".
pub open spec fn lit_matches(pat: Seq<char>, name: Seq<char>) -> bool {
    pat == name || pat == seq!['*']
}

/// What a reported match means: the offered path hit a previously
/// unsatisfied pattern index, or it hit any index at all and repeat matches
/// are wanted (`match_once` not set).
pub open spec fn match_reported(m: Match, file: Seq<char>, match_once: bool) -> bool {
    (exists|i: int| m.hits(file).contains(i) && !m.ledger().contains(i)) || ((exists|i: int|
        m.hits(file).contains(i)
    ) && !match_once)
}

/// The pattern matcher with its saturation ledger.
pub struct Match {
    with: MatchWith,
    exact_file: bool,
    matched: Vec<usize>,
}

impl Match {
    /// The patterns, in order.
    pub closed spec fn patterns(self) -> Seq<Seq<char>> {
        self.with.patterns()
    }

    /// Whether regular-expression matching is active.
    pub closed spec fn is_regex(self) -> bool {
        self.with.is_regex()
    }

    /// Whether entries are compared by their full path (some pattern holds a
    /// '/') rather than by basename.
    pub closed spec fn exact(self) -> bool {
        self.exact_file
    }

    /// The set of pattern indices already satisfied.
    pub closed spec fn ledger(self) -> Set<int> {
        Set::new(|i: int| exists|j: int| 0 <= j < self.matched@.len() && self.matched@[j] == i)
    }

    /// How many pattern indices are already satisfied.
    pub closed spec fn num_matched(self) -> nat {
        self.matched@.len()
    }

    /// Well-formed: the ledger holds each satisfied index once, every ledger
    /// entry indexes a pattern, and the full-path flag reflects whether some
    /// pattern holds a '/'.
    pub closed spec fn wf(self) -> bool {
        &&& self.matched@.no_duplicates()
        &&& forall|j: int|
            0 <= j < self.matched@.len() ==> (#[trigger] self.matched@[j]) < self.patterns().len()
        &&& self.exact_file == exists|i: int|
            0 <= i < self.patterns().len() && has_slash(#[trigger] self.patterns()[i])
    }

    /// The name an entry path is matched by: the full path when some pattern
    /// holds a '/', its basename otherwise.
    pub closed spec fn effective_name(self, file: Seq<char>) -> Seq<char> {
        if self.exact_file {
            file
        } else {
            basename_of(file)
        }
    }

    /// The pattern indices one entry path satisfies: none when the effective
    /// name is empty; in regular-expression mode every matching index; in
    /// literal mode only the first matching index.
    pub closed spec fn hits(self, file: Seq<char>) -> Set<int> {
        let name = self.effective_name(file);
        let pats = self.patterns();
        if name.len() == 0 {
            Set::empty()
        } else if self.is_regex() {
            Set::new(|i: int| 0 <= i < pats.len() && regex_matches(pats[i], name))
        } else {
            Set::new(
                |i: int|
                    0 <= i < pats.len() && lit_matches(pats[i], name) && forall|k: int|
                        0 <= k < i ==> !lit_matches(pats[k], name),
            )
        }
    }

    /// Builds a matcher over the requested files. Fails exactly when regular
    /// expressions were requested and one of them does not compile; literal
    /// patterns always build. The fresh matcher has an empty ledger.
    pub fn new(regex: bool, files: Vec<String>) -> (r: Result<Self, PatternError>)
        ensures
            regex ==> ((r is Ok) <==> regex_set_compiles(files.deep_view())),
            !regex ==> r is Ok,
            r is Ok ==> (r->Ok_0).wf(),
            r is Ok ==> (r->Ok_0).patterns() == files.deep_view(),
            r is Ok ==> (r->Ok_0).is_regex() == regex,
            r is Ok ==> (r->Ok_0).ledger() == Set::<int>::empty(),
            r is Ok ==> (r->Ok_0).num_matched() == 0,
    {
        let mut exact_file = false;
        let mut i: usize = 0;
        let flen = files.len();
        while i < flen
            invariant
                i <= flen,
                flen == files@.len(),
                exact_file == exists|k: int| 0 <= k < i && has_slash(files.deep_view()[k]),
            decreases flen - i,
        {
            if contains_slash(files[i].as_str()) {
                assert(has_slash(files.deep_view()[i as int]));
                exact_file = true;
            }
            i = i + 1;
        }
        let with = match MatchWith::new(regex, files) {
            Ok(w) => w,
            Err(e) => {
                return Err(e);
            },
        };
        let matched: Vec<usize> = Vec::new();
        let m = Match { with, exact_file, matched };
        proof {
            assert(m.ledger() =~= Set::<int>::empty());
            // the full-path flag computed over the files carries over to the
            // patterns, which are the same character sequences
            if exact_file {
                let k = choose|k: int| 0 <= k < files@.len() && has_slash(files.deep_view()[k]);
                assert(has_slash(m.patterns()[k]));
            }
            if exists|i: int| 0 <= i < m.patterns().len() && has_slash(m.patterns()[i]) {
                let i = choose|i: int| 0 <= i < m.patterns().len() && has_slash(m.patterns()[i]);
                assert(has_slash(files.deep_view()[i]));
            }
        }
        Ok(m)
    }

    /// True exactly when every pattern has been satisfied: the ledger is as
    /// large as the pattern set.
    pub fn all_matched(&self) -> (r: bool)
        requires
            self.wf(),
        ensures
            r == (self.num_matched() == self.patterns().len()),
    {
        match &self.with {
            MatchWith::Regex(rs) => regex_set_len(rs) == self.matched.len(),
            MatchWith::Files(f) => f.len() == self.matched.len(),
        }
    }

    /// Empties the ledger; patterns and matching mode stay as they are.
    pub fn clear_matched(&mut self)
        requires
            old(self).wf(),
        ensures
            final(self).wf(),
            final(self).patterns() == old(self).patterns(),
            final(self).is_regex() == old(self).is_regex(),
            final(self).exact() == old(self).exact(),
            final(self).ledger() == Set::<int>::empty(),
            final(self).num_matched() == 0,
    {
        self.matched.clear();
        proof {
            assert(self.ledger() =~= Set::<int>::empty());
            assert(self.patterns() == old(self).patterns());
        }
    }

    /// Offers one entry path to the matcher.
    ///
    /// The path is reduced to its effective name (basename unless some
    /// pattern holds a '/'); an empty name never matches. Every pattern index
    /// the name satisfies is added to the ledger. The call reports a match
    /// when a previously unsatisfied index was hit, or when any index was hit
    /// and repeat matches are wanted (`match_once` not set).
    pub fn is_match(&mut self, file: &str, match_once: bool) -> (r: bool)
        requires
            old(self).wf(),
        ensures
            final(self).wf(),
            final(self).patterns() == old(self).patterns(),
            final(self).is_regex() == old(self).is_regex(),
            final(self).exact() == old(self).exact(),
            final(self).ledger() == old(self).ledger() + old(self).hits(file@),
            r == match_reported(*old(self), file@, match_once),
    {
        let name: &str = if !self.exact_file {
            basename(file)
        } else {
            file
        };
        if name.is_empty() {
            proof {
                assert(old(self).hits(file@) =~= Set::<int>::empty());
                assert(self.ledger() =~= old(self).ledger() + old(self).hits(file@));
            }
            return false;
        }
        let ghost h = old(self).hits(file@);
        match &self.with {
            MatchWith::Files(f) => {
                proof {
                    reveal_strlit("*");
                    assert("*"@ =~= seq!['*']);
                }
                let flen = f.len();
                let mut j: usize = 0;
                loop
                    invariant
                        j <= flen,
                        flen == f@.len(),
                        "*"@ =~= seq!['*'],
                        forall|k: int| 0 <= k < j ==> !lit_matches(f.deep_view()[k], name@),
                    ensures
                        j <= flen,
                        if j < flen {
                            lit_matches(f.deep_view()[j as int], name@) && forall|k: int|
                                0 <= k < j ==> !lit_matches(f.deep_view()[k], name@)
                        } else {
                            forall|k: int| 0 <= k < flen ==> !lit_matches(f.deep_view()[k], name@)
                        },
                    decreases flen - j,
                {
                    if j == flen {
                        break ;
                    }
                    let pat = f[j].as_str();
                    if crate::strutil::str_eq(pat, name) || crate::strutil::str_eq(pat, "*") {
                        break ;
                    }
                    j = j + 1;
                }
                if j < flen {
                    let pos = j;
                    proof {
                        assert(h.contains(pos as int));
                        assert forall|i: int| h.contains(i) implies i == pos as int by {
                            if i < pos as int {
                                assert(!lit_matches(f.deep_view()[i], name@));
                            } else if i > pos as int {
                                assert(lit_matches(f.deep_view()[pos as int], name@));
                            }
                        }
                        assert(h =~= Set::<int>::empty().insert(pos as int));
                    }
                    let ghost pre = *self;
                    if !contains_usize(&self.matched, pos) {
                        proof {
                            lemma_ledger_iff(pre, pos);
                        }
                        self.matched.push(pos);
                        proof {
                            lemma_no_dup_push(pre.matched@, pos);
                            lemma_ledger_push(pre, *self, pos);
                            assert(self.ledger() =~= old(self).ledger() + h);
                        }
                        true
                    } else {
                        proof {
                            lemma_ledger_iff(pre, pos);
                            assert(old(self).ledger().contains(pos as int));
                            assert(self.ledger() =~= old(self).ledger() + h);
                        }
                        !match_once
                    }
                } else {
                    proof {
                        assert(h =~= Set::<int>::empty());
                        assert(self.ledger() =~= old(self).ledger() + h);
                    }
                    false
                }
            },
            MatchWith::Regex(rs) => {
                let ms = regex_set_matched_indices(rs, name);
                let ghost pats = old(self).patterns();
                proof {
                    assert forall|i: int| h.contains(i) implies exists|a: int|
                        0 <= a < ms@.len() && ms@[a] == i by {
                        assert(regex_matches(pats[i], name@));
                    }
                    assert forall|a: int| 0 <= a < ms@.len() implies h.contains(
                        ms@[a] as int,
                    ) by {
                        assert(ms@[a] < pats.len() && regex_matches(pats[ms@[a] as int], name@));
                    }
                }
                let mlen = ms.len();
                let mut k: usize = 0;
                let mut any_new = false;
                while k < mlen
                    invariant
                        k <= mlen,
                        mlen == ms@.len(),
                        old(self).wf(),
                        self.wf(),
                        self.with == old(self).with,
                        self.exact_file == old(self).exact_file,
                        forall|a: int, b: int| 0 <= a < b < ms@.len() ==> ms@[a] < ms@[b],
                        forall|a: int| 0 <= a < ms@.len() ==> h.contains(#[trigger] ms@[a] as int),
                        forall|i: int| #[trigger] h.contains(i) ==> 0 <= i
                            < old(self).patterns().len(),
                        old(self).ledger().subset_of(self.ledger()),
                        forall|a: int|
                            0 <= a < k ==> self.ledger().contains(#[trigger] ms@[a] as int),
                        forall|i: int|
                            #[trigger] self.ledger().contains(i) ==> old(self).ledger().contains(i)
                                || (exists|a: int| 0 <= a < k && ms@[a] == i),
                        any_new == exists|a: int|
                            0 <= a < k && !old(self).ledger().contains(#[trigger] ms@[a] as int),
                    decreases mlen - k,
                {
                    let idx = ms[k];
                    let ghost pre = *self;
                    if !contains_usize(&self.matched, idx) {
                        proof {
                            lemma_ledger_iff(pre, idx);
                            assert(!old(self).ledger().contains(idx as int));
                        }
                        self.matched.push(idx);
                        any_new = true;
                        proof {
                            lemma_no_dup_push(pre.matched@, idx);
                            lemma_ledger_push(pre, *self, idx);
                            assert(h.contains(ms@[k as int] as int));
                            assert forall|i: int| #[trigger] self.ledger().contains(
                                i,
                            ) implies old(self).ledger().contains(i) || (exists|a: int|
                                0 <= a < k + 1 && ms@[a] == i) by {
                                if i == idx as int {
                                    assert(0 <= k < k + 1 && ms@[k as int] == idx);
                                }
                            }
                            assert(exists|a: int|
                                0 <= a < k + 1 && !old(self).ledger().contains(ms@[a] as int))
                                by {
                                assert(0 <= k < k + 1 && !old(self).ledger().contains(
                                    ms@[k as int] as int,
                                ));
                            }
                        }
                    } else {
                        proof {
                            lemma_ledger_iff(pre, idx);
                            assert(self.ledger().contains(idx as int));
                            if !old(self).ledger().contains(idx as int) {
                                // the index is in the current ledger, so this
                                // loop added it earlier; that contradicts the
                                // strictly ascending order of the indices.
                                let a = choose|a: int| 0 <= a < k && ms@[a] == idx as int;
                                assert(ms@[a] < ms@[k as int]);
                                assert(false);
                            }
                            assert(any_new == exists|a: int|
                                0 <= a < k + 1 && !old(self).ledger().contains(ms@[a] as int))
                                by {
                                if exists|a: int|
                                    0 <= a < k + 1 && !old(self).ledger().contains(
                                        ms@[a] as int,
                                    ) {
                                    let a = choose|a: int|
                                        0 <= a < k + 1 && !old(self).ledger().contains(
                                            ms@[a] as int,
                                        );
                                    assert(a < k);
                                }
                            }
                        }
                    }
                    k = k + 1;
                }
                proof {
                    assert(self.ledger() =~= old(self).ledger() + h) by {
                        assert forall|i: int| #[trigger] self.ledger().contains(i) implies (old(
                            self,
                        ).ledger() + h).contains(i) by {
                            if !old(self).ledger().contains(i) {
                                let a = choose|a: int| 0 <= a < mlen && ms@[a] == i;
                                assert(h.contains(ms@[a] as int));
                            }
                        }
                        assert forall|i: int| (old(self).ledger() + h).contains(
                            i,
                        ) implies self.ledger().contains(i) by {
                            if h.contains(i) {
                                let a = choose|a: int| 0 <= a < ms@.len() && ms@[a] == i;
                                assert(self.ledger().contains(ms@[a] as int));
                            }
                        }
                    }
                    if any_new {
                        let a = choose|a: int|
                            0 <= a < mlen && !old(self).ledger().contains(ms@[a] as int);
                        assert(h.contains(ms@[a] as int));
                    }
                    if exists|i: int| h.contains(i) && !old(self).ledger().contains(i) {
                        let i = choose|i: int| h.contains(i) && !old(self).ledger().contains(i);
                        let a = choose|a: int| 0 <= a < ms@.len() && ms@[a] == i;
                        assert(!old(self).ledger().contains(ms@[a] as int));
                    }
                    if mlen > 0 {
                        assert(h.contains(ms@[0] as int));
                    }
                    if exists|i: int| h.contains(i) {
                        let i = choose|i: int| h.contains(i);
                        let a = choose|a: int| 0 <= a < ms@.len() && ms@[a] == i;
                        assert(0 <= a < mlen);
                    }
                }
                if any_new {
                    true
                } else if mlen > 0 {
                    !match_once
                } else {
                    false
                }
            },
        }
    }
}

/// The process exit status of a run: success exactly when every pattern has
/// been satisfied at least once over the whole run.
pub fn exit_code(m: &Match) -> (r: i32)
    requires
        m.wf(),
    ensures
        r == if m.num_matched() == m.patterns().len() {
            0int
        } else {
            1int
        },
{
    if m.all_matched() {
        0
    } else {
        1
    }
}

/// Every pattern is satisfied exactly when every pattern index is in the
/// ledger: the ledger holds each satisfied index once and never holds
/// anything else, so its size reaches the pattern count only at saturation.
pub proof fn lemma_all_matched_iff_ledger_full(m: Match)
    requires
        m.wf(),
    ensures
        (m.num_matched() == m.patterns().len()) <==> (forall|i: int|
            0 <= i < m.patterns().len() ==> m.ledger().contains(i)),
{
    let n = m.patterns().len() as int;
    let mapped = m.matched@.map_values(|u: usize| u as int);
    assert(mapped.no_duplicates()) by {
        assert forall|i: int, j: int|
            0 <= i < mapped.len() && 0 <= j < mapped.len() && i != j implies mapped[i]
            != mapped[j] by {
            assert(m.matched@[i] != m.matched@[j]);
        }
    }
    assert(m.ledger() =~= mapped.to_set()) by {
        assert forall|i: int| #[trigger] m.ledger().contains(i) implies mapped.to_set().contains(
            i,
        ) by {
            let j = choose|j: int| 0 <= j < m.matched@.len() && m.matched@[j] == i;
            assert(mapped[j] == i);
            assert(mapped.contains(i));
        }
        assert forall|i: int| #[trigger] mapped.to_set().contains(i) implies m.ledger().contains(
            i,
        ) by {
            let j = choose|j: int| 0 <= j < mapped.len() && mapped[j] == i;
            assert(m.matched@[j] == i);
        }
    }
    mapped.unique_seq_to_set();
    let full = set_int_range(0, n);
    lemma_int_range(0, n);
    assert(m.ledger().subset_of(full)) by {
        assert forall|i: int| #[trigger] m.ledger().contains(i) implies full.contains(i) by {
            let j = choose|j: int| 0 <= j < m.matched@.len() && m.matched@[j] == i;
            assert(m.matched@[j] < m.patterns().len());
        }
    }
    lemma_len_subset(m.ledger(), full);
    if m.num_matched() == m.patterns().len() {
        lemma_subset_equality(m.ledger(), full);
        assert forall|i: int| 0 <= i < n implies m.ledger().contains(i) by {
            assert(full.contains(i));
        }
    }
    if forall|i: int| 0 <= i < n ==> m.ledger().contains(i) {
        assert(full.subset_of(m.ledger()));
        assert(m.ledger() =~= full);
    }
}

/// The ledger set after offering a sequence of entry paths to a matcher,
/// starting from a given ledger.
pub open spec fn ledger_after(m: Match, start: Set<int>, paths: Seq<Seq<char>>) -> Set<int>
    decreases paths.len(),
{
    if paths.len() == 0 {
        start
    } else {
        ledger_after(m, start + m.hits(paths[0]), paths.drop_first())
    }
}

/// After a scan, the ledger holds exactly what it started with plus every
/// index hit by some offered path.
pub proof fn lemma_ledger_after_union(m: Match, start: Set<int>, paths: Seq<Seq<char>>)
    ensures
        forall|i: int|
            #[trigger] ledger_after(m, start, paths).contains(i) <==> (start.contains(i) || exists|
                k: int,
            |
                0 <= k < paths.len() && m.hits(paths[k]).contains(i)),
    decreases paths.len(),
{
    if paths.len() > 0 {
        let start1 = start + m.hits(paths[0]);
        let rest = paths.drop_first();
        lemma_ledger_after_union(m, start1, rest);
        assert(ledger_after(m, start, paths) == ledger_after(m, start1, rest));
        assert forall|i: int| #[trigger] ledger_after(m, start, paths).contains(i) implies (
        start.contains(i) || exists|k: int|
            0 <= k < paths.len() && m.hits(paths[k]).contains(i)) by {
            assert(ledger_after(m, start1, rest).contains(i));
            if !start.contains(i) {
                if m.hits(paths[0]).contains(i) {
                    assert(m.hits(paths[0int]).contains(i));
                } else {
                    assert(!start1.contains(i));
                    let k = choose|k: int| 0 <= k < rest.len() && m.hits(rest[k]).contains(i);
                    assert(rest[k] == paths[k + 1]);
                    assert(m.hits(paths[k + 1]).contains(i));
                }
            }
        }
        assert forall|i: int|
            start.contains(i) || (exists|k: int|
                0 <= k < paths.len() && m.hits(paths[k]).contains(
                    i,
                )) implies #[trigger] ledger_after(m, start, paths).contains(i) by {
            if start.contains(i) {
                assert(start1.contains(i));
                assert(ledger_after(m, start1, rest).contains(i));
            } else {
                let k = choose|k: int| 0 <= k < paths.len() && m.hits(paths[k]).contains(i);
                if k == 0 {
                    assert(start1.contains(i));
                } else {
                    assert(rest[k - 1] == paths[k]);
                    assert(m.hits(rest[k - 1]).contains(i));
                }
                assert(ledger_after(m, start1, rest).contains(i));
            }
        }
    }
}

/// Whether a path hits any pattern index at all.
pub open spec fn hits_any(m: Match, file: Seq<char>) -> bool {
    exists|i: int| m.hits(file).contains(i)
}

/// Position j holds the first of the offered paths that hits any pattern.
pub open spec fn first_hit_at(m: Match, files: Seq<Seq<char>>, j: int) -> bool {
    &&& 0 <= j < files.len()
    &&& hits_any(m, files[j])
    &&& forall|k: int| 0 <= k < j ==> !hits_any(m, files[k])
}

/// Offering one more path extends the scanned ledger by exactly its hits.
pub proof fn lemma_ledger_after_snoc(m: Match, start: Set<int>, s: Seq<Seq<char>>, x: Seq<char>)
    ensures
        ledger_after(m, start, s.push(x)) == ledger_after(m, start, s) + m.hits(x),
    decreases s.len(),
{
    if s.len() == 0 {
        assert(s.push(x)[0] == x);
        assert(s.push(x).drop_first() =~= Seq::<Seq<char>>::empty());
        assert(ledger_after(m, start + m.hits(x), s.push(x).drop_first()) == start + m.hits(x));
        assert(ledger_after(m, start, s) == start);
    } else {
        let start1 = start + m.hits(s[0]);
        assert(s.push(x)[0] == s[0]);
        assert(s.push(x).drop_first() =~= s.drop_first().push(x));
        lemma_ledger_after_snoc(m, start1, s.drop_first(), x);
    }
}

/// Saturation over a whole run, for one pattern index: the index ends up in
/// the ledger when some offered entry path hits it; it stays out when no
/// offered path hits it and it was not in the starting ledger. Together with
/// `lemma_all_matched_iff_ledger_full` this decides the run's exit status:
/// success exactly when every pattern index was hit somewhere in the run.
pub proof fn lemma_run_saturation(m: Match, start: Set<int>, paths: Seq<Seq<char>>, i: int)
    ensures
        (exists|k: int| 0 <= k < paths.len() && (#[trigger] m.hits(paths[k])).contains(i))
            ==> ledger_after(m, start, paths).contains(i),
        (!start.contains(i) && forall|k: int|
            0 <= k < paths.len() ==> !m.hits(paths[k]).contains(i)) ==> !ledger_after(
            m,
            start,
            paths,
        ).contains(i),
{
    lemma_ledger_after_union(m, start, paths);
}

/// Whether some path of the run hits a given pattern index.
pub open spec fn hit_somewhere(m: Match, paths: Seq<Seq<char>>, i: int) -> bool {
    exists|k: int| 0 <= k < paths.len() && (#[trigger] m.hits(paths[k])).contains(i)
}

/// The run's outcome: starting from an empty ledger and offering a sequence
/// of entry paths, the run ends with every pattern satisfied (exit status
/// zero) exactly when every pattern index is hit by some offered path; with
/// any index hit by no path it ends unsatisfied (exit status one).
pub proof fn lemma_run_outcome(m0: Match, m1: Match, paths: Seq<Seq<char>>)
    requires
        m1.wf(),
        m1.patterns() == m0.patterns(),
        m1.ledger() == ledger_after(m0, Set::<int>::empty(), paths),
    ensures
        (m1.num_matched() == m1.patterns().len()) <==> (forall|i: int|
            0 <= i < m1.patterns().len() ==> #[trigger] hit_somewhere(m0, paths, i)),
{
    lemma_all_matched_iff_ledger_full(m1);
    lemma_ledger_after_union(m0, Set::<int>::empty(), paths);
    assert forall|i: int| #[trigger] m1.ledger().contains(i) == hit_somewhere(m0, paths, i) by {
        assert(ledger_after(m0, Set::<int>::empty(), paths).contains(i) <==> (Set::<
            int,
        >::empty().contains(i) || exists|k: int|
            0 <= k < paths.len() && m0.hits(paths[k]).contains(i)));
    }
    if m1.num_matched() == m1.patterns().len() {
        assert forall|i: int| 0 <= i < m1.patterns().len() implies #[trigger] hit_somewhere(
            m0,
            paths,
            i,
        ) by {
            assert(m1.ledger().contains(i));
        }
    }
    if forall|i: int| 0 <= i < m1.patterns().len() ==> #[trigger] hit_somewhere(m0, paths, i) {
        assert forall|i: int| 0 <= i < m1.patterns().len() implies m1.ledger().contains(i) by {
            assert(hit_somewhere(m0, paths, i));
        }
    }
}

/// A matcher whose patterns all lack a '/' compares entries by basename; one
/// with some '/'-holding pattern compares full paths.
pub proof fn lemma_effective_name(m: Match, file: Seq<char>)
    requires
        m.wf(),
    ensures
        (forall|i: int| 0 <= i < m.patterns().len() ==> !has_slash(#[trigger] m.patterns()[i]))
            ==> m.effective_name(file) == basename_of(file),
        (exists|i: int| 0 <= i < m.patterns().len() && has_slash(#[trigger] m.patterns()[i]))
            ==> m.effective_name(file) == file,
{
}

/// In literal mode a path hits exactly the first pattern index whose
/// pattern equals its effective name or is the wildcard "*", and only when
/// that name is non-empty.
pub proof fn lemma_lit_hits(m: Match, file: Seq<char>, i: int)
    requires
        !m.is_regex(),
    ensures
        m.hits(file).contains(i) <==> ({
            let name = m.effective_name(file);
            &&& name.len() != 0
            &&& 0 <= i < m.patterns().len()
            &&& lit_matches(m.patterns()[i], name)
            &&& forall|k: int| 0 <= k < i ==> !lit_matches(m.patterns()[k], name)
        }),
{
}

/// In regular-expression mode a path hits exactly the indices whose pattern
/// matches its effective name, and only when that name is non-empty.
pub proof fn lemma_regex_hits(m: Match, file: Seq<char>, i: int)
    requires
        m.is_regex(),
    ensures
        m.hits(file).contains(i) <==> ({
            let name = m.effective_name(file);
            &&& name.len() != 0
            &&& 0 <= i < m.patterns().len()
            &&& regex_matches(m.patterns()[i], name)
        }),
{
}

/// Matchers that agree on patterns, mode, and name handling hit the same
/// indices for every path.
pub proof fn lemma_hits_congruent(m0: Match, m1: Match, file: Seq<char>)
    requires
        m0.patterns() == m1.patterns(),
        m0.is_regex() == m1.is_regex(),
        m0.exact() == m1.exact(),
    ensures
        m0.hits(file) == m1.hits(file),
{
    assert(m0.hits(file) =~= m1.hits(file));
}

/// Among the literal patterns a name satisfies there is a first one.
proof fn lemma_first_lit_match(pats: Seq<Seq<char>>, name: Seq<char>, w: int)
    requires
        0 <= w < pats.len(),
        lit_matches(pats[w], name),
    ensures
        exists|i: int|
            0 <= i < pats.len() && lit_matches(#[trigger] pats[i], name) && forall|k: int|
                0 <= k < i ==> !lit_matches(pats[k], name),
    decreases w,
{
    if forall|k: int| 0 <= k < w ==> !lit_matches(#[trigger] pats[k], name) {
        assert(0 <= w < pats.len() && lit_matches(pats[w], name) && forall|k: int|
            0 <= k < w ==> !lit_matches(pats[k], name));
    } else {
        let k = choose|k: int| 0 <= k < w && lit_matches(#[trigger] pats[k], name);
        lemma_first_lit_match(pats, name, k);
    }
}

/// The wildcard literal pattern "*" makes any entry with a non-empty
/// effective name hit some pattern index.
pub proof fn lemma_wildcard_hits(m: Match, file: Seq<char>, w: int)
    requires
        m.wf(),
        !m.is_regex(),
        0 <= w < m.patterns().len(),
        m.patterns()[w] == seq!['*'],
        m.effective_name(file).len() != 0,
    ensures
        exists|i: int| m.hits(file).contains(i),
{
    let name = m.effective_name(file);
    assert(lit_matches(m.patterns()[w], name));
    lemma_first_lit_match(m.patterns(), name, w);
    let i = choose|i: int|
        0 <= i < m.patterns().len() && lit_matches(#[trigger] m.patterns()[i], name) && forall|
            k: int,
        | 0 <= k < i ==> !lit_matches(m.patterns()[k], name);
    assert(m.hits(file).contains(i));
}

/// The ledger holds an index exactly when the vector of satisfied indices
/// holds it.
proof fn lemma_ledger_iff(m: Match, x: usize)
    ensures
        m.ledger().contains(x as int) == m.matched@.contains(x),
{
    if m.matched@.contains(x) {
        let j = choose|j: int| 0 <= j < m.matched@.len() && m.matched@[j] == x;
        assert(m.matched@[j] == x as int);
    }
    if m.ledger().contains(x as int) {
        let j = choose|j: int| 0 <= j < m.matched@.len() && m.matched@[j] == x as int;
        assert(m.matched@[j] == x);
    }
}

/// Pushing an index onto the vector of satisfied indices inserts exactly it
/// into the ledger.
proof fn lemma_ledger_push(m0: Match, m1: Match, x: usize)
    requires
        m1.matched@ == m0.matched@.push(x),
    ensures
        m1.ledger() == m0.ledger().insert(x as int),
{
    assert forall|i: int| #[trigger] m1.ledger().contains(i) implies m0.ledger().insert(
        x as int,
    ).contains(i) by {
        let j = choose|j: int| 0 <= j < m1.matched@.len() && m1.matched@[j] == i;
        if j < m0.matched@.len() {
            assert(m0.matched@[j] == i);
        } else {
            assert(i == x as int);
        }
    }
    assert forall|i: int| m0.ledger().insert(x as int).contains(i) implies m1.ledger().contains(
        i,
    ) by {
        if i == x as int {
            assert(m1.matched@[m0.matched@.len() as int] == x);
        } else {
            let j = choose|j: int| 0 <= j < m0.matched@.len() && m0.matched@[j] == i;
            assert(m1.matched@[j] == i);
        }
    }
    assert(m1.ledger() =~= m0.ledger().insert(x as int));
}

/// Pushing a fresh index keeps the vector of satisfied indices
/// duplicate-free.
proof fn lemma_no_dup_push(s: Seq<usize>, x: usize)
    requires
        s.no_duplicates(),
        !s.contains(x),
    ensures
        s.push(x).no_duplicates(),
{
    let t = s.push(x);
    assert forall|i: int, j: int|
        0 <= i < t.len() && 0 <= j < t.len() && i != j implies t[i] != t[j] by {
        if i < s.len() && j < s.len() {
        } else if i < s.len() && j == s.len() {
            if t[i] == x {
                assert(s[i] == x);
                assert(s.contains(x));
            }
        } else if j < s.len() && i == s.len() {
            if t[j] == x {
                assert(s[j] == x);
                assert(s.contains(x));
            }
        }
    }
}

/// Whether a vector of indices holds one given index.
fn contains_usize(v: &Vec<usize>, x: usize) -> (r: bool)
    ensures
        r == v@.contains(x),
{
    let n = v.len();
    let mut j: usize = 0;
    while j < n
        invariant
            j <= n,
            n == v@.len(),
            forall|k: int| 0 <= k < j ==> v@[k] != x,
        decreases n - j,
    {
        if v[j] == x {
            return true;
        }
        j = j + 1;
    }
    false
}

} // verus!
