//! Patterns, operators, and the pure matching function between them.
use vstd::prelude::*;

verus! {

/// Whether `regex::Regex::new` accepts this expression.
pub uninterp spec fn regex_valid(source: Seq<char>) -> bool;

/// Whether the compiled expression matches anywhere in the subject.
pub uninterp spec fn regex_finds(source: Seq<char>, subject: Seq<char>) -> bool;

/// Whether a one-glob `globset::GlobSet` can be built from this glob. Fixed
/// for one build target: globset's escaping and separator defaults depend on
/// the platform.
pub uninterp spec fn glob_valid(glob: Seq<char>) -> bool;

/// Whether the one-glob set built from this glob matches the subject. Fixed
/// for one build target, as `glob_valid` is.
pub uninterp spec fn glob_accepts(glob: Seq<char>, subject: Seq<char>) -> bool;

#[verifier::external_type_specification]
#[verifier::external_body]
pub struct ExRegex(regex::Regex);

#[verifier::external_type_specification]
#[verifier::external_body]
pub struct ExRegexError(regex::Error);

#[verifier::external_type_specification]
#[verifier::external_body]
pub struct ExGlobSet(globset::GlobSet);

#[verifier::external_type_specification]
#[verifier::external_body]
pub struct ExGlobError(globset::Error);

/// Relies on `regex::Regex`'s `Clone`, used when a pattern is cloned.
pub assume_specification[ <regex::Regex as core::clone::Clone>::clone ](r: &regex::Regex) -> regex::Regex;

/// Relies on `globset::GlobSet`'s `Clone`, used when a pattern is cloned.
pub assume_specification[ <globset::GlobSet as core::clone::Clone>::clone ](
    m: &globset::GlobSet,
) -> globset::GlobSet;

/// A regular expression kept together with the source text it was compiled from.
///
/// The fields are private: a value is only made by `RegexPattern::new`, so the
/// compiled form always belongs to `source`.
#[derive(Clone, Debug)]
pub struct RegexPattern {
    source: String,
    compiled: regex::Regex,
}

/// A glob kept together with the glob text it was compiled from.
///
/// The fields are private: a value is only made by `GlobPattern::new`, so the
/// compiled set always holds exactly the glob `source`.
#[derive(Clone, Debug)]
pub struct GlobPattern {
    source: String,
    compiled: globset::GlobSet,
}

impl View for RegexPattern {
    type V = Seq<char>;

    closed spec fn view(&self) -> Seq<char> {
        self.source@
    }
}

impl View for GlobPattern {
    type V = Seq<char>;

    closed spec fn view(&self) -> Seq<char> {
        self.source@
    }
}

/// Relies on `regex::Regex::new`: it succeeds exactly on the expressions it
/// accepts, and the compiled value is stored beside its source.
#[verifier::external_body]
fn compile_regex(source: &str) -> (r: Result<RegexPattern, regex::Error>)
    ensures
        r is Ok <==> regex_valid(source@),
        r matches Ok(p) ==> p@ == source@,
{
    regex::Regex::new(source).map(|compiled| RegexPattern { source: source.to_string(), compiled })
}

/// Relies on `regex::Regex::is_match`: whether the expression matches
/// anywhere in the haystack, a function of the source and the haystack alone.
#[verifier::external_body]
fn regex_is_match(p: &RegexPattern, subject: &str) -> (r: bool)
    ensures
        r == regex_finds(p@, subject@),
{
    p.compiled.is_match(subject)
}

/// The most opening braces a glob may hold. Each level of `{...}` nesting
/// needs its own opening brace, and globset translates nesting recursively,
/// so this bound also bounds that recursion.
pub const MAX_GLOB_BRACES: usize = 250;

/// How many opening braces `s` holds.
pub open spec fn brace_count(s: Seq<char>) -> nat
    decreases s.len(),
{
    if s.len() == 0 {
        0
    } else {
        brace_count(s.drop_last()) + if s.last() == '{' {
            1nat
        } else {
            0nat
        }
    }
}

/// A prefix holds no more opening braces than the whole.
proof fn lemma_brace_count_prefix(s: Seq<char>, k: int)
    requires
        0 <= k <= s.len(),
    ensures
        brace_count(s.take(k)) <= brace_count(s),
    decreases s.len() - k,
{
    if k < s.len() {
        lemma_brace_count_prefix(s, k + 1);
        assert(s.take(k + 1).drop_last() =~= s.take(k));
    } else {
        assert(s.take(k) =~= s);
    }
}

/// Whether `source` holds at most `bound` opening braces.
fn braces_within(source: &str, bound: usize) -> (r: bool)
    ensures
        r == (brace_count(source@) <= bound),
{
    let mut count: usize = 0;
    proof {
        assert(source@.take(0).len() == 0);
    }
    for c in it: source.chars()
        invariant
            it.seq() == source@,
            count <= bound,
            count as nat == brace_count(source@.take(it.index() as int)),
    {
        proof {
            let i = it.index() as int;
            assert(source@.take(i + 1).drop_last() =~= source@.take(i));
            assert(source@.take(i + 1).last() == c);
        }
        if c == '{' {
            if count == bound {
                proof {
                    lemma_brace_count_prefix(source@, it.index() as int + 1);
                }
                return false;
            }
            count = count + 1;
        }
    }
    proof {
        assert(source@.take(source@.len() as int) =~= source@);
    }
    true
}

/// Relies on `globset::Glob::new`, `GlobSetBuilder::add` and
/// `GlobSetBuilder::build`: parsing and building each return an error rather
/// than panic, the whole succeeds exactly on the globs it accepts, and the
/// one-glob set is stored beside its text. Parsing recurses once per level
/// of brace nesting with no limit of its own, so the braces are bounded.
#[verifier::external_body]
fn compile_glob(source: &str) -> (r: Result<GlobPattern, globset::Error>)
    requires
        brace_count(source@) <= MAX_GLOB_BRACES,
    ensures
        r is Ok <==> glob_valid(source@),
        r matches Ok(p) ==> p@ == source@,
{
    let glob = globset::Glob::new(source)?;
    let compiled = globset::GlobSetBuilder::new().add(glob).build()?;
    Ok(GlobPattern { source: source.to_string(), compiled })
}

/// Relies on `globset::GlobSet::is_match`: whether the set's one glob matches
/// the subject, a function of the glob text and the subject alone within one
/// build target.
#[verifier::external_body]
fn glob_is_match(p: &GlobPattern, subject: &str) -> (r: bool)
    ensures
        r == glob_accepts(p@, subject@),
{
    p.compiled.is_match(subject)
}

/// Why a pattern could not be compiled.
#[derive(Clone, Copy, Debug, PartialEq, Eq, Structural)]
pub enum PatternError {
    InvalidRegex,
    InvalidGlob,
}

impl RegexPattern {
    /// Compiles `source`; fails exactly when the regex engine rejects it.
    pub fn new(source: &str) -> (r: Result<RegexPattern, PatternError>)
        ensures
            r is Ok <==> regex_valid(source@),
            r matches Ok(p) ==> p@ == source@,
            r matches Err(e) ==> e == PatternError::InvalidRegex,
    {
        match compile_regex(source) {
            Ok(p) => Ok(p),
            Err(_) => Err(PatternError::InvalidRegex),
        }
    }

    /// The source text of the expression.
    pub fn as_str(&self) -> (r: &str)
        ensures
            r@ == self@,
    {
        self.source.as_str()
    }

    /// Whether the expression matches anywhere in `subject`.
    pub fn is_match(&self, subject: &str) -> (r: bool)
        ensures
            r == regex_finds(self@, subject@),
    {
        regex_is_match(self, subject)
    }
}

impl GlobPattern {
    /// Compiles `source`; fails exactly when it holds more than
    /// `MAX_GLOB_BRACES` opening braces or the glob engine rejects it.
    pub fn new(source: &str) -> (r: Result<GlobPattern, PatternError>)
        ensures
            r is Ok <==> (brace_count(source@) <= MAX_GLOB_BRACES && glob_valid(source@)),
            r matches Ok(p) ==> p@ == source@,
            r matches Err(e) ==> e == PatternError::InvalidGlob,
    {
        if !braces_within(source, MAX_GLOB_BRACES) {
            return Err(PatternError::InvalidGlob);
        }
        match compile_glob(source) {
            Ok(p) => Ok(p),
            Err(_) => Err(PatternError::InvalidGlob),
        }
    }

    /// The glob text.
    pub fn glob(&self) -> (r: &str)
        ensures
            r@ == self@,
    {
        self.source.as_str()
    }

    /// Whether the glob matches `subject`.
    pub fn is_match(&self, subject: &str) -> (r: bool)
        ensures
            r == glob_accepts(self@, subject@),
    {
        glob_is_match(self, subject)
    }
}

/// How a subject is compared against a pattern.
#[derive(Clone, Copy, Debug, PartialEq, Eq, Structural)]
#[non_exhaustive]
pub enum Op {
    Auto,
    Equal,
    NotEqual,
    Regex,
    NotRegex,
    Glob,
    NotGlob,
    InSet,
    NotInSet,
}

/// What a subject is compared against.
#[derive(Clone, Debug)]
#[non_exhaustive]
pub enum Pattern {
    Exact(String),
    Regex(RegexPattern),
    Glob(GlobPattern),
    Strings(Vec<String>),
}

/// The texts held by a set pattern; duplicates and order carry no meaning.
pub open spec fn text_set(items: Seq<String>) -> Set<Seq<char>> {
    Set::new(|t: Seq<char>| exists|i: int| 0 <= i < items.len() && items[i]@ == t)
}

/// Equality of patterns, on their source text rather than on compiled values.
pub open spec fn same_pattern(a: Pattern, b: Pattern) -> bool {
    match (a, b) {
        (Pattern::Exact(l), Pattern::Exact(r)) => l@ == r@,
        (Pattern::Regex(l), Pattern::Regex(r)) => l@ == r@,
        (Pattern::Glob(l), Pattern::Glob(r)) => l@ == r@,
        (Pattern::Strings(l), Pattern::Strings(r)) => text_set(l@) == text_set(r@),
        _ => false,
    }
}

/// The result of comparing `subject` against `pat` with `op`; a pairing that
/// cannot work is a non-match.
pub open spec fn op_matches(op: Op, pat: Pattern, subject: Seq<char>) -> bool {
    match (op, pat) {
        (Op::Equal, Pattern::Exact(p)) => subject == p@,
        (Op::NotEqual, Pattern::Exact(p)) => subject != p@,
        (Op::Regex, Pattern::Regex(p)) => regex_finds(p@, subject),
        (Op::NotRegex, Pattern::Regex(p)) => !regex_finds(p@, subject),
        (Op::Glob, Pattern::Glob(p)) => glob_accepts(p@, subject),
        (Op::NotGlob, Pattern::Glob(p)) => !glob_accepts(p@, subject),
        (Op::InSet, Pattern::Strings(v)) => text_set(v@).contains(subject),
        (Op::InSet, Pattern::Exact(p)) => subject == p@,
        (Op::NotInSet, Pattern::Strings(v)) => !text_set(v@).contains(subject),
        (Op::NotInSet, Pattern::Exact(p)) => subject != p@,
        _ => false,
    }
}

/// Whether one of `items` has the text `t`.
fn contains_text(items: &Vec<String>, t: &String) -> (r: bool)
    ensures
        r == text_set(items@).contains(t@),
{
    let mut i: usize = 0;
    while i < items.len()
        invariant
            i <= items.len(),
            forall|k: int| 0 <= k < i ==> items@[k]@ != t@,
        decreases items.len() - i,
    {
        if items[i] == *t {
            return true;
        }
        i = i + 1;
    }
    false
}

/// Whether every text of `a` is a text of `b`.
fn texts_within(a: &Vec<String>, b: &Vec<String>) -> (r: bool)
    ensures
        r == text_set(a@).subset_of(text_set(b@)),
{
    let mut i: usize = 0;
    while i < a.len()
        invariant
            i <= a.len(),
            forall|k: int| 0 <= k < i ==> text_set(b@).contains(#[trigger] a@[k]@),
        decreases a.len() - i,
    {
        if !contains_text(b, &a[i]) {
            assert(text_set(a@).contains(a@[i as int]@));
            return false;
        }
        i = i + 1;
    }
    true
}

/// Whether two set patterns hold the same texts.
fn same_texts(a: &Vec<String>, b: &Vec<String>) -> (r: bool)
    ensures
        r == (text_set(a@) == text_set(b@)),
{
    let ab = texts_within(a, b);
    let ba = texts_within(b, a);
    if ab && ba {
        assert(text_set(a@) =~= text_set(b@));
    }
    ab && ba
}

impl PartialEq for Pattern {
    fn eq(&self, other: &Pattern) -> (r: bool) {
        match (self, other) {
            (Pattern::Exact(l), Pattern::Exact(r)) => *l == *r,
            (Pattern::Regex(l), Pattern::Regex(r)) => l.source == r.source,
            (Pattern::Glob(l), Pattern::Glob(r)) => l.source == r.source,
            (Pattern::Strings(l), Pattern::Strings(r)) => same_texts(l, r),
            _ => false,
        }
    }
}

impl vstd::std_specs::cmp::PartialEqSpecImpl for Pattern {
    open spec fn obeys_eq_spec() -> bool {
        true
    }

    open spec fn eq_spec(&self, other: &Pattern) -> bool {
        same_pattern(*self, *other)
    }
}

impl Eq for Pattern {
}

/// Compares `subject` against `pat` with `op`.
pub fn op_match(op: Op, pat: &Pattern, subject: &str) -> (r: bool)
    ensures
        r == op_matches(op, *pat, subject@),
{
    let s = subject.to_string();
    proof {
        vstd::string::to_string_from_display_ensures_for_str(subject, s);
    }
    match (op, pat) {
        (Op::Equal, Pattern::Exact(p)) => s == *p,
        (Op::NotEqual, Pattern::Exact(p)) => !(s == *p),
        (Op::Regex, Pattern::Regex(p)) => p.is_match(subject),
        (Op::NotRegex, Pattern::Regex(p)) => !p.is_match(subject),
        (Op::Glob, Pattern::Glob(p)) => p.is_match(subject),
        (Op::NotGlob, Pattern::Glob(p)) => !p.is_match(subject),
        (Op::InSet, Pattern::Strings(v)) => contains_text(v, &s),
        (Op::InSet, Pattern::Exact(p)) => s == *p,
        (Op::NotInSet, Pattern::Strings(v)) => !contains_text(v, &s),
        (Op::NotInSet, Pattern::Exact(p)) => !(s == *p),
        _ => false,
    }
}

/// Whether `op` is meant to be used with a pattern of this kind.
pub open spec fn pairs_with(op: Op, pat: Pattern) -> bool {
    match (op, pat) {
        (Op::Equal, Pattern::Exact(_)) => true,
        (Op::NotEqual, Pattern::Exact(_)) => true,
        (Op::Regex, Pattern::Regex(_)) => true,
        (Op::NotRegex, Pattern::Regex(_)) => true,
        (Op::Glob, Pattern::Glob(_)) => true,
        (Op::NotGlob, Pattern::Glob(_)) => true,
        (Op::InSet, Pattern::Strings(_)) => true,
        (Op::InSet, Pattern::Exact(_)) => true,
        (Op::NotInSet, Pattern::Strings(_)) => true,
        (Op::NotInSet, Pattern::Exact(_)) => true,
        _ => false,
    }
}

/// An exact pattern matches under `Equal` exactly when the subject is its
/// text, and `NotEqual` gives the opposite answer.
pub proof fn lemma_exact_equality(text: String, subject: Seq<char>)
    ensures
        op_matches(Op::Equal, Pattern::Exact(text), subject) <==> subject == text@,
        op_matches(Op::NotEqual, Pattern::Exact(text), subject) == !op_matches(
            Op::Equal,
            Pattern::Exact(text),
            subject,
        ),
{
}

/// A regex pattern matches exactly when the compiled expression finds the
/// subject, a glob pattern exactly when the glob accepts it, and each
/// negated operator gives the opposite answer.
pub proof fn lemma_compiled_patterns(re: RegexPattern, glob: GlobPattern, subject: Seq<char>)
    ensures
        op_matches(Op::Regex, Pattern::Regex(re), subject) == regex_finds(re@, subject),
        op_matches(Op::NotRegex, Pattern::Regex(re), subject) == !op_matches(
            Op::Regex,
            Pattern::Regex(re),
            subject,
        ),
        op_matches(Op::Glob, Pattern::Glob(glob), subject) == glob_accepts(glob@, subject),
        op_matches(Op::NotGlob, Pattern::Glob(glob), subject) == !op_matches(
            Op::Glob,
            Pattern::Glob(glob),
            subject,
        ),
{
}

/// A set pattern matches under `InSet` exactly when the subject is one of
/// its texts, `NotInSet` gives the opposite answer, and on an exact pattern
/// the two behave as `Equal` and `NotEqual`.
pub proof fn lemma_set_membership(items: Vec<String>, text: String, subject: Seq<char>)
    ensures
        op_matches(Op::InSet, Pattern::Strings(items), subject) <==> (exists|i: int|
            0 <= i < items@.len() && items@[i]@ == subject),
        op_matches(Op::NotInSet, Pattern::Strings(items), subject) == !op_matches(
            Op::InSet,
            Pattern::Strings(items),
            subject,
        ),
        op_matches(Op::InSet, Pattern::Exact(text), subject) == op_matches(
            Op::Equal,
            Pattern::Exact(text),
            subject,
        ),
        op_matches(Op::NotInSet, Pattern::Exact(text), subject) == op_matches(
            Op::NotEqual,
            Pattern::Exact(text),
            subject,
        ),
{
}

/// Patterns compare by source text: two expressions, or two globs, compiled
/// from the same text are equal, whatever their compiled values.
pub proof fn lemma_equal_by_source(
    re1: RegexPattern,
    re2: RegexPattern,
    glob1: GlobPattern,
    glob2: GlobPattern,
)
    requires
        re1@ == re2@,
        glob1@ == glob2@,
    ensures
        same_pattern(Pattern::Regex(re1), Pattern::Regex(re2)),
        same_pattern(Pattern::Glob(glob1), Pattern::Glob(glob2)),
{
}

/// An operator used with a pattern it is not meant for never matches.
pub proof fn lemma_mismatch_never_matches(op: Op, pat: Pattern, subject: Seq<char>)
    requires
        !pairs_with(op, pat),
    ensures
        !op_matches(op, pat, subject),
{
}

} // verus!
