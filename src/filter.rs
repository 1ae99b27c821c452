//! Tags, filters, and the evaluator that decides whether an event passes.
use vstd::prelude::*;

use crate::pattern::{op_match, op_matches, Op, Pattern};

verus! {

/// Which tag dimension a filter targets.
#[derive(Clone, Copy, Debug, PartialEq, Eq, Hash, Structural)]
#[non_exhaustive]
pub enum Matcher {
    Tag,
    Path,
    FileEventKind,
    Source,
    Process,
    Signal,
    ProcessCompletion,
}

/// One fact about an event, each carrying the plain value it is compared by.
///
/// A file event kind and a source carry their textual renderings.
#[derive(Clone, Debug, PartialEq, Eq)]
pub enum Tag {
    Path(String),
    FileEventKind(String),
    Source(String),
    Process(u32),
    Signal(String),
    ProcessCompletion(Option<i64>),
}

/// An event: the tags it carries, in order.
#[derive(Clone, Debug, PartialEq, Eq)]
pub struct Event {
    pub tags: Vec<Tag>,
}

/// Why an event could not be evaluated.
#[derive(Clone, Copy, Debug, PartialEq, Eq, Structural)]
pub enum RuntimeError {
    /// A rule targets a tag kind whose subject is not defined.
    UnsupportedMatcher(Matcher),
}

/// The decimal digits of `n`, most significant first.
pub open spec fn decimal_text(n: nat) -> Seq<char>
    decreases n,
{
    let digit = seq!['0', '1', '2', '3', '4', '5', '6', '7', '8', '9'][(n % 10) as int];
    if n < 10 {
        seq![digit]
    } else {
        decimal_text(n / 10).push(digit)
    }
}

/// Relies on `u32`'s `to_string`: its decimal digits without sign or padding.
#[verifier::external_body]
fn decimal_string(n: u32) -> (r: String)
    ensures
        r@ == decimal_text(n as nat),
{
    n.to_string()
}

/// The name of a tag's kind.
pub open spec fn kind_name(tag: Tag) -> Seq<char> {
    match tag {
        Tag::Path(_) => "Path"@,
        Tag::FileEventKind(_) => "FileEventKind"@,
        Tag::Source(_) => "Source"@,
        Tag::Process(_) => "Process"@,
        Tag::Signal(_) => "Signal"@,
        Tag::ProcessCompletion(_) => "ProcessCompletion"@,
    }
}

/// The matcher that a tag's filters are registered under.
pub open spec fn matcher_of(tag: Tag) -> Matcher {
    match tag {
        Tag::Path(_) => Matcher::Path,
        Tag::FileEventKind(_) => Matcher::FileEventKind,
        Tag::Source(_) => Matcher::Source,
        Tag::Process(_) => Matcher::Process,
        Tag::Signal(_) => Matcher::Signal,
        Tag::ProcessCompletion(_) => Matcher::ProcessCompletion,
    }
}

impl Tag {
    /// The name of this tag's kind.
    pub fn discriminant_name(&self) -> (r: &'static str)
        ensures
            r@ == kind_name(*self),
    {
        proof {
            reveal_strlit("Path");
            reveal_strlit("FileEventKind");
            reveal_strlit("Source");
            reveal_strlit("Process");
            reveal_strlit("Signal");
            reveal_strlit("ProcessCompletion");
        }
        match self {
            Tag::Path(_) => "Path",
            Tag::FileEventKind(_) => "FileEventKind",
            Tag::Source(_) => "Source",
            Tag::Process(_) => "Process",
            Tag::Signal(_) => "Signal",
            Tag::ProcessCompletion(_) => "ProcessCompletion",
        }
    }
}

impl<'a> From<&'a Tag> for Matcher {
    fn from(tag: &'a Tag) -> (r: Matcher) {
        match tag {
            Tag::Path(_) => Matcher::Path,
            Tag::FileEventKind(_) => Matcher::FileEventKind,
            Tag::Source(_) => Matcher::Source,
            Tag::Process(_) => Matcher::Process,
            Tag::Signal(_) => Matcher::Signal,
            Tag::ProcessCompletion(_) => Matcher::ProcessCompletion,
        }
    }
}

impl<'a> vstd::std_specs::convert::FromSpecImpl<&'a Tag> for Matcher {
    open spec fn obeys_from_spec() -> bool {
        true
    }

    open spec fn from_spec(tag: &'a Tag) -> Matcher {
        matcher_of(*tag)
    }
}

/// One rule: which tag it targets, how and against what it compares, and
/// whether a positive match overrides earlier negative results.
#[derive(Clone, Debug, PartialEq, Eq)]
pub struct Filter {
    /// Path the filter applies from.
    pub in_path: Option<String>,
    /// Which tag the filter applies to.
    pub on: Matcher,
    /// The operation to perform on the tag's value.
    pub op: Op,
    /// The pattern to match against the tag's value.
    pub pat: Pattern,
    /// If true, a positive match with this filter overrides negative matches
    /// from previous filters on the same tag, and a non-match is ignored.
    pub negate: bool,
}

impl Filter {
    /// Compares `subject` against this filter's pattern with its operator.
    pub fn matches(&self, subject: &str) -> (r: Result<bool, RuntimeError>)
        ensures
            r == Ok::<bool, RuntimeError>(op_matches(self.op, self.pat, subject@)),
    {
        Ok(op_match(self.op, &self.pat, subject))
    }
}

/// What one filter says of one tag: an error where the tag's subject is not
/// defined, nothing where the filter targets another kind of tag, else
/// whether the subject matches.
pub open spec fn tag_outcome(f: Filter, tag: Tag) -> Result<Option<bool>, RuntimeError> {
    match (tag, f.on) {
        (_, Matcher::Tag) => Ok(Some(op_matches(f.op, f.pat, kind_name(tag)))),
        (Tag::Path(_), Matcher::Path) => Err(RuntimeError::UnsupportedMatcher(Matcher::Path)),
        (Tag::FileEventKind(k), Matcher::FileEventKind) => Ok(Some(op_matches(f.op, f.pat, k@))),
        (Tag::Source(s), Matcher::Source) => Ok(Some(op_matches(f.op, f.pat, s@))),
        (Tag::Process(p), Matcher::Process) => Ok(
            Some(op_matches(f.op, f.pat, decimal_text(p as nat))),
        ),
        (Tag::Signal(_), Matcher::Signal) => Err(RuntimeError::UnsupportedMatcher(Matcher::Signal)),
        (Tag::ProcessCompletion(_), Matcher::ProcessCompletion) => Err(
            RuntimeError::UnsupportedMatcher(Matcher::ProcessCompletion),
        ),
        _ => Ok(None),
    }
}

/// The verdict of a bucket's filters on one tag, taken in order from `true`:
/// a plain filter ands its result in, a negated one that matches forces
/// `true`, and a negated one that does not match changes nothing.
pub open spec fn bucket_verdict(fs: Seq<Filter>, tag: Tag) -> Result<bool, RuntimeError>
    decreases fs.len(),
{
    if fs.len() == 0 {
        Ok(true)
    } else {
        match bucket_verdict(fs.drop_last(), tag) {
            Err(e) => Err(e),
            Ok(acc) => match tag_outcome(fs.last(), tag) {
                Err(e) => Err(e),
                Ok(None) => Ok(acc),
                Ok(Some(app)) => Ok(
                    if fs.last().negate {
                        acc || app
                    } else {
                        acc && app
                    },
                ),
            },
        }
    }
}

/// The filters among `filters` that target `m`, in the order they were supplied.
pub open spec fn bucket(filters: Seq<Filter>, m: Matcher) -> Seq<Filter> {
    filters.filter(|f: Filter| f.on == m)
}

/// The position of a matcher's bucket in the registry.
pub open spec fn matcher_index(m: Matcher) -> int {
    match m {
        Matcher::Tag => 0,
        Matcher::Path => 1,
        Matcher::FileEventKind => 2,
        Matcher::Source => 3,
        Matcher::Process => 4,
        Matcher::Signal => 5,
        Matcher::ProcessCompletion => 6,
    }
}

/// The bucket of `m` among `buckets`; one that is absent holds no filter.
pub open spec fn bucket_at(buckets: Seq<Seq<Filter>>, m: Matcher) -> Seq<Filter> {
    if matcher_index(m) < buckets.len() {
        buckets[matcher_index(m)]
    } else {
        Seq::empty()
    }
}

/// The verdict on an event with these tags: every tag's bucket must accept,
/// tags taken in order and the first rejection or error deciding.
pub open spec fn event_verdict(buckets: Seq<Seq<Filter>>, tags: Seq<Tag>) -> Result<bool, RuntimeError>
    decreases tags.len(),
{
    if tags.len() == 0 {
        Ok(true)
    } else {
        match bucket_verdict(bucket_at(buckets, matcher_of(tags[0])), tags[0]) {
            Err(e) => Err(e),
            Ok(false) => Ok(false),
            Ok(true) => event_verdict(buckets, tags.drop_first()),
        }
    }
}

/// The position of a matcher's bucket in the registry.
fn index_of(m: Matcher) -> (r: usize)
    ensures
        r == matcher_index(m),
{
    match m {
        Matcher::Tag => 0,
        Matcher::Path => 1,
        Matcher::FileEventKind => 2,
        Matcher::Source => 3,
        Matcher::Process => 4,
        Matcher::Signal => 5,
        Matcher::ProcessCompletion => 6,
    }
}

/// The filters of a project, grouped by the matcher they target.
pub struct TaggedFilterer {
    /// The directory the project is in, its root.
    _root: String,
    /// Where the program is running from.
    _workdir: String,
    /// One bucket per matcher, at its `matcher_index`, each holding the
    /// filters that target it in the order they were supplied.
    buckets: Vec<Vec<Filter>>,
}

impl TaggedFilterer {
    /// The buckets, by position.
    pub closed spec fn spec_buckets(&self) -> Seq<Seq<Filter>> {
        self.buckets@.map_values(|b: Vec<Filter>| b@)
    }

    /// A registry of `filters`, grouped by the matcher they target, each
    /// bucket keeping their relative order.
    pub fn new(root: String, workdir: String, filters: Vec<Filter>) -> (r: TaggedFilterer)
        ensures
            forall|m: Matcher| #[trigger] bucket_at(r.spec_buckets(), m) == bucket(filters@, m),
    {
        let ghost all = filters@;
        let ghost mut j: int = 0;
        let mut rest = filters;
        let mut on_tag: Vec<Filter> = Vec::new();
        let mut on_path: Vec<Filter> = Vec::new();
        let mut on_kind: Vec<Filter> = Vec::new();
        let mut on_source: Vec<Filter> = Vec::new();
        let mut on_process: Vec<Filter> = Vec::new();
        let mut on_signal: Vec<Filter> = Vec::new();
        let mut on_completion: Vec<Filter> = Vec::new();
        proof {
            assert(all.skip(0) =~= all);
            assert forall|m: Matcher| #[trigger] bucket(all.take(0), m).len() == 0 by {
                assert(all.take(0).len() == 0);
            }
        }
        while rest.len() > 0
            invariant
                0 <= j <= all.len(),
                rest@ == all.skip(j),
                on_tag@ == bucket(all.take(j), Matcher::Tag),
                on_path@ == bucket(all.take(j), Matcher::Path),
                on_kind@ == bucket(all.take(j), Matcher::FileEventKind),
                on_source@ == bucket(all.take(j), Matcher::Source),
                on_process@ == bucket(all.take(j), Matcher::Process),
                on_signal@ == bucket(all.take(j), Matcher::Signal),
                on_completion@ == bucket(all.take(j), Matcher::ProcessCompletion),
            decreases rest.len(),
        {
            proof {
                assert(rest@[0] == all[j]);
                lemma_bucket_step(all, Matcher::Tag, j);
                lemma_bucket_step(all, Matcher::Path, j);
                lemma_bucket_step(all, Matcher::FileEventKind, j);
                lemma_bucket_step(all, Matcher::Source, j);
                lemma_bucket_step(all, Matcher::Process, j);
                lemma_bucket_step(all, Matcher::Signal, j);
                lemma_bucket_step(all, Matcher::ProcessCompletion, j);
            }
            let f = rest.remove(0);
            match f.on {
                Matcher::Tag => on_tag.push(f),
                Matcher::Path => on_path.push(f),
                Matcher::FileEventKind => on_kind.push(f),
                Matcher::Source => on_source.push(f),
                Matcher::Process => on_process.push(f),
                Matcher::Signal => on_signal.push(f),
                Matcher::ProcessCompletion => on_completion.push(f),
            }
            proof {
                assert(rest@ =~= all.skip(j + 1));
                j = j + 1;
            }
        }
        proof {
            assert(all.skip(j).len() == 0);
            assert(all.take(j) =~= all);
        }
        let mut buckets: Vec<Vec<Filter>> = Vec::new();
        buckets.push(on_tag);
        buckets.push(on_path);
        buckets.push(on_kind);
        buckets.push(on_source);
        buckets.push(on_process);
        buckets.push(on_signal);
        buckets.push(on_completion);
        let r = TaggedFilterer { _root: root, _workdir: workdir, buckets };
        proof {
            assert forall|m: Matcher| #[trigger] bucket_at(r.spec_buckets(), m) == bucket(all, m) by {
                assert(r.spec_buckets().len() == 7);
            }
        }
        r
    }

    /// What `filter` says of `tag`.
    fn match_tag(&self, filter: &Filter, tag: &Tag) -> (r: Result<Option<bool>, RuntimeError>)
        ensures
            r == tag_outcome(*filter, *tag),
            filter.on == matcher_of(*tag) && unsupported(*tag) ==> r == Err::<
                Option<bool>,
                RuntimeError,
            >(RuntimeError::UnsupportedMatcher(filter.on)),
    {
        match (tag, filter.on) {
            (tag, Matcher::Tag) => Ok(Some(op_match(filter.op, &filter.pat, tag.discriminant_name()))),
            (Tag::Path(_), Matcher::Path) => Err(RuntimeError::UnsupportedMatcher(Matcher::Path)),
            (Tag::FileEventKind(k), Matcher::FileEventKind) => Ok(
                Some(op_match(filter.op, &filter.pat, k.as_str())),
            ),
            (Tag::Source(s), Matcher::Source) => Ok(Some(op_match(filter.op, &filter.pat, s.as_str()))),
            (Tag::Process(p), Matcher::Process) => {
                let text = decimal_string(*p);
                Ok(Some(op_match(filter.op, &filter.pat, text.as_str())))
            },
            (Tag::Signal(_), Matcher::Signal) => Err(RuntimeError::UnsupportedMatcher(Matcher::Signal)),
            (Tag::ProcessCompletion(_), Matcher::ProcessCompletion) => Err(
                RuntimeError::UnsupportedMatcher(Matcher::ProcessCompletion),
            ),
            _ => Ok(None),
        }
    }

    /// The verdict of the bucket for `tag`'s matcher on `tag`.
    fn check_bucket(&self, tag: &Tag) -> (r: Result<bool, RuntimeError>)
        ensures
            r == bucket_verdict(bucket_at(self.spec_buckets(), matcher_of(*tag)), *tag),
    {
        let idx = index_of(Matcher::from(tag));
        if idx >= self.buckets.len() {
            return Ok(true);
        }
        let fs = &self.buckets[idx];
        let ghost s = fs@;
        assert(s == bucket_at(self.spec_buckets(), matcher_of(*tag)));
        let n = fs.len();
        let mut tag_match = true;
        let mut j: usize = 0;
        proof {
            assert(s.take(0).len() == 0);
        }
        while j < n
            invariant
                n == s.len(),
                s == fs@,
                s == bucket_at(self.spec_buckets(), matcher_of(*tag)),
                j <= n,
                bucket_verdict(s.take(j as int), *tag) == Ok::<bool, RuntimeError>(tag_match),
            decreases n - j,
        {
            let filter = &fs[j];
            proof {
                assert(s.take(j as int + 1).drop_last() =~= s.take(j as int));
                assert(s.take(j as int + 1).last() == s[j as int]);
            }
            match self.match_tag(filter, tag) {
                Err(e) => {
                    proof {
                        assert(bucket_verdict(s.take(j as int + 1), *tag) == Err::<bool, RuntimeError>(e));
                        lemma_error_sticks(s, *tag, j as int + 1, n as int);
                        assert(s.take(n as int) =~= s);
                    }
                    return Err(e);
                },
                Ok(None) => {},
                Ok(Some(app)) => {
                    if filter.negate {
                        if app {
                            tag_match = true;
                        }
                    } else {
                        tag_match = tag_match && app;
                    }
                },
            }
            j = j + 1;
        }
        proof {
            assert(s.take(n as int) =~= s);
        }
        Ok(tag_match)
    }

    /// Whether `event` passes: each of its tags must be accepted by the
    /// bucket of its matcher, so an empty registry accepts everything.
    pub fn check_event(&self, event: &Event) -> (r: Result<bool, RuntimeError>)
        ensures
            r == event_verdict(self.spec_buckets(), event.tags@),
    {
        let ghost bs = self.spec_buckets();
        let ghost tags = event.tags@;
        let n = event.tags.len();
        let mut i: usize = 0;
        proof {
            assert(tags.subrange(0, n as int) =~= tags);
        }
        while i < n
            invariant
                n == tags.len(),
                tags == event.tags@,
                bs == self.spec_buckets(),
                i <= n,
                event_verdict(bs, tags) == event_verdict(bs, tags.subrange(i as int, n as int)),
            decreases n - i,
        {
            let tag = &event.tags[i];
            let ghost rest = tags.subrange(i as int, n as int);
            proof {
                assert(rest[0] == *tag);
                assert(rest.drop_first() =~= tags.subrange(i as int + 1, n as int));
            }
            match self.check_bucket(tag) {
                Err(e) => {
                    return Err(e);
                },
                Ok(false) => {
                    return Ok(false);
                },
                Ok(true) => {},
            }
            i = i + 1;
        }
        proof {
            assert(tags.subrange(n as int, n as int).len() == 0);
        }
        Ok(true)
    }
}

/// Taking one more filter into account extends the bucket of `m` by that
/// filter exactly when it targets `m`.
proof fn lemma_bucket_step(filters: Seq<Filter>, m: Matcher, j: int)
    requires
        0 <= j < filters.len(),
    ensures
        bucket(filters.take(j + 1), m) == (if filters[j].on == m {
            bucket(filters.take(j), m).push(filters[j])
        } else {
            bucket(filters.take(j), m)
        }),
{
    let t = filters.take(j + 1);
    assert(t.drop_last() =~= filters.take(j));
    assert(t.last() == filters[j]);
    reveal_with_fuel(Seq::filter, 1);
}

/// Once a prefix of a bucket yields an error on a tag, every longer prefix
/// yields the same error.
proof fn lemma_error_sticks(fs: Seq<Filter>, tag: Tag, j: int, k: int)
    requires
        0 <= j <= k <= fs.len(),
        bucket_verdict(fs.take(j), tag) is Err,
    ensures
        bucket_verdict(fs.take(k), tag) == bucket_verdict(fs.take(j), tag),
    decreases k - j,
{
    if j < k {
        assert(fs.take(j + 1).drop_last() =~= fs.take(j));
        lemma_error_sticks(fs, tag, j + 1, k);
    }
}

/// Whether a tag's kind has no defined subject.
pub open spec fn unsupported(tag: Tag) -> bool {
    matcher_of(tag) == Matcher::Path || matcher_of(tag) == Matcher::Signal || matcher_of(tag)
        == Matcher::ProcessCompletion
}

/// A registry whose buckets hold no filter, such as one made from no filters,
/// accepts every event.
pub proof fn lemma_empty_registry_accepts(buckets: Seq<Seq<Filter>>, tags: Seq<Tag>)
    requires
        forall|m: Matcher| #[trigger] bucket_at(buckets, m).len() == 0,
    ensures
        event_verdict(buckets, tags) == Ok::<bool, RuntimeError>(true),
    decreases tags.len(),
{
    if tags.len() > 0 {
        assert(bucket_at(buckets, matcher_of(tags[0])).len() == 0);
        lemma_empty_registry_accepts(buckets, tags.drop_first());
    }
}

/// A tag whose bucket holds no filter is accepted by it, and the verdict on
/// an event that starts with such a tag is the verdict on the rest.
pub proof fn lemma_empty_bucket_accepts(buckets: Seq<Seq<Filter>>, tags: Seq<Tag>)
    requires
        tags.len() > 0,
        bucket_at(buckets, matcher_of(tags[0])).len() == 0,
    ensures
        bucket_verdict(bucket_at(buckets, matcher_of(tags[0])), tags[0]) == Ok::<bool, RuntimeError>(
            true,
        ),
        event_verdict(buckets, tags) == event_verdict(buckets, tags.drop_first()),
{
}

/// An event with one tag whose bucket accepts and one whose bucket rejects
/// is rejected, in either order.
pub proof fn lemma_one_rejecting_tag_rejects(buckets: Seq<Seq<Filter>>, yes: Tag, no: Tag)
    requires
        bucket_verdict(bucket_at(buckets, matcher_of(yes)), yes) == Ok::<bool, RuntimeError>(true),
        bucket_verdict(bucket_at(buckets, matcher_of(no)), no) == Ok::<bool, RuntimeError>(false),
    ensures
        event_verdict(buckets, seq![yes, no]) == Ok::<bool, RuntimeError>(false),
        event_verdict(buckets, seq![no, yes]) == Ok::<bool, RuntimeError>(false),
{
    assert(seq![yes, no].drop_first() =~= seq![no]);
    assert(event_verdict(buckets, seq![no]) == Ok::<bool, RuntimeError>(false));
}

/// An event is accepted exactly when every one of its tags is accepted by
/// the bucket of its matcher.
pub proof fn lemma_accepted_iff_every_tag_accepted(buckets: Seq<Seq<Filter>>, tags: Seq<Tag>)
    ensures
        event_verdict(buckets, tags) == Ok::<bool, RuntimeError>(true) <==> (forall|i: int|
            0 <= i < tags.len() ==> bucket_verdict(bucket_at(buckets, matcher_of(#[trigger] tags[i])), tags[i])
                == Ok::<bool, RuntimeError>(true)),
    decreases tags.len(),
{
    if tags.len() > 0 {
        let rest = tags.drop_first();
        lemma_accepted_iff_every_tag_accepted(buckets, rest);
        assert forall|i: int| 0 < i < tags.len() implies tags[i] == rest[i - 1] by {}
        if bucket_verdict(bucket_at(buckets, matcher_of(tags[0])), tags[0]) == Ok::<bool, RuntimeError>(true) {
            if forall|i: int|
                0 <= i < rest.len() ==> bucket_verdict(bucket_at(buckets, matcher_of(#[trigger] rest[i])), rest[i])
                    == Ok::<bool, RuntimeError>(true) {
                assert forall|i: int| 0 <= i < tags.len() implies bucket_verdict(
                    bucket_at(buckets, matcher_of(#[trigger] tags[i])),
                    tags[i],
                ) == Ok::<bool, RuntimeError>(true) by {
                    if i > 0 {
                        assert(tags[i] == rest[i - 1]);
                    }
                }
            } else {
                let k = choose|k: int|
                    0 <= k < rest.len() && !(bucket_verdict(bucket_at(buckets, matcher_of(#[trigger] rest[k])), rest[k])
                        == Ok::<bool, RuntimeError>(true));
                assert(tags[k + 1] == rest[k]);
            }
        }
    }
}

/// A filter that targets the matcher of a tag whose subject is not defined
/// (a path, a signal, a process completion) yields the unsupported-matcher
/// error on it, never a match result.
pub proof fn lemma_unsupported_filter_errs(f: Filter, tag: Tag)
    requires
        unsupported(tag),
        f.on == matcher_of(tag),
    ensures
        tag_outcome(f, tag) == Err::<Option<bool>, RuntimeError>(
            RuntimeError::UnsupportedMatcher(matcher_of(tag)),
        ),
{
}

/// Every filter of a non-empty sequence targeting an unsupported tag's
/// matcher makes its verdict the unsupported-matcher error.
proof fn lemma_unsupported_bucket(fs: Seq<Filter>, tag: Tag)
    requires
        unsupported(tag),
        fs.len() > 0,
        forall|i: int| 0 <= i < fs.len() ==> (#[trigger] fs[i]).on == matcher_of(tag),
    ensures
        bucket_verdict(fs, tag) == Err::<bool, RuntimeError>(
            RuntimeError::UnsupportedMatcher(matcher_of(tag)),
        ),
    decreases fs.len(),
{
    let init = fs.drop_last();
    assert(fs.last() == fs[fs.len() - 1]);
    if init.len() > 0 {
        assert forall|i: int| 0 <= i < init.len() implies (#[trigger] init[i]).on == matcher_of(tag) by {
            assert(init[i] == fs[i]);
        }
        lemma_unsupported_bucket(init, tag);
    }
}

/// A rule on a tag kind whose subject is not defined yields the
/// unsupported-matcher error for any tag of that kind, never a verdict, and
/// an event made of that tag fails with it.
pub proof fn lemma_unsupported_matcher_errs(buckets: Seq<Seq<Filter>>, filters: Seq<Filter>, tag: Tag)
    requires
        unsupported(tag),
        bucket_at(buckets, matcher_of(tag)) == bucket(filters, matcher_of(tag)),
        bucket(filters, matcher_of(tag)).len() > 0,
    ensures
        bucket_verdict(bucket_at(buckets, matcher_of(tag)), tag) == Err::<bool, RuntimeError>(
            RuntimeError::UnsupportedMatcher(matcher_of(tag)),
        ),
        event_verdict(buckets, seq![tag]) == Err::<bool, RuntimeError>(
            RuntimeError::UnsupportedMatcher(matcher_of(tag)),
        ),
{
    let m = matcher_of(tag);
    let pred = |f: Filter| f.on == m;
    let b = bucket(filters, m);
    assert forall|i: int| 0 <= i < b.len() implies (#[trigger] b[i]).on == m by {
        filters.lemma_filter_pred(pred, i);
    }
    lemma_unsupported_bucket(b, tag);
    assert(seq![tag][0] == tag);
}

/// Within a bucket, a negated filter that matches forces the verdict to
/// `true` whatever came before, a negated filter that does not match leaves
/// it as it was, and a plain filter ands its result in.
pub proof fn lemma_negation_override(fs: Seq<Filter>, f: Filter, tag: Tag, app: bool)
    requires
        bucket_verdict(fs, tag) is Ok,
        tag_outcome(f, tag) == Ok::<Option<bool>, RuntimeError>(Some(app)),
    ensures
        f.negate && app ==> bucket_verdict(fs.push(f), tag) == Ok::<bool, RuntimeError>(true),
        f.negate && !app ==> bucket_verdict(fs.push(f), tag) == bucket_verdict(fs, tag),
        !f.negate ==> bucket_verdict(fs.push(f), tag) == Ok::<bool, RuntimeError>(
            bucket_verdict(fs, tag)->Ok_0 && app,
        ),
{
    assert(fs.push(f).drop_last() =~= fs);
    assert(fs.push(f).last() == f);
}

} // verus!
