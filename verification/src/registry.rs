//! The step registry: one exact bag and one pattern bag per step role.
//! Exact bags are keyed by literal step text, pattern bags by the
//! pattern's source text; both keep insertion order, and inserting an
//! already-present key overwrites the entry in place.  Resolution gives
//! the exact bag priority, then scans the pattern bag in insertion order.

use vstd::prelude::*;

use crate::feature::Step;
use crate::feature::StepType;
use crate::pattern::CompiledPattern;
use crate::pattern::is_part_of;
use crate::pattern::regex_captures;
use crate::pattern::regex_found;
use crate::pattern::regex_valid;

verus! {

/// An exact-bag entry: literal step text and its handler.
pub struct ExactEntry<N> {
    pub key: String,
    pub handler: N,
}

/// A pattern-bag entry: a compiled pattern (carrying its source text,
/// the entry's identity) and its handler.
pub struct PatternEntry<R> {
    pub pattern: CompiledPattern,
    pub handler: R,
}

/// The registration failure: the pattern source did not compile.
#[derive(Debug)]
pub struct ConfigError {
    pub pattern: String,
}

/// What a step resolves to: an exact handler, or a pattern handler with
/// the captured strings of the match, in group order.
pub enum TestCaseType<N, R> {
    Normal(N),
    Regex(R, Vec<String>),
}

/// An exact bag as key/handler pairs over character sequences.
pub open spec fn exact_bag_view<N>(bag: Seq<ExactEntry<N>>) -> Seq<(Seq<char>, N)> {
    bag.map(|i: int, e: ExactEntry<N>| (e.key@, e.handler))
}

/// A pattern bag as source/handler pairs over character sequences.
pub open spec fn pattern_bag_view<R>(bag: Seq<PatternEntry<R>>) -> Seq<(Seq<char>, R)> {
    bag.map(|i: int, e: PatternEntry<R>| (e.pattern.source_view(), e.handler))
}

/// The handler stored under `key`: that of the first entry whose key is
/// `key`, if any.
pub open spec fn lookup<H>(entries: Seq<(Seq<char>, H)>, key: Seq<char>) -> Option<H>
    decreases entries.len(),
{
    if entries.len() == 0 {
        None
    } else if entries[0].0 == key {
        Some(entries[0].1)
    } else {
        lookup(entries.drop_first(), key)
    }
}

/// `entries` after inserting `(key, h)`: an entry already under `key` is
/// overwritten in place, otherwise the pair is appended.
pub open spec fn upserted<H>(entries: Seq<(Seq<char>, H)>, key: Seq<char>, h: H) -> Seq<
    (Seq<char>, H),
>
    decreases entries.len(),
{
    if entries.len() == 0 {
        seq![(key, h)]
    } else if entries[0].0 == key {
        seq![(key, h)] + entries.drop_first()
    } else {
        seq![entries[0]] + upserted(entries.drop_first(), key, h)
    }
}

/// The first entry whose pattern matches `text`, in insertion order.
pub open spec fn first_match<H>(entries: Seq<(Seq<char>, H)>, text: Seq<char>) -> Option<
    (Seq<char>, H),
>
    decreases entries.len(),
{
    if entries.len() == 0 {
        None
    } else if regex_found(entries[0].0, text) {
        Some(entries[0])
    } else {
        first_match(entries.drop_first(), text)
    }
}

/// `acc` after inserting every entry of `src` in order.
pub open spec fn merged<H>(
    acc: Seq<(Seq<char>, H)>,
    src: Seq<(Seq<char>, H)>,
) -> Seq<(Seq<char>, H)>
    decreases src.len(),
{
    if src.len() == 0 {
        acc
    } else {
        merged(upserted(acc, src[0].0, src[0].1), src.drop_first())
    }
}

/// `acc` after merging a sequence of bags in order.
pub open spec fn merged_list<H>(
    acc: Seq<(Seq<char>, H)>,
    bags: Seq<Seq<(Seq<char>, H)>>,
) -> Seq<(Seq<char>, H)>
    decreases bags.len(),
{
    if bags.len() == 0 {
        acc
    } else {
        merged_list(merged(acc, bags[0]), bags.drop_first())
    }
}

pub proof fn lemma_lookup_at<H>(entries: Seq<(Seq<char>, H)>, key: Seq<char>, i: int)
    requires
        0 <= i < entries.len(),
        entries[i].0 == key,
        forall|k: int| 0 <= k < i ==> entries[k].0 != key,
    ensures
        lookup(entries, key) == Some(entries[i].1),
    decreases i,
{
    if i > 0 {
        lemma_lookup_at(entries.drop_first(), key, i - 1);
    }
}

pub proof fn lemma_lookup_none<H>(entries: Seq<(Seq<char>, H)>, key: Seq<char>)
    requires
        forall|k: int| 0 <= k < entries.len() ==> entries[k].0 != key,
    ensures
        lookup(entries, key) is None,
    decreases entries.len(),
{
    if entries.len() > 0 {
        lemma_lookup_none(entries.drop_first(), key);
    }
}

pub proof fn lemma_upserted_at<H>(entries: Seq<(Seq<char>, H)>, key: Seq<char>, h: H, i: int)
    requires
        0 <= i < entries.len(),
        entries[i].0 == key,
        forall|k: int| 0 <= k < i ==> entries[k].0 != key,
    ensures
        upserted(entries, key, h) =~= entries.update(i, (key, h)),
    decreases i,
{
    if i > 0 {
        lemma_upserted_at(entries.drop_first(), key, h, i - 1);
        assert(upserted(entries, key, h)
            =~= seq![entries[0]] + entries.drop_first().update(i - 1, (key, h)));
    }
}

pub proof fn lemma_upserted_none<H>(entries: Seq<(Seq<char>, H)>, key: Seq<char>, h: H)
    requires
        forall|k: int| 0 <= k < entries.len() ==> entries[k].0 != key,
    ensures
        upserted(entries, key, h) =~= entries.push((key, h)),
    decreases entries.len(),
{
    if entries.len() > 0 {
        lemma_upserted_none(entries.drop_first(), key, h);
        assert(upserted(entries, key, h)
            =~= seq![entries[0]] + entries.drop_first().push((key, h)));
    }
}

pub proof fn lemma_first_match_at<H>(entries: Seq<(Seq<char>, H)>, text: Seq<char>, i: int)
    requires
        0 <= i < entries.len(),
        regex_found(entries[i].0, text),
        forall|k: int| 0 <= k < i ==> !regex_found(entries[k].0, text),
    ensures
        first_match(entries, text) == Some(entries[i]),
    decreases i,
{
    if i > 0 {
        lemma_first_match_at(entries.drop_first(), text, i - 1);
    }
}

pub proof fn lemma_first_match_none<H>(entries: Seq<(Seq<char>, H)>, text: Seq<char>)
    requires
        forall|k: int| 0 <= k < entries.len() ==> !regex_found(entries[k].0, text),
    ensures
        first_match(entries, text) is None,
    decreases entries.len(),
{
    if entries.len() > 0 {
        lemma_first_match_none(entries.drop_first(), text);
    }
}

/// Looking up after an insertion finds the inserted handler under its key
/// and leaves every other key unchanged.
pub proof fn lemma_lookup_upserted<H>(
    entries: Seq<(Seq<char>, H)>,
    key: Seq<char>,
    h: H,
    probe: Seq<char>,
)
    ensures
        lookup(upserted(entries, key, h), probe) == if probe == key {
            Some(h)
        } else {
            lookup(entries, probe)
        },
    decreases entries.len(),
{
    reveal_with_fuel(lookup, 3);
    if entries.len() == 0 {
        assert(upserted(entries, key, h) =~= seq![(key, h)]);
        assert(upserted(entries, key, h)[0] == (key, h));
        assert(upserted(entries, key, h).drop_first() =~= Seq::<(Seq<char>, H)>::empty());
    } else if entries[0].0 == key {
        assert(upserted(entries, key, h)[0] == (key, h));
        assert(upserted(entries, key, h).drop_first() =~= entries.drop_first());
    } else {
        lemma_lookup_upserted(entries.drop_first(), key, h, probe);
        assert(upserted(entries, key, h)[0] == entries[0]);
        assert(upserted(entries, key, h).len() > 0);
        assert(upserted(entries, key, h).drop_first() =~= upserted(entries.drop_first(), key, h));
    }
}

/// No two entries of the bag share a key.
pub open spec fn distinct_keys<H>(entries: Seq<(Seq<char>, H)>) -> bool {
    forall|i: int, j: int| 0 <= i < j < entries.len() ==> entries[i].0 != entries[j].0
}

/// Inserting never duplicates a key: a bag grown only by insertion keeps
/// its keys distinct.
pub proof fn lemma_upserted_distinct<H>(entries: Seq<(Seq<char>, H)>, key: Seq<char>, h: H)
    requires
        distinct_keys(entries),
    ensures
        distinct_keys(upserted(entries, key, h)),
    decreases entries.len(),
{
    if entries.len() == 0 {
        assert(upserted(entries, key, h) =~= seq![(key, h)]);
    } else if entries[0].0 == key {
        assert(upserted(entries, key, h) =~= seq![(key, h)] + entries.drop_first());
        assert forall|i: int, j: int|
            0 <= i < j < upserted(entries, key, h).len() implies upserted(entries, key, h)[i].0
            != upserted(entries, key, h)[j].0 by {
            if i == 0 {
                assert(upserted(entries, key, h)[j] == entries[j]);
            } else {
                assert(upserted(entries, key, h)[i] == entries[i]);
                assert(upserted(entries, key, h)[j] == entries[j]);
            }
        }
    } else {
        assert forall|i: int, j: int|
            0 <= i < j < entries.drop_first().len() implies entries.drop_first()[i].0
            != entries.drop_first()[j].0 by {
            assert(entries.drop_first()[i] == entries[i + 1]);
            assert(entries.drop_first()[j] == entries[j + 1]);
        }
        lemma_upserted_distinct(entries.drop_first(), key, h);
        let up = upserted(entries, key, h);
        assert(up =~= seq![entries[0]] + upserted(entries.drop_first(), key, h));
        assert forall|i: int, j: int| 0 <= i < j < up.len() implies up[i].0 != up[j].0 by {
            lemma_upserted_key_set(entries.drop_first(), key, h, j - 1);
            if i > 0 {
                lemma_upserted_key_set(entries.drop_first(), key, h, i - 1);
            }
        }
    }
}

/// Every key of an upserted bag is either the inserted key or a key that
/// the bag already had.
pub proof fn lemma_upserted_key_set<H>(entries: Seq<(Seq<char>, H)>, key: Seq<char>, h: H, i: int)
    requires
        0 <= i < upserted(entries, key, h).len(),
    ensures
        upserted(entries, key, h)[i].0 == key || (exists|k: int|
            0 <= k < entries.len() && entries[k].0 == upserted(entries, key, h)[i].0),
    decreases entries.len(),
{
    if entries.len() == 0 {
        assert(upserted(entries, key, h) =~= seq![(key, h)]);
    } else if entries[0].0 == key {
        assert(upserted(entries, key, h) =~= seq![(key, h)] + entries.drop_first());
        if i > 0 {
            assert(entries[i].0 == upserted(entries, key, h)[i].0);
        }
    } else {
        assert(upserted(entries, key, h) =~= seq![entries[0]] + upserted(
            entries.drop_first(),
            key,
            h,
        ));
        if i > 0 {
            lemma_upserted_key_set(entries.drop_first(), key, h, i - 1);
            if upserted(entries, key, h)[i].0 != key {
                let k = choose|k: int|
                    0 <= k < entries.drop_first().len() && entries.drop_first()[k].0 == upserted(
                        entries.drop_first(),
                        key,
                        h,
                    )[i - 1].0;
                assert(entries[k + 1].0 == upserted(entries, key, h)[i].0);
            }
        }
    }
}

/// The overwrite law for merged bags: when the keys of the later bag are
/// distinct (as they are in any bag grown only by insertion), a key the
/// later bag defines resolves to the later bag's handler, and one it does
/// not keeps the earlier bag's handler.
pub proof fn lemma_combine_overwrite<H>(
    earlier: Seq<(Seq<char>, H)>,
    later: Seq<(Seq<char>, H)>,
    key: Seq<char>,
)
    requires
        distinct_keys(later),
    ensures
        lookup(merged(earlier, later), key) == match lookup(later, key) {
            Some(h) => Some(h),
            None => lookup(earlier, key),
        },
    decreases later.len(),
{
    reveal_with_fuel(lookup, 3);
    if later.len() > 0 {
        assert forall|i: int, j: int|
            0 <= i < j < later.drop_first().len() implies later.drop_first()[i].0
            != later.drop_first()[j].0 by {
            assert(later.drop_first()[i] == later[i + 1]);
            assert(later.drop_first()[j] == later[j + 1]);
        }
        lemma_combine_overwrite(upserted(earlier, later[0].0, later[0].1), later.drop_first(), key);
        lemma_lookup_upserted(earlier, later[0].0, later[0].1, key);
        if later[0].0 == key {
            assert forall|k: int| 0 <= k < later.drop_first().len() implies later.drop_first()[k].0
                != key by {
                assert(later.drop_first()[k] == later[k + 1]);
            }
            lemma_lookup_none(later.drop_first(), key);
        }
    }
}

fn exact_find<N: Copy>(bag: &Vec<ExactEntry<N>>, key: &String) -> (r: Option<N>)
    ensures
        r == lookup(exact_bag_view(bag@), key@),
{
    let mut k: usize = 0;
    while k < bag.len()
        invariant
            k <= bag.len(),
            forall|j: int| 0 <= j < k ==> exact_bag_view(bag@)[j].0 != key@,
        decreases bag.len() - k,
    {
        proof {
            assert(exact_bag_view(bag@)[k as int].0 == bag@[k as int].key@);
        }
        if bag[k].key.eq(key) {
            proof {
                lemma_lookup_at(exact_bag_view(bag@), key@, k as int);
            }
            return Some(bag[k].handler);
        }
        k += 1;
    }
    proof {
        lemma_lookup_none(exact_bag_view(bag@), key@);
    }
    None
}

fn exact_insert<N: Copy>(bag: &mut Vec<ExactEntry<N>>, key: String, handler: N)
    ensures
        exact_bag_view(final(bag)@) == upserted(exact_bag_view(old(bag)@), key@, handler),
{
    let mut k: usize = 0;
    while k < bag.len()
        invariant
            k <= bag.len(),
            *bag == *old(bag),
            forall|j: int| 0 <= j < k ==> exact_bag_view(bag@)[j].0 != key@,
        decreases bag.len() - k,
    {
        proof {
            assert(exact_bag_view(bag@)[k as int].0 == bag@[k as int].key@);
        }
        if bag[k].key.eq(&key) {
            proof {
                lemma_upserted_at(exact_bag_view(bag@), key@, handler, k as int);
            }
            let _replaced = bag.remove(k);
            bag.insert(k, ExactEntry { key, handler });
            proof {
                assert(exact_bag_view(bag@)
                    =~= upserted(exact_bag_view(old(bag)@), key@, handler));
            }
            return;
        }
        k += 1;
    }
    proof {
        lemma_upserted_none(exact_bag_view(bag@), key@, handler);
    }
    bag.push(ExactEntry { key, handler });
    proof {
        assert(exact_bag_view(bag@) =~= upserted(exact_bag_view(old(bag)@), key@, handler));
    }
}

fn pattern_insert<R: Copy>(bag: &mut Vec<PatternEntry<R>>, pattern: CompiledPattern, handler: R)
    ensures
        pattern_bag_view(final(bag)@) == upserted(
            pattern_bag_view(old(bag)@),
            pattern.source_view(),
            handler,
        ),
{
    let ghost key = pattern.source_view();
    let mut k: usize = 0;
    while k < bag.len()
        invariant
            k <= bag.len(),
            *bag == *old(bag),
            key == pattern.source_view(),
            forall|j: int| 0 <= j < k ==> pattern_bag_view(bag@)[j].0 != key,
        decreases bag.len() - k,
    {
        proof {
            assert(pattern_bag_view(bag@)[k as int].0 == bag@[k as int].pattern.source_view());
        }
        if bag[k].pattern.source().eq(pattern.source()) {
            proof {
                lemma_upserted_at(pattern_bag_view(bag@), key, handler, k as int);
            }
            let _replaced = bag.remove(k);
            bag.insert(k, PatternEntry { pattern, handler });
            proof {
                assert(pattern_bag_view(bag@)
                    =~= upserted(pattern_bag_view(old(bag)@), key, handler));
            }
            return;
        }
        k += 1;
    }
    proof {
        lemma_upserted_none(pattern_bag_view(bag@), key, handler);
    }
    bag.push(PatternEntry { pattern, handler });
    proof {
        assert(pattern_bag_view(bag@) =~= upserted(pattern_bag_view(old(bag)@), key, handler));
    }
}

fn pattern_resolve<R: Copy>(bag: &Vec<PatternEntry<R>>, text: &String) -> (r: Option<
    (R, Vec<String>),
>)
    ensures
        match first_match(pattern_bag_view(bag@), text@) {
            Some(p) => {
                &&& r matches Some(rc)
                &&& rc.0 == p.1
                &&& rc.1.deep_view() == regex_captures(p.0, text@)
                &&& rc.1@.len() >= 1
                &&& is_part_of(rc.1@[0]@, text@)
            },
            None => r is None,
        },
{
    let mut k: usize = 0;
    while k < bag.len()
        invariant
            k <= bag.len(),
            forall|j: int| 0 <= j < k ==> !regex_found(pattern_bag_view(bag@)[j].0, text@),
        decreases bag.len() - k,
    {
        proof {
            assert(pattern_bag_view(bag@)[k as int].0 == bag@[k as int].pattern.source_view());
        }
        if bag[k].pattern.is_match(text.as_str()) {
            let caps = bag[k].pattern.capture_strings(text.as_str());
            proof {
                lemma_first_match_at(pattern_bag_view(bag@), text@, k as int);
            }
            return Some((bag[k].handler, caps));
        }
        k += 1;
    }
    proof {
        lemma_first_match_none(pattern_bag_view(bag@), text@);
    }
    None
}

fn merge_exact_into<N: Copy>(acc: &mut Vec<ExactEntry<N>>, src: Vec<ExactEntry<N>>)
    ensures
        exact_bag_view(final(acc)@) == merged(exact_bag_view(old(acc)@), exact_bag_view(src@)),
{
    let mut rest = src;
    while rest.len() > 0
        invariant
            merged(exact_bag_view(acc@), exact_bag_view(rest@))
                == merged(exact_bag_view(old(acc)@), exact_bag_view(src@)),
        decreases rest.len(),
    {
        let ghost before = exact_bag_view(rest@);
        let e = rest.remove(0);
        proof {
            assert(exact_bag_view(rest@) =~= before.drop_first());
            assert(before[0] == (e.key@, e.handler));
        }
        exact_insert(acc, e.key, e.handler);
    }
    proof {
        assert(exact_bag_view(rest@) =~= Seq::<(Seq<char>, N)>::empty());
    }
}

fn merge_pattern_into<R: Copy>(acc: &mut Vec<PatternEntry<R>>, src: Vec<PatternEntry<R>>)
    ensures
        pattern_bag_view(final(acc)@) == merged(pattern_bag_view(old(acc)@), pattern_bag_view(src@)),
{
    let mut rest = src;
    while rest.len() > 0
        invariant
            merged(pattern_bag_view(acc@), pattern_bag_view(rest@))
                == merged(pattern_bag_view(old(acc)@), pattern_bag_view(src@)),
        decreases rest.len(),
    {
        let ghost before = pattern_bag_view(rest@);
        let e = rest.remove(0);
        proof {
            assert(pattern_bag_view(rest@) =~= before.drop_first());
            assert(before[0] == (e.pattern.source_view(), e.handler));
        }
        pattern_insert(acc, e.pattern, e.handler);
    }
    proof {
        assert(pattern_bag_view(rest@) =~= Seq::<(Seq<char>, R)>::empty());
    }
}

/// The registry: an exact and a pattern bag for each step role.  `N` is
/// the exact-handler type and `R` the pattern-handler type; the core
/// stores and hands them out but never looks inside them.
pub struct Steps<N, R> {
    given_exact: Vec<ExactEntry<N>>,
    when_exact: Vec<ExactEntry<N>>,
    then_exact: Vec<ExactEntry<N>>,
    given_regex: Vec<PatternEntry<R>>,
    when_regex: Vec<PatternEntry<R>>,
    then_regex: Vec<PatternEntry<R>>,
}

/// The exact bags of a sequence of registries for one role, in order.
pub open spec fn exact_bags_of<N: Copy, R: Copy>(ss: Seq<Steps<N, R>>, ty: StepType) -> Seq<
    Seq<(Seq<char>, N)>,
> {
    ss.map(|i: int, s: Steps<N, R>| s.exact_bag(ty))
}

/// The pattern bags of a sequence of registries for one role, in order.
pub open spec fn pattern_bags_of<N: Copy, R: Copy>(ss: Seq<Steps<N, R>>, ty: StepType) -> Seq<
    Seq<(Seq<char>, R)>,
> {
    ss.map(|i: int, s: Steps<N, R>| s.pattern_bag(ty))
}

/// What resolution returns for a step with the given bags: the exact
/// entry's handler when the text is an exact key (exact entries always
/// take precedence); otherwise the first matching pattern's handler with
/// the captured strings of the match, group 0 being the overall match;
/// otherwise nothing.
pub open spec fn resolves_to<N, R>(
    exact: Seq<(Seq<char>, N)>,
    pats: Seq<(Seq<char>, R)>,
    text: Seq<char>,
    r: Option<TestCaseType<N, R>>,
) -> bool {
    match lookup(exact, text) {
        Some(h) => r == Some(TestCaseType::<N, R>::Normal(h)),
        None => match first_match(pats, text) {
            Some(p) => {
                &&& r matches Some(tc)
                &&& tc matches TestCaseType::Regex(h, caps)
                &&& h == p.1
                &&& caps.deep_view() == regex_captures(p.0, text)
                &&& caps@.len() >= 1
                &&& is_part_of(caps@[0]@, text)
            },
            None => r is None,
        },
    }
}

impl<N: Copy, R: Copy> Steps<N, R> {
    /// The exact bag for a step role, as key/handler pairs.
    pub closed spec fn exact_bag(self, ty: StepType) -> Seq<(Seq<char>, N)> {
        match ty {
            StepType::Given => exact_bag_view(self.given_exact@),
            StepType::When => exact_bag_view(self.when_exact@),
            StepType::Then => exact_bag_view(self.then_exact@),
        }
    }

    /// The pattern bag for a step role, as source/handler pairs.
    pub closed spec fn pattern_bag(self, ty: StepType) -> Seq<(Seq<char>, R)> {
        match ty {
            StepType::Given => pattern_bag_view(self.given_regex@),
            StepType::When => pattern_bag_view(self.when_regex@),
            StepType::Then => pattern_bag_view(self.then_regex@),
        }
    }

    pub fn new() -> (r: Steps<N, R>)
        ensures
            forall|ty: StepType| #![all_triggers] r.exact_bag(ty) == Seq::<(Seq<char>, N)>::empty()
                && r.pattern_bag(ty) == Seq::<(Seq<char>, R)>::empty(),
    {
        let r = Steps {
            given_exact: Vec::new(),
            when_exact: Vec::new(),
            then_exact: Vec::new(),
            given_regex: Vec::new(),
            when_regex: Vec::new(),
            then_regex: Vec::new(),
        };
        proof {
            assert forall|ty: StepType| #![all_triggers]
                r.exact_bag(ty) == Seq::<(Seq<char>, N)>::empty() && r.pattern_bag(ty) == Seq::<
                    (Seq<char>, R),
                >::empty() by {
                assert(r.exact_bag(ty) =~= Seq::<(Seq<char>, N)>::empty());
                assert(r.pattern_bag(ty) =~= Seq::<(Seq<char>, R)>::empty());
            }
        }
        r
    }

    fn test_bag_for(&self, ty: StepType) -> (r: &Vec<ExactEntry<N>>)
        ensures
            exact_bag_view(r@) == self.exact_bag(ty),
    {
        match ty {
            StepType::Given => &self.given_exact,
            StepType::When => &self.when_exact,
            StepType::Then => &self.then_exact,
        }
    }

    fn regex_bag_for(&self, ty: StepType) -> (r: &Vec<PatternEntry<R>>)
        ensures
            pattern_bag_view(r@) == self.pattern_bag(ty),
    {
        match ty {
            StepType::Given => &self.given_regex,
            StepType::When => &self.when_regex,
            StepType::Then => &self.then_regex,
        }
    }

    /// Register an exact handler under the literal step text `name` for
    /// role `ty`; a handler already registered under that text for that
    /// role is overwritten.
    pub fn add_normal(&mut self, ty: StepType, name: &str, test_fn: N)
        ensures
            final(self).exact_bag(ty) == upserted(old(self).exact_bag(ty), name@, test_fn),
            forall|t: StepType|
                t != ty ==> #[trigger] final(self).exact_bag(t) == old(self).exact_bag(t),
            forall|t: StepType| #[trigger] final(self).pattern_bag(t) == old(self).pattern_bag(t),
    {
        let key = name.to_owned();
        match ty {
            StepType::Given => exact_insert(&mut self.given_exact, key, test_fn),
            StepType::When => exact_insert(&mut self.when_exact, key, test_fn),
            StepType::Then => exact_insert(&mut self.then_exact, key, test_fn),
        }
    }

    /// Register a pattern handler under the pattern source `regex` for
    /// role `ty`.  Fails with a ConfigError, and registers nothing, when
    /// the source does not compile as a regular expression; a handler
    /// already registered under the same source for that role is
    /// overwritten.
    pub fn add_regex(&mut self, ty: StepType, regex: &str, test_fn: R) -> (r: Result<
        (),
        ConfigError,
    >)
        ensures
            r is Ok <==> regex_valid(regex@),
            r matches Err(e) ==> e.pattern@ == regex@ && *final(self) == *old(self),
            r is Ok ==> final(self).pattern_bag(ty) == upserted(
                old(self).pattern_bag(ty),
                regex@,
                test_fn,
            ),
            r is Ok ==> forall|t: StepType|
                t != ty ==> #[trigger] final(self).pattern_bag(t) == old(self).pattern_bag(t),
            forall|t: StepType| #[trigger] final(self).exact_bag(t) == old(self).exact_bag(t),
    {
        match CompiledPattern::compile(regex) {
            Some(pattern) => {
                match ty {
                    StepType::Given => pattern_insert(&mut self.given_regex, pattern, test_fn),
                    StepType::When => pattern_insert(&mut self.when_regex, pattern, test_fn),
                    StepType::Then => pattern_insert(&mut self.then_regex, pattern, test_fn),
                }
                Ok(())
            },
            None => Err(ConfigError { pattern: regex.to_owned() }),
        }
    }

    /// Union a sequence of registries, in order; on a key collision
    /// within a bag, the entry of the later registry wins.
    pub fn combine(sources: Vec<Steps<N, R>>) -> (r: Steps<N, R>)
        ensures
            forall|ty: StepType| #[trigger] r.exact_bag(ty) == merged_list(
                Seq::<(Seq<char>, N)>::empty(),
                exact_bags_of(sources@, ty),
            ),
            forall|ty: StepType| #[trigger] r.pattern_bag(ty) == merged_list(
                Seq::<(Seq<char>, R)>::empty(),
                pattern_bags_of(sources@, ty),
            ),
    {
        let mut combined: Steps<N, R> = Steps::new();
        let mut rest = sources;
        while rest.len() > 0
            invariant
                forall|ty: StepType| #[trigger] merged_list(
                    combined.exact_bag(ty),
                    exact_bags_of(rest@, ty),
                ) == merged_list(Seq::<(Seq<char>, N)>::empty(), exact_bags_of(sources@, ty)),
                forall|ty: StepType| #[trigger] merged_list(
                    combined.pattern_bag(ty),
                    pattern_bags_of(rest@, ty),
                ) == merged_list(Seq::<(Seq<char>, R)>::empty(), pattern_bags_of(sources@, ty)),
            decreases rest.len(),
        {
            let ghost rest_before = rest@;
            let ghost combined_before = combined;
            let s = rest.remove(0);
            let Steps { given_exact, when_exact, then_exact, given_regex, when_regex, then_regex }
                = s;
            merge_exact_into(&mut combined.given_exact, given_exact);
            merge_exact_into(&mut combined.when_exact, when_exact);
            merge_exact_into(&mut combined.then_exact, then_exact);
            merge_pattern_into(&mut combined.given_regex, given_regex);
            merge_pattern_into(&mut combined.when_regex, when_regex);
            merge_pattern_into(&mut combined.then_regex, then_regex);
            proof {
                assert forall|ty: StepType| #[trigger] merged_list(
                    combined.exact_bag(ty),
                    exact_bags_of(rest@, ty),
                ) == merged_list(
                    Seq::<(Seq<char>, N)>::empty(),
                    exact_bags_of(sources@, ty),
                ) by {
                    assert(merged_list(
                        combined_before.exact_bag(ty),
                        exact_bags_of(rest_before, ty),
                    ) == merged_list(Seq::<(Seq<char>, N)>::empty(), exact_bags_of(sources@, ty)));
                    assert(exact_bags_of(rest@, ty) =~= exact_bags_of(rest_before, ty)
                        .drop_first());
                    assert(exact_bags_of(rest_before, ty)[0] == s.exact_bag(ty));
                    assert(combined.exact_bag(ty) == merged(
                        combined_before.exact_bag(ty),
                        s.exact_bag(ty),
                    ));
                }
                assert forall|ty: StepType| #[trigger] merged_list(
                    combined.pattern_bag(ty),
                    pattern_bags_of(rest@, ty),
                ) == merged_list(
                    Seq::<(Seq<char>, R)>::empty(),
                    pattern_bags_of(sources@, ty),
                ) by {
                    assert(merged_list(
                        combined_before.pattern_bag(ty),
                        pattern_bags_of(rest_before, ty),
                    ) == merged_list(
                        Seq::<(Seq<char>, R)>::empty(),
                        pattern_bags_of(sources@, ty),
                    ));
                    assert(pattern_bags_of(rest@, ty) =~= pattern_bags_of(rest_before, ty)
                        .drop_first());
                    assert(pattern_bags_of(rest_before, ty)[0] == s.pattern_bag(ty));
                    assert(combined.pattern_bag(ty) == merged(
                        combined_before.pattern_bag(ty),
                        s.pattern_bag(ty),
                    ));
                }
            }
        }
        proof {
            assert forall|ty: StepType| #[trigger] combined.exact_bag(ty) == merged_list(
                Seq::<(Seq<char>, N)>::empty(),
                exact_bags_of(sources@, ty),
            ) by {
                assert(merged_list(combined.exact_bag(ty), exact_bags_of(rest@, ty))
                    == merged_list(Seq::<(Seq<char>, N)>::empty(), exact_bags_of(sources@, ty)));
                assert(exact_bags_of(rest@, ty) =~= Seq::<Seq<(Seq<char>, N)>>::empty());
            }
            assert forall|ty: StepType| #[trigger] combined.pattern_bag(ty) == merged_list(
                Seq::<(Seq<char>, R)>::empty(),
                pattern_bags_of(sources@, ty),
            ) by {
                assert(merged_list(combined.pattern_bag(ty), pattern_bags_of(rest@, ty))
                    == merged_list(Seq::<(Seq<char>, R)>::empty(), pattern_bags_of(sources@, ty)));
                assert(pattern_bags_of(rest@, ty) =~= Seq::<Seq<(Seq<char>, R)>>::empty());
            }
        }
        combined
    }

    /// Resolve one step against the registry: the exact bag for the
    /// step's role first, then the pattern bag in insertion order.
    pub fn test_type(&self, step: &Step) -> (r: Option<TestCaseType<N, R>>)
        ensures
            resolves_to(self.exact_bag(step.ty), self.pattern_bag(step.ty), step.value@, r),
    {
        let bag = self.test_bag_for(step.ty);
        if let Some(h) = exact_find(bag, &step.value) {
            return Some(TestCaseType::Normal(h));
        }
        let pats = self.regex_bag_for(step.ty);
        match pattern_resolve(pats, &step.value) {
            Some((h, caps)) => Some(TestCaseType::Regex(h, caps)),
            None => None,
        }
    }
}

impl<N: Copy, R: Copy> Default for Steps<N, R> {
    /// An empty registry.
    fn default() -> (r: Steps<N, R>)
        ensures
            forall|ty: StepType| #![all_triggers] r.exact_bag(ty) == Seq::<(Seq<char>, N)>::empty()
                && r.pattern_bag(ty) == Seq::<(Seq<char>, R)>::empty(),
    {
        Steps::new()
    }
}

/// Exact entries take precedence: when the step text is an exact key of
/// its role's bag, resolution returns that entry's handler, whatever the
/// pattern bag holds.
pub proof fn lemma_exact_priority<N, R>(
    exact: Seq<(Seq<char>, N)>,
    pats: Seq<(Seq<char>, R)>,
    text: Seq<char>,
    r: Option<TestCaseType<N, R>>,
)
    requires
        resolves_to(exact, pats, text, r),
        lookup(exact, text) is Some,
    ensures
        r == Some(TestCaseType::<N, R>::Normal(lookup(exact, text)->Some_0)),
{
}

/// Capture index 0 of a pattern match is the overall matched part of the
/// step text.
pub proof fn lemma_capture_zero<N, R>(
    exact: Seq<(Seq<char>, N)>,
    pats: Seq<(Seq<char>, R)>,
    text: Seq<char>,
    r: Option<TestCaseType<N, R>>,
    h: R,
    caps: Vec<String>,
)
    requires
        resolves_to(exact, pats, text, r),
        r matches Some(tc) && tc matches TestCaseType::Regex(h2, caps2) && h2 == h && caps2
            == caps,
    ensures
        caps@.len() >= 1,
        is_part_of(caps@[0]@, text),
{
}

} // verus!
