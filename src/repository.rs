use vstd::prelude::*;
use crate::model::Model;
use vstd::std_specs::iter::IteratorSpec;

verus! {

/// The entities of one type that a shard holds, in the order they were
/// inserted. Entities are only ever appended.
pub struct Repository<T> {
    data: Vec<T>,
}

impl<T> View for Repository<T> {
    type V = Seq<T>;

    closed spec fn view(&self) -> Seq<T> {
        self.data@
    }
}

/// The entities of `s`, in their order, that satisfy `criteria`.
pub open spec fn matching<T: Model>(s: Seq<T>, criteria: T::Criteria) -> Seq<T> {
    s.filter(|e: T| e.matches_spec(&criteria))
}

/// At most the first `limit` entities of `s`; all of them without a limit.
pub open spec fn limited<T>(s: Seq<T>, limit: Option<usize>) -> Seq<T> {
    match limit {
        None => s,
        Some(n) => if n < s.len() {
            s.take(n as int)
        } else {
            s
        },
    }
}

impl<T> Repository<T> {
    pub fn new() -> (r: Repository<T>)
        ensures
            r@ == Seq::<T>::empty(),
    {
        Repository { data: Vec::new() }
    }

    pub fn len(&self) -> (r: usize)
        ensures
            r == self@.len(),
    {
        self.data.len()
    }

    /// Every entity, in insertion order.
    pub fn get_all(&self) -> (r: &Vec<T>)
        ensures
            r@ == self@,
    {
        &self.data
    }

    /// An iterator over every entity, in insertion order, for the caller to
    /// filter further.
    pub fn filter_builder(&self) -> (r: core::slice::Iter<'_, T>)
        ensures
            IteratorSpec::remaining(&r).unref() == self@,
    {
        self.data.as_slice().iter()
    }

    /// Appends `data` after every entity already held.
    pub fn insert_one(&mut self, data: T)
        ensures
            final(self)@ == old(self)@.push(data),
    {
        self.data.push(data);
    }

    /// The entities on which `predicate` returns true, in insertion order.
    pub fn filter<F: Fn(&T) -> bool>(&self, predicate: F) -> (r: Vec<&T>)
        requires
            forall|i: int| 0 <= i < self@.len() ==> predicate.requires((&self@[i],)),
        ensures
            filter_outcome(self@, predicate, r@.unref()),
    {
        let mut out: Vec<&T> = Vec::new();
        let ghost mut keep: Seq<bool> = Seq::empty();
        let mut i: usize = 0;
        while i < self.data.len()
            invariant
                0 <= i <= self.data@.len(),
                self.data@ == self@,
                forall|j: int| 0 <= j < self@.len() ==> predicate.requires((&self@[j],)),
                keep.len() == i,
                forall|j: int| 0 <= j < i ==> predicate.ensures((&self@[j],), #[trigger] keep[j]),
                out@.unref() == kept(self@.take(i as int), keep),
            decreases self.data@.len() - i,
        {
            let item = &self.data[i];
            let b = predicate(item);
            proof {
                assert(self@.take(i as int + 1).drop_last() == self@.take(i as int));
                assert(keep.push(b).drop_last() == keep);
                keep = keep.push(b);
            }
            if b {
                out.push(item);
            }
            i = i + 1;
            proof {
                assert(out@.unref() == kept(self@.take(i as int), keep));
            }
        }
        proof {
            assert(self@.take(i as int) == self@);
        }
        out
    }
}

impl<T: Model> Repository<T> {
    /// The entities that satisfy `criteria`, in insertion order, cut to the
    /// first `limit` of them once the whole repository has been scanned.
    pub fn find(&self, criteria: &T::Criteria, limit: Option<usize>) -> (r: Vec<&T>)
        ensures
            r@.unref() == limited(matching(self@, *criteria), limit),
    {
        let mut out: Vec<&T> = Vec::new();
        let mut i: usize = 0;
        while i < self.data.len()
            invariant
                0 <= i <= self.data@.len(),
                self.data@ == self@,
                out@.unref() == matching(self@.take(i as int), *criteria),
            decreases self.data@.len() - i,
        {
            let item = &self.data[i];
            let b = item.matches_criteria(criteria);
            proof {
                let pred = |e: T| e.matches_spec(criteria);
                assert(self@.take(i as int + 1) == self@.take(i as int).push(self@[i as int]));
                self@.take(i as int).lemma_filter_push(self@[i as int], pred);
            }
            if b {
                out.push(item);
            }
            i = i + 1;
            proof {
                assert(out@.unref() =~= matching(self@.take(i as int), *criteria));
            }
        }
        proof {
            assert(self@.take(i as int) == self@);
        }
        match limit {
            None => {},
            Some(n) => {
                out.truncate(n);
            },
        }
        proof {
            assert(out@.unref() =~= limited(matching(self@, *criteria), limit));
        }
        out
    }
}

/// Filtering is idempotent: filtering a result again by the same criteria
/// gives that result back.
pub proof fn lemma_matching_idempotent<T: Model>(s: Seq<T>, criteria: T::Criteria)
    ensures
        matching(matching(s, criteria), criteria) == matching(s, criteria),
    decreases s.len(),
{
    let pred = |e: T| e.matches_spec(&criteria);
    if s.len() > 0 {
        lemma_matching_idempotent(s.drop_last(), criteria);
        assert(s == s.drop_last().push(s.last()));
        s.drop_last().lemma_filter_push(s.last(), pred);
        matching(s.drop_last(), criteria).lemma_filter_push(s.last(), pred);
    } else {
        reveal(Seq::filter);
    }
}

/// Filtering keeps insertion order: the matches of entities inserted after
/// others come after the matches of those others.
pub proof fn lemma_matching_keeps_order<T: Model>(
    earlier: Seq<T>,
    later: Seq<T>,
    criteria: T::Criteria,
)
    ensures
        matching(earlier + later, criteria) == matching(earlier, criteria) + matching(
            later,
            criteria,
        ),
{
    Seq::filter_distributes_over_add(earlier, later, |e: T| e.matches_spec(&criteria));
}

/// Whether `r` is what filtering `s` by `predicate` may give: the elements
/// on which a call of `predicate` returned true, in their order.
pub open spec fn filter_outcome<T, F: Fn(&T) -> bool>(s: Seq<T>, predicate: F, r: Seq<T>) -> bool {
    exists|keep: Seq<bool>|
        {
            &&& keep.len() == s.len()
            &&& forall|i: int| 0 <= i < s.len() ==> predicate.ensures((&s[i],), #[trigger] keep[i])
            &&& r == kept(s, keep)
        }
}

/// Whether every call of `predicate` on an element of `s` has one possible
/// result.
pub open spec fn deterministic_on<T, F: Fn(&T) -> bool>(s: Seq<T>, predicate: F) -> bool {
    forall|i: int, b1: bool, b2: bool|
        #![trigger predicate.ensures((&s[i],), b1), predicate.ensures((&s[i],), b2)]
        0 <= i < s.len() && predicate.ensures((&s[i],), b1) && predicate.ensures((&s[i],), b2)
            ==> b1 == b2
}

proof fn lemma_kept_is_filter<T, F: Fn(&T) -> bool>(s: Seq<T>, predicate: F, keep: Seq<bool>)
    requires
        keep.len() == s.len(),
        forall|i: int| 0 <= i < s.len() ==> predicate.ensures((&s[i],), #[trigger] keep[i]),
        deterministic_on(s, predicate),
    ensures
        kept(s, keep) == s.filter(|e: T| predicate.ensures((&e,), true)),
    decreases s.len(),
{
    let pred = |e: T| predicate.ensures((&e,), true);
    if s.len() == 0 {
        reveal(Seq::filter);
    } else {
        let n = s.len() - 1;
        assert(predicate.ensures((&s[n],), keep[n]));
        assert forall|i: int| 0 <= i < s.drop_last().len() implies predicate.ensures(
            (&s.drop_last()[i],),
            #[trigger] keep.drop_last()[i],
        ) by {
            assert(predicate.ensures((&s[i],), keep[i]));
        }
        assert forall|i: int, b1: bool, b2: bool|
            #![trigger predicate.ensures((&s.drop_last()[i],), b1), predicate.ensures((&s.drop_last()[i],), b2)]
            0 <= i < s.drop_last().len() && predicate.ensures((&s.drop_last()[i],), b1)
                && predicate.ensures((&s.drop_last()[i],), b2) implies b1 == b2 by {
            assert(s.drop_last()[i] == s[i]);
            assert(predicate.ensures((&s[i],), b1));
        }
        lemma_kept_is_filter(s.drop_last(), predicate, keep.drop_last());
        assert(s == s.drop_last().push(s.last()));
        s.drop_last().lemma_filter_push(s.last(), pred);
        if !keep.last() {
            if pred(s.last()) {
                assert(predicate.ensures((&s[n],), true));
            }
        }
    }
}

/// Filtering by a predicate whose result is fixed by its argument keeps
/// exactly the elements on which it holds, in their order.
pub proof fn lemma_filter_by_deterministic_predicate<T, F: Fn(&T) -> bool>(
    s: Seq<T>,
    predicate: F,
    r: Seq<T>,
)
    requires
        filter_outcome(s, predicate, r),
        deterministic_on(s, predicate),
    ensures
        r == s.filter(|e: T| predicate.ensures((&e,), true)),
{
    let keep = choose|keep: Seq<bool>|
        {
            &&& keep.len() == s.len()
            &&& forall|i: int| 0 <= i < s.len() ==> predicate.ensures((&s[i],), #[trigger] keep[i])
            &&& r == kept(s, keep)
        };
    lemma_kept_is_filter(s, predicate, keep);
}

/// Two filterings of the same entities by the same predicate, with nothing
/// inserted between them, give the same list, when the predicate's result is
/// fixed by its argument.
pub proof fn lemma_filter_repeats<T, F: Fn(&T) -> bool>(
    s: Seq<T>,
    predicate: F,
    first: Seq<T>,
    second: Seq<T>,
)
    requires
        filter_outcome(s, predicate, first),
        filter_outcome(s, predicate, second),
        deterministic_on(s, predicate),
    ensures
        first == second,
{
    lemma_filter_by_deterministic_predicate(s, predicate, first);
    lemma_filter_by_deterministic_predicate(s, predicate, second);
}

/// The elements of `s` whose flag in `keep` is set, in their order.
pub open spec fn kept<T>(s: Seq<T>, keep: Seq<bool>) -> Seq<T>
    decreases s.len(),
{
    if s.len() == 0 || keep.len() == 0 {
        Seq::empty()
    } else {
        let rest = kept(s.drop_last(), keep.drop_last());
        if keep.last() {
            rest.push(s.last())
        } else {
            rest
        }
    }
}

} // verus!
