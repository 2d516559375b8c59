use vstd::prelude::*;
use crate::model::Model;
use crate::repository::{limited, matching};

verus! {

/// How one shard's request failed.
#[derive(Debug, Clone, Copy, PartialEq, Eq)]
pub enum ShardError {
    /// The connection could not be made or broke off.
    Transport,
    /// No answer came in time.
    Timeout,
    /// The shard answered with a status other than success.
    Status(u16),
    /// The answer's body was not a list of records.
    MalformedBody,
}

/// What a dispatch does when some shard fails.
#[derive(Debug, Clone, Copy, PartialEq, Eq)]
pub enum FailurePolicy {
    /// Any single failure aborts the whole dispatch.
    FailFast,
    /// The rows of the shards that answered are returned, with the failed
    /// shards listed beside them.
    Degraded,
}

impl Default for FailurePolicy {
    /// Fail-fast, as a dispatch behaves unless told otherwise.
    fn default() -> (r: FailurePolicy)
        ensures
            r == FailurePolicy::FailFast,
    {
        FailurePolicy::FailFast
    }
}

/// The result of gathering every shard's answer.
#[derive(Debug)]
pub enum DispatchOutcome<T> {
    /// Every shard answered: their rows, concatenated in address order.
    Complete(Vec<T>),
    /// Some shards failed: the rows of the others, in address order, and
    /// the positions of the failed ones in the address list, ascending.
    Degraded { rows: Vec<T>, failed: Vec<usize> },
    /// A shard failed and the dispatch was aborted: the first failed
    /// position in the address list, and its error.
    Failed { shard: usize, error: ShardError },
}

/// `s` cut at every `sep`; `sep` itself belongs to no piece. There is one
/// piece more than there are separators, and a piece may be empty.
pub open spec fn split_on(s: Seq<char>, sep: char) -> Seq<Seq<char>>
    decreases s.len(),
{
    if s.len() == 0 {
        seq![Seq::<char>::empty()]
    } else {
        let prev = split_on(s.drop_last(), sep);
        if s.last() == sep {
            prev.push(Seq::<char>::empty())
        } else {
            prev.update(prev.len() - 1, prev.last().push(s.last()))
        }
    }
}

/// The address of the request that a shard at `address` gets for
/// `path_with_query`.
pub open spec fn shard_url(address: Seq<char>, path_with_query: Seq<char>) -> Seq<char> {
    seq!['h', 't', 't', 'p', ':', '/', '/'] + address + seq!['/'] + path_with_query
}

/// The fixed list of shard addresses that queries are sent to.
#[derive(Debug)]
pub struct Dispatcher {
    instances: Vec<String>,
}

impl View for Dispatcher {
    type V = Seq<Seq<char>>;

    closed spec fn view(&self) -> Seq<Seq<char>> {
        self.instances@.map_values(|a: String| a@)
    }
}

impl Dispatcher {
    pub fn new(instances: Vec<String>) -> (r: Dispatcher)
        ensures
            r@ == instances@.map_values(|a: String| a@),
    {
        Dispatcher { instances }
    }

    /// The dispatcher for a list of addresses separated by `;`.
    pub fn from_address_list(list: &str) -> (r: Dispatcher)
        ensures
            r@ == split_on(list@, ';'),
    {
        let n = list.unicode_len();
        let mut done: Vec<String> = Vec::new();
        let mut start: usize = 0;
        let mut i: usize = 0;
        proof {
            assert(list@.take(0) =~= Seq::<char>::empty());
            assert(done@.map_values(|a: String| a@).push(list@.subrange(0, 0)) =~= seq![
                Seq::<char>::empty(),
            ]);
        }
        while i < n
            invariant
                n == list@.len(),
                start <= i <= n,
                split_on(list@.take(i as int), ';') == done@.map_values(|a: String| a@).push(
                    list@.subrange(start as int, i as int),
                ),
            decreases n - i,
        {
            let c = list.get_char(i);
            proof {
                assert(list@.take(i as int + 1).drop_last() == list@.take(i as int));
                assert(list@.take(i as int + 1).last() == c);
            }
            if c == ';' {
                let piece = list.substring_char(start, i);
                let ghost before = done@;
                done.push(String::from_str(piece));
                proof {
                    assert(done@.map_values(|a: String| a@) =~= before.map_values(|a: String| a@).push(
                        piece@,
                    ));
                    assert(list@.subrange(i as int + 1, i as int + 1) =~= Seq::<char>::empty());
                }
                start = i + 1;
            } else {
                proof {
                    assert(list@.subrange(start as int, i as int + 1) =~= list@.subrange(
                        start as int,
                        i as int,
                    ).push(c));
                }
            }
            i = i + 1;
            proof {
                assert(split_on(list@.take(i as int), ';') =~= done@.map_values(|a: String| a@).push(
                    list@.subrange(start as int, i as int),
                ));
            }
        }
        let last = list.substring_char(start, n);
        let ghost before = done@;
        done.push(String::from_str(last));
        proof {
            assert(list@.take(n as int) == list@);
            assert(done@.map_values(|a: String| a@) =~= before.map_values(|a: String| a@).push(last@));
        }
        Dispatcher { instances: done }
    }

    /// How many shards the dispatcher sends to.
    pub fn len(&self) -> (r: usize)
        ensures
            r == self@.len(),
    {
        self.instances.len()
    }

    /// The shard addresses, in order.
    pub fn instances(&self) -> (r: &Vec<String>)
        ensures
            r@.map_values(|a: String| a@) == self@,
    {
        &self.instances
    }

    /// One request address per shard, in address order, each carrying
    /// `path_with_query` verbatim.
    pub fn shard_urls(&self, path_with_query: &str) -> (r: Vec<String>)
        ensures
            r@.len() == self@.len(),
            forall|i: int|
                0 <= i < self@.len() ==> #[trigger] r@[i]@ == shard_url(self@[i], path_with_query@),
    {
        let mut out: Vec<String> = Vec::new();
        let mut i: usize = 0;
        while i < self.instances.len()
            invariant
                0 <= i <= self.instances@.len(),
                out@.len() == i,
                forall|j: int|
                    0 <= j < i ==> #[trigger] out@[j]@ == shard_url(
                        self.instances@[j]@,
                        path_with_query@,
                    ),
            decreases self.instances@.len() - i,
        {
            let mut url = String::from_str("http://");
            url.append(self.instances[i].as_str());
            url.append("/");
            url.append(path_with_query);
            proof {
                reveal_strlit("http://");
                reveal_strlit("/");
            }
            out.push(url);
            i = i + 1;
        }
        out
    }
}

/// The rows of the answers that succeeded, concatenated in order.
pub open spec fn gathered<T>(rs: Seq<Result<Vec<T>, ShardError>>) -> Seq<T>
    decreases rs.len(),
{
    if rs.len() == 0 {
        Seq::empty()
    } else {
        let prev = gathered(rs.drop_last());
        match rs.last() {
            Ok(v) => prev + v@,
            Err(_) => prev,
        }
    }
}

/// The positions of the answers that failed, ascending.
pub open spec fn failed_positions<T>(rs: Seq<Result<Vec<T>, ShardError>>) -> Seq<int>
    decreases rs.len(),
{
    if rs.len() == 0 {
        Seq::empty()
    } else {
        let prev = failed_positions(rs.drop_last());
        if rs.last() is Err {
            prev.push(rs.len() - 1)
        } else {
            prev
        }
    }
}

/// The rows that shards holding `parts`, in address order, give for
/// `criteria`: each shard's matches cut to `limit` on their own, then
/// concatenated.
pub open spec fn per_shard_rows<T: Model>(
    parts: Seq<Seq<T>>,
    criteria: T::Criteria,
    limit: Option<usize>,
) -> Seq<T>
    decreases parts.len(),
{
    if parts.len() == 0 {
        Seq::empty()
    } else {
        per_shard_rows(parts.drop_last(), criteria, limit) + limited(
            matching(parts.last(), criteria),
            limit,
        )
    }
}

/// The sum, over the shards holding `parts`, of the smaller of `n` and the
/// number of that shard's matches.
pub open spec fn per_shard_count<T: Model>(parts: Seq<Seq<T>>, criteria: T::Criteria, n: usize) -> int
    decreases parts.len(),
{
    if parts.len() == 0 {
        0
    } else {
        let m = matching(parts.last(), criteria).len();
        per_shard_count(parts.drop_last(), criteria, n) + if n < m {
            n as int
        } else {
            m as int
        }
    }
}

/// A row limit applies on each shard on its own: when every shard answers
/// with its own matches cut to the limit, the merged rows are those cuts
/// concatenated in address order, and there are as many as the sum over the
/// shards of the smaller of the limit and the shard's match count, not the
/// limit itself.
pub proof fn lemma_limit_is_per_shard<T: Model>(
    rs: Seq<Result<Vec<T>, ShardError>>,
    parts: Seq<Seq<T>>,
    criteria: T::Criteria,
    limit: Option<usize>,
)
    requires
        rs.len() == parts.len(),
        forall|i: int|
            0 <= i < rs.len() ==> (#[trigger] rs[i] is Ok) && rs[i]->Ok_0@ == limited(
                matching(parts[i], criteria),
                limit,
            ),
    ensures
        gathered(rs) == per_shard_rows(parts, criteria, limit),
        limit matches Some(n) ==> gathered(rs).len() == per_shard_count(parts, criteria, n),
    decreases rs.len(),
{
    if rs.len() > 0 {
        let n = rs.len() - 1;
        assert(rs[n] is Ok);
        assert forall|i: int| 0 <= i < rs.drop_last().len() implies (#[trigger] rs.drop_last()[i] is Ok)
            && rs.drop_last()[i]->Ok_0@ == limited(matching(parts.drop_last()[i], criteria), limit) by {
            assert(rs[i] is Ok);
        }
        lemma_limit_is_per_shard(rs.drop_last(), parts.drop_last(), criteria, limit);
        matching(parts.last(), criteria).lemma_filter_len(|e: T| e.matches_spec(&criteria));
    }
}

/// What gathering `rs` under `policy` yields.
pub open spec fn outcome_spec<T>(
    rs: Seq<Result<Vec<T>, ShardError>>,
    policy: FailurePolicy,
    r: DispatchOutcome<T>,
) -> bool {
    let failed = failed_positions(rs);
    if failed.len() == 0 {
        r matches DispatchOutcome::Complete(rows) && rows@ == gathered(rs)
    } else if policy == FailurePolicy::FailFast {
        r matches DispatchOutcome::Failed { shard, error } && shard == failed[0] && rs[shard as int]
            == Err::<Vec<T>, ShardError>(error)
    } else {
        r matches DispatchOutcome::Degraded { rows, failed: f } && rows@ == gathered(rs) && f@.map_values(
            |p: usize| p as int,
        ) == failed
    }
}

/// Merges the answers of the shards, given in address order, into one
/// outcome.
pub fn gather<T>(responses: Vec<Result<Vec<T>, ShardError>>, policy: FailurePolicy) -> (r:
    DispatchOutcome<T>)
    ensures
        outcome_spec(responses@, policy, r),
{
    let ghost all = responses@;
    let mut rest = responses;
    let mut rows: Vec<T> = Vec::new();
    let mut failed: Vec<usize> = Vec::new();
    let mut first: Option<(usize, ShardError)> = None;
    let n: usize = rest.len();
    let mut i: usize = 0;
    while rest.len() > 0
        invariant
            all.len() == n,
            i + rest@.len() == all.len(),
            rest@ == all.subrange(i as int, all.len() as int),
            rows@ == gathered(all.take(i as int)),
            failed@.map_values(|p: usize| p as int) == failed_positions(all.take(i as int)),
            failed@.len() == 0 <==> first is None,
            first matches Some(f) ==> (f.0 == failed@[0] && all[f.0 as int] == Err::<
                Vec<T>,
                ShardError,
            >(f.1)),
            forall|k: int| 0 <= k < failed@.len() ==> failed@[k] < i,
        decreases rest@.len(),
    {
        let answer = rest.remove(0);
        proof {
            assert(all.take(i as int + 1).drop_last() == all.take(i as int));
            assert(all.take(i as int + 1).last() == all[i as int]);
        }
        match answer {
            Ok(mut v) => {
                rows.append(&mut v);
            },
            Err(e) => {
                if failed.len() == 0 {
                    first = Some((i, e));
                }
                failed.push(i);
            },
        }
        i = i + 1;
        proof {
            assert(failed@.map_values(|p: usize| p as int) =~= failed_positions(all.take(i as int)));
        }
    }
    proof {
        assert(all.take(i as int) == all);
    }
    match first {
        None => DispatchOutcome::Complete(rows),
        Some((shard, error)) => match policy {
            FailurePolicy::FailFast => DispatchOutcome::Failed { shard, error },
            FailurePolicy::Degraded => DispatchOutcome::Degraded { rows, failed },
        },
    }
}

} // verus!
