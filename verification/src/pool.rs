//! Status of the API key pool rotator.
use vstd::prelude::*;

verus! {

/// One key of the pool: who it is, how many recent requests it made, and
/// whether it is cooling down.
#[derive(Clone, Debug, PartialEq, Eq)]
pub struct PoolKeyCount {
    pub credential_id: String,
    pub label: String,
    pub request_count: usize,
    pub is_cooling: bool,
}

/// What the dashboard reports of the key pool.
#[derive(Clone, Debug, PartialEq, Eq)]
pub struct PoolStatus {
    /// The rotator's state could be read.
    pub available: bool,
    pub total_keys: usize,
    pub total_requests: usize,
    pub keys: Vec<PoolKeyCount>,
}

/// The sum of the request counts of the first `n` keys.
pub open spec fn requests_upto(keys: Seq<PoolKeyCount>, n: int) -> int
    decreases n,
{
    if n <= 0 {
        0
    } else {
        requests_upto(keys, n - 1) + keys[n - 1].request_count
    }
}

proof fn lemma_requests_monotone(keys: Seq<PoolKeyCount>, n: int, m: int)
    requires
        0 <= n <= m <= keys.len(),
    ensures
        requests_upto(keys, n) <= requests_upto(keys, m),
    decreases m - n,
{
    if n < m {
        lemma_requests_monotone(keys, n, m - 1);
    }
}

/// The status of a pool whose state was read: its keys as given, how many
/// there are, and how many requests they made together.
pub fn pool_status(keys: Vec<PoolKeyCount>) -> (s: PoolStatus)
    requires
        requests_upto(keys@, keys.len() as int) <= usize::MAX,
    ensures
        s.available,
        s.keys@ == keys@,
        s.total_keys == keys.len(),
        s.total_requests == requests_upto(keys@, keys.len() as int),
{
    let mut total: usize = 0;
    let mut i: usize = 0;
    while i < keys.len()
        invariant
            i <= keys.len(),
            requests_upto(keys@, keys.len() as int) <= usize::MAX,
            total == requests_upto(keys@, i as int),
        decreases keys.len() - i,
    {
        proof {
            lemma_requests_monotone(keys@, i + 1, keys.len() as int);
        }
        total = total + keys[i].request_count;
        i = i + 1;
    }
    let total_keys = keys.len();
    PoolStatus { available: true, total_keys, total_requests: total, keys }
}

/// The status reported when the rotator's state is missing or unreadable.
pub fn pool_unavailable() -> (s: PoolStatus)
    ensures
        !s.available,
        s.total_keys == 0,
        s.total_requests == 0,
        s.keys@.len() == 0,
{
    PoolStatus { available: false, total_keys: 0, total_requests: 0, keys: Vec::new() }
}

proof fn lemma_requests_prefix(keys: Seq<PoolKeyCount>, k: PoolKeyCount, n: int)
    requires
        0 <= n <= keys.len(),
    ensures
        requests_upto(keys.push(k), n) == requests_upto(keys, n),
    decreases n,
{
    if n > 0 {
        lemma_requests_prefix(keys, k, n - 1);
        assert(keys.push(k)[n - 1] == keys[n - 1]);
    }
}

/// Every key's requests count toward the pool's total, whatever its other
/// fields: adding a key to the pool raises `total_requests` by exactly that key's
/// `request_count`, and two pools whose keys have the same request counts, one
/// by one, have the same total, however their keys are named or whether they
/// are cooling.
pub proof fn law_pool_total_counts_every_key(
    keys: Seq<PoolKeyCount>,
    k: PoolKeyCount,
    other: Seq<PoolKeyCount>,
)
    ensures
        requests_upto(keys.push(k), keys.len() + 1int) == requests_upto(keys, keys.len() as int)
            + k.request_count,
        other.len() == keys.len() && (forall|i: int|
            0 <= i < keys.len() ==> #[trigger] other[i].request_count == keys[i].request_count)
            ==> requests_upto(other, other.len() as int) == requests_upto(keys, keys.len() as int),
{
    lemma_requests_prefix(keys, k, keys.len() as int);
    assert(keys.push(k)[keys.len() as int] == k);
    if other.len() == keys.len() && (forall|i: int|
        0 <= i < keys.len() ==> #[trigger] other[i].request_count == keys[i].request_count) {
        lemma_requests_same_counts(keys, other, keys.len() as int);
    }
}

proof fn lemma_requests_same_counts(keys: Seq<PoolKeyCount>, other: Seq<PoolKeyCount>, n: int)
    requires
        0 <= n <= keys.len(),
        other.len() == keys.len(),
        forall|i: int| 0 <= i < keys.len() ==> #[trigger] other[i].request_count == keys[i].request_count,
    ensures
        requests_upto(other, n) == requests_upto(keys, n),
    decreases n,
{
    if n > 0 {
        lemma_requests_same_counts(keys, other, n - 1);
    }
}

/// The pool's total is never below the requests of any one key.
pub proof fn law_pool_total_covers_each_key(keys: Seq<PoolKeyCount>, i: int)
    requires
        0 <= i < keys.len(),
    ensures
        keys[i].request_count <= requests_upto(keys, keys.len() as int),
{
    lemma_requests_cover(keys, i, keys.len() as int);
}

proof fn lemma_requests_cover(keys: Seq<PoolKeyCount>, i: int, n: int)
    requires
        0 <= i < n <= keys.len(),
    ensures
        keys[i].request_count <= requests_upto(keys, n),
    decreases n,
{
    if n > i + 1 {
        lemma_requests_cover(keys, i, n - 1);
    } else {
        assert(requests_upto(keys, i) >= 0) by {
            lemma_requests_monotone(keys, 0, i);
        }
    }
}

} // verus!
