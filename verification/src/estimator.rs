use vstd::prelude::*;

verus! {

/// Fits every curve of the catalogue to measured test points. The floating-point fit runs
/// outside this library; what is decided here is which points take part, whether the fit
/// may run at all, and the order in which the fitted curves are ranked.
pub struct RelayEstimator;

/// Why an estimation cannot run.
#[derive(Debug, Clone, Copy, PartialEq, Eq, Structural)]
pub enum EstimationError {
    /// The pickup current is not strictly positive.
    NonPositivePickup,
    /// No test point is active, above the pickup current and with a positive time.
    NoValidPoints,
}

/// The message shown for an estimation error.
pub open spec fn error_text(e: EstimationError) -> Seq<char> {
    match e {
        EstimationError::NonPositivePickup => "Pickup current (Is) must be strictly positive (> 0 A)."@,
        EstimationError::NoValidPoints => "No valid test points provided. Current must be strictly greater than pickup current (Is) and operating time must be > 0."@,
    }
}

impl EstimationError {
    /// The message shown to the user.
    pub fn message(&self) -> (s: String)
        ensures
            s@ == error_text(*self),
    {
        match self {
            EstimationError::NonPositivePickup => String::from_str(
                "Pickup current (Is) must be strictly positive (> 0 A).",
            ),
            EstimationError::NoValidPoints => String::from_str(
                "No valid test points provided. Current must be strictly greater than pickup current (Is) and operating time must be > 0.",
            ),
        }
    }
}

/// The positions of the `true` entries, in increasing order.
pub open spec fn usable_indices(usable: Seq<bool>) -> Seq<usize>
    decreases usable.len(),
{
    if usable.len() == 0 {
        Seq::empty()
    } else if usable.last() {
        usable_indices(usable.drop_last()).push((usable.len() - 1) as usize)
    } else {
        usable_indices(usable.drop_last())
    }
}

/// The usable positions are exactly the `true` entries, each once, in increasing order.
pub proof fn lemma_usable_indices(usable: Seq<bool>)
    requires
        usable.len() <= usize::MAX,
    ensures
        forall|k: int|
            0 <= k < usable_indices(usable).len() ==> {
                let i = #[trigger] usable_indices(usable)[k];
                i < usable.len() && usable[i as int]
            },
        forall|i: int| 0 <= i < usable.len() && usable[i] ==> usable_indices(usable).contains(
            i as usize,
        ),
        forall|a: int, b: int|
            0 <= a < b < usable_indices(usable).len() ==> usable_indices(usable)[a]
                < usable_indices(usable)[b],
    decreases usable.len(),
{
    if usable.len() > 0 {
        let rest = usable.drop_last();
        lemma_usable_indices(rest);
        let u = usable_indices(usable);
        let r = usable_indices(rest);
        if usable.last() {
            assert(u == r.push((usable.len() - 1) as usize));
        } else {
            assert(u == r);
        }
        assert forall|k: int| 0 <= k < u.len() implies {
            let i = #[trigger] u[k];
            i < usable.len() && usable[i as int]
        } by {
            if k < r.len() {
                assert(u[k] == r[k]);
                assert(rest[r[k] as int] == usable[r[k] as int]);
            }
        }
        assert forall|a: int, b: int| 0 <= a < b < u.len() implies u[a] < u[b] by {
            assert(u[a] == r[a]);
            if b < r.len() {
                assert(u[b] == r[b]);
            } else {
                assert(r[a] < rest.len());
            }
        }
        assert forall|i: int| 0 <= i < usable.len() && usable[i] implies usable_indices(
            usable,
        ).contains(i as usize) by {
            if i < usable.len() - 1 {
                assert(rest[i] == usable[i]);
                let k = choose|k: int|
                    0 <= k < usable_indices(rest).len() && usable_indices(rest)[k] == i as usize;
                assert(usable_indices(usable)[k] == i as usize);
            } else {
                assert(usable_indices(usable).last() == i as usize);
            }
        }
    }
}

/// The keys of the ranked positions grow, and positions with equal keys keep their order.
pub open spec fn ranked_before(keys: Seq<u64>, a: usize, b: usize) -> bool {
    keys[a as int] < keys[b as int] || (keys[a as int] == keys[b as int] && a < b)
}

/// `order` lists every position of `keys` once, by growing key, ties in position order.
pub open spec fn is_ranking(keys: Seq<u64>, order: Seq<usize>) -> bool {
    &&& order.len() == keys.len()
    &&& forall|j: int| 0 <= j < order.len() ==> #[trigger] order[j] < keys.len()
    &&& forall|i: int, j: int|
        0 <= i < j < order.len() ==> ranked_before(keys, #[trigger] order[i], #[trigger] order[j])
    &&& forall|x: usize| x < keys.len() ==> #[trigger] order.contains(x)
}

impl RelayEstimator {
    /// Decides whether an estimation may run and which points take part: an error when the
    /// pickup current is not positive, or else when no point is usable; otherwise the
    /// positions of the usable points, in order.
    pub fn screen_inputs(pickup_positive: bool, usable: &Vec<bool>) -> (r: Result<
        Vec<usize>,
        EstimationError,
    >)
        ensures
            !pickup_positive ==> r == Err::<Vec<usize>, EstimationError>(
                EstimationError::NonPositivePickup,
            ),
            pickup_positive && usable_indices(usable@).len() == 0 ==> r == Err::<
                Vec<usize>,
                EstimationError,
            >(EstimationError::NoValidPoints),
            pickup_positive && usable_indices(usable@).len() > 0 ==> r is Ok && r->Ok_0@
                == usable_indices(usable@),
    {
        if !pickup_positive {
            return Err(EstimationError::NonPositivePickup);
        }
        let mut picked: Vec<usize> = Vec::new();
        let mut i: usize = 0;
        while i < usable.len()
            invariant
                i <= usable@.len(),
                picked@ == usable_indices(usable@.take(i as int)),
            decreases usable@.len() - i,
        {
            proof {
                assert(usable@.take(i + 1).drop_last() =~= usable@.take(i as int));
            }
            if usable[i] {
                picked.push(i);
            }
            i = i + 1;
        }
        assert(usable@.take(i as int) =~= usable@);
        if picked.len() == 0 {
            return Err(EstimationError::NoValidPoints);
        }
        Ok(picked)
    }

    /// Ranks positions by their keys, smallest first; positions with equal keys keep their
    /// order, as a stable sort leaves them.
    pub fn rank_by_key(keys: &Vec<u64>) -> (order: Vec<usize>)
        ensures
            is_ranking(keys@, order@),
    {
        let n = keys.len();
        let mut order: Vec<usize> = Vec::new();
        let mut i: usize = 0;
        while i < n
            invariant
                n == keys@.len(),
                i <= n,
                order@.len() == i,
                forall|j: int| 0 <= j < order@.len() ==> #[trigger] order@[j] < i,
                forall|a: int, b: int|
                    0 <= a < b < order@.len() ==> ranked_before(
                        keys@,
                        #[trigger] order@[a],
                        #[trigger] order@[b],
                    ),
                forall|x: usize| x < i ==> #[trigger] order@.contains(x),
            decreases n - i,
        {
            let k = keys[i];
            let mut pos: usize = 0;
            while pos < order.len() && keys[order[pos]] <= k
                invariant
                    n == keys@.len(),
                    i < n,
                    pos <= order@.len(),
                    forall|j: int| 0 <= j < order@.len() ==> #[trigger] order@[j] < i,
                    forall|j: int| 0 <= j < pos ==> keys@[#[trigger] order@[j] as int] <= k,
                decreases order@.len() - pos,
            {
                pos = pos + 1;
            }
            let ghost before = order@;
            proof {
                assert forall|j: int| pos <= j < before.len() implies k < keys@[#[trigger] before[j] as int] by {
                    if j > pos {
                        assert(ranked_before(keys@, before[pos as int], before[j]));
                    }
                }
            }
            order.insert(pos, i);
            proof {
                assert forall|j: int| 0 <= j < order@.len() implies #[trigger] order@[j] < i + 1 by {
                    if j < pos {
                        assert(order@[j] == before[j]);
                    } else if j > pos {
                        assert(order@[j] == before[j - 1]);
                    }
                }
                assert forall|a: int, b: int| 0 <= a < b < order@.len() implies ranked_before(
                    keys@,
                    #[trigger] order@[a],
                    #[trigger] order@[b],
                ) by {
                    if b < pos {
                        assert(order@[a] == before[a] && order@[b] == before[b]);
                    } else if b == pos {
                        assert(order@[a] == before[a]);
                    } else if a < pos {
                        assert(order@[a] == before[a] && order@[b] == before[b - 1]);
                    } else if a == pos {
                        assert(order@[b] == before[b - 1]);
                    } else {
                        assert(order@[a] == before[a - 1] && order@[b] == before[b - 1]);
                    }
                }
                assert forall|x: usize| x < i + 1 implies #[trigger] order@.contains(x) by {
                    if x == i {
                        assert(order@[pos as int] == i);
                    } else {
                        assert(before.contains(x));
                        let j = choose|j: int| 0 <= j < before.len() && before[j] == x;
                        if j < pos {
                            assert(order@[j] == x);
                        } else {
                            assert(order@[j + 1] == x);
                        }
                    }
                }
            }
            i = i + 1;
        }
        order
    }
}

/// A ranking is determined by the keys alone: two rankings of the same keys are the same
/// list, and its first position has the smallest key.
pub proof fn ranking_is_unique(keys: Seq<u64>, a: Seq<usize>, b: Seq<usize>)
    requires
        is_ranking(keys, a),
        is_ranking(keys, b),
    ensures
        a == b,
        keys.len() > 0 ==> forall|x: usize| x < keys.len() ==> keys[a[0] as int] <= #[trigger] keys[x as int],
{
    lemma_rankings_agree(keys, a, b, a.len() as int);
    assert(a =~= b);
    if keys.len() > 0 {
        assert forall|x: usize| x < keys.len() implies keys[a[0] as int] <= #[trigger] keys[x as int] by {
            assert(a.contains(x));
            let j = choose|j: int| 0 <= j < a.len() && a[j] == x;
            if j > 0 {
                assert(ranked_before(keys, a[0], a[j]));
            }
        }
    }
}

/// A ranking lists smaller keys first, and positions with equal keys in their original
/// order, as a stable sort by key leaves them.
pub proof fn rankings_sort_stably(keys: Seq<u64>, order: Seq<usize>)
    requires
        is_ranking(keys, order),
    ensures
        forall|i: int, j: int|
            0 <= i < j < order.len() ==> keys[#[trigger] order[i] as int] <= keys[#[trigger] order[j] as int],
        forall|i: int, j: int|
            0 <= i < j < order.len() && keys[order[i] as int] == keys[order[j] as int] ==> #[trigger] order[i]
                < #[trigger] order[j],
{
    assert forall|i: int, j: int| 0 <= i < j < order.len() implies keys[#[trigger] order[i] as int]
        <= keys[#[trigger] order[j] as int] by {
        assert(ranked_before(keys, order[i], order[j]));
    }
    assert forall|i: int, j: int|
        0 <= i < j < order.len() && keys[order[i] as int] == keys[order[j] as int] implies #[trigger] order[i]
            < #[trigger] order[j] by {
        assert(ranked_before(keys, order[i], order[j]));
    }
}

proof fn lemma_rankings_agree(keys: Seq<u64>, a: Seq<usize>, b: Seq<usize>, j: int)
    requires
        is_ranking(keys, a),
        is_ranking(keys, b),
        0 <= j <= a.len(),
    ensures
        forall|i: int| 0 <= i < j ==> a[i] == b[i],
    decreases j,
{
    if j > 0 {
        lemma_rankings_agree(keys, a, b, j - 1);
        let p = j - 1;
        if a[p] != b[p] {
            let x = a[p];
            let y = b[p];
            assert(b.contains(x));
            assert(a.contains(y));
            let k = choose|k: int| 0 <= k < b.len() && b[k] == x;
            let m = choose|m: int| 0 <= m < a.len() && a[m] == y;
            if k < p {
                assert(a[k] == b[k]);
                assert(ranked_before(keys, a[k], a[p]));
            }
            if m < p {
                assert(a[m] == b[m]);
                assert(ranked_before(keys, b[m], b[p]));
            }
            assert(ranked_before(keys, a[p], a[m]));
            assert(ranked_before(keys, b[p], b[k]));
        }
    }
}

} // verus!
