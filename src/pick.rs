//! Choosing, among the entries of a sequence that a predicate admits, the first one
//! with the greatest key; and the facts that the cache's lookups rest on.

use vstd::prelude::*;

verus! {

/// Position `i` holds, among the entries that `p` admits, the greatest `key`, and no
/// earlier admitted entry has that key.
pub open spec fn is_first_greatest<T>(s: Seq<T>, p: spec_fn(T) -> bool, key: spec_fn(T) -> int, i: int) -> bool {
    &&& 0 <= i < s.len()
    &&& p(s[i])
    &&& forall|j: int| 0 <= j < s.len() && p(#[trigger] s[j]) ==> key(s[j]) <= key(s[i])
    &&& forall|j: int| 0 <= j < i && p(#[trigger] s[j]) ==> key(s[j]) < key(s[i])
}

/// `r` is the pick among the entries that `p` admits: the first with the greatest key,
/// or `None` where `p` admits none.
pub open spec fn picks<T>(s: Seq<T>, p: spec_fn(T) -> bool, key: spec_fn(T) -> int, r: Option<usize>) -> bool {
    match r {
        Some(i) => is_first_greatest(s, p, key, i as int),
        None => forall|j: int| 0 <= j < s.len() ==> !p(#[trigger] s[j]),
    }
}

/// The pick among the entries that `p` admits, where there is one.
pub open spec fn pick<T>(s: Seq<T>, p: spec_fn(T) -> bool, key: spec_fn(T) -> int) -> Option<int> {
    if exists|i: int| is_first_greatest(s, p, key, i) {
        Some(choose|i: int| is_first_greatest(s, p, key, i))
    } else {
        None
    }
}

/// There is at most one pick.
pub proof fn lemma_pick_unique<T>(s: Seq<T>, p: spec_fn(T) -> bool, key: spec_fn(T) -> int, i: int, j: int)
    requires
        is_first_greatest(s, p, key, i),
        is_first_greatest(s, p, key, j),
    ensures
        i == j,
{
    if i < j {
        assert(key(s[i]) < key(s[j]));
    } else if j < i {
        assert(key(s[j]) < key(s[i]));
    }
}

/// What `picks` states is the pick.
pub proof fn lemma_picks_is_pick<T>(s: Seq<T>, p: spec_fn(T) -> bool, key: spec_fn(T) -> int, r: Option<usize>)
    requires
        picks(s, p, key, r),
    ensures
        match r {
            Some(i) => pick(s, p, key) == Some(i as int),
            None => pick(s, p, key) is None,
        },
{
    match r {
        Some(i) => {
            assert(is_first_greatest(s, p, key, i as int));
            let c = choose|c: int| is_first_greatest(s, p, key, c);
            lemma_pick_unique(s, p, key, i as int, c);
        },
        None => {
            assert forall|i: int| !is_first_greatest(s, p, key, i) by {
                if 0 <= i < s.len() {
                    assert(!p(s[i]));
                }
            }
        },
    }
}

/// The pick after one more entry has been looked at.
pub open spec fn step_pick<T>(s: Seq<T>, p: spec_fn(T) -> bool, key: spec_fn(T) -> int, best: Option<usize>, i: usize) -> Option<usize> {
    if p(s[i as int]) {
        match best {
            Some(b) => if key(s[i as int]) > key(s[b as int]) {
                Some(i)
            } else {
                Some(b)
            },
            None => Some(i),
        }
    } else {
        best
    }
}

/// Looking at one more entry keeps the pick right.
pub proof fn lemma_picks_step<T>(s: Seq<T>, p: spec_fn(T) -> bool, key: spec_fn(T) -> int, best: Option<usize>, i: usize)
    requires
        i < s.len(),
        picks(s.subrange(0, i as int), p, key, best),
        best matches Some(b) ==> b < i,
    ensures
        picks(s.subrange(0, i + 1), p, key, step_pick(s, p, key, best, i)),
{
    let pre = s.subrange(0, i as int);
    let post = s.subrange(0, i + 1);
    assert forall|k: int| 0 <= k < i implies post[k] == pre[k] && post[k] == s[k] by {}
    assert(post[i as int] == s[i as int]);
    let nb = step_pick(s, p, key, best, i);
    match nb {
        Some(b) => {
            assert forall|j: int| 0 <= j < post.len() && p(#[trigger] post[j]) implies key(post[j]) <= key(post[b as int]) by {
                if j < i {
                    assert(pre[j] == post[j]);
                }
            }
            assert forall|j: int| 0 <= j < b && p(#[trigger] post[j]) implies key(post[j]) < key(post[b as int]) by {
                if j < i {
                    assert(pre[j] == post[j]);
                }
            }
        },
        None => {
            assert forall|j: int| 0 <= j < post.len() implies !p(#[trigger] post[j]) by {
                if j < i {
                    assert(pre[j] == post[j]);
                }
            }
        },
    }
}

/// The pick over the first `n` entries, one entry at a time.
pub open spec fn scan<T>(s: Seq<T>, p: spec_fn(T) -> bool, key: spec_fn(T) -> int, n: nat) -> Option<usize>
    decreases n,
{
    if n == 0 {
        None
    } else {
        step_pick(s, p, key, scan(s, p, key, (n - 1) as nat), (n - 1) as usize)
    }
}

/// The scan finds the pick of the entries it has looked at.
pub proof fn lemma_scan_picks<T>(s: Seq<T>, p: spec_fn(T) -> bool, key: spec_fn(T) -> int, n: nat)
    requires
        n <= s.len(),
        s.len() <= usize::MAX,
    ensures
        picks(s.subrange(0, n as int), p, key, scan(s, p, key, n)),
        scan(s, p, key, n) matches Some(b) ==> b < n,
    decreases n,
{
    if n > 0 {
        lemma_scan_picks(s, p, key, (n - 1) as nat);
        lemma_picks_step(s, p, key, scan(s, p, key, (n - 1) as nat), (n - 1) as usize);
    }
}

/// Where some entry is admitted, there is a pick.
pub proof fn lemma_pick_exists<T>(s: Seq<T>, p: spec_fn(T) -> bool, key: spec_fn(T) -> int, i: int)
    requires
        0 <= i < s.len(),
        s.len() <= usize::MAX,
        p(s[i]),
    ensures
        pick(s, p, key) is Some,
{
    lemma_scan_picks(s, p, key, s.len());
    assert(s.subrange(0, s.len() as int) == s);
    let r = scan(s, p, key, s.len());
    if r is None {
        assert(!p(s[i]));
    }
    lemma_picks_is_pick(s, p, key, r);
}

} // verus!
