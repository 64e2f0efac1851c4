//! Picking the next article of the discovery feed: a time-seeded xorshift
//! generator, a Fisher–Yates shuffle, and the choice between following the
//! reader's interests and exploring.
use vstd::prelude::*;

verus! {

/// A candidate article for the feed.
#[derive(Debug)]
pub struct FeedItem {
    pub title: String,
    pub short_description: Option<String>,
    pub snippet: String,
    pub categories: Vec<String>,
    pub is_liked: bool,
}

/// How the next feed article is chosen.
#[derive(Debug, Clone, Copy, PartialEq, Eq, Structural)]
pub enum SelectionStrategy {
    WeightedCategory,
    TopCategory,
    RandomExploration,
}

// ---------------------------------------------------------------------------
// Pseudo-random numbers
// ---------------------------------------------------------------------------

/// One xorshift round (shifts 12, 25, 27).
pub open spec fn xorshift(x: u64) -> u64 {
    let a = x ^ (x >> 12u64);
    let b = a ^ (a << 25u64);
    b ^ (b >> 27u64)
}

/// The output multiplier of xorshift64*.
pub open spec fn scramble(x: u64) -> u64 {
    vstd::wrapping::u64_specs::wrapping_mul(x, 0x2545f4914f6cdd1du64)
}

/// The value drawn from a clock reading of `nanos` nanoseconds.
pub open spec fn random_from_nanos(nanos: u64) -> u64 {
    scramble(xorshift(nanos ^ 0x517cc1b727220a95u64))
}

fn xorshift_exec(x: u64) -> (r: u64)
    ensures
        r == xorshift(x),
{
    let mut y = x;
    y ^= y >> 12;
    y ^= y << 25;
    y ^= y >> 27;
    y
}

/// The number drawn from a clock reading: xorshift64* of the reading mixed
/// with a fixed constant.
pub fn random_from_clock(nanos: u64) -> (r: u64)
    ensures
        r == random_from_nanos(nanos),
{
    let x = xorshift_exec(nanos ^ 0x517cc1b727220a95);
    x.wrapping_mul(0x2545f4914f6cdd1d)
}

/// Nanoseconds since the Unix epoch by the system clock, or `None` if the
/// clock is set before the epoch (`SystemTime::now` and `duration_since`).
/// What the clock reads is not stated.
#[verifier::external_body]
fn unix_time_nanos() -> (r: Option<u128>) {
    std::time::SystemTime::now().duration_since(std::time::UNIX_EPOCH).ok().map(|d| d.as_nanos())
}

/// A pseudo-random number seeded by the current time.
pub fn rand_u64() -> (r: u64)
    ensures
        exists|nanos: u64| r == random_from_nanos(nanos),
{
    let nanos: u128 = match unix_time_nanos() {
        Some(n) => n,
        None => 1234567,
    };
    let n = nanos as u64;
    random_from_clock(n)
}

// ---------------------------------------------------------------------------
// Shuffle
// ---------------------------------------------------------------------------

/// `s` with the elements at `i` and `j` exchanged.
pub open spec fn swapped<T>(s: Seq<T>, i: int, j: int) -> Seq<T> {
    s.update(i, s[j]).update(j, s[i])
}

/// The Fisher–Yates passes from position `i` down to 1, drawing each
/// partner from the xorshift stream after `rng`.
pub open spec fn shuffle_from<T>(s: Seq<T>, rng: u64, i: int) -> Seq<T>
    decreases i,
{
    if i < 1 || i >= s.len() {
        s
    } else {
        let r = xorshift(rng);
        let j = (scramble(r) as usize) as int % (i + 1);
        shuffle_from(swapped(s, i, j), r, i - 1)
    }
}

/// The order a shuffle seeded with `seed` leaves `s` in.
pub open spec fn shuffled<T>(s: Seq<T>, seed: u64) -> Seq<T> {
    shuffle_from(s, seed, s.len() - 1)
}

/// `<[T]>::swap`.
#[verifier::external_body]
fn slice_swap<T>(s: &mut [T], i: usize, j: usize)
    requires
        i < old(s)@.len(),
        j < old(s)@.len(),
    ensures
        final(s)@ == swapped(old(s)@, i as int, j as int),
{
    s.swap(i, j);
}

/// Shuffles `slice` with the stream seeded by `seed`.
pub fn shuffle_with_seed<T>(slice: &mut [T], seed: u64)
    ensures
        final(slice)@ == shuffled(old(slice)@, seed),
{
    let mut rng = seed;
    let n = slice.len();
    if n < 2 {
        return;
    }
    let mut i = n - 1;
    while i >= 1
        invariant
            n == slice@.len(),
            n == old(slice)@.len(),
            i < n,
            shuffled(old(slice)@, seed) == shuffle_from(slice@, rng, i as int),
        decreases i,
    {
        rng ^= rng >> 12;
        rng ^= rng << 25;
        rng ^= rng >> 27;
        let j = (rng.wrapping_mul(0x2545f4914f6cdd1d) as usize) % (i + 1);
        slice_swap(slice, i, j);
        i -= 1;
    }
}

/// Shuffles `slice` in place with a time-seeded generator.
pub fn shuffle<T>(slice: &mut [T])
    ensures
        exists|seed: u64| final(slice)@ == shuffled(old(slice)@, seed),
{
    let seed = rand_u64();
    shuffle_with_seed(slice, seed);
}

proof fn lemma_swapped_multiset<T>(s: Seq<T>, i: int, j: int)
    requires
        0 <= i < s.len(),
        0 <= j < s.len(),
    ensures
        swapped(s, i, j).to_multiset() == s.to_multiset(),
{
    broadcast use vstd::seq_lib::group_to_multiset_ensures;

    let a = s.update(i, s[j]);
    lemma_update_multiset(s, i, s[j]);
    lemma_update_multiset(a, j, s[i]);
    assert(a[j] == (if i == j { s[j] } else { s[j] }));
    assert(s.to_multiset().remove(s[i]).insert(s[j]).remove(s[j]).insert(s[i]) =~= s.to_multiset()) by {
        assert(s.to_multiset().count(s[i]) > 0) by {
            assert(s.contains(s[i]));
        }
    }
}

proof fn lemma_update_multiset<T>(s: Seq<T>, i: int, x: T)
    requires
        0 <= i < s.len(),
    ensures
        s.update(i, x).to_multiset() == s.to_multiset().remove(s[i]).insert(x),
{
    broadcast use vstd::seq_lib::group_to_multiset_ensures;

    let b = s.update(i, x);
    assert(b.remove(i) =~= s.remove(i));
    assert(b.to_multiset().count(x) > 0) by {
        assert(b.contains(x)) by {
            assert(b[i] == x);
        }
    }
    assert(b.to_multiset().remove(x).insert(x) =~= b.to_multiset());
}

/// A shuffle only reorders: every element stays, as often as before.
pub proof fn shuffle_is_permutation<T>(s: Seq<T>, seed: u64)
    ensures
        shuffled(s, seed).to_multiset() == s.to_multiset(),
        shuffled(s, seed).len() == s.len(),
{
    lemma_shuffle_from_permutation(s, seed, s.len() - 1);
}

proof fn lemma_shuffle_from_permutation<T>(s: Seq<T>, rng: u64, i: int)
    ensures
        shuffle_from(s, rng, i).to_multiset() == s.to_multiset(),
        shuffle_from(s, rng, i).len() == s.len(),
    decreases i,
{
    if !(i < 1 || i >= s.len()) {
        let r = xorshift(rng);
        let j = (scramble(r) as usize) as int % (i + 1);
        lemma_swapped_multiset(s, i, j);
        lemma_shuffle_from_permutation(swapped(s, i, j), r, i - 1);
    }
}

// ---------------------------------------------------------------------------
// Choosing the next article
// ---------------------------------------------------------------------------

/// Strategy for a roll of 0..99: 40% weighted by category, 42% top
/// category, 18% exploration.
pub open spec fn strategy_for_roll(roll: u64) -> SelectionStrategy {
    if roll < 40 {
        SelectionStrategy::WeightedCategory
    } else if roll < 82 {
        SelectionStrategy::TopCategory
    } else {
        SelectionStrategy::RandomExploration
    }
}

/// The strategy a random draw selects: its value modulo 100 as the roll.
pub open spec fn strategy_for_random(random: u64) -> SelectionStrategy {
    strategy_for_roll((random % 100) as u64)
}

/// The strategy a draw `random` selects.
pub fn strategy_from_random(random: u64) -> (r: SelectionStrategy)
    ensures
        r == strategy_for_random(random),
{
    let roll = (random % 100) as u8;
    if roll < 40 {
        SelectionStrategy::WeightedCategory
    } else if roll < 82 {
        SelectionStrategy::TopCategory
    } else {
        SelectionStrategy::RandomExploration
    }
}

/// Draws a strategy.
pub fn choose_strategy() -> (r: SelectionStrategy)
    ensures
        exists|random: u64| r == #[trigger] strategy_for_random(random),
{
    strategy_from_random(rand_u64())
}

/// The index and score of the best unseen candidate among the first `k`:
/// the first strictly greatest score above `i32::MIN`.
pub open spec fn best_unseen(seen: Seq<bool>, scores: Seq<i32>, k: int) -> (Option<int>, i32)
    decreases k,
{
    if k <= 0 {
        (None, i32::MIN)
    } else {
        let prev = best_unseen(seen, scores, k - 1);
        if !seen[k - 1] && scores[k - 1] > prev.1 {
            (Some(k - 1), scores[k - 1])
        } else {
            prev
        }
    }
}

/// The index of the candidate taken: a random one when exploring, else the
/// best unseen one, else the first.
pub open spec fn chosen_index(
    n: int,
    seen: Seq<bool>,
    scores: Seq<i32>,
    strategy: SelectionStrategy,
    random: u64,
) -> int {
    match strategy {
        SelectionStrategy::RandomExploration => (random as usize) as int % n,
        _ => match best_unseen(seen, scores, n).0 {
            Some(k) => k,
            None => 0,
        },
    }
}

proof fn lemma_best_unseen_range(seen: Seq<bool>, scores: Seq<i32>, k: int)
    ensures
        best_unseen(seen, scores, k).0 matches Some(i) ==> 0 <= i < k,
    decreases k,
{
    if k > 0 {
        lemma_best_unseen_range(seen, scores, k - 1);
    }
}

/// Takes the next feed article out of `candidates`, given which of them the
/// reader has seen and their interest scores, the strategy and a random
/// draw; `None` when there are no candidates.
pub fn select_best_item_with(
    candidates: Vec<FeedItem>,
    seen: &Vec<bool>,
    scores: &Vec<i32>,
    strategy: SelectionStrategy,
    random: u64,
) -> (r: Option<FeedItem>)
    requires
        seen@.len() == candidates@.len(),
        scores@.len() == candidates@.len(),
    ensures
        candidates@.len() == 0 ==> r is None,
        candidates@.len() > 0 ==> r == Some(
            candidates@[chosen_index(candidates@.len() as int, seen@, scores@, strategy, random)],
        ),
{
    let mut candidates = candidates;
    if candidates.len() == 0 {
        return None;
    }
    match strategy {
        SelectionStrategy::RandomExploration => {
            let idx = (random as usize) % candidates.len();
            Some(candidates.swap_remove(idx))
        },
        _ => {
            let mut best_idx: Option<usize> = None;
            let mut best_score: i32 = i32::MIN;
            let mut idx: usize = 0;
            while idx < candidates.len()
                invariant
                    idx <= candidates@.len(),
                    seen@.len() == candidates@.len(),
                    scores@.len() == candidates@.len(),
                    (match best_idx {
                        Some(b) => Some(b as int),
                        None => None,
                    }, best_score) == best_unseen(seen@, scores@, idx as int),
                decreases candidates.len() - idx,
            {
                if !seen[idx] {
                    let score = scores[idx];
                    if score > best_score {
                        best_score = score;
                        best_idx = Some(idx);
                    }
                }
                idx += 1;
            }
            proof {
                lemma_best_unseen_range(seen@, scores@, candidates@.len() as int);
            }
            match best_idx {
                Some(b) => Some(candidates.swap_remove(b)),
                None => Some(candidates.swap_remove(0)),
            }
        },
    }
}

/// Takes the next feed article: draws a strategy and, when exploring, a
/// random candidate.
pub fn select_best_item(candidates: Vec<FeedItem>, seen: &Vec<bool>, scores: &Vec<i32>) -> (r: Option<FeedItem>)
    requires
        seen@.len() == candidates@.len(),
        scores@.len() == candidates@.len(),
    ensures
        candidates@.len() == 0 ==> r is None,
        candidates@.len() > 0 ==> exists|strategy: SelectionStrategy, random: u64|
            r == Some(candidates@[chosen_index(candidates@.len() as int, seen@, scores@, strategy, random)]),
{
    if candidates.len() == 0 {
        return None;
    }
    let strategy = choose_strategy();
    let random = if strategy == SelectionStrategy::RandomExploration {
        rand_u64()
    } else {
        0
    };
    select_best_item_with(candidates, seen, scores, strategy, random)
}

} // verus!
