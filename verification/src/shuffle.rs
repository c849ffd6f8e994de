//! Reordering a list of option texts by a sequence of swaps, and finding a
//! text in the reordered list.

use crate::random::random_in_range;
use vstd::prelude::*;
use vstd::seq_lib::*;

verus! {

/// The texts of a list of strings.
pub open spec fn texts(v: Seq<String>) -> Seq<Seq<char>> {
    v.map_values(|s: String| s@)
}

/// `picks` names, for each position `i` of a list of `n` items, a position at
/// or behind `i` within the list.
pub open spec fn valid_picks(picks: Seq<usize>, n: nat) -> bool {
    &&& picks.len() == n
    &&& forall|i: int| 0 <= i < n ==> i <= #[trigger] picks[i] < n
}

/// `s` with the items at `i` and `j` exchanged.
pub open spec fn swapped<T>(s: Seq<T>, i: int, j: int) -> Seq<T> {
    s.update(i, s[j]).update(j, s[i])
}

/// `s` after the first `k` steps of the shuffle: step `i` exchanges the item at
/// `i` with the item at `picks[i]`.
pub open spec fn shuffled_prefix<T>(s: Seq<T>, picks: Seq<usize>, k: nat) -> Seq<T>
    decreases k,
{
    if k == 0 {
        s
    } else {
        swapped(shuffled_prefix(s, picks, (k - 1) as nat), k - 1, picks[k - 1] as int)
    }
}

/// `s` after every step of the shuffle.
pub open spec fn shuffled<T>(s: Seq<T>, picks: Seq<usize>) -> Seq<T> {
    shuffled_prefix(s, picks, s.len())
}

/// `i` is the first position of `s` that holds `x`.
pub open spec fn is_first_match<T>(s: Seq<T>, x: T, i: int) -> bool {
    &&& 0 <= i < s.len()
    &&& s[i] == x
    &&& forall|j: int| 0 <= j < i ==> s[j] != x
}

/// `x` stands at exactly one position of `s`.
pub open spec fn occurs_once<T>(s: Seq<T>, x: T) -> bool {
    exists|m: int| is_only_match(s, x, m)
}

/// `m` is the one position of `s` that holds `x`.
pub open spec fn is_only_match<T>(s: Seq<T>, x: T, m: int) -> bool {
    &&& 0 <= m < s.len()
    &&& s[m] == x
    &&& forall|k: int| 0 <= k < s.len() && s[k] == x ==> k == m
}

/// Exchanging two items of a list changes neither its length nor how often
/// each item occurs in it.
pub proof fn lemma_swapped_same_items<T>(s: Seq<T>, i: int, j: int)
    requires
        0 <= i < s.len(),
        0 <= j < s.len(),
    ensures
        swapped(s, i, j).len() == s.len(),
        swapped(s, i, j).to_multiset() == s.to_multiset(),
{
    broadcast use vstd::multiset::group_multiset_axioms;

    let mid = s.update(i, s[j]);
    to_multiset_update(s, i, s[j]);
    to_multiset_update(mid, j, s[i]);
    s.to_multiset_ensures();
    assert(swapped(s, i, j).to_multiset() =~= s.to_multiset());
}

/// The shuffle is a permutation: after any number of its steps the list has
/// the length it had and holds each item as often as before.
pub proof fn lemma_shuffle_is_permutation<T>(s: Seq<T>, picks: Seq<usize>, k: nat)
    requires
        valid_picks(picks, s.len()),
        k <= s.len(),
    ensures
        shuffled_prefix(s, picks, k).len() == s.len(),
        shuffled_prefix(s, picks, k).to_multiset() == s.to_multiset(),
    decreases k,
{
    if k > 0 {
        lemma_shuffle_is_permutation(s, picks, (k - 1) as nat);
        lemma_swapped_same_items(shuffled_prefix(s, picks, (k - 1) as nat), k - 1, picks[k - 1] as int);
    }
}

/// An item that stood at exactly one position before the shuffle stands at
/// exactly one position after any number of its steps.
pub proof fn lemma_shuffle_keeps_single<T>(s: Seq<T>, picks: Seq<usize>, k: nat, x: T)
    requires
        valid_picks(picks, s.len()),
        k <= s.len(),
        occurs_once(s, x),
    ensures
        occurs_once(shuffled_prefix(s, picks, k), x),
    decreases k,
{
    if k > 0 {
        lemma_shuffle_keeps_single(s, picks, (k - 1) as nat, x);
        lemma_shuffle_is_permutation(s, picks, (k - 1) as nat);
        let before = shuffled_prefix(s, picks, (k - 1) as nat);
        let i = k - 1;
        let j = picks[k - 1] as int;
        let m = choose|m: int| is_only_match(before, x, m);
        let moved = if m == i {
            j
        } else if m == j {
            i
        } else {
            m
        };
        assert(is_only_match(swapped(before, i, j), x, moved));
    }
}

/// Whatever the list held before the shuffle it holds after it, and nothing
/// else.
pub proof fn lemma_shuffle_keeps_members<T>(s: Seq<T>, picks: Seq<usize>, x: T)
    requires
        valid_picks(picks, s.len()),
    ensures
        shuffled(s, picks).contains(x) <==> s.contains(x),
{
    lemma_shuffle_is_permutation(s, picks, s.len());
    to_multiset_contains(s, x);
    to_multiset_contains(shuffled(s, picks), x);
}

/// Draws the picks of a uniform shuffle of `n` items: for each position a random
/// position at or behind it.
pub fn draw_picks(n: u8) -> (picks: Vec<usize>)
    ensures
        valid_picks(picks@, n as nat),
{
    let mut picks: Vec<usize> = Vec::new();
    let mut i: u8 = 0;
    while i < n
        invariant
            i <= n,
            picks@.len() == i,
            forall|k: int| 0 <= k < i ==> k <= #[trigger] picks@[k] < n,
        decreases n - i,
    {
        let j = random_in_range(i as i32, n as i32);
        picks.push(j as usize);
        i = i + 1;
    }
    picks
}

/// Carries out the shuffle that `picks` describes.
pub fn apply_picks(options: &mut Vec<String>, picks: &Vec<usize>)
    requires
        valid_picks(picks@, old(options)@.len()),
    ensures
        final(options)@.len() == old(options)@.len(),
        texts(final(options)@) == shuffled(texts(old(options)@), picks@),
        texts(final(options)@).to_multiset() == texts(old(options)@).to_multiset(),
{
    proof {
        lemma_shuffle_is_permutation(texts(options@), picks@, options@.len());
    }
    let n = options.len();
    let mut i: usize = 0;
    while i < n
        invariant
            i <= n,
            options@.len() == n,
            old(options)@.len() == n,
            valid_picks(picks@, n as nat),
            texts(options@) == shuffled_prefix(texts(old(options)@), picks@, i as nat),
        decreases n - i,
    {
        let j = picks[i];
        let ghost before = options@;
        let first = options[i].clone();
        let second = options[j].clone();
        options[i] = second;
        options[j] = first;
        proof {
            assert(texts(options@) =~= swapped(texts(before), i as int, j as int));
        }
        i = i + 1;
    }
}

/// The first position of `options` whose text is that of `wanted`, if there is
/// one.
pub fn position_of(options: &Vec<String>, wanted: &String) -> (r: Option<usize>)
    ensures
        match r {
            Some(i) => is_first_match(texts(options@), wanted@, i as int),
            None => !texts(options@).contains(wanted@),
        },
{
    let mut i: usize = 0;
    while i < options.len()
        invariant
            i <= options@.len(),
            forall|j: int| 0 <= j < i ==> texts(options@)[j] != wanted@,
        decreases options@.len() - i,
    {
        if options[i] == *wanted {
            return Some(i);
        }
        i = i + 1;
    }
    None
}

} // verus!
