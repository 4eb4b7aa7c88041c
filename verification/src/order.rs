//! Ways to reorder a list, each as the list of old places in their new order.

use crate::text;
use crate::text::before_text;
use vstd::prelude::*;

verus! {

/// Whether `order` names each of `n` places once.
pub open spec fn is_order(order: Seq<usize>, n: int) -> bool {
    &&& order.len() == n
    &&& forall|k: int| 0 <= k < n ==> (#[trigger] order[k]) < n
    &&& order.no_duplicates()
}

/// A list taken in an order.
pub open spec fn arranged<T>(s: Seq<T>, order: Seq<usize>) -> Seq<T> {
    Seq::new(order.len(), |k: int| s[order[k] as int])
}

/// An order leaves no place out.
pub proof fn lemma_order_is_onto(order: Seq<usize>, n: int, i: int)
    requires
        is_order(order, n),
        0 <= i < n,
    ensures
        exists|k: int| 0 <= k < n && #[trigger] order[k] == i,
{
    let places = order.map_values(|x: usize| x as int);
    assert(places.no_duplicates());
    places.unique_seq_to_set();
    vstd::set_lib::lemma_int_range(0, n);
    let all = vstd::set_lib::set_int_range(0, n);
    assert forall|x: int| places.to_set().contains(x) implies all.contains(x) by {
        let k = choose|k: int| 0 <= k < places.len() && places[k] == x;
        assert(order[k] < n);
    }
    vstd::set_lib::lemma_len_subset(places.to_set(), all);
    vstd::set_lib::lemma_subset_equality(places.to_set(), all);
    assert(places.to_set().contains(i));
    let k = choose|k: int| 0 <= k < places.len() && places[k] == i;
    assert(order[k] == i);
}

/// Every place where it is.
pub open spec fn identity(n: nat) -> Seq<usize> {
    Seq::new(n, |k: int| k as usize)
}

/// Every place where it is.
pub fn identity_order(n: usize) -> (r: Vec<usize>)
    ensures
        r@ == identity(n as nat),
        is_order(r@, n as int),
{
    let mut out: Vec<usize> = Vec::new();
    let mut i: usize = 0;
    while i < n
        invariant
            i <= n,
            out@ == identity(i as nat),
        decreases n - i,
    {
        out.push(i);
        assert(out@ =~= identity((i + 1) as nat));
        i += 1;
    }
    out
}

/// Last place first.
pub open spec fn reversed(n: nat) -> Seq<usize> {
    Seq::new(n, |k: int| (n - 1 - k) as usize)
}

/// Last place first.
pub fn reverse_order(n: usize) -> (r: Vec<usize>)
    ensures
        r@ == reversed(n as nat),
        is_order(r@, n as int),
{
    let mut out: Vec<usize> = Vec::new();
    let mut i: usize = 0;
    while i < n
        invariant
            i <= n,
            out@.len() == i,
            forall|k: int| 0 <= k < i ==> #[trigger] out@[k] == n - 1 - k,
        decreases n - i,
    {
        out.push(n - 1 - i);
        i += 1;
    }
    assert(out@ =~= reversed(n as nat));
    out
}

/// One place taken out and put back so that it stands at `to`.
pub open spec fn moved(n: nat, from: int, to: int) -> Seq<usize> {
    identity(n).remove(from).insert(to, from as usize)
}

/// One place taken out and put back so that it stands at `to`.
pub fn move_order(n: usize, from: usize, to: usize) -> (r: Vec<usize>)
    requires
        from < n,
        to < n,
    ensures
        r@ == moved(n as nat, from as int, to as int),
        is_order(r@, n as int),
{
    let mut out = identity_order(n);
    let x: usize = out.remove(from);
    out.insert(to, x);
    assert(out@ =~= moved(n as nat, from as int, to as int));
    assert forall|k: int| 0 <= k < n implies (#[trigger] out@[k]) < n by {}
    assert(out@.no_duplicates());
    out
}

/// The places of `lo..hi` that are (or are not) chosen, in order.
pub open spec fn picks(chosen: Seq<bool>, lo: int, hi: int, want: bool) -> Seq<usize>
    decreases hi - lo,
{
    if hi <= lo {
        Seq::empty()
    } else if chosen[hi - 1] == want {
        picks(chosen, lo, hi - 1, want).push((hi - 1) as usize)
    } else {
        picks(chosen, lo, hi - 1, want)
    }
}

proof fn lemma_picks(chosen: Seq<bool>, lo: int, hi: int, want: bool)
    requires
        0 <= lo <= hi <= chosen.len(),
        chosen.len() <= usize::MAX,
    ensures
        forall|k: int|
            0 <= k < picks(chosen, lo, hi, want).len() ==> {
                &&& lo <= #[trigger] picks(chosen, lo, hi, want)[k] < hi
                &&& chosen[picks(chosen, lo, hi, want)[k] as int] == want
            },
        picks(chosen, lo, hi, want).no_duplicates(),
        picks(chosen, lo, hi, want).len() + picks(chosen, lo, hi, !want).len() == hi - lo,
    decreases hi - lo,
{
    if hi > lo {
        lemma_picks(chosen, lo, hi - 1, want);
    }
}

proof fn lemma_picks_splits(chosen: Seq<bool>, lo: int, mid: int, hi: int, want: bool)
    requires
        lo <= mid <= hi,
    ensures
        picks(chosen, lo, hi, want) == picks(chosen, lo, mid, want) + picks(chosen, mid, hi, want),
    decreases hi - mid,
{
    if hi > mid {
        lemma_picks_splits(chosen, lo, mid, hi - 1, want);
        assert(picks(chosen, lo, hi, want) =~= picks(chosen, lo, mid, want) + picks(
            chosen,
            mid,
            hi,
            want,
        ));
    } else {
        assert(picks(chosen, lo, hi, want) =~= picks(chosen, lo, mid, want) + picks(
            chosen,
            mid,
            hi,
            want,
        ));
    }
}

/// The chosen places as one block that lands before the place `dest`, all
/// others where they stand round it.
pub open spec fn block(chosen: Seq<bool>, dest: int) -> Seq<usize> {
    picks(chosen, 0, dest, false) + picks(chosen, 0, chosen.len() as int, true) + picks(
        chosen,
        dest,
        chosen.len() as int,
        false,
    )
}

/// Appends the places of `lo..hi` that are (or are not) chosen.
fn append_picks(out: &mut Vec<usize>, chosen: &Vec<bool>, lo: usize, hi: usize, want: bool)
    requires
        lo <= hi <= chosen@.len(),
    ensures
        final(out)@ == old(out)@ + picks(chosen@, lo as int, hi as int, want),
{
    let ghost before = out@;
    let mut i: usize = lo;
    assert(before + picks(chosen@, lo as int, lo as int, want) =~= before);
    while i < hi
        invariant
            lo <= i <= hi <= chosen@.len(),
            out@ == before + picks(chosen@, lo as int, i as int, want),
        decreases hi - i,
    {
        if chosen[i] == want {
            out.push(i);
            assert(out@ =~= before + picks(chosen@, lo as int, i + 1, want));
        }
        i += 1;
    }
}

/// The chosen places as one block that lands before the place `dest`.
pub fn block_order(chosen: &Vec<bool>, dest: usize) -> (r: Vec<usize>)
    requires
        dest <= chosen@.len(),
    ensures
        r@ == block(chosen@, dest as int),
        is_order(r@, chosen@.len() as int),
{
    let n: usize = chosen.len();
    let mut out: Vec<usize> = Vec::new();
    append_picks(&mut out, chosen, 0, dest, false);
    append_picks(&mut out, chosen, 0, n, true);
    append_picks(&mut out, chosen, dest, n, false);
    proof {
        let c = chosen@;
        assert(out@ =~= block(c, dest as int));
        lemma_picks(c, 0, dest as int, false);
        lemma_picks(c, 0, n as int, true);
        lemma_picks(c, 0, n as int, false);
        lemma_picks(c, dest as int, n as int, false);
        lemma_picks_splits(c, 0, dest as int, n as int, false);
        let a = picks(c, 0, dest as int, false);
        let b = picks(c, 0, n as int, true);
        let d = picks(c, dest as int, n as int, false);
        assert(out@.len() == n);
        assert forall|k: int| 0 <= k < n implies (#[trigger] out@[k]) < n by {
            if k < a.len() {
                assert(out@[k] == a[k]);
            } else if k < a.len() + b.len() {
                assert(out@[k] == b[k - a.len()]);
            } else {
                assert(out@[k] == d[k - a.len() - b.len()]);
            }
        }
        assert forall|i: int, j: int| 0 <= i < n && 0 <= j < n && i != j implies out@[i] != out@[j] by {
            let x = out@[i];
            let y = out@[j];
            if i < a.len() {
                assert(x == a[i]);
            } else if i < a.len() + b.len() {
                assert(x == b[i - a.len()]);
            } else {
                assert(x == d[i - a.len() - b.len()]);
            }
            if j < a.len() {
                assert(y == a[j]);
            } else if j < a.len() + b.len() {
                assert(y == b[j - a.len()]);
            } else {
                assert(y == d[j - a.len() - b.len()]);
            }
        }
    }
    out
}

/// A block keeps the relative order of the chosen places, and of the others.
pub proof fn law_block_keeps_relative_order(chosen: Seq<bool>, dest: int, i: int, j: int)
    requires
        0 <= dest <= chosen.len(),
        chosen.len() <= usize::MAX,
        0 <= i < j < block(chosen, dest).len(),
        chosen[block(chosen, dest)[i] as int] == chosen[block(chosen, dest)[j] as int],
    ensures
        block(chosen, dest)[i] < block(chosen, dest)[j],
{
    let n = chosen.len() as int;
    let a = picks(chosen, 0, dest, false);
    let b = picks(chosen, 0, n, true);
    let d = picks(chosen, dest, n, false);
    lemma_picks(chosen, 0, dest, false);
    lemma_picks(chosen, 0, n, true);
    lemma_picks(chosen, dest, n, false);
    lemma_picks_ascend(chosen, 0, dest, false);
    lemma_picks_ascend(chosen, 0, n, true);
    lemma_picks_ascend(chosen, dest, n, false);
    let o = block(chosen, dest);
    if i < a.len() {
        assert(o[i] == a[i]);
    } else if i < a.len() + b.len() {
        assert(o[i] == b[i - a.len()]);
    } else {
        assert(o[i] == d[i - a.len() - b.len()]);
    }
    if j < a.len() {
        assert(o[j] == a[j]);
    } else if j < a.len() + b.len() {
        assert(o[j] == b[j - a.len()]);
    } else {
        assert(o[j] == d[j - a.len() - b.len()]);
    }
}

proof fn lemma_picks_ascend(chosen: Seq<bool>, lo: int, hi: int, want: bool)
    requires
        0 <= lo <= hi <= chosen.len(),
        chosen.len() <= usize::MAX,
    ensures
        forall|i: int, j: int|
            0 <= i < j < picks(chosen, lo, hi, want).len() ==> #[trigger] picks(
                chosen,
                lo,
                hi,
                want,
            )[i] < #[trigger] picks(chosen, lo, hi, want)[j],
    decreases hi - lo,
{
    if hi > lo {
        lemma_picks_ascend(chosen, lo, hi - 1, want);
        lemma_picks(chosen, lo, hi - 1, want);
    }
}

/// The texts that keys hold.
pub open spec fn key_views(keys: Seq<String>) -> Seq<Seq<char>> {
    keys.map_values(|k: String| k@)
}

/// Whether an order sorts by key, rows with the same key staying in their
/// order.
pub open spec fn sorts(order: Seq<usize>, keys: Seq<Seq<char>>) -> bool {
    forall|a: int, b: int|
        0 <= a < b < order.len() ==> {
            let x = #[trigger] order[a];
            let y = #[trigger] order[b];
            &&& text::text_before(keys[x as int], keys[y as int])
            &&& keys[x as int] == keys[y as int] ==> x < y
        }
}

/// The order that sorts by key, rows with the same key staying in their order.
pub fn sort_order(keys: &Vec<String>) -> (r: Vec<usize>)
    ensures
        is_order(r@, keys@.len() as int),
        sorts(r@, key_views(keys@)),
{
    let n: usize = keys.len();
    let ghost ks = key_views(keys@);
    let mut out: Vec<usize> = Vec::new();
    let mut i: usize = 0;
    while i < n
        invariant
            i <= n,
            n == keys@.len(),
            ks == key_views(keys@),
            is_order(out@, i as int),
            sorts(out@, ks),
        decreases n - i,
    {
        let mut p: usize = i;
        while p > 0 && !before_text(keys[out[p - 1]].as_str(), keys[i].as_str())
            invariant
                p <= i < n,
                n == keys@.len(),
                ks == key_views(keys@),
                is_order(out@, i as int),
                forall|k: int|
                    p <= k < i ==> !text::text_before(
                        ks[#[trigger] out@[k] as int],
                        ks[i as int],
                    ),
            decreases p,
        {
            p -= 1;
        }
        let ghost before = out@;
        out.insert(p, i);
        proof {
            assert forall|a: int, b: int| 0 <= a < b < out@.len() implies {
                let x = #[trigger] out@[a];
                let y = #[trigger] out@[b];
                &&& text::text_before(ks[x as int], ks[y as int])
                &&& ks[x as int] == ks[y as int] ==> x < y
            } by {
                if b < p {
                    assert(out@[a] == before[a] && out@[b] == before[b]);
                } else if a > p {
                    assert(out@[a] == before[a - 1] && out@[b] == before[b - 1]);
                } else if a < p && b > p {
                    assert(out@[a] == before[a] && out@[b] == before[b - 1]);
                } else if b == p {
                    assert(out@[a] == before[a]);
                    let last = before[p - 1];
                    assert(text::text_before(ks[last as int], ks[i as int]));
                    if a < p - 1 {
                        text::lemma_text_before_transitive(
                            ks[before[a] as int],
                            ks[last as int],
                            ks[i as int],
                        );
                    }
                } else {
                    assert(out@[b] == before[b - 1]);
                    text::lemma_text_before_total(ks[before[b - 1] as int], ks[i as int]);
                    if ks[before[b - 1] as int] == ks[i as int] {
                        text::lemma_text_before_total(ks[i as int], ks[i as int]);
                    }
                }
            }
            assert forall|k: int| 0 <= k < i + 1 implies (#[trigger] out@[k]) < i + 1 by {
                if k < p {
                    assert(out@[k] == before[k]);
                } else if k > p {
                    assert(out@[k] == before[k - 1]);
                }
            }
            assert forall|a: int, b: int| 0 <= a < i + 1 && 0 <= b < i + 1 && a != b implies out@[a]
                != out@[b] by {
                if a < p {
                    assert(out@[a] == before[a]);
                } else if a > p {
                    assert(out@[a] == before[a - 1]);
                }
                if b < p {
                    assert(out@[b] == before[b]);
                } else if b > p {
                    assert(out@[b] == before[b - 1]);
                }
            }
        }
        i += 1;
    }
    out
}

/// The place that a draw picks among `0..=i`.
pub open spec fn pick(draws: Seq<u64>, i: int) -> int {
    if i < draws.len() {
        draws[i] as int % (i + 1)
    } else {
        i
    }
}

/// Two entries changed over.
pub open spec fn swapped<T>(s: Seq<T>, i: int, j: int) -> Seq<T> {
    s.update(i, s[j]).update(j, s[i])
}

/// A list shuffled from its end: each place `i` is changed over with the one
/// that its draw picks among those up to it.
pub open spec fn shuffled<T>(s: Seq<T>, draws: Seq<u64>, i: int) -> Seq<T>
    decreases i,
{
    if i <= 0 {
        s
    } else {
        shuffled(swapped(s, i, pick(draws, i)), draws, i - 1)
    }
}

/// Shuffles `n` places by draws.
pub fn shuffle_order(n: usize, draws: &Vec<u64>) -> (r: Vec<usize>)
    ensures
        r@ == shuffled(identity(n as nat), draws@, n - 1),
        is_order(r@, n as int),
{
    let mut out = identity_order(n);
    if n == 0 {
        return out;
    }
    let mut i: usize = n - 1;
    while i > 0
        invariant
            i < n,
            is_order(out@, n as int),
            shuffled(out@, draws@, i as int) == shuffled(identity(n as nat), draws@, n - 1),
        decreases i,
    {
        let j: usize = if i < draws.len() {
            (draws[i] % (i as u64 + 1)) as usize
        } else {
            i
        };
        assert(j == pick(draws@, i as int));
        let x: usize = out[i];
        let y: usize = out[j];
        let ghost before = out@;
        out.set(i, y);
        out.set(j, x);
        assert(out@ =~= swapped(before, i as int, j as int));
        assert forall|a: int, b: int| 0 <= a < n && 0 <= b < n && a != b implies out@[a] != out@[b] by {
            let fa = if a == i {
                j as int
            } else if a == j {
                i as int
            } else {
                a
            };
            let fb = if b == i {
                j as int
            } else if b == j {
                i as int
            } else {
                b
            };
            assert(out@[a] == before[fa] && out@[b] == before[fb]);
        }
        i -= 1;
    }
    out
}

/// A list turned round reads from its end: the entry at each place is the one that
/// stood as far from the other end, and turning it round again gives it back.
pub proof fn law_turning_round_twice_is_nothing<T>(s: Seq<T>, k: int)
    requires
        s.len() <= usize::MAX,
        0 <= k < s.len(),
    ensures
        ({
            let back = arranged(s, reversed(s.len()));
            &&& back.len() == s.len()
            &&& back[k] == s[s.len() - 1 - k]
            &&& arranged(back, reversed(s.len())) == s
        }),
{
    let back = arranged(s, reversed(s.len()));
    assert(arranged(back, reversed(s.len())) =~= s);
}

/// An entry that is moved stands where it was sent, and the others keep their order:
/// taken out again, it leaves what was left where it was taken from.
pub proof fn law_a_moved_entry_stands_where_it_was_sent<T>(s: Seq<T>, from: int, to: int)
    requires
        s.len() <= usize::MAX,
        0 <= from < s.len(),
        0 <= to < s.len(),
    ensures
        ({
            let after = arranged(s, moved(s.len(), from, to));
            &&& after.len() == s.len()
            &&& after[to] == s[from]
            &&& after.remove(to) == s.remove(from)
        }),
{
    let after = arranged(s, moved(s.len(), from, to));
    assert(after.remove(to) =~= s.remove(from));
}

/// A block that is moved stands together before the entry that was named: the entries
/// not chosen that stood before that place come first, then the chosen ones, then the
/// others; and none is left out.
pub proof fn law_a_block_stands_before_its_place(chosen: Seq<bool>, dest: int, i: int)
    requires
        0 <= dest <= chosen.len() <= usize::MAX,
        0 <= i < chosen.len(),
    ensures
        ({
            let o = block(chosen, dest);
            &&& is_order(o, chosen.len() as int)
            &&& forall|j: int|
                0 <= j < i ==> {
                    let x = #[trigger] o[j] as int;
                    let y = o[i] as int;
                    &&& chosen[y] && !chosen[x] ==> x < dest
                    &&& chosen[x] && !chosen[y] ==> dest <= y
                    &&& chosen[x] == chosen[y] ==> x < y
                }
        }),
{
    let n = chosen.len() as int;
    let o = block(chosen, dest);
    lemma_block_is_order(chosen, dest);
    let a = picks(chosen, 0, dest, false);
    let b = picks(chosen, 0, n, true);
    let d = picks(chosen, dest, n, false);
    lemma_picks(chosen, 0, dest, false);
    lemma_picks(chosen, 0, n, true);
    lemma_picks(chosen, dest, n, false);
    assert forall|j: int| 0 <= j < i implies {
        let x = #[trigger] o[j] as int;
        let y = o[i] as int;
        &&& chosen[y] && !chosen[x] ==> x < dest
        &&& chosen[x] && !chosen[y] ==> dest <= y
        &&& chosen[x] == chosen[y] ==> x < y
    } by {
        if chosen[o[j] as int] == chosen[o[i] as int] {
            law_block_keeps_relative_order(chosen, dest, j, i);
        }
        if j < a.len() {
            assert(o[j] == a[j]);
        } else if j < a.len() + b.len() {
            assert(o[j] == b[j - a.len()]);
        } else {
            assert(o[j] == d[j - a.len() - b.len()]);
        }
        if i < a.len() {
            assert(o[i] == a[i]);
        } else if i < a.len() + b.len() {
            assert(o[i] == b[i - a.len()]);
        } else {
            assert(o[i] == d[i - a.len() - b.len()]);
        }
    }
}

proof fn lemma_block_is_order(chosen: Seq<bool>, dest: int)
    requires
        0 <= dest <= chosen.len() <= usize::MAX,
    ensures
        is_order(block(chosen, dest), chosen.len() as int),
{
    let n = chosen.len() as int;
    let o = block(chosen, dest);
    let a = picks(chosen, 0, dest, false);
    let b = picks(chosen, 0, n, true);
    let d = picks(chosen, dest, n, false);
    lemma_picks(chosen, 0, dest, false);
    lemma_picks(chosen, 0, n, true);
    lemma_picks(chosen, 0, n, false);
    lemma_picks(chosen, dest, n, false);
    lemma_picks_splits(chosen, 0, dest, n, false);
    assert(o.len() == n);
    assert forall|k: int| 0 <= k < n implies (#[trigger] o[k]) < n by {
        if k < a.len() {
            assert(o[k] == a[k]);
        } else if k < a.len() + b.len() {
            assert(o[k] == b[k - a.len()]);
        } else {
            assert(o[k] == d[k - a.len() - b.len()]);
        }
    }
    assert forall|i: int, j: int| 0 <= i < n && 0 <= j < n && i != j implies o[i] != o[j] by {
        if i < a.len() {
            assert(o[i] == a[i]);
        } else if i < a.len() + b.len() {
            assert(o[i] == b[i - a.len()]);
        } else {
            assert(o[i] == d[i - a.len() - b.len()]);
        }
        if j < a.len() {
            assert(o[j] == a[j]);
        } else if j < a.len() + b.len() {
            assert(o[j] == b[j - a.len()]);
        } else {
            assert(o[j] == d[j - a.len() - b.len()]);
        }
    }
}

/// A shuffle is settled from the end: the last place gets the entry that its draw
/// names, whatever is drawn for the others, and no place past it is touched. Any entry
/// up to there can be drawn for it.
pub proof fn law_a_draw_settles_its_place<T>(s: Seq<T>, draws: Seq<u64>, i: int)
    requires
        0 < i < s.len(),
        i < draws.len(),
    ensures
        shuffled(s, draws, i).len() == s.len(),
        shuffled(s, draws, i)[i] == s[draws[i] as int % (i + 1)],
        forall|k: int| i < k < s.len() ==> #[trigger] shuffled(s, draws, i)[k] == s[k],
        forall|t: u64| t <= i ==> #[trigger] shuffled(s, draws.update(i, t), i)[i] == s[t as int],
{
    let next = swapped(s, i, pick(draws, i));
    vstd::arithmetic::div_mod::lemma_mod_bound(draws[i] as int, i + 1);
    lemma_shuffle_keeps_the_end(next, draws, i - 1);
    assert forall|t: u64| t <= i implies #[trigger] shuffled(s, draws.update(i, t), i)[i]
        == s[t as int] by {
        let other = draws.update(i, t);
        vstd::arithmetic::div_mod::lemma_small_mod(t as nat, (i + 1) as nat);
        assert(pick(other, i) == t);
        lemma_shuffle_keeps_the_end(swapped(s, i, t as int), other, i - 1);
    }
}

proof fn lemma_shuffle_keeps_the_end<T>(s: Seq<T>, draws: Seq<u64>, i: int)
    requires
        i < s.len(),
    ensures
        shuffled(s, draws, i).len() == s.len(),
        forall|k: int| i < k < s.len() ==> #[trigger] shuffled(s, draws, i)[k] == s[k],
    decreases i,
{
    if i > 0 {
        if i < draws.len() {
            vstd::arithmetic::div_mod::lemma_mod_bound(draws[i] as int, i + 1);
        }
        let next = swapped(s, i, pick(draws, i));
        lemma_shuffle_keeps_the_end(next, draws, i - 1);
        assert forall|k: int| i < k < s.len() implies #[trigger] shuffled(s, draws, i)[k] == s[k] by {
            assert(shuffled(next, draws, i - 1)[k] == next[k]);
        }
    }
}

/// Turning round and moving one place are orders: no place is lost or doubled.
pub proof fn lemma_reversed_and_moved_are_orders(n: nat, from: int, to: int)
    requires
        n <= usize::MAX,
        0 <= from < n,
        0 <= to < n,
    ensures
        is_order(reversed(n), n as int),
        is_order(moved(n, from, to), n as int),
{
    let r = reversed(n);
    assert forall|k: int| 0 <= k < n implies (#[trigger] r[k]) < n by {}
    assert forall|i: int, j: int| 0 <= i < n && 0 <= j < n && i != j implies r[i] != r[j] by {}
    let m = moved(n, from, to);
    assert(m.len() == n);
    assert forall|k: int| 0 <= k < n implies (#[trigger] m[k]) < n by {}
    assert forall|i: int, j: int| 0 <= i < n && 0 <= j < n && i != j implies m[i] != m[j] by {}
}

/// Every key is seen as itself, in its place.
pub proof fn law_keys_are_seen_in_their_places(keys: Seq<String>, i: int)
    requires
        0 <= i < keys.len(),
    ensures
        key_views(keys).len() == keys.len(),
        key_views(keys)[i] == keys[i]@,
{
}

} // verus!
