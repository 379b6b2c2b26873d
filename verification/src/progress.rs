use vstd::prelude::*;

verus! {

/// An ordered map of an outside crate carries the per-item download progress,
/// keyed by logical item name; declared so that its values can flow through
/// verified code.
#[verifier::external_type_specification]
#[verifier::external_body]
#[verifier::reject_recursive_types(K)]
#[verifier::reject_recursive_types(V)]
#[verifier::reject_recursive_types(S)]
pub struct ExIndexMap<K, V, S>(indexmap::IndexMap<K, V, S>);

/// What the progress map holds: its entries in insertion order, each a key and
/// a `(total_size, downloaded)` pair of byte counts.
pub uninterp spec fn progress_entries(m: indexmap::IndexMap<String, (u64, u64)>) -> Seq<
    (Seq<char>, (u64, u64)),
>;

/// The key occurs among the entries.
pub open spec fn has_key(es: Seq<(Seq<char>, (u64, u64))>, k: Seq<char>) -> bool {
    exists|i: int| 0 <= i < es.len() && (#[trigger] es[i]).0 == k
}

/// Position of the first entry with the key, or `es.len()` if absent.
pub open spec fn index_of_key(es: Seq<(Seq<char>, (u64, u64))>, k: Seq<char>) -> int
    decreases es.len(),
{
    if es.len() == 0 {
        0
    } else if es[0].0 == k {
        0
    } else {
        1 + index_of_key(es.skip(1), k)
    }
}

pub proof fn lemma_index_of_key(es: Seq<(Seq<char>, (u64, u64))>, k: Seq<char>)
    ensures
        0 <= index_of_key(es, k) <= es.len(),
        index_of_key(es, k) < es.len() ==> es[index_of_key(es, k)].0 == k,
        forall|j: int| 0 <= j < index_of_key(es, k) ==> (#[trigger] es[j]).0 != k,
        has_key(es, k) <==> index_of_key(es, k) < es.len(),
    decreases es.len(),
{
    if es.len() == 0 {
    } else if es[0].0 == k {
    } else {
        lemma_index_of_key(es.skip(1), k);
        assert forall|j: int| 0 <= j < index_of_key(es, k) implies (#[trigger] es[j]).0 != k by {
            if j > 0 {
                assert(es.skip(1)[j - 1] == es[j]);
            }
        }
        if has_key(es, k) {
            let w = choose|i: int| 0 <= i < es.len() && (#[trigger] es[i]).0 == k;
            assert(es.skip(1)[w - 1] == es[w]);
        }
        if index_of_key(es.skip(1), k) < es.skip(1).len() {
            assert(es[1 + index_of_key(es.skip(1), k)] == es.skip(1)[index_of_key(es.skip(1), k)]);
        }
    }
}

/// Bytes downloaded so far, summed over all entries.
pub open spec fn sum_downloaded(es: Seq<(Seq<char>, (u64, u64))>) -> int
    decreases es.len(),
{
    if es.len() == 0 {
        0
    } else {
        sum_downloaded(es.drop_last()) + es.last().1.1
    }
}

/// Total bytes expected, summed over all entries.
pub open spec fn sum_total(es: Seq<(Seq<char>, (u64, u64))>) -> int
    decreases es.len(),
{
    if es.len() == 0 {
        0
    } else {
        sum_total(es.drop_last()) + es.last().1.0
    }
}

/// Replacing one entry moves each sum by the difference at that entry alone:
/// no other entry's contribution changes.
pub proof fn lemma_sums_after_update(
    es: Seq<(Seq<char>, (u64, u64))>,
    i: int,
    v: (Seq<char>, (u64, u64)),
)
    requires
        0 <= i < es.len(),
    ensures
        sum_downloaded(es.update(i, v)) == sum_downloaded(es) - es[i].1.1 + v.1.1,
        sum_total(es.update(i, v)) == sum_total(es) - es[i].1.0 + v.1.0,
    decreases es.len(),
{
    let es2 = es.update(i, v);
    if i == es.len() - 1 {
        assert(es2.drop_last() =~= es.drop_last());
        assert(es2.last() == v);
    } else {
        assert(es2.drop_last() =~= es.drop_last().update(i, v));
        assert(es2.last() == es.last());
        lemma_sums_after_update(es.drop_last(), i, v);
    }
}

proof fn lemma_sums_nonneg(es: Seq<(Seq<char>, (u64, u64))>)
    ensures
        0 <= sum_downloaded(es) <= es.len() * 0xFFFF_FFFF_FFFF_FFFF,
        0 <= sum_total(es) <= es.len() * 0xFFFF_FFFF_FFFF_FFFF,
    decreases es.len(),
{
    let m: int = 0xFFFF_FFFF_FFFF_FFFF;
    if es.len() == 0 {
    } else {
        lemma_sums_nonneg(es.drop_last());
        let l = es.len() as int;
        assert((l - 1) * m + m == l * m) by (nonlinear_arith);
        assert(l * m >= 0) by (nonlinear_arith)
            requires
                l >= 1,
                m >= 0,
        ;
    }
}

/// Thread-safe-by-exclusion accumulator of per-item byte counts. One value of
/// this type sits behind the caller's lock; every mutation happens through
/// `&mut self`, so no update can be lost to interleaving.
///
/// Relies on indexmap::IndexMap for the entry order: an insert with a fresh
/// key appends, an insert with a present key updates that entry in place.
pub struct ProgressAggregator {
    pub map: indexmap::IndexMap<String, (u64, u64)>,
}

/// Relies on indexmap::IndexMap::new: the new map is empty.
#[verifier::external_body]
fn pm_new() -> (r: indexmap::IndexMap<String, (u64, u64)>)
    ensures
        progress_entries(r) == Seq::<(Seq<char>, (u64, u64))>::empty(),
{
    indexmap::IndexMap::new()
}

/// Relies on indexmap::IndexMap::insert: a present key keeps its place in the
/// order and has its value replaced; a fresh key is appended last.
#[verifier::external_body]
fn pm_insert(m: &mut indexmap::IndexMap<String, (u64, u64)>, k: String, v: (u64, u64))
    ensures
        ({
            let es = progress_entries(*old(m));
            let es2 = progress_entries(*final(m));
            if has_key(es, k@) {
                es2 == es.update(index_of_key(es, k@), (k@, v))
            } else {
                es2 == es.push((k@, v))
            }
        }),
{
    m.insert(k, v);
}

/// Relies on indexmap::IndexMap::get: the value stored under the key, if any.
#[verifier::external_body]
fn pm_get(m: &indexmap::IndexMap<String, (u64, u64)>, k: &String) -> (r: Option<(u64, u64)>)
    ensures
        ({
            let es = progress_entries(*m);
            r == if has_key(es, k@) {
                Some(es[index_of_key(es, k@)].1)
            } else {
                None::<(u64, u64)>
            }
        }),
{
    m.get(k).copied()
}

/// Relies on indexmap::IndexMap::values: the stored values in entry order.
#[verifier::external_body]
fn pm_values(m: &indexmap::IndexMap<String, (u64, u64)>) -> (r: Vec<(u64, u64)>)
    ensures
        r@ == progress_entries(*m).map_values(|p: (Seq<char>, (u64, u64))| p.1),
{
    m.values().copied().collect()
}

impl ProgressAggregator {
    /// The entries as ghost data: item name, then `(total, downloaded)`.
    pub open spec fn entries(self) -> Seq<(Seq<char>, (u64, u64))> {
        progress_entries(self.map)
    }

    pub fn new() -> (r: Self)
        ensures
            r.entries() == Seq::<(Seq<char>, (u64, u64))>::empty(),
    {
        ProgressAggregator { map: pm_new() }
    }

    /// Pre-registers an item with no known total and nothing downloaded, so
    /// that the map's shape is fixed before any fetch task runs. A fresh name
    /// is appended; a repeated one has its counts reset in place.
    pub fn register(&mut self, name: &String)
        ensures
            !has_key(old(self).entries(), name@) ==> final(self).entries() == old(
                self,
            ).entries().push((name@, (0u64, 0u64))),
            has_key(old(self).entries(), name@) ==> final(self).entries() == old(
                self,
            ).entries().update(
                index_of_key(old(self).entries(), name@),
                (name@, (0u64, 0u64)),
            ),
    {
        pm_insert(&mut self.map, name.clone(), (0, 0));
    }

    /// Records the total reported by the response headers for an item,
    /// resetting its downloaded count, which no chunk has advanced yet.
    pub fn set_total(&mut self, name: &String, total: u64)
        ensures
            has_key(old(self).entries(), name@) ==> final(self).entries() == old(
                self,
            ).entries().update(
                index_of_key(old(self).entries(), name@),
                (name@, (total, 0u64)),
            ),
            !has_key(old(self).entries(), name@) ==> final(self).entries() == old(
                self,
            ).entries().push((name@, (total, 0u64))),
    {
        pm_insert(&mut self.map, name.clone(), (total, 0));
    }

    /// Credits `n` freshly arrived bytes to the named item. As long as the
    /// item's counter has room — byte counts of real transfers always do —
    /// the aggregate downloaded sum grows by exactly `n`: no update is lost.
    /// Every other entry, and every total, stays as it was; a counter at its
    /// limit saturates; an unknown name changes nothing.
    pub fn advance(&mut self, name: &String, n: u64)
        ensures
            has_key(old(self).entries(), name@) ==> {
                let es = old(self).entries();
                let i = index_of_key(es, name@);
                let grown = if es[i].1.1 + n <= u64::MAX {
                    (es[i].1.1 + n) as u64
                } else {
                    u64::MAX
                };
                &&& final(self).entries() == es.update(i, (name@, (es[i].1.0, grown)))
                &&& es[i].1.1 + n <= u64::MAX ==> sum_downloaded(final(self).entries())
                    == sum_downloaded(es) + n
                &&& sum_total(final(self).entries()) == sum_total(es)
            },
            !has_key(old(self).entries(), name@) ==> *final(self) == *old(self),
    {
        proof {
            lemma_index_of_key(self.entries(), name@);
        }
        match pm_get(&self.map, name) {
            Some(p) => {
                let ghost es = self.entries();
                let ghost i = index_of_key(es, name@);
                let grown = if n <= u64::MAX - p.1 {
                    p.1 + n
                } else {
                    u64::MAX
                };
                pm_insert(&mut self.map, name.clone(), (p.0, grown));
                proof {
                    assert(es[i].0 == name@);
                    lemma_sums_after_update(es, i, (name@, (p.0, grown)));
                }
            },
            None => {},
        }
    }

    /// A consistent read of the aggregate byte counts: the exact sums of the
    /// per-item downloaded and total fields at this instant.
    pub fn snapshot(&self) -> (r: (u128, u128))
        ensures
            r.0 == sum_downloaded(self.entries()),
            r.1 == sum_total(self.entries()),
    {
        let vals = pm_values(&self.map);
        let ghost es = self.entries();
        let mut down: u128 = 0;
        let mut tot: u128 = 0;
        let mut i: usize = 0;
        proof {
            assert(es.take(0) =~= Seq::<(Seq<char>, (u64, u64))>::empty());
        }
        while i < vals.len()
            invariant
                0 <= i <= vals@.len(),
                es == self.entries(),
                vals@ == es.map_values(|p: (Seq<char>, (u64, u64))| p.1),
                vals@.len() == es.len(),
                down == sum_downloaded(es.take(i as int)),
                tot == sum_total(es.take(i as int)),
            decreases vals@.len() - i,
        {
            proof {
                lemma_sums_nonneg(es.take(i as int));
                lemma_sums_nonneg(es.take(i + 1));
                assert(es.take(i + 1).drop_last() =~= es.take(i as int));
                assert(es.take(i + 1).last() == es[i as int]);
                assert(vals@[i as int] == es[i as int].1);
            }
            let v = vals[i];
            down = down + v.1 as u128;
            tot = tot + v.0 as u128;
            i = i + 1;
        }
        proof {
            assert(es.take(es.len() as int) =~= es);
        }
        (down, tot)
    }
}

/// One line of aggregate progress, in tenths of a percent: with a non-zero
/// expected total, `downloaded * 1000 / total`; with none yet, no figure.
pub fn percent_tenths(downloaded: u128, total: u128) -> (r: Option<u128>)
    requires
        downloaded <= u128::MAX / 1000,
    ensures
        total == 0 ==> r is None,
        total > 0 ==> r == Some((downloaded * 1000 / total as int) as u128),
{
    if total == 0 {
        None
    } else {
        Some(downloaded * 1000 / total)
    }
}

} // verus!
