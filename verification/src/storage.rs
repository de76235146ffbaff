use vstd::prelude::*;
use vstd::string::StringExecFns;

use crate::error::Error;
use crate::fmt::{dec_str, u32_to_string, u64_to_string};

verus! {

/// An item kind, identified by an integer.
pub type Item = u64;

/// An item kind together with a quantity.
pub type ItemSet = (Item, u32);

/// A per-entity inventory: a list of (item kind, quantity) pairs with unique
/// keys and strictly positive quantities, in insertion order.
pub struct Storage {
    pub items: Vec<(Item, u32)>,
}

/// The display projection of one ledger entry.
pub open spec fn entry_render_spec(p: (Item, u32)) -> Seq<char> {
    "{ \"item\": "@ + dec_str(p.0 as nat) + ", \"count\": "@ + dec_str(p.1 as nat) + " }"@
}

/// The display projection of the entries, joined by ", ".
pub open spec fn entries_render_spec(s: Seq<(Item, u32)>) -> Seq<char>
    decreases s.len(),
{
    if s.len() == 0 {
        Seq::empty()
    } else if s.len() == 1 {
        entry_render_spec(s[0])
    } else {
        entries_render_spec(s.drop_last()) + ", "@ + entry_render_spec(s.last())
    }
}

/// The display projection of a whole ledger.
pub open spec fn storage_render_spec(s: Seq<(Item, u32)>) -> Seq<char> {
    "["@ + entries_render_spec(s) + "]"@
}

/// Whether some entry of `s` has key `k` (first-match recursion).
pub open spec fn has_key(s: Seq<(Item, u32)>, k: Item) -> bool
    decreases s.len(),
{
    s.len() > 0 && (s[0].0 == k || has_key(s.drop_first(), k))
}

/// The quantity stored under key `k`, 0 if `k` is absent.
pub open spec fn have_of(s: Seq<(Item, u32)>, k: Item) -> u32
    decreases s.len(),
{
    if s.len() == 0 {
        0
    } else if s[0].0 == k {
        s[0].1
    } else {
        have_of(s.drop_first(), k)
    }
}

/// The index of the first entry with key `k` (meaningful when `has_key`).
pub open spec fn key_index(s: Seq<(Item, u32)>, k: Item) -> int
    decreases s.len(),
{
    if s.len() == 0 {
        0
    } else if s[0].0 == k {
        0
    } else {
        1 + key_index(s.drop_first(), k)
    }
}

/// The ledger after merging `n` units of `k` into `s`.
pub open spec fn add_to(s: Seq<(Item, u32)>, k: Item, n: u32) -> Seq<(Item, u32)> {
    if has_key(s, k) {
        s.update(key_index(s, k), (k, (have_of(s, k) + n) as u32))
    } else if n > 0 {
        s.push((k, n))
    } else {
        s
    }
}

/// The ledger after removing `n` units of `k` from `s` (meaningful when
/// `have_of(s, k) >= n`): the entry is dropped once its quantity reaches 0.
pub open spec fn take_from(s: Seq<(Item, u32)>, k: Item, n: u32) -> Seq<(Item, u32)> {
    if !has_key(s, k) {
        s
    } else if have_of(s, k) == n {
        s.remove(key_index(s, k))
    } else {
        s.update(key_index(s, k), (k, (have_of(s, k) - n) as u32))
    }
}

/// No two entries share a key.
pub open spec fn keys_unique(s: Seq<(Item, u32)>) -> bool {
    forall|i: int, j: int| 0 <= i < j < s.len() ==> s[i].0 != s[j].0
}

/// Every entry holds a strictly positive quantity.
pub open spec fn counts_positive(s: Seq<(Item, u32)>) -> bool {
    forall|i: int| 0 <= i < s.len() ==> s[i].1 > 0
}

pub proof fn lemma_key_index_props(s: Seq<(Item, u32)>, k: Item)
    requires
        has_key(s, k),
    ensures
        0 <= key_index(s, k) < s.len(),
        s[key_index(s, k)].0 == k,
        have_of(s, k) == s[key_index(s, k)].1,
        forall|j: int| 0 <= j < key_index(s, k) ==> s[j].0 != k,
    decreases s.len(),
{
    if s[0].0 == k {
    } else {
        lemma_key_index_props(s.drop_first(), k);
        assert forall|j: int| 0 <= j < key_index(s, k) implies s[j].0 != k by {
            if j > 0 {
                assert(s.drop_first()[j - 1] == s[j]);
            }
        }
    }
}

pub proof fn lemma_no_key(s: Seq<(Item, u32)>, k: Item)
    requires
        forall|j: int| 0 <= j < s.len() ==> s[j].0 != k,
    ensures
        !has_key(s, k),
        have_of(s, k) == 0,
    decreases s.len(),
{
    if s.len() > 0 {
        assert forall|j: int| 0 <= j < s.drop_first().len() implies s.drop_first()[j].0 != k by {
            assert(s.drop_first()[j] == s[j + 1]);
        }
        lemma_no_key(s.drop_first(), k);
    }
}

/// With `k` found first at index `i`, `have_of` is that entry's quantity.
pub proof fn lemma_first_match(s: Seq<(Item, u32)>, k: Item, i: int)
    requires
        0 <= i < s.len(),
        s[i].0 == k,
        forall|j: int| 0 <= j < i ==> s[j].0 != k,
    ensures
        has_key(s, k),
        have_of(s, k) == s[i].1,
        key_index(s, k) == i,
    decreases s.len(),
{
    if i == 0 {
    } else {
        assert(s.drop_first()[i - 1] == s[i]);
        assert forall|j: int| 0 <= j < i - 1 implies s.drop_first()[j].0 != k by {
            assert(s.drop_first()[j] == s[j + 1]);
        }
        lemma_first_match(s.drop_first(), k, i - 1);
    }
}

/// Updating the entry at `i` while keeping its key changes only that key's
/// quantity.
pub proof fn lemma_update_have(s: Seq<(Item, u32)>, i: int, p: (Item, u32))
    requires
        keys_unique(s),
        0 <= i < s.len(),
        p.0 == s[i].0,
    ensures
        forall|k: Item| #[trigger] have_of(s.update(i, p), k) == if k == p.0 {
            p.1
        } else {
            have_of(s, k)
        },
        forall|k: Item| #[trigger] has_key(s.update(i, p), k) == has_key(s, k),
        keys_unique(s.update(i, p)),
    decreases s.len(),
{
    if i == 0 {
        assert(s.update(0, p).drop_first() =~= s.drop_first());
        assert(s.update(0, p)[0] == p);
    } else {
        assert(s.update(i, p).drop_first() =~= s.drop_first().update(i - 1, p));
        assert(s.drop_first()[i - 1] == s[i]);
        lemma_update_have(s.drop_first(), i - 1, p);
        assert(s.update(i, p)[0] == s[0]);
        assert forall|k: Item| #[trigger] have_of(s.update(i, p), k) == if k == p.0 {
            p.1
        } else {
            have_of(s, k)
        } by {
            assert(have_of(s.drop_first().update(i - 1, p), k) == if k == p.0 {
                p.1
            } else {
                have_of(s.drop_first(), k)
            });
        }
        assert forall|k: Item| #[trigger] has_key(s.update(i, p), k) == has_key(s, k) by {
            assert(has_key(s.drop_first().update(i - 1, p), k) == has_key(s.drop_first(), k));
        }
    }
}

/// Removing the entry at `i` empties its key and leaves the others.
pub proof fn lemma_remove_have(s: Seq<(Item, u32)>, i: int)
    requires
        keys_unique(s),
        0 <= i < s.len(),
    ensures
        forall|k: Item| #[trigger] have_of(s.remove(i), k) == if k == s[i].0 {
            0u32
        } else {
            have_of(s, k)
        },
        forall|k: Item| #[trigger] has_key(s.remove(i), k) == (k != s[i].0 && has_key(s, k)),
        keys_unique(s.remove(i)),
        counts_positive(s) ==> counts_positive(s.remove(i)),
    decreases s.len(),
{
    s.remove_ensures(i);
    if i == 0 {
        assert(s.remove(0) =~= s.drop_first());
        assert forall|j: int| 0 <= j < s.drop_first().len() implies s.drop_first()[j].0 != s[0].0 by {
            assert(s.drop_first()[j] == s[j + 1]);
        }
        lemma_no_key(s.drop_first(), s[0].0);
        assert forall|k: Item| #[trigger] have_of(s.remove(i), k) == if k == s[i].0 {
            0u32
        } else {
            have_of(s, k)
        } by {
            if k == s[0].0 {
                assert(have_of(s.drop_first(), k) == 0);
            }
        }
    } else {
        assert(s.remove(i).drop_first() =~= s.drop_first().remove(i - 1));
        assert(s.drop_first()[i - 1] == s[i]);
        lemma_remove_have(s.drop_first(), i - 1);
        assert(s.remove(i)[0] == s[0]);
        assert forall|k: Item| #[trigger] have_of(s.remove(i), k) == if k == s[i].0 {
            0u32
        } else {
            have_of(s, k)
        } by {
            assert(have_of(s.drop_first().remove(i - 1), k) == if k == s[i].0 {
                0u32
            } else {
                have_of(s.drop_first(), k)
            });
        }
        assert forall|k: Item| #[trigger] has_key(s.remove(i), k) == (k != s[i].0 && has_key(s, k))
            by {
            assert(has_key(s.drop_first().remove(i - 1), k) == (k != s[i].0 && has_key(
                s.drop_first(),
                k,
            )));
        }
    }
}

/// Appending an entry with a fresh key adds that key and leaves the others.
pub proof fn lemma_push_have(s: Seq<(Item, u32)>, k: Item, n: u32)
    requires
        !has_key(s, k),
    ensures
        forall|k2: Item| #[trigger] have_of(s.push((k, n)), k2) == if k2 == k {
            n
        } else {
            have_of(s, k2)
        },
        forall|k2: Item| #[trigger] has_key(s.push((k, n)), k2) == (k2 == k || has_key(s, k2)),
    decreases s.len(),
{
    assert(s.push((k, n))[s.len() as int] == (k, n));
    if s.len() == 0 {
        assert forall|k2: Item| #[trigger] have_of(s.push((k, n)), k2) == if k2 == k {
            n
        } else {
            have_of(s, k2)
        } by {
            assert(s.push((k, n)).drop_first() =~= Seq::<(Item, u32)>::empty());
            assert(have_of(Seq::<(Item, u32)>::empty(), k2) == 0);
        }
        assert forall|k2: Item| #[trigger] has_key(s.push((k, n)), k2) == (k2 == k || has_key(
            s,
            k2,
        )) by {
            assert(s.push((k, n)).drop_first() =~= Seq::<(Item, u32)>::empty());
            assert(!has_key(Seq::<(Item, u32)>::empty(), k2));
        }
    } else {
        assert(s.push((k, n)).drop_first() =~= s.drop_first().push((k, n)));
        lemma_push_have(s.drop_first(), k, n);
        assert(s.push((k, n))[0] == s[0]);
        assert forall|k2: Item| #[trigger] have_of(s.push((k, n)), k2) == if k2 == k {
            n
        } else {
            have_of(s, k2)
        } by {
            assert(have_of(s.drop_first().push((k, n)), k2) == if k2 == k {
                n
            } else {
                have_of(s.drop_first(), k2)
            });
        }
        assert forall|k2: Item| #[trigger] has_key(s.push((k, n)), k2) == (k2 == k || has_key(
            s,
            k2,
        )) by {
            assert(has_key(s.drop_first().push((k, n)), k2) == (k2 == k || has_key(
                s.drop_first(),
                k2,
            )));
        }
    }
}

/// When every quantity is positive, a key is present exactly when its
/// quantity is nonzero.
pub proof fn lemma_have_pos(s: Seq<(Item, u32)>, k: Item)
    requires
        counts_positive(s),
    ensures
        has_key(s, k) <==> have_of(s, k) > 0,
    decreases s.len(),
{
    if s.len() > 0 && s[0].0 != k {
        assert forall|i: int| 0 <= i < s.drop_first().len() implies s.drop_first()[i].1 > 0 by {
            assert(s.drop_first()[i] == s[i + 1]);
        }
        lemma_have_pos(s.drop_first(), k);
    }
}

/// `add_to` raises `k`'s quantity by `n`, leaves every other key alone,
/// and preserves well-formedness.
pub proof fn lemma_add_to_have(s: Seq<(Item, u32)>, k: Item, n: u32)
    requires
        keys_unique(s),
        counts_positive(s),
        have_of(s, k) + n <= u32::MAX,
    ensures
        have_of(add_to(s, k, n), k) == have_of(s, k) + n,
        forall|k2: Item| k2 != k ==> have_of(#[trigger] add_to(s, k, n), k2) == have_of(s, k2),
        forall|k2: Item|
            k2 != k ==> has_key(#[trigger] add_to(s, k, n), k2) == has_key(s, k2),
        has_key(add_to(s, k, n), k) == (has_key(s, k) || n > 0),
        keys_unique(add_to(s, k, n)),
        counts_positive(add_to(s, k, n)),
{
    lemma_have_pos(s, k);
    if has_key(s, k) {
        lemma_key_index_props(s, k);
        lemma_update_have(s, key_index(s, k), (k, (have_of(s, k) + n) as u32));
        assert forall|i: int| 0 <= i < add_to(s, k, n).len() implies add_to(s, k, n)[i].1 > 0 by {
            if i != key_index(s, k) {
                assert(add_to(s, k, n)[i] == s[i]);
            }
        }
    } else if n > 0 {
        lemma_push_have(s, k, n);
        assert forall|i: int| 0 <= i < add_to(s, k, n).len() implies add_to(s, k, n)[i].1 > 0 by {
            if i < s.len() {
                assert(add_to(s, k, n)[i] == s[i]);
            } else {
                assert(add_to(s, k, n)[i] == (k, n));
            }
        }
        assert forall|i: int, j: int|
            0 <= i < j < add_to(s, k, n).len() implies add_to(s, k, n)[i].0 != add_to(
            s,
            k,
            n,
        )[j].0 by {
            if j < s.len() {
                assert(add_to(s, k, n)[i] == s[i] && add_to(s, k, n)[j] == s[j]);
            } else {
                assert(add_to(s, k, n)[j] == (k, n));
                assert(add_to(s, k, n)[i] == s[i]);
                if s[i].0 == k {
                    lemma_first_match_exists(s, i);
                }
            }
        }
    }
}

/// A present key is witnessed by `has_key`.
proof fn lemma_first_match_exists(s: Seq<(Item, u32)>, i: int)
    requires
        0 <= i < s.len(),
    ensures
        has_key(s, s[i].0),
    decreases s.len(),
{
    if i > 0 && s[0].0 != s[i].0 {
        assert(s.drop_first()[i - 1] == s[i]);
        lemma_first_match_exists(s.drop_first(), i - 1);
    }
}

/// `take_from` lowers `k`'s quantity by `n`, leaves every other key
/// alone, drops the entry when the quantity reaches 0, and preserves
/// well-formedness.
pub proof fn lemma_take_from_have(s: Seq<(Item, u32)>, k: Item, n: u32)
    requires
        keys_unique(s),
        counts_positive(s),
        have_of(s, k) >= n,
    ensures
        have_of(take_from(s, k, n), k) == have_of(s, k) - n,
        forall|k2: Item| k2 != k ==> have_of(#[trigger] take_from(s, k, n), k2) == have_of(s, k2),
        forall|k2: Item|
            k2 != k ==> has_key(#[trigger] take_from(s, k, n), k2) == has_key(s, k2),
        has_key(take_from(s, k, n), k) == (have_of(s, k) > n),
        keys_unique(take_from(s, k, n)),
        counts_positive(take_from(s, k, n)),
{
    lemma_have_pos(s, k);
    if !has_key(s, k) {
    } else {
        lemma_key_index_props(s, k);
        if have_of(s, k) == n {
            lemma_remove_have(s, key_index(s, k));
        } else {
            lemma_update_have(s, key_index(s, k), (k, (have_of(s, k) - n) as u32));
            assert forall|i: int|
                0 <= i < take_from(s, k, n).len() implies take_from(s, k, n)[i].1 > 0 by {
                if i != key_index(s, k) {
                    assert(take_from(s, k, n)[i] == s[i]);
                }
            }
            lemma_have_pos(take_from(s, k, n), k);
        }
    }
}

impl Storage {
    /// Well-formedness: unique keys and strictly positive quantities.
    pub open spec fn wf(&self) -> bool {
        keys_unique(self.items@) && counts_positive(self.items@)
    }

    pub fn new() -> (r: Self)
        ensures
            r.items@ =~= Seq::<(Item, u32)>::empty(),
            r.wf(),
    {
        Self { items: Vec::new() }
    }

    pub fn items(&self) -> (r: &Vec<(Item, u32)>)
        ensures
            r == &self.items,
    {
        &self.items
    }

    /// Renders the ledger in entry order; never fails and never mutates
    /// state.
    pub fn render(&self) -> (r: Result<String, Error>)
        ensures
            match r {
                Ok(s) => s@ == storage_render_spec(self.items@),
                Err(_) => false,
            },
    {
        let mut s = String::new();
        s.append("[");
        let mut i: usize = 0;
        while i < self.items.len()
            invariant
                i <= self.items@.len(),
                s@ == "["@ + entries_render_spec(self.items@.take(i as int)),
            decreases self.items@.len() - i,
        {
            if i > 0 {
                s.append(", ");
            }
            s.append("{ \"item\": ");
            let si = u64_to_string(self.items[i].0);
            s.append(si.as_str());
            s.append(", \"count\": ");
            let sc = u32_to_string(self.items[i].1);
            s.append(sc.as_str());
            s.append(" }");
            proof {
                let t = self.items@.take(i + 1);
                assert(t.drop_last() =~= self.items@.take(i as int));
                assert(t.last() == self.items@[i as int]);
                if i == 0 {
                    assert(s@ =~= "["@ + entries_render_spec(t));
                } else {
                    assert(s@ =~= "["@ + entries_render_spec(t));
                }
            }
            i += 1;
        }
        proof {
            assert(self.items@.take(self.items@.len() as int) =~= self.items@);
        }
        s.append("]");
        proof {
            assert(s@ =~= storage_render_spec(self.items@));
        }
        Ok(s)
    }

    /// The index of the first entry with key `item`, if any.
    fn find_index(&self, item: Item) -> (r: Option<usize>)
        ensures
            match r {
                Some(i) => i < self.items@.len() && self.items@[i as int].0 == item && (forall|j: int|
                    0 <= j < i ==> self.items@[j].0 != item),
                None => forall|j: int| 0 <= j < self.items@.len() ==> self.items@[j].0 != item,
            },
    {
        let mut i: usize = 0;
        while i < self.items.len()
            invariant
                i <= self.items@.len(),
                forall|j: int| 0 <= j < i ==> self.items@[j].0 != item,
            decreases self.items@.len() - i,
        {
            if self.items[i].0 == item {
                return Some(i);
            }
            i += 1;
        }
        None
    }

    /// The quantity held of `item`; 0 if absent, never an error.
    pub fn have(&self, item: Item) -> (r: u32)
        ensures
            r == have_of(self.items@, item),
    {
        match self.find_index(item) {
            Some(i) => {
                proof {
                    lemma_first_match(self.items@, item, i as int);
                }
                self.items[i].1
            },
            None => {
                proof {
                    lemma_no_key(self.items@, item);
                }
                0
            },
        }
    }

    /// Merges `count` units of `item` into the ledger: bumps the existing
    /// entry, or appends a new one when `count > 0`.
    pub fn add(&mut self, item: Item, count: u32) -> (r: Result<(), u32>)
        requires
            old(self).wf(),
            have_of(old(self).items@, item) + count <= u32::MAX,
        ensures
            final(self).wf(),
            r == Ok::<(), u32>(()),
            have_of(final(self).items@, item) == have_of(old(self).items@, item) + count,
            forall|k: Item| k != item ==> have_of(final(self).items@, k) == have_of(old(self).items@, k),
            forall|k: Item| k != item ==> has_key(final(self).items@, k) == has_key(old(self).items@, k),
            has_key(final(self).items@, item) == (has_key(old(self).items@, item) || count > 0),
            final(self).items@ == add_to(old(self).items@, item, count),
    {
        match self.find_index(item) {
            Some(i) => {
                proof {
                    lemma_first_match(self.items@, item, i as int);
                    lemma_update_have(
                        self.items@,
                        i as int,
                        (item, (have_of(self.items@, item) + count) as u32),
                    );
                }
                let cnt = self.items[i].1;
                let e = &mut self.items[i];
                e.1 = cnt + count;
                Ok(())
            },
            None => {
                proof {
                    lemma_no_key(self.items@, item);
                    lemma_push_have(self.items@, item, count);
                }
                if count > 0 {
                    self.items.push((item, count));
                }
                Ok(())
            },
        }
    }

    /// Removes `count` units of `item`. Fails with the quantity actually
    /// held, and mutates nothing, when that quantity is below `count`;
    /// otherwise decrements, dropping the entry when it reaches 0.
    pub fn take(&mut self, item: Item, count: u32) -> (r: Result<(), Error>)
        requires
            old(self).wf(),
        ensures
            final(self).wf(),
            have_of(old(self).items@, item) < count ==> r == Err::<(), Error>(
                Error::InsufficientQuantity(have_of(old(self).items@, item)),
            ) && final(self).items@ == old(self).items@,
            have_of(old(self).items@, item) >= count ==> r == Ok::<(), Error>(())
                && final(self).items@ == take_from(old(self).items@, item, count)
                && have_of(final(self).items@, item) == have_of(old(self).items@, item) - count
                && has_key(final(self).items@, item) == (have_of(old(self).items@, item) > count),
            forall|k: Item| k != item ==> have_of(final(self).items@, k) == have_of(old(self).items@, k),
            forall|k: Item| k != item ==> has_key(final(self).items@, k) == has_key(old(self).items@, k),
    {
        match self.find_index(item) {
            None => {
                proof {
                    lemma_no_key(self.items@, item);
                    lemma_have_pos(self.items@, item);
                }
                if count == 0 {
                    Ok(())
                } else {
                    Err(Error::InsufficientQuantity(0))
                }
            },
            Some(i) => {
                proof {
                    lemma_first_match(self.items@, item, i as int);
                }
                let cnt = self.items[i].1;
                if cnt < count {
                    Err(Error::InsufficientQuantity(cnt))
                } else if cnt == count {
                    proof {
                        lemma_remove_have(self.items@, i as int);
                    }
                    self.items.remove(i);
                    Ok(())
                } else {
                    proof {
                        lemma_update_have(self.items@, i as int, (item, (cnt - count) as u32));
                    }
                    let e = &mut self.items[i];
                    e.1 = cnt - count;
                    Ok(())
                }
            },
        }
    }
}

} // verus!
