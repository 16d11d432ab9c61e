//! Belongings: how many of each item a person carries, by item name.
use vstd::prelude::*;
use crate::help::{lemma_lex_antisym, lemma_lex_total, lemma_lex_trans, lex_le, lex_lt, str_lt};
use crate::text::str_eq;

verus! {

/// The position of the entry named `k` in `s`, if there is one.
pub open spec fn entry_index(s: Seq<(String, u32)>, k: Seq<char>) -> Option<int> {
    if exists|i: int| 0 <= i < s.len() && s[i].0@ == k {
        Some(choose|i: int| 0 <= i < s.len() && s[i].0@ == k)
    } else {
        None
    }
}

/// No two entries of `s` share a name.
pub open spec fn names_distinct(s: Seq<(String, u32)>) -> bool {
    forall|i: int, j: int| 0 <= i < s.len() && 0 <= j < s.len() && s[i].0@ == s[j].0@ ==> i == j
}

proof fn lemma_entry_at(s: Seq<(String, u32)>, k: Seq<char>, i: int)
    requires
        names_distinct(s),
        0 <= i < s.len(),
        s[i].0@ == k,
    ensures
        entry_index(s, k) == Some(i),
{
    let c = choose|c: int| 0 <= c < s.len() && s[c].0@ == k;
    assert(s[c].0@ == s[i].0@);
}

/// The items a person carries and how many of each. A name may stay listed
/// with a count of 0.
#[derive(Clone)]
pub struct Inventory {
    entries: Vec<(String, u32)>,
}

impl Inventory {
    /// The count listed for the item `k`, if it is listed.
    pub closed spec fn amount(&self, k: Seq<char>) -> Option<u32> {
        match entry_index(self.entries@, k) {
            Some(i) => Some(self.entries@[i].1),
            None => None,
        }
    }

    /// The number of items carried of `k`: its count, 0 when not listed.
    pub open spec fn count_of(&self, k: Seq<char>) -> nat {
        match self.amount(k) {
            Some(c) => c as nat,
            None => 0,
        }
    }

    pub closed spec fn wf(&self) -> bool {
        names_distinct(self.entries@)
    }

    /// Nothing carried.
    pub fn new() -> (r: Self)
        ensures
            r.wf(),
            forall|k: Seq<char>| #[trigger] r.amount(k) is None,
    {
        Inventory { entries: Vec::new() }
    }

    fn position(&self, name: &str) -> (r: Option<usize>)
        requires
            self.wf(),
        ensures
            match r {
                Some(i) => i < self.entries@.len() && self.entries@[i as int].0@ == name@
                    && entry_index(self.entries@, name@) == Some(i as int),
                None => entry_index(self.entries@, name@) is None,
            },
    {
        let mut i: usize = 0;
        while i < self.entries.len()
            invariant
                i <= self.entries@.len(),
                names_distinct(self.entries@),
                forall|j: int| 0 <= j < i ==> self.entries@[j].0@ != name@,
            decreases self.entries@.len() - i,
        {
            if str_eq(self.entries[i].0.as_str(), name) {
                proof {
                    lemma_entry_at(self.entries@, name@, i as int);
                }
                return Some(i);
            }
            i = i + 1;
        }
        None
    }

    /// How many of `name` are carried (`get_item_count`).
    pub fn get_item_count(&self, name: &str) -> (r: u32)
        requires
            self.wf(),
        ensures
            r == self.count_of(name@),
    {
        match self.position(name) {
            Some(i) => self.entries[i].1,
            None => 0,
        }
    }

    /// Whether `name` is listed, with any count.
    pub fn contains(&self, name: &str) -> (r: bool)
        requires
            self.wf(),
        ensures
            r == (self.amount(name@) is Some),
    {
        self.position(name).is_some()
    }

    /// Sets the count of `name` to `count`, listing it if needed.
    pub fn set_count(&mut self, name: &str, count: u32)
        requires
            old(self).wf(),
        ensures
            final(self).wf(),
            final(self).amount(name@) == Some(count),
            forall|k: Seq<char>| k != name@ ==> #[trigger] final(self).amount(k) == old(self).amount(k),
    {
        let ghost s = self.entries@;
        match self.position(name) {
            Some(i) => {
                let n = self.entries[i].0.clone();
                self.entries.set(i, (n, count));
                proof {
                    let t = self.entries@;
                    assert forall|a: int, b: int| 0 <= a < t.len() && 0 <= b < t.len() && t[a].0@ == t[b].0@ implies a == b by {
                        assert(t[a].0@ == s[a].0@ && t[b].0@ == s[b].0@);
                    }
                    lemma_entry_at(t, name@, i as int);
                    assert forall|k: Seq<char>| k != name@ implies #[trigger] self.amount(k) == old(self).amount(k) by {
                        if exists|j: int| 0 <= j < s.len() && s[j].0@ == k {
                            let j = choose|j: int| 0 <= j < s.len() && s[j].0@ == k;
                            lemma_entry_at(s, k, j);
                            assert(t[j] == s[j]);
                            lemma_entry_at(t, k, j);
                        } else {
                            assert(!exists|j: int| 0 <= j < t.len() && t[j].0@ == k) by {
                                if exists|j: int| 0 <= j < t.len() && t[j].0@ == k {
                                    let j = choose|j: int| 0 <= j < t.len() && t[j].0@ == k;
                                    assert(s[j].0@ == t[j].0@);
                                }
                            }
                        }
                    }
                }
            },
            None => {
                self.entries.push((String::from_str(name), count));
                proof {
                    let t = self.entries@;
                    assert forall|a: int, b: int| 0 <= a < t.len() && 0 <= b < t.len() && t[a].0@ == t[b].0@ implies a == b by {
                        if a < s.len() && b < s.len() {
                            assert(t[a] == s[a] && t[b] == s[b]);
                        } else if a < s.len() {
                            assert(t[a] == s[a]);
                            assert(s[a].0@ == name@);
                        } else if b < s.len() {
                            assert(t[b] == s[b]);
                            assert(s[b].0@ == name@);
                        }
                    }
                    lemma_entry_at(t, name@, s.len() as int);
                    assert forall|k: Seq<char>| k != name@ implies #[trigger] self.amount(k) == old(self).amount(k) by {
                        if exists|j: int| 0 <= j < s.len() && s[j].0@ == k {
                            let j = choose|j: int| 0 <= j < s.len() && s[j].0@ == k;
                            lemma_entry_at(s, k, j);
                            assert(t[j] == s[j]);
                            lemma_entry_at(t, k, j);
                        } else {
                            assert(!exists|j: int| 0 <= j < t.len() && t[j].0@ == k) by {
                                if exists|j: int| 0 <= j < t.len() && t[j].0@ == k {
                                    let j = choose|j: int| 0 <= j < t.len() && t[j].0@ == k;
                                    if j < s.len() {
                                        assert(t[j] == s[j]);
                                    }
                                }
                            }
                        }
                    }
                }
            },
        }
    }

    /// Takes `name` off the list.
    fn unlist(&mut self, name: &str)
        requires
            old(self).wf(),
        ensures
            final(self).wf(),
            final(self).amount(name@) is None,
            forall|k: Seq<char>| k != name@ ==> #[trigger] final(self).amount(k) == old(self).amount(k),
    {
        let ghost s = self.entries@;
        match self.position(name) {
            Some(i) => {
                self.entries.remove(i);
                proof {
                    let t = self.entries@;
                    assert(t =~= s.remove(i as int));
                    assert forall|a: int| 0 <= a < t.len() implies #[trigger] t[a] == (if a < i {
                        s[a]
                    } else {
                        s[a + 1]
                    }) by {}
                    assert forall|a: int, b: int| 0 <= a < t.len() && 0 <= b < t.len() && t[a].0@ == t[b].0@ implies a == b by {
                        let a2 = if a < i { a } else { a + 1 };
                        let b2 = if b < i { b } else { b + 1 };
                        assert(t[a] == s[a2] && t[b] == s[b2]);
                    }
                    assert(!exists|j: int| 0 <= j < t.len() && t[j].0@ == name@) by {
                        if exists|j: int| 0 <= j < t.len() && t[j].0@ == name@ {
                            let j = choose|j: int| 0 <= j < t.len() && t[j].0@ == name@;
                            let j2 = if j < i { j } else { j + 1 };
                            assert(t[j] == s[j2]);
                        }
                    }
                    assert forall|k: Seq<char>| k != name@ implies #[trigger] self.amount(k) == old(self).amount(k) by {
                        if exists|j: int| 0 <= j < s.len() && s[j].0@ == k {
                            let j = choose|j: int| 0 <= j < s.len() && s[j].0@ == k;
                            lemma_entry_at(s, k, j);
                            assert(j != i);
                            let j2 = if j < i { j } else { j - 1 };
                            assert(t[j2] == s[j]);
                            lemma_entry_at(t, k, j2);
                        } else {
                            assert(!exists|j: int| 0 <= j < t.len() && t[j].0@ == k) by {
                                if exists|j: int| 0 <= j < t.len() && t[j].0@ == k {
                                    let j = choose|j: int| 0 <= j < t.len() && t[j].0@ == k;
                                    let j2 = if j < i { j } else { j + 1 };
                                    assert(t[j] == s[j2]);
                                }
                            }
                        }
                    }
                }
            },
            None => {},
        }
    }

    /// Adds `quantity` of `name` (`add_items`); a quantity of 0 still lists
    /// the name.
    pub fn add_items(&mut self, name: &str, quantity: u32)
        requires
            old(self).wf(),
            old(self).count_of(name@) + quantity <= u32::MAX,
        ensures
            final(self).wf(),
            final(self).amount(name@) == Some((old(self).count_of(name@) + quantity) as u32),
            forall|k: Seq<char>| k != name@ ==> #[trigger] final(self).amount(k) == old(self).amount(k),
    {
        let c = self.get_item_count(name);
        self.set_count(name, c + quantity);
    }

    /// Puts down `quantity` of `name` when that many are carried
    /// (`drop_items`): the count goes down and a count reaching 0 takes the
    /// name off the list; the answer is the name. When fewer are carried,
    /// or the name is not listed, nothing changes and the answer is
    /// nothing.
    pub fn drop_items(&mut self, name: &str, quantity: u32) -> (r: Option<String>)
        requires
            old(self).wf(),
        ensures
            final(self).wf(),
            match old(self).amount(name@) {
                Some(c) => if c >= quantity {
                    &&& r matches Some(n) && n@ == name@
                    &&& final(self).amount(name@) == (if c == quantity {
                        None
                    } else {
                        Some((c - quantity) as u32)
                    })
                    &&& forall|k: Seq<char>| k != name@ ==> #[trigger] final(self).amount(k) == old(self).amount(k)
                } else {
                    r is None && forall|k: Seq<char>| #[trigger] final(self).amount(k) == old(self).amount(k)
                },
                None => r is None && forall|k: Seq<char>| #[trigger] final(self).amount(k) == old(self).amount(k),
            },
    {
        match self.position(name) {
            Some(i) => {
                let c = self.entries[i].1;
                if c >= quantity {
                    if c - quantity == 0 {
                        self.unlist(name);
                    } else {
                        self.set_count(name, c - quantity);
                    }
                    Some(String::from_str(name))
                } else {
                    None
                }
            },
            None => None,
        }
    }

    /// Takes away `quantity` of `name` when that many are carried
    /// (`remove_item`): the count goes down and a count reaching 0 takes
    /// the name off the list; the answer says whether it happened.
    pub fn remove_items(&mut self, name: &str, quantity: u32) -> (r: bool)
        requires
            old(self).wf(),
        ensures
            final(self).wf(),
            r == (old(self).count_of(name@) >= quantity),
            r ==> final(self).amount(name@) == (if old(self).count_of(name@) == quantity {
                None
            } else {
                Some((old(self).count_of(name@) - quantity) as u32)
            }),
            !r ==> final(self).amount(name@) == old(self).amount(name@),
            forall|k: Seq<char>| k != name@ ==> #[trigger] final(self).amount(k) == old(self).amount(k),
    {
        let current = self.get_item_count(name);
        if current < quantity {
            return false;
        }
        let new_count = current - quantity;
        if new_count == 0 {
            self.unlist(name);
        } else {
            self.set_count(name, new_count);
        }
        true
    }
}

/// `a` after taking `q` away from a count of at least `q`: a count
/// reaching 0 is unlisted.
pub open spec fn taken(a: Option<u32>, q: u32) -> Option<u32> {
    match a {
        Some(c) => if c == q {
            None
        } else {
            Some((c - q) as u32)
        },
        None => None,
    }
}

/// `a` after adding `q`.
pub open spec fn added(a: Option<u32>, q: u32) -> Option<u32> {
    match a {
        Some(c) => Some((c + q) as u32),
        None => Some(q),
    }
}

/// The goods `g` list, in the order of their names, each carried item of
/// `inv` other than gold coins with a count above 0, with its count and
/// the price of one.
pub open spec fn goods_of(inv: Inventory, g: Seq<(String, u32, u32)>) -> bool {
    &&& forall|i: int, j: int| 0 <= i < j < g.len() ==> lex_lt(#[trigger] g[i].0@, #[trigger] g[j].0@)
    &&& forall|i: int|
        0 <= i < g.len() ==> {
            &&& inv.amount((#[trigger] g[i]).0@) == Some(g[i].1)
            &&& g[i].1 > 0
            &&& g[i].0@ != "金幣"@
            &&& g[i].2 == crate::trade::unit_buy_price(g[i].0@)
        }
    &&& forall|k: Seq<char>|
        #[trigger] inv.amount(k) matches Some(c) && c > 0 && k != "金幣"@ ==> exists|i: int|
            0 <= i < g.len() && g[i].0@ == k
}

impl Inventory {
    /// What the carrier offers for sale (see [`goods_of`]).
    pub fn goods(&self) -> (r: Vec<(String, u32, u32)>)
        requires
            self.wf(),
        ensures
            goods_of(*self, r@),
    {
        proof {
            reveal_strlit("金幣");
        }
        let mut g: Vec<(String, u32, u32)> = Vec::new();
        let mut i: usize = 0;
        while i < self.entries.len()
            invariant
                self.wf(),
                i <= self.entries@.len(),
                forall|a: int, b: int| 0 <= a < b < g@.len() ==> lex_lt(#[trigger] g@[a].0@, #[trigger] g@[b].0@),
                forall|a: int|
                    0 <= a < g@.len() ==> {
                        &&& self.amount((#[trigger] g@[a]).0@) == Some(g@[a].1)
                        &&& g@[a].1 > 0
                        &&& g@[a].0@ != "金幣"@
                        &&& g@[a].2 == crate::trade::unit_buy_price(g@[a].0@)
                    },
                forall|j: int|
                    0 <= j < i ==> (#[trigger] self.entries@[j]).1 > 0 && self.entries@[j].0@ != "金幣"@
                        ==> exists|a: int| 0 <= a < g@.len() && g@[a].0@ == self.entries@[j].0@,
                forall|a: int|
                    0 <= a < g@.len() ==> (entry_index(self.entries@, (#[trigger] g@[a]).0@) matches Some(j)
                        && j < i),
            decreases self.entries@.len() - i,
        {
            let e = &self.entries[i];
            if e.1 > 0 && !str_eq(e.0.as_str(), "金幣") {
                proof {
                    lemma_entry_at(self.entries@, e.0@, i as int);
                }
                let price = crate::trade::TradeSystem::calculate_buy_price(e.0.as_str(), 1);
                let item = (e.0.clone(), e.1, price);
                let mut k: usize = 0;
                while k < g.len() && str_lt(g[k].0.as_str(), item.0.as_str())
                    invariant
                        k <= g@.len(),
                        forall|a: int| 0 <= a < k ==> lex_lt(#[trigger] g@[a].0@, item.0@),
                    decreases g@.len() - k,
                {
                    k = k + 1;
                }
                let ghost old_g = g@;
                proof {
                    // the new name differs from every listed one: each listed
                    // name is that of another entry
                    assert forall|a: int| 0 <= a < old_g.len() implies old_g[a].0@ != item.0@ by {
                        if old_g[a].0@ == item.0@ {
                            assert(entry_index(self.entries@, old_g[a].0@) matches Some(j) && j < i);
                        }
                    }
                    assert forall|a: int| k <= a < old_g.len() implies lex_lt(item.0@, #[trigger] old_g[a].0@) by {
                        if k < old_g.len() {
                            assert(!lex_lt(old_g[k as int].0@, item.0@));
                            lemma_lex_total(old_g[k as int].0@, item.0@);
                            if a > k {
                                assert(lex_lt(old_g[k as int].0@, old_g[a].0@));
                                lemma_lex_trans(item.0@, old_g[k as int].0@, old_g[a].0@);
                                if item.0@ == old_g[a].0@ {
                                    lemma_lex_antisym(old_g[k as int].0@, old_g[a].0@);
                                }
                            }
                        }
                    }
                }
                g.insert(k, item);
                proof {
                    let t = g@;
                    old_g.insert_ensures(k as int, item);
                    assert forall|a: int, b: int| 0 <= a < b < t.len() implies lex_lt(#[trigger] t[a].0@, #[trigger] t[b].0@) by {
                        if b < k {
                            assert(t[a] == old_g[a] && t[b] == old_g[b]);
                        } else if b == k {
                            assert(t[a] == old_g[a]);
                        } else if a < k {
                            assert(t[a] == old_g[a] && t[b] == old_g[b - 1]);
                            assert(lex_lt(t[a].0@, item.0@));
                            assert(lex_lt(item.0@, old_g[b - 1].0@));
                            lemma_lex_trans(t[a].0@, item.0@, t[b].0@);
                            if t[a].0@ == t[b].0@ {
                                lemma_lex_antisym(t[a].0@, item.0@);
                            }
                        } else if a == k {
                            assert(t[b] == old_g[b - 1]);
                        } else {
                            assert(t[a] == old_g[a - 1] && t[b] == old_g[b - 1]);
                        }
                    }
                    assert forall|a: int| 0 <= a < t.len() implies {
                        &&& self.amount((#[trigger] t[a]).0@) == Some(t[a].1)
                        &&& t[a].1 > 0
                        &&& t[a].0@ != "金幣"@
                        &&& t[a].2 == crate::trade::unit_buy_price(t[a].0@)
                    } by {
                        if a < k {
                            assert(t[a] == old_g[a]);
                        } else if a > k {
                            assert(t[a] == old_g[a - 1]);
                        }
                    }
                    assert forall|a: int| 0 <= a < t.len() implies (entry_index(self.entries@, (#[trigger] t[a]).0@)
                        matches Some(j) && j < i + 1) by {
                        if a < k {
                            assert(t[a] == old_g[a]);
                        } else if a > k {
                            assert(t[a] == old_g[a - 1]);
                        }
                    }
                    assert forall|j: int|
                        0 <= j < i + 1 && (#[trigger] self.entries@[j]).1 > 0 && self.entries@[j].0@ != "金幣"@
                            implies exists|a: int| 0 <= a < t.len() && t[a].0@ == self.entries@[j].0@ by {
                        if j == i {
                            assert(t[k as int].0@ == self.entries@[j].0@);
                        } else {
                            let a = choose|a: int| 0 <= a < old_g.len() && old_g[a].0@ == self.entries@[j].0@;
                            if a < k {
                                assert(t[a] == old_g[a]);
                            } else {
                                assert(t[a + 1] == old_g[a]);
                            }
                        }
                    }
                }
            }
            i = i + 1;
        }
        proof {
            assert forall|key: Seq<char>|
                #[trigger] self.amount(key) matches Some(c) && c > 0 && key != "金幣"@ implies exists|a: int|
                    0 <= a < g@.len() && g@[a].0@ == key by {
                let j = entry_index(self.entries@, key)->0;
                assert(self.entries@[j].0@ == key);
            }
        }
        g
    }
}

/// The sum of the counts of `s`.
pub open spec fn total_of(s: Seq<(String, u32)>) -> nat
    decreases s.len(),
{
    if s.len() == 0 {
        0
    } else {
        total_of(s.drop_last()) + (s.last().1 as nat)
    }
}

impl Inventory {
    /// The listed names and their counts, in the order they were listed.
    pub closed spec fn listing(&self) -> Seq<(String, u32)> {
        self.entries@
    }

    /// The count listed for `k` is that of its entry in the listing.
    pub proof fn lemma_listing(&self, k: Seq<char>)
        requires
            self.wf(),
        ensures
            names_distinct(self.listing()),
            match entry_index(self.listing(), k) {
                Some(i) => self.amount(k) == Some(self.listing()[i].1),
                None => self.amount(k) is None,
            },
    {
    }

    /// The number of names listed.
    pub fn len(&self) -> (r: usize)
        ensures
            r == self.listing().len(),
    {
        self.entries.len()
    }

    /// Whether nothing is listed.
    pub fn is_empty(&self) -> (r: bool)
        ensures
            r == (self.listing().len() == 0),
    {
        self.entries.len() == 0
    }

    /// The `i`-th listed name and its count.
    pub fn entry(&self, i: usize) -> (r: (&String, u32))
        requires
            i < self.listing().len(),
        ensures
            *r.0 == self.listing()[i as int].0,
            r.1 == self.listing()[i as int].1,
    {
        (&self.entries[i].0, self.entries[i].1)
    }

    /// The number of items carried, all names together.
    pub fn total(&self) -> (r: u32)
        requires
            total_of(self.listing()) <= u32::MAX,
        ensures
            r == total_of(self.listing()),
    {
        let mut sum: u32 = 0;
        let mut i: usize = 0;
        while i < self.entries.len()
            invariant
                i <= self.entries@.len(),
                total_of(self.entries@) <= u32::MAX,
                sum == total_of(self.entries@.take(i as int)),
            decreases self.entries@.len() - i,
        {
            proof {
                assert(self.entries@.take(i + 1).drop_last() =~= self.entries@.take(i as int));
                lemma_total_prefix(self.entries@, i + 1);
            }
            sum = sum + self.entries[i].1;
            i = i + 1;
        }
        proof {
            assert(self.entries@.take(i as int) =~= self.entries@);
        }
        sum
    }
}

proof fn lemma_total_prefix(s: Seq<(String, u32)>, n: int)
    requires
        0 <= n <= s.len(),
    ensures
        total_of(s.take(n)) <= total_of(s),
    decreases s.len() - n,
{
    if n < s.len() {
        lemma_total_prefix(s, n + 1);
        assert(s.take(n + 1).drop_last() =~= s.take(n));
    } else {
        assert(s.take(n) =~= s);
    }
}

/// Taking away what was just added gives back the count as it was, unless
/// the item was listed with a count of 0 (it is then unlisted).
pub proof fn law_add_then_take(a: Option<u32>, q: u32)
    requires
        a matches Some(c) ==> c + q <= u32::MAX,
        a != Some(0u32),
    ensures
        taken(added(a, q), q) == a,
{
}

} // verus!
