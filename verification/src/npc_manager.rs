//! The people of the world by id, with the names they answer to.
use vstd::prelude::*;
use crate::npc_rules::{abs_diff, manhattan_distance, notice_of, proximity_notice};
use crate::person::{ticked, PersonDescriptions, find_key, is_first_key, key_position, lemma_first_key, lemma_key_found, value_at_key, Person};
use crate::text::{lowercase, str_eq, strs_view, to_lowercase};
use crate::time_updatable::TimeInfo;

verus! {

/// No two entries of `s` share a key.
pub open spec fn keys_distinct<V>(s: Seq<(String, V)>) -> bool {
    forall|i: int, j: int| 0 <= i < s.len() && 0 <= j < s.len() && s[i].0@ == s[j].0@ ==> i == j
}

/// The keys of `s`, in order.
pub open spec fn keys_of<V>(s: Seq<(String, V)>) -> Seq<Seq<char>> {
    s.map_values(|e: (String, V)| e.0@)
}

/// `t` is `s` with `k` bound to `v`: an entry keyed `k` has its value
/// replaced, else the entry is added last.
pub open spec fn put_spec<V>(s: Seq<(String, V)>, t: Seq<(String, V)>, k: Seq<char>, v: V) -> bool {
    &&& keys_of(t) == (if key_position(s, k) is Some {
        keys_of(s)
    } else {
        keys_of(s).push(k)
    })
    &&& value_at_key(t, k) == Some(v)
    &&& forall|q: Seq<char>| q != k ==> #[trigger] value_at_key(t, q) == value_at_key(s, q)
}

pub proof fn lemma_distinct_first<V>(s: Seq<(String, V)>, i: int)
    requires
        keys_distinct(s),
        0 <= i < s.len(),
    ensures
        key_position(s, s[i].0@) == Some(i),
{
    assert(is_first_key(s, s[i].0@, i));
    lemma_first_key(s, s[i].0@, i);
}

/// Binds `k` to `v` in `s`.
pub fn put<V>(s: &mut Vec<(String, V)>, k: String, v: V)
    requires
        keys_distinct(old(s)@),
    ensures
        keys_distinct(final(s)@),
        put_spec(old(s)@, final(s)@, k@, v),
{
    let ghost a = s@;
    let ghost kv = k@;
    match find_key(s, k.as_str()) {
        Some(i) => {
            let _ = s.remove(i);
            s.insert(i, (k, v));
            proof {
                let t = s@;
                assert(t =~= a.update(i as int, (t[i as int].0, v)));
                assert forall|x: int, y: int| 0 <= x < t.len() && 0 <= y < t.len() && t[x].0@ == t[y].0@ implies x == y by {
                    assert(t[x].0@ == a[x].0@ && t[y].0@ == a[y].0@);
                }
                assert(keys_of(t) =~= keys_of(a));
                lemma_distinct_first(t, i as int);
                assert forall|q: Seq<char>| q != kv implies #[trigger] value_at_key(t, q) == value_at_key(a, q) by {
                    match key_position(a, q) {
                        Some(j) => {
                            assert(j != i);
                            lemma_distinct_first(t, j);
                        },
                        None => {
                            assert forall|j: int| 0 <= j < t.len() implies t[j].0@ != q by {
                                if t[j].0@ == q {
                                    assert(a[j].0@ == q);
                                    lemma_key_found(a, q, j);
                                }
                            }
                        },
                    }
                }
            }
        },
        None => {
            s.push((k, v));
            proof {
                let t = s@;
                assert forall|x: int, y: int| 0 <= x < t.len() && 0 <= y < t.len() && t[x].0@ == t[y].0@ implies x == y by {
                    if x < a.len() && y < a.len() {
                        assert(t[x] == a[x] && t[y] == a[y]);
                    } else if x < a.len() {
                        assert(t[x] == a[x]);
                    } else if y < a.len() {
                        assert(t[y] == a[y]);
                    }
                }
                assert(keys_of(t) =~= keys_of(a).push(kv));
                lemma_distinct_first(t, a.len() as int);
                assert forall|q: Seq<char>| q != kv implies #[trigger] value_at_key(t, q) == value_at_key(a, q) by {
                    match key_position(a, q) {
                        Some(j) => {
                            lemma_distinct_first(a, j);
                            assert(t[j] == a[j]);
                            lemma_distinct_first(t, j);
                        },
                        None => {
                            assert forall|j: int| 0 <= j < t.len() implies t[j].0@ != q by {
                                if j < a.len() && t[j].0@ == q {
                                    assert(t[j] == a[j]);
                                    lemma_key_found(a, q, j);
                                }
                            }
                        },
                    }
                }
            }
        },
    }
}

/// Takes the entry at `i` out of `s`: the other keys keep their values.
proof fn lemma_removed<V>(a: Seq<(String, V)>, i: int)
    requires
        keys_distinct(a),
        0 <= i < a.len(),
    ensures
        keys_distinct(a.remove(i)),
        value_at_key(a.remove(i), a[i].0@) is None,
        forall|q: Seq<char>| q != a[i].0@ ==> #[trigger] value_at_key(a.remove(i), q) == value_at_key(a, q),
{
    let t = a.remove(i);
    assert forall|x: int| 0 <= x < t.len() implies #[trigger] t[x] == (if x < i {
        a[x]
    } else {
        a[x + 1]
    }) by {}
    assert forall|x: int, y: int| 0 <= x < t.len() && 0 <= y < t.len() && t[x].0@ == t[y].0@ implies x == y by {
        let x2 = if x < i { x } else { x + 1 };
        let y2 = if y < i { y } else { y + 1 };
        assert(t[x] == a[x2] && t[y] == a[y2]);
    }
    assert forall|j: int| 0 <= j < t.len() implies t[j].0@ != a[i].0@ by {
        let j2 = if j < i { j } else { j + 1 };
        assert(t[j] == a[j2]);
    }
    assert forall|q: Seq<char>| q != a[i].0@ implies #[trigger] value_at_key(t, q) == value_at_key(a, q) by {
        match key_position(a, q) {
            Some(j) => {
                lemma_distinct_first(a, j);
                let j2 = if j < i { j } else { j - 1 };
                assert(t[j2] == a[j]);
                lemma_distinct_first(t, j2);
            },
            None => {
                assert forall|j: int| 0 <= j < t.len() implies t[j].0@ != q by {
                    let j2 = if j < i { j } else { j + 1 };
                    assert(t[j] == a[j2]);
                    if a[j2].0@ == q {
                        lemma_key_found(a, q, j2);
                    }
                }
            },
        }
    }
}

/// `i` is the first entry of `s` whose person's name, in lower case, is
/// `key`.
pub open spec fn is_first_named(s: Seq<(String, Person)>, key: Seq<char>, i: int) -> bool {
    &&& 0 <= i < s.len()
    &&& lowercase(s[i].1.name@) == key
    &&& forall|j: int| 0 <= j < i ==> lowercase(s[j].1.name@) != key
}

/// The first entry of `s` whose person's name, in lower case, is `key`.
pub open spec fn first_named(s: Seq<(String, Person)>, key: Seq<char>) -> Option<int> {
    if exists|i: int| is_first_named(s, key, i) {
        Some(choose|i: int| is_first_named(s, key, i))
    } else {
        None
    }
}

/// The people of the world by id, the names (in lower case) that lead to
/// each id, and the last known distance of each person to the one under
/// the player's control.
pub struct NpcManager {
    npcs: Vec<(String, Person)>,
    npc_aliases: Vec<(String, String)>,
    previous_distances: Vec<(String, usize)>,
}

impl NpcManager {
    /// The people, by id, in the order they came.
    pub closed spec fn people(&self) -> Seq<(String, Person)> {
        self.npcs@
    }

    /// The names that lead to ids.
    pub closed spec fn alias_list(&self) -> Seq<(String, String)> {
        self.npc_aliases@
    }

    /// The last known distances, keyed `<controlled id>_<id>`.
    pub closed spec fn distance_list(&self) -> Seq<(String, usize)> {
        self.previous_distances@
    }

    pub closed spec fn wf(&self) -> bool {
        &&& keys_distinct(self.npcs@)
        &&& keys_distinct(self.npc_aliases@)
        &&& keys_distinct(self.previous_distances@)
    }

    /// The person with the id `id`.
    pub open spec fn npc(&self, id: Seq<char>) -> Option<Person> {
        value_at_key(self.people(), id)
    }

    /// The id that the name `key` leads to.
    pub open spec fn alias(&self, key: Seq<char>) -> Option<Seq<char>> {
        match value_at_key(self.alias_list(), key) {
            Some(v) => Some(v@),
            None => None,
        }
    }

    /// The entry that `name_or_id` finds: through the name it is, in lower
    /// case, the id it leads to; else the first person with that name.
    pub open spec fn found(&self, name_or_id: Seq<char>) -> Option<int> {
        match self.alias(lowercase(name_or_id)) {
            Some(id) => key_position(self.people(), id),
            None => first_named(self.people(), lowercase(name_or_id)),
        }
    }

    /// No one.
    pub fn new() -> (r: Self)
        ensures
            r.wf(),
            r.people().len() == 0,
            r.alias_list().len() == 0,
            r.distance_list().len() == 0,
    {
        NpcManager { npcs: Vec::new(), npc_aliases: Vec::new(), previous_distances: Vec::new() }
    }

    /// Adds (or replaces) the person `id`, who gets 10000 gold coins when
    /// carrying none; each of `aliases`, and the id itself, in lower case,
    /// then lead to `id`.
    pub fn add_npc(&mut self, id: String, npc: Person, aliases: Vec<String>)
        requires
            old(self).wf(),
            npc.wf(),
        ensures
            final(self).wf(),
            npc_added(*old(self), *final(self), id@, npc, strs_view(aliases@)),
    {
        let mut npc = npc;
        proof {
            reveal_strlit("金幣");
        }
        if !npc.items.contains("金幣") || npc.items.get_item_count("金幣") == 0 {
            npc.items.set_count("金幣", 10000);
        }
        let ghost a0 = self.npc_aliases@;
        let ghost idv = id@;
        let mut i: usize = 0;
        while i < aliases.len()
            invariant
                keys_distinct(self.npc_aliases@),
                self.npcs@ == old(self).npcs@,
                self.previous_distances@ == old(self).previous_distances@,
                keys_distinct(self.npcs@),
                keys_distinct(self.previous_distances@),
                i <= aliases@.len(),
                idv == id@,
                forall|k: Seq<char>| #[trigger] value_at_key(self.npc_aliases@, k) == (if exists|j: int|
                    0 <= j < i && lowercase(aliases@[j]@) == k {
                    Some(id)
                } else {
                    value_at_key(a0, k)
                }),
            decreases aliases@.len() - i,
        {
            let ghost before = self.npc_aliases@;
            let key = to_lowercase(aliases[i].as_str());
            let ghost kv = key@;
            put(&mut self.npc_aliases, key, id.clone());
            proof {
                assert forall|k: Seq<char>| #[trigger] value_at_key(self.npc_aliases@, k) == (if exists|j: int|
                    0 <= j < i + 1 && lowercase(aliases@[j]@) == k {
                    Some(id)
                } else {
                    value_at_key(a0, k)
                }) by {
                    if k == kv {
                        assert(lowercase(aliases@[i as int]@) == k);
                    } else {
                        if exists|j: int| 0 <= j < i + 1 && lowercase(aliases@[j]@) == k {
                            let j = choose|j: int| 0 <= j < i + 1 && lowercase(aliases@[j]@) == k;
                            assert(j < i);
                        }
                    }
                }
            }
            i = i + 1;
        }
        let own = to_lowercase(id.as_str());
        put(&mut self.npc_aliases, own, id.clone());
        put(&mut self.npcs, id, npc);
        proof {
            assert forall|k: Seq<char>| #[trigger] self.alias(k) == (if k == lowercase(idv) || exists|j: int|
                0 <= j < aliases@.len() && lowercase(aliases@[j]@) == k {
                Some(idv)
            } else {
                old(self).alias(k)
            }) by {
                if k != lowercase(idv) {
                    assert(value_at_key(self.npc_aliases@, k) == (if exists|j: int|
                        0 <= j < aliases@.len() && lowercase(aliases@[j]@) == k {
                        Some(id)
                    } else {
                        value_at_key(a0, k)
                    }));
                }
            }
            let av = strs_view(aliases@);
            assert forall|k: Seq<char>| #[trigger] self.alias(k) == (if k == lowercase(idv) || exists|j: int|
                0 <= j < av.len() && lowercase(av[j]) == k {
                Some(idv)
            } else {
                old(self).alias(k)
            }) by {
                if exists|j: int| 0 <= j < av.len() && lowercase(av[j]) == k {
                    let j = choose|j: int| 0 <= j < av.len() && lowercase(av[j]) == k;
                    assert(lowercase(aliases@[j]@) == k);
                }
                if exists|j: int| 0 <= j < aliases@.len() && lowercase(aliases@[j]@) == k {
                    let j = choose|j: int| 0 <= j < aliases@.len() && lowercase(aliases@[j]@) == k;
                    assert(lowercase(av[j]) == k);
                }
            }
        }
    }

    /// The number of people.
    pub fn count(&self) -> (r: usize)
        ensures
            r == self.people().len(),
    {
        self.npcs.len()
    }

    /// The ids of all people, in the order they came.
    pub fn get_all_npc_ids(&self) -> (r: Vec<String>)
        ensures
            r@.map_values(|s: String| s@) == keys_of(self.people()),
    {
        let mut r: Vec<String> = Vec::new();
        let mut i: usize = 0;
        while i < self.npcs.len()
            invariant
                i <= self.npcs@.len(),
                r@.map_values(|s: String| s@) == keys_of(self.npcs@.take(i as int)),
            decreases self.npcs@.len() - i,
        {
            let id = self.npcs[i].0.clone();
            let ghost before = r@;
            r.push(id);
            proof {
                assert(self.npcs@.take(i + 1) =~= self.npcs@.take(i as int).push(self.npcs@[i as int]));
                assert(keys_of(self.npcs@.take(i + 1)) =~= keys_of(self.npcs@.take(i as int)).push(self.npcs@[i as int].0@));
                assert(r@ =~= before.push(self.npcs@[i as int].0));
                assert(r@.map_values(|s: String| s@) =~= before.map_values(|s: String| s@).push(self.npcs@[i as int].0@));
            }
            i = i + 1;
        }
        proof {
            assert(self.npcs@.take(i as int) =~= self.npcs@);
        }
        r
    }

    /// All people, in the order they came.
    pub fn get_all_npcs(&self) -> (r: Vec<&Person>)
        ensures
            r@.len() == self.people().len(),
            forall|i: int| 0 <= i < r@.len() ==> *(#[trigger] r@[i]) == self.people()[i].1,
    {
        let mut r: Vec<&Person> = Vec::new();
        let mut i: usize = 0;
        while i < self.npcs.len()
            invariant
                i <= self.npcs@.len(),
                r@.len() == i,
                forall|j: int| 0 <= j < i ==> *(#[trigger] r@[j]) == self.npcs@[j].1,
            decreases self.npcs@.len() - i,
        {
            r.push(&self.npcs[i].1);
            i = i + 1;
        }
        r
    }

    /// The player's own person, id `me`.
    pub fn get_me(&self) -> (r: Option<&Person>)
        ensures
            match r {
                Some(p) => self.npc("me"@) == Some(*p),
                None => self.npc("me"@) is None,
            },
    {
        proof {
            reveal_strlit("me");
        }
        match find_key(&self.npcs, "me") {
            Some(i) => Some(&self.npcs[i].1),
            None => None,
        }
    }

    pub(crate) fn position_of(&self, name_or_id: &str) -> (r: Option<usize>)
        requires
            self.wf(),
        ensures
            match r {
                Some(i) => self.found(name_or_id@) == Some(i as int) && i < self.people().len(),
                None => self.found(name_or_id@) is None,
            },
    {
        let key = to_lowercase(name_or_id);
        match find_key(&self.npc_aliases, key.as_str()) {
            Some(a) => {
                return find_key(&self.npcs, self.npc_aliases[a].1.as_str());
            },
            None => {},
        }
        let mut i: usize = 0;
        while i < self.npcs.len()
            invariant
                i <= self.npcs@.len(),
                key@ == lowercase(name_or_id@),
                value_at_key(self.npc_aliases@, key@) is None,
                forall|j: int| 0 <= j < i ==> lowercase(self.npcs@[j].1.name@) != key@,
            decreases self.npcs@.len() - i,
        {
            let n = to_lowercase(self.npcs[i].1.name.as_str());
            if str_eq(n.as_str(), key.as_str()) {
                proof {
                    assert(is_first_named(self.npcs@, key@, i as int));
                    let c = choose|c: int| is_first_named(self.npcs@, key@, c);
                    if c < i {
                        assert(lowercase(self.npcs@[c].1.name@) != key@);
                    } else if c > i {
                        assert(lowercase(self.npcs@[i as int].1.name@) != key@);
                    }
                }
                return Some(i);
            }
            i = i + 1;
        }
        None
    }

    /// The person that `name_or_id` finds (see [`Self::found`]).
    pub fn get_npc(&self, name_or_id: &str) -> (r: Option<&Person>)
        requires
            self.wf(),
        ensures
            match self.found(name_or_id@) {
                Some(i) => r matches Some(p) && *p == self.people()[i].1,
                None => r is None,
            },
    {
        match self.position_of(name_or_id) {
            Some(i) => Some(&self.npcs[i].1),
            None => None,
        }
    }
}


/// The entries of `s` that `f` keeps, in order.
pub open spec fn npcs_where(s: Seq<(String, Person)>, f: spec_fn((String, Person)) -> bool) -> Seq<(String, Person)>
    decreases s.len(),
{
    if s.len() == 0 {
        Seq::empty()
    } else {
        let prev = npcs_where(s.drop_last(), f);
        if f(s.last()) {
            prev.push(s.last())
        } else {
            prev
        }
    }
}

/// The text of `o`, if any.
pub open spec fn opt_text(o: Option<&str>) -> Option<Seq<char>> {
    match o {
        Some(t) => Some(t@),
        None => None,
    }
}

/// The person of `e` stands at (x, y), on the map `map` when one is
/// given, and is not the one with the id `exclude` when one is given.
pub open spec fn at_spot(
    e: (String, Person),
    map: Option<Seq<char>>,
    x: usize,
    y: usize,
    exclude: Option<Seq<char>>,
) -> bool {
    &&& match map {
        Some(m) => e.1.map@ == m,
        None => true,
    }
    &&& e.1.x == x
    &&& e.1.y == y
    &&& match exclude {
        Some(id) => e.0@ != id,
        None => true,
    }
}

/// The ids and people of `s`.
pub open spec fn id_views(s: Seq<(String, Person)>) -> Seq<(Seq<char>, Person)> {
    s.map_values(|e: (String, Person)| (e.0@, e.1))
}

/// The people of `s`.
pub open spec fn person_views(s: Seq<(String, Person)>) -> Seq<Person> {
    s.map_values(|e: (String, Person)| e.1)
}

/// `i` is the first entry of `s` at (x, y) whose person's name, in lower
/// case, is `key`.
pub open spec fn is_first_named_at(s: Seq<(String, Person)>, key: Seq<char>, x: usize, y: usize, i: int) -> bool {
    &&& 0 <= i < s.len()
    &&& lowercase(s[i].1.name@) == key && s[i].1.x == x && s[i].1.y == y
    &&& forall|j: int| 0 <= j < i ==> !(lowercase(s[j].1.name@) == key && s[j].1.x == x && s[j].1.y == y)
}

proof fn lemma_people_of(w: Seq<(String, &Person)>, s: Seq<(String, Person)>)
    requires
        w.map_values(|e: (String, &Person)| (e.0@, *e.1)) == id_views(s),
    ensures
        w.map_values(|e: (String, &Person)| *e.1) == person_views(s),
{
    let wv = w.map_values(|e: (String, &Person)| (e.0@, *e.1));
    assert(wv.len() == w.len());
    assert(id_views(s).len() == s.len());
    assert forall|j: int| 0 <= j < w.len() implies *w[j].1 == s[j].1 by {
        assert(wv[j] == (w[j].0@, *w[j].1));
        assert(id_views(s)[j] == (s[j].0@, s[j].1));
    }
    assert(w.map_values(|e: (String, &Person)| *e.1) =~= person_views(s));
}

impl NpcManager {
    fn collect(&self, map: Option<&str>, x: usize, y: usize, exclude: Option<&str>) -> (r: Vec<(String, &Person)>)
        ensures
            r@.map_values(|e: (String, &Person)| (e.0@, *e.1)) == id_views(
                npcs_where(self.people(), |e: (String, Person)| at_spot(e, opt_text(map), x, y, opt_text(exclude))),
            ),
    {
        let ghost f = |e: (String, Person)| at_spot(e, opt_text(map), x, y, opt_text(exclude));
        let mut r: Vec<(String, &Person)> = Vec::new();
        let mut i: usize = 0;
        while i < self.npcs.len()
            invariant
                i <= self.npcs@.len(),
                f == (|e: (String, Person)| at_spot(e, opt_text(map), x, y, opt_text(exclude))),
                r@.map_values(|e: (String, &Person)| (e.0@, *e.1)) == id_views(npcs_where(self.npcs@.take(i as int), f)),
            decreases self.npcs@.len() - i,
        {
            let e = &self.npcs[i];
            let ok_map = match map {
                Some(m) => str_eq(e.1.map.as_str(), m),
                None => true,
            };
            let ok_ex = match exclude {
                Some(id) => !str_eq(e.0.as_str(), id),
                None => true,
            };
            let ghost before = r@;
            proof {
                assert(self.npcs@.take(i + 1).drop_last() =~= self.npcs@.take(i as int));
                assert(self.npcs@.take(i + 1).last() == self.npcs@[i as int]);
            }
            if ok_map && e.1.x == x && e.1.y == y && ok_ex {
                r.push((e.0.clone(), &e.1));
                proof {
                    assert(r@.map_values(|e: (String, &Person)| (e.0@, *e.1)) =~= before.map_values(
                        |e: (String, &Person)| (e.0@, *e.1),
                    ).push((self.npcs@[i as int].0@, self.npcs@[i as int].1)));
                    assert(id_views(npcs_where(self.npcs@.take(i + 1), f)) =~= id_views(
                        npcs_where(self.npcs@.take(i as int), f),
                    ).push((self.npcs@[i as int].0@, self.npcs@[i as int].1)));
                }
            }
            i = i + 1;
        }
        proof {
            assert(self.npcs@.take(i as int) =~= self.npcs@);
        }
        r
    }

    fn people_only(v: Vec<(String, &Person)>) -> (r: Vec<&Person>)
        ensures
            r@.map_values(|p: &Person| *p) == v@.map_values(|e: (String, &Person)| *e.1),
    {
        let mut r: Vec<&Person> = Vec::new();
        let mut i: usize = 0;
        while i < v.len()
            invariant
                i <= v@.len(),
                r@.len() == i,
                forall|j: int| 0 <= j < i ==> *(#[trigger] r@[j]) == *v@[j].1,
            decreases v@.len() - i,
        {
            r.push(v[i].1);
            i = i + 1;
        }
        proof {
            assert(r@.map_values(|p: &Person| *p) =~= v@.map_values(|e: (String, &Person)| *e.1));
        }
        r
    }

    /// The people at (x, y), on whatever map, in the order they came.
    pub fn get_npcs_at(&self, x: usize, y: usize) -> (r: Vec<&Person>)
        ensures
            r@.map_values(|p: &Person| *p) == person_views(
                npcs_where(self.people(), |e: (String, Person)| at_spot(e, None, x, y, None)),
            ),
    {
        let v = self.collect(None, x, y, None);
        let ghost w = v@;
        let r = Self::people_only(v);
        proof {
            let s = npcs_where(self.people(), |e: (String, Person)| at_spot(e, None, x, y, None));
            lemma_people_of(w, s);
        }
        r
    }

    /// The people at (x, y) of the map `map_name`, in the order they came.
    pub fn get_npcs_at_in_map(&self, map_name: &str, x: usize, y: usize) -> (r: Vec<&Person>)
        ensures
            r@.map_values(|p: &Person| *p) == person_views(
                npcs_where(self.people(), |e: (String, Person)| at_spot(e, Some(map_name@), x, y, None)),
            ),
    {
        let v = self.collect(Some(map_name), x, y, None);
        let ghost w = v@;
        let r = Self::people_only(v);
        proof {
            let s = npcs_where(self.people(), |e: (String, Person)| at_spot(e, Some(map_name@), x, y, None));
            lemma_people_of(w, s);
        }
        r
    }

    /// The people at (x, y) of the map `map_name` other than the one with
    /// the id `exclude_id`, in the order they came.
    pub fn get_npcs_at_in_map_excluding(&self, map_name: &str, x: usize, y: usize, exclude_id: &str) -> (r: Vec<&Person>)
        ensures
            r@.map_values(|p: &Person| *p) == person_views(
                npcs_where(
                    self.people(),
                    |e: (String, Person)| at_spot(e, Some(map_name@), x, y, Some(exclude_id@)),
                ),
            ),
    {
        let v = self.collect(Some(map_name), x, y, Some(exclude_id));
        let ghost w = v@;
        let r = Self::people_only(v);
        proof {
            let s = npcs_where(
                self.people(),
                |e: (String, Person)| at_spot(e, Some(map_name@), x, y, Some(exclude_id@)),
            );
            lemma_people_of(w, s);
        }
        r
    }

    /// The people, with their ids, at (x, y) of the map `map_name`, in the
    /// order they came.
    pub fn get_npcs_with_ids_at_in_map(&self, map_name: &str, x: usize, y: usize) -> (r: Vec<(String, &Person)>)
        ensures
            r@.map_values(|e: (String, &Person)| (e.0@, *e.1)) == id_views(
                npcs_where(self.people(), |e: (String, Person)| at_spot(e, Some(map_name@), x, y, None)),
            ),
    {
        self.collect(Some(map_name), x, y, None)
    }

    /// The people on the map `map_name` at (x, y) other than the one with
    /// the id `exclude_id`, with their ids, in the order they came.
    pub fn get_npcs_with_ids_at_in_map_excluding(&self, map_name: &str, x: usize, y: usize, exclude_id: &str) -> (r: Vec<
        (String, &Person),
    >)
        ensures
            r@.map_values(|e: (String, &Person)| (e.0@, *e.1)) == id_views(
                npcs_where(self.people(), |e: (String, Person)| at_spot(e, Some(map_name@), x, y, Some(exclude_id@))),
            ),
    {
        self.collect(Some(map_name), x, y, Some(exclude_id))
    }

    /// Takes the person with the id `id` out, and gives it back.
    pub fn remove_npc(&mut self, id: &str) -> (r: Option<Person>)
        requires
            old(self).wf(),
        ensures
            final(self).wf(),
            r == old(self).npc(id@),
            npc_removed(*old(self), *final(self), id@),
    {
        match find_key(&self.npcs, id) {
            Some(i) => {
                proof {
                    lemma_removed(self.npcs@, i as int);
                }
                let (_, p) = self.npcs.remove(i);
                Some(p)
            },
            None => None,
        }
    }

    /// The entry that `remove_npc_at(name_or_id, x, y)` takes out: the one
    /// the name leads to, when it stands at (x, y); else the first person
    /// at (x, y) with that name.
    pub open spec fn removal_target(&self, name_or_id: Seq<char>, x: usize, y: usize) -> Option<int> {
        let key = lowercase(name_or_id);
        let by_alias = match self.alias(key) {
            Some(id) => match key_position(self.people(), id) {
                Some(i) => if self.people()[i].1.x == x && self.people()[i].1.y == y {
                    Some(i)
                } else {
                    None
                },
                None => None,
            },
            None => None,
        };
        if by_alias is Some {
            by_alias
        } else if exists|i: int| is_first_named_at(self.people(), key, x, y, i) {
            Some(choose|i: int| is_first_named_at(self.people(), key, x, y, i))
        } else {
            None
        }
    }

    /// Takes out the person that `name_or_id` finds at (x, y) (see
    /// [`Self::removal_target`]) and gives it back with its id.
    pub fn remove_npc_at(&mut self, name_or_id: &str, x: usize, y: usize) -> (r: Option<(String, Person)>)
        requires
            old(self).wf(),
        ensures
            final(self).wf(),
            match old(self).removal_target(name_or_id@, x, y) {
                Some(i) => r == Some(old(self).people()[i]) && final(self).people() == old(self).people().remove(i),
                None => r is None && final(self).people() == old(self).people(),
            },
            final(self).alias_list() == old(self).alias_list(),
            final(self).distance_list() == old(self).distance_list(),
    {
        let key = to_lowercase(name_or_id);
        match find_key(&self.npc_aliases, key.as_str()) {
            Some(a) => {
                match find_key(&self.npcs, self.npc_aliases[a].1.as_str()) {
                    Some(i) => {
                        if self.npcs[i].1.x == x && self.npcs[i].1.y == y {
                            proof {
                                lemma_removed(self.npcs@, i as int);
                            }
                            let e = self.npcs.remove(i);
                            return Some(e);
                        }
                    },
                    None => {},
                }
            },
            None => {},
        }
        let mut i: usize = 0;
        while i < self.npcs.len()
            invariant
                i <= self.npcs@.len(),
                key@ == lowercase(name_or_id@),
                *self == *old(self),
                old(self).wf(),
                !(old(self).removal_target(name_or_id@, x, y) matches Some(k) && !is_first_named_at(
                    old(self).people(),
                    key@,
                    x,
                    y,
                    k,
                )),
                forall|j: int|
                    0 <= j < i ==> !(lowercase(self.npcs@[j].1.name@) == key@ && self.npcs@[j].1.x == x
                        && self.npcs@[j].1.y == y),
            decreases self.npcs@.len() - i,
        {
            let n = to_lowercase(self.npcs[i].1.name.as_str());
            if str_eq(n.as_str(), key.as_str()) && self.npcs[i].1.x == x && self.npcs[i].1.y == y {
                proof {
                    assert(is_first_named_at(self.npcs@, key@, x, y, i as int));
                    let c = choose|c: int| is_first_named_at(self.npcs@, key@, x, y, c);
                    if c < i {
                        assert(!(lowercase(self.npcs@[c].1.name@) == key@ && self.npcs@[c].1.x == x
                            && self.npcs@[c].1.y == y));
                    } else if c > i {
                        assert(!(lowercase(self.npcs@[i as int].1.name@) == key@ && self.npcs@[i as int].1.x == x
                            && self.npcs@[i as int].1.y == y));
                    }
                    lemma_removed(self.npcs@, i as int);
                }
                let e = self.npcs.remove(i);
                return Some(e);
            }
            i = i + 1;
        }
        None
    }

    /// The letter that marks a person called `name` on the map.
    pub fn get_display_char(name: &str) -> (r: char)
        ensures
            r == crate::npc_rules::display_letter(name@),
    {
        crate::npc_rules::display_char(name)
    }
}


/// The key under which the distance between the controlled person `cid`
/// and the person `id` is kept.
pub open spec fn distance_key(cid: Seq<char>, id: Seq<char>) -> Seq<char> {
    cid + "_"@ + id
}

/// The person of `e` is looked at from the controlled person `cid` on the
/// map `map`: not `cid` itself, and on that map.
pub open spec fn watched(e: (String, Person), cid: Seq<char>, map: Seq<char>) -> bool {
    e.0@ != cid && e.1.map@ == map
}

/// `d` holds, for each person of `m` watched from `cid` on `map`, their
/// distance from (x, y) under their distance key (see [`distance_key`]),
/// and the last known distances of `m` otherwise.
pub open spec fn distances_noted(m: NpcManager, d: Seq<(String, usize)>, cid: Seq<char>, x: usize, y: usize, map: Seq<char>) -> bool {
    forall|k: Seq<char>| #[trigger] value_at_key(d, k) == (if exists|i: int|
        0 <= i < m.people().len() && watched(m.people()[i], cid, map) && k == distance_key(cid, m.people()[i].0@) {
        Some(distance_of(m.people()[choose|i: int|
            0 <= i < m.people().len() && watched(m.people()[i], cid, map) && k == distance_key(cid, m.people()[i].0@)], x, y) as usize)
    } else {
        value_at_key(m.distance_list(), k)
    })
}

/// The distance of the person of `e` from (x, y).
pub open spec fn distance_of(e: (String, Person), x: usize, y: usize) -> int {
    abs_diff(e.1.x as int, x as int) + abs_diff(e.1.y as int, y as int)
}

/// The notices, in order, about the people of `s` watched from `cid` at
/// (x, y) of `map`, the last known distances being `dists` (see
/// [`notice_of`]).
pub open spec fn notices(
    s: Seq<(String, Person)>,
    dists: Seq<(String, usize)>,
    cid: Seq<char>,
    x: usize,
    y: usize,
    map: Seq<char>,
    moved: bool,
) -> Seq<(Seq<char>, Seq<char>, bool)>
    decreases s.len(),
{
    if s.len() == 0 {
        Seq::empty()
    } else {
        let prev = notices(s.drop_last(), dists, cid, x, y, map, moved);
        let e = s.last();
        if watched(e, cid, map) {
            match notice_of(
                value_at_key(dists, distance_key(cid, e.0@)),
                distance_of(e, x, y) as usize,
                moved,
                e.1.name@,
            ) {
                Some((m, g)) => prev.push((e.0@, m, g)),
                None => prev,
            }
        } else {
            prev
        }
    }
}

proof fn lemma_distance_key_injective(cid: Seq<char>, a: Seq<char>, b: Seq<char>)
    requires
        distance_key(cid, a) == distance_key(cid, b),
    ensures
        a == b,
{
    reveal_strlit("_");
    let n: int = cid.len() as int + 1;
    assert(distance_key(cid, a).skip(n) =~= a);
    assert(distance_key(cid, b).skip(n) =~= b);
}

impl NpcManager {
    /// One tick of the world clock for everyone (see [`Person::on_time_update`]).
    pub fn update_all_time(&mut self, time_info: &TimeInfo, descs: &PersonDescriptions)
        requires
            old(self).wf(),
            forall|i: int|
                0 <= i < old(self).people().len() ==> (#[trigger] old(self).people()[i]).1.age < u64::MAX
                    && old(self).people()[i].1.hp - 100 >= i32::MIN && old(self).people()[i].1.mp < i32::MAX,
        ensures
            final(self).wf(),
            final(self).people().len() == old(self).people().len(),
            forall|i: int|
                0 <= i < old(self).people().len() ==> (#[trigger] final(self).people()[i]).0 == old(self).people()[i].0
                    && ticked(old(self).people()[i].1, final(self).people()[i].1, *time_info, *descs),
            final(self).alias_list() == old(self).alias_list(),
            final(self).distance_list() == old(self).distance_list(),
    {
        let ghost before = self.npcs@;
        proof {
            assert forall|j: int| 0 <= j < before.len() implies (#[trigger] before[j]).1.age < u64::MAX
                && before[j].1.hp - 100 >= i32::MIN && before[j].1.mp < i32::MAX by {
                assert(old(self).people()[j] == before[j]);
            }
        }
        let mut i: usize = 0;
        while i < self.npcs.len()
            invariant
                i <= before.len(),
                self.npcs@.len() == before.len(),
                self.npc_aliases == old(self).npc_aliases,
                self.previous_distances == old(self).previous_distances,
                before == old(self).npcs@,
                keys_distinct(old(self).npc_aliases@),
                keys_distinct(old(self).previous_distances@),
                forall|j: int|
                    0 <= j < before.len() ==> (#[trigger] before[j]).1.age < u64::MAX && before[j].1.hp - 100
                        >= i32::MIN && before[j].1.mp < i32::MAX,
                forall|j: int|
                    0 <= j < before.len() ==> (#[trigger] self.npcs@[j]).0 == before[j].0 && (if j < i {
                        ticked(before[j].1, self.npcs@[j].1, *time_info, *descs)
                    } else {
                        self.npcs@[j].1 == before[j].1
                    }),
                keys_distinct(before),
            decreases before.len() - i,
        {
            let ghost cur = self.npcs@;
            let (k, mut p) = self.npcs.remove(i);
            p.on_time_update(time_info, descs);
            self.npcs.insert(i, (k, p));
            proof {
                assert(self.npcs@ =~= cur.update(i as int, self.npcs@[i as int]));
            }
            i = i + 1;
        }
        proof {
            let t = self.npcs@;
            assert forall|a: int, b: int| 0 <= a < t.len() && 0 <= b < t.len() && t[a].0@ == t[b].0@ implies a == b by {
                assert(t[a].0 == before[a].0 && t[b].0 == before[b].0);
            }
        }
    }

    /// Brings the distances between the person `current_controlled_id`,
    /// at (current_x, current_y) of `current_map`, and the others on that
    /// map up to date, and tells what changed (see [`notices`]): each
    /// notice is the id, the words and whether a greeting follows.
    pub fn update_proximity(
        &mut self,
        current_controlled_id: &str,
        current_x: usize,
        current_y: usize,
        current_map: &str,
        player_just_moved: bool,
    ) -> (r: Vec<(String, String, bool)>)
        requires
            old(self).wf(),
            current_x <= i32::MAX && current_y <= i32::MAX,
            forall|i: int|
                0 <= i < old(self).people().len() && watched(
                    #[trigger] old(self).people()[i],
                    current_controlled_id@,
                    current_map@,
                ) ==> old(self).people()[i].1.x <= i32::MAX && old(self).people()[i].1.y <= i32::MAX
                    && distance_of(old(self).people()[i], current_x, current_y) <= i32::MAX,
        ensures
            final(self).wf(),
            r@.map_values(|n: (String, String, bool)| (n.0@, n.1@, n.2)) == notices(
                old(self).people(),
                old(self).distance_list(),
                current_controlled_id@,
                current_x,
                current_y,
                current_map@,
                player_just_moved,
            ),
            distances_noted(*old(self), final(self).distance_list(), current_controlled_id@, current_x, current_y, current_map@),
            final(self).people() == old(self).people(),
            final(self).alias_list() == old(self).alias_list(),
    {
        let ghost s = self.npcs@;
        let ghost d0 = self.previous_distances@;
        let ghost cid = current_controlled_id@;
        let ghost mv = current_map@;
        let mut r: Vec<(String, String, bool)> = Vec::new();
        let mut i: usize = 0;
        proof {
            reveal_strlit("_");
            assert(s.take(0) =~= Seq::<(String, Person)>::empty());
            assert forall|j: int| 0 <= j < s.len() && watched(#[trigger] s[j], cid, mv) implies s[j].1.x <= i32::MAX
                && s[j].1.y <= i32::MAX && distance_of(s[j], current_x, current_y) <= i32::MAX by {
                assert(old(self).people()[j] == s[j]);
            }
        }
        while i < self.npcs.len()
            invariant
                s == old(self).npcs@,
                d0 == old(self).previous_distances@,
                self.npcs@ == s,
                self.npc_aliases == old(self).npc_aliases,
                keys_distinct(s),
                keys_distinct(old(self).npc_aliases@),
                keys_distinct(self.previous_distances@),
                i <= s.len(),
                cid == current_controlled_id@,
                mv == current_map@,
                current_x <= i32::MAX && current_y <= i32::MAX,
                forall|j: int|
                    0 <= j < s.len() && watched(#[trigger] s[j], cid, mv) ==> s[j].1.x <= i32::MAX && s[j].1.y
                        <= i32::MAX && distance_of(s[j], current_x, current_y) <= i32::MAX,
                r@.map_values(|n: (String, String, bool)| (n.0@, n.1@, n.2)) == notices(
                    s.take(i as int),
                    d0,
                    cid,
                    current_x,
                    current_y,
                    mv,
                    player_just_moved,
                ),
                forall|k: Seq<char>| #[trigger] value_at_key(self.previous_distances@, k) == (if exists|j: int|
                    0 <= j < i && watched(s[j], cid, mv) && k == distance_key(cid, s[j].0@) {
                    Some(distance_of(s[choose|j: int|
                        0 <= j < i && watched(s[j], cid, mv) && k == distance_key(cid, s[j].0@)], current_x, current_y) as usize)
                } else {
                    value_at_key(d0, k)
                }),
            decreases s.len() - i,
        {
            let ghost before_r = r@;
            let ghost before_d = self.previous_distances@;
            proof {
                assert(s.take(i + 1).drop_last() =~= s.take(i as int));
                assert(s.take(i + 1).last() == s[i as int]);
            }
            let id = &self.npcs[i].0;
            let npc = &self.npcs[i].1;
            if !str_eq(id.as_str(), current_controlled_id) && str_eq(npc.map.as_str(), current_map) {
                let dist = manhattan_distance(npc.x, npc.y, current_x, current_y);
                let mut key = String::from_str(current_controlled_id);
                key.append("_");
                key.append(id.as_str());
                let ghost kv = key@;
                let prev = match find_key(&self.previous_distances, key.as_str()) {
                    Some(a) => Some(self.previous_distances[a].1),
                    None => None,
                };
                proof {
                    assert(value_at_key(self.previous_distances@, kv) == prev);
                    // no earlier person shares this key, so the distance read is the first one kept
                    assert(kv == distance_key(cid, s[i as int].0@));
                    assert(!exists|j: int| 0 <= j < i && watched(s[j], cid, mv) && kv == distance_key(cid, s[j].0@)) by {
                        if exists|j: int| 0 <= j < i && watched(s[j], cid, mv) && kv == distance_key(cid, s[j].0@) {
                            let j = choose|j: int| 0 <= j < i && watched(s[j], cid, mv) && kv == distance_key(cid, s[j].0@);
                            lemma_distance_key_injective(cid, s[j].0@, s[i as int].0@);
                        }
                    }
                    assert(prev == value_at_key(d0, kv));
                }
                match proximity_notice(prev, dist, player_just_moved, npc.name.as_str()) {
                    Some((m, g)) => {
                        r.push((id.clone(), m, g));
                        proof {
                            assert(r@.map_values(|n: (String, String, bool)| (n.0@, n.1@, n.2)) =~= before_r.map_values(
                                |n: (String, String, bool)| (n.0@, n.1@, n.2),
                            ).push((s[i as int].0@, m@, g)));
                        }
                    },
                    None => {},
                }
                put(&mut self.previous_distances, key, dist);
                proof {
                    assert forall|k: Seq<char>| #[trigger] value_at_key(self.previous_distances@, k) == (if exists|j: int|
                        0 <= j < i + 1 && watched(s[j], cid, mv) && k == distance_key(cid, s[j].0@) {
                        Some(distance_of(s[choose|j: int|
                            0 <= j < i + 1 && watched(s[j], cid, mv) && k == distance_key(cid, s[j].0@)], current_x, current_y) as usize)
                    } else {
                        value_at_key(d0, k)
                    }) by {
                        if k == kv {
                            let c = choose|j: int|
                                0 <= j < i + 1 && watched(s[j], cid, mv) && k == distance_key(cid, s[j].0@);
                            assert(0 <= i < i + 1 && watched(s[i as int], cid, mv) && k == distance_key(cid, s[i as int].0@));
                            lemma_distance_key_injective(cid, s[c].0@, s[i as int].0@);
                            lemma_distinct_first(s, c);
                            lemma_distinct_first(s, i as int);
                        } else {
                            if exists|j: int| 0 <= j < i + 1 && watched(s[j], cid, mv) && k == distance_key(cid, s[j].0@) {
                                let c = choose|j: int|
                                    0 <= j < i + 1 && watched(s[j], cid, mv) && k == distance_key(cid, s[j].0@);
                                assert(c != i);
                                assert(exists|j: int| 0 <= j < i && watched(s[j], cid, mv) && k == distance_key(cid, s[j].0@));
                                let c2 = choose|j: int|
                                    0 <= j < i && watched(s[j], cid, mv) && k == distance_key(cid, s[j].0@);
                                lemma_distance_key_injective(cid, s[c].0@, s[c2].0@);
                                lemma_distinct_first(s, c);
                                lemma_distinct_first(s, c2);
                            }
                        }
                    }
                }
            } else {
                proof {
                    assert forall|k: Seq<char>| #[trigger] value_at_key(self.previous_distances@, k) == (if exists|j: int|
                        0 <= j < i + 1 && watched(s[j], cid, mv) && k == distance_key(cid, s[j].0@) {
                        Some(distance_of(s[choose|j: int|
                            0 <= j < i + 1 && watched(s[j], cid, mv) && k == distance_key(cid, s[j].0@)], current_x, current_y) as usize)
                    } else {
                        value_at_key(d0, k)
                    }) by {
                        if exists|j: int| 0 <= j < i + 1 && watched(s[j], cid, mv) && k == distance_key(cid, s[j].0@) {
                            let c = choose|j: int|
                                0 <= j < i + 1 && watched(s[j], cid, mv) && k == distance_key(cid, s[j].0@);
                            assert(c != i);
                            assert(exists|j: int| 0 <= j < i && watched(s[j], cid, mv) && k == distance_key(cid, s[j].0@));
                            let c2 = choose|j: int|
                                0 <= j < i && watched(s[j], cid, mv) && k == distance_key(cid, s[j].0@);
                            lemma_distance_key_injective(cid, s[c].0@, s[c2].0@);
                            lemma_distinct_first(s, c);
                            lemma_distinct_first(s, c2);
                        }
                    }
                }
            }
            i = i + 1;
        }
        proof {
            assert(s.take(i as int) =~= s);
        }
        r
    }
}


/// `after` is `before` with the person `npc` added (or put in place of
/// the one) under `id` (see [`NpcManager::add_npc`]): given 10000 gold
/// coins when carrying none, and reached through `id` and each of
/// `aliases` in lower case.
pub open spec fn npc_added(before: NpcManager, after: NpcManager, id: Seq<char>, npc: Person, aliases: Seq<Seq<char>>) -> bool {
    &&& after.npc(id) matches Some(p) && p.wf() && (if npc.items.count_of("金幣"@) == 0 {
        p == (Person { items: p.items, ..npc }) && p.items.amount("金幣"@) == Some(10000u32)
            && forall|k: Seq<char>| k != "金幣"@ ==> #[trigger] p.items.amount(k) == npc.items.amount(k)
    } else {
        p == npc
    })
    &&& forall|q: Seq<char>| q != id ==> #[trigger] after.npc(q) == before.npc(q)
    &&& keys_of(after.people()) == (if before.npc(id) is Some {
        keys_of(before.people())
    } else {
        keys_of(before.people()).push(id)
    })
    &&& forall|k: Seq<char>| #[trigger] after.alias(k) == (if k == lowercase(id) || exists|j: int|
        0 <= j < aliases.len() && lowercase(aliases[j]) == k {
        Some(id)
    } else {
        before.alias(k)
    })
    &&& after.distance_list() == before.distance_list()
}

/// A person just added is found again (see [`NpcManager::found`], which
/// `get_npc` follows) by its id and by each of its other names, and what
/// is found is what the addition put in: the person itself, or, when it
/// carried no gold coins, the person with its 10000 coins.
pub proof fn law_added_person_found(
    before: NpcManager,
    after: NpcManager,
    id: Seq<char>,
    npc: Person,
    aliases: Seq<Seq<char>>,
)
    requires
        npc_added(before, after, id, npc, aliases),
    ensures
        after.found(id) matches Some(i) && 0 <= i < after.people().len() && after.people()[i].0@ == id && Some(
            after.people()[i].1,
        ) == after.npc(id),
        npc.items.count_of("金幣"@) > 0 ==> after.npc(id) == Some(npc),
        forall|j: int| 0 <= j < aliases.len() ==> #[trigger] after.found(aliases[j]) == after.found(id),
{
    assert(after.alias(lowercase(id)) == Some(id));
    let i = key_position(after.people(), id)->0;
    assert(is_first_key(after.people(), id, i));
    assert forall|j: int| 0 <= j < aliases.len() implies #[trigger] after.found(aliases[j]) == after.found(id) by {
        assert(after.alias(lowercase(aliases[j])) == Some(id));
    }
}

/// `after` is `before` with the person `id` taken out (see
/// [`NpcManager::remove_npc`]); the names that led to it are kept.
pub open spec fn npc_removed(before: NpcManager, after: NpcManager, id: Seq<char>) -> bool {
    &&& after.people() == (match key_position(before.people(), id) {
        Some(i) => before.people().remove(i),
        None => before.people(),
    })
    &&& after.alias_list() == before.alias_list()
    &&& after.distance_list() == before.distance_list()
}

/// A person taken out is gone, and everyone else stays as they were.
pub proof fn law_removed_person_gone(before: NpcManager, after: NpcManager, id: Seq<char>)
    requires
        before.wf(),
        npc_removed(before, after, id),
    ensures
        after.npc(id) is None,
        forall|q: Seq<char>| q != id ==> #[trigger] after.npc(q) == before.npc(q),
{
    if let Some(i) = key_position(before.people(), id) {
        assert(is_first_key(before.people(), id, i));
        lemma_removed(before.people(), i);
    }
}

impl NpcManager {
    /// The person that `name_or_id` finds (see [`Self::found`]), to change
    /// in place.
    pub fn get_npc_mut(&mut self, name_or_id: &str) -> (r: Option<&mut Person>)
        requires
            old(self).wf(),
        ensures
            match old(self).found(name_or_id@) {
                Some(i) => {
                    &&& r is Some
                    &&& *r->0 == old(self).people()[i].1
                    &&& final(self).people() == old(self).people().update(i, (old(self).people()[i].0, *final(r->0)))
                },
                None => r is None && *final(self) == *old(self),
            },
            final(self).wf(),
            final(self).alias_list() == old(self).alias_list(),
            final(self).distance_list() == old(self).distance_list(),
    {
        match self.position_of(name_or_id) {
            Some(i) => Some(&mut self.npcs[i].1),
            None => None,
        }
    }
}


impl NpcManager {
    /// The id of the person that `name_or_id` finds (see [`Self::found`]).
    pub fn resolve_id(&self, name_or_id: &str) -> (r: Option<String>)
        requires
            self.wf(),
        ensures
            match self.found(name_or_id@) {
                Some(i) => r matches Some(id) && id@ == self.people()[i].0@,
                None => r is None,
            },
    {
        match self.position_of(name_or_id) {
            Some(i) => Some(self.npcs[i].0.clone()),
            None => None,
        }
    }
}


/// What a name finds is one of the entries.
pub proof fn lemma_found_in_range(m: NpcManager, q: Seq<char>)
    ensures
        m.found(q) matches Some(i) ==> 0 <= i < m.people().len(),
{
    let key = lowercase(q);
    match m.alias(key) {
        Some(id) => {
            if key_position(m.people(), id) is Some {
                let i = choose|i: int| is_first_key(m.people(), id, i);
            }
        },
        None => {
            if exists|i: int| is_first_named(m.people(), key, i) {
                let i = choose|i: int| is_first_named(m.people(), key, i);
            }
        },
    }
}


/// Each entry that a selection keeps is an entry of the whole.
pub proof fn lemma_where_members(s: Seq<(String, Person)>, f: spec_fn((String, Person)) -> bool, k: int)
    requires
        0 <= k < npcs_where(s, f).len(),
    ensures
        exists|i: int| 0 <= i < s.len() && s[i] == npcs_where(s, f)[k],
    decreases s.len(),
{
    if s.len() > 0 {
        let prev = npcs_where(s.drop_last(), f);
        if k < prev.len() {
            lemma_where_members(s.drop_last(), f, k);
            let i = choose|i: int| 0 <= i < s.drop_last().len() && s.drop_last()[i] == prev[k];
            assert(s[i] == s.drop_last()[i]);
        } else {
            assert(npcs_where(s, f)[k] == s.last());
            assert(s[s.len() - 1] == s.last());
        }
    }
}

} // verus!
