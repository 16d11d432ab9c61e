//! Grouping of command help entries by category, each group ordered by the
//! command syntax, as the help screens show them.
use vstd::prelude::*;
use crate::text::chars_of;

verus! {

broadcast use {vstd::seq_lib::to_multiset_insert, vstd::seq_lib::to_multiset_build};

/// Lexicographic order on character sequences (the order of `str::cmp`,
/// since UTF-8 byte order agrees with code point order).
pub open spec fn lex_le(a: Seq<char>, b: Seq<char>) -> bool
    decreases a.len(),
{
    if a.len() == 0 {
        true
    } else if b.len() == 0 {
        false
    } else if a[0] != b[0] {
        a[0] < b[0]
    } else {
        lex_le(a.drop_first(), b.drop_first())
    }
}

pub open spec fn lex_lt(a: Seq<char>, b: Seq<char>) -> bool {
    lex_le(a, b) && a != b
}

pub proof fn lemma_lex_total(a: Seq<char>, b: Seq<char>)
    ensures
        lex_le(a, b) || lex_le(b, a),
    decreases a.len(),
{
    if a.len() > 0 && b.len() > 0 && a[0] == b[0] {
        lemma_lex_total(a.drop_first(), b.drop_first());
    }
}

pub proof fn lemma_lex_antisym(a: Seq<char>, b: Seq<char>)
    requires
        lex_le(a, b),
        lex_le(b, a),
    ensures
        a == b,
    decreases a.len(),
{
    if a.len() > 0 {
        lemma_lex_antisym(a.drop_first(), b.drop_first());
        assert(a =~= seq![a[0]] + a.drop_first());
        assert(b =~= seq![b[0]] + b.drop_first());
    } else {
        assert(b.len() == 0);
        assert(a =~= b);
    }
}

pub proof fn lemma_lex_trans(a: Seq<char>, b: Seq<char>, c: Seq<char>)
    requires
        lex_le(a, b),
        lex_le(b, c),
    ensures
        lex_le(a, c),
    decreases a.len(),
{
    if a.len() > 0 && b.len() > 0 && c.len() > 0 && a[0] == b[0] && b[0] == c[0] {
        lemma_lex_trans(a.drop_first(), b.drop_first(), c.drop_first());
    }
}

/// Whether `a` comes strictly before `b` in the order of `str::cmp`.
pub fn str_lt(a: &str, b: &str) -> (r: bool)
    ensures
        r == lex_lt(a@, b@),
{
    let x = chars_of(a);
    let y = chars_of(b);
    let mut i: usize = 0;
    proof {
        assert(a@.skip(0) =~= a@);
        assert(b@.skip(0) =~= b@);
        assert(x@.take(0) =~= y@.take(0));
    }
    while i < x.len() && i < y.len() && x[i] == y[i]
        invariant
            x@ == a@,
            y@ == b@,
            i <= x@.len(),
            i <= y@.len(),
            x@.take(i as int) == y@.take(i as int),
            lex_le(a@, b@) == lex_le(a@.skip(i as int), b@.skip(i as int)),
        decreases x@.len() - i,
    {
        proof {
            let s = a@.skip(i as int);
            let t = b@.skip(i as int);
            assert(s.drop_first() =~= a@.skip(i + 1));
            assert(t.drop_first() =~= b@.skip(i + 1));
            assert(x@.take(i + 1) =~= x@.take(i as int).push(x@[i as int]));
            assert(y@.take(i + 1) =~= y@.take(i as int).push(y@[i as int]));
        }
        i = i + 1;
    }
    proof {
        assert(a@.skip(0) =~= a@);
        assert(b@.skip(0) =~= b@);
    }
    if i == x.len() {
        if i == y.len() {
            proof {
                assert(a@ =~= x@.take(i as int));
                assert(b@ =~= y@.take(i as int));
            }
            false
        } else {
            proof {
                assert(a@.skip(i as int).len() == 0);
                assert(a@.len() != b@.len());
            }
            true
        }
    } else if i == y.len() {
        proof {
            assert(b@.skip(i as int).len() == 0);
            assert(a@.skip(i as int).len() > 0);
        }
        false
    } else {
        proof {
            assert(a@.skip(i as int)[0] == x@[i as int]);
            assert(b@.skip(i as int)[0] == y@[i as int]);
            if x@[i as int] < y@[i as int] {
                assert(a@[i as int] != b@[i as int]);
            }
        }
        x[i] < y[i]
    }
}

/// A help entry: (syntax, description).
pub open spec fn entry_view(e: (&'static str, &'static str)) -> (Seq<char>, Seq<char>) {
    (e.0@, e.1@)
}

/// The views of a sequence of help entries.
pub open spec fn entries_view(s: Seq<(&'static str, &'static str)>) -> Seq<(Seq<char>, Seq<char>)> {
    s.map_values(|e: (&'static str, &'static str)| entry_view(e))
}

/// The entries of `s` are in order of their syntax.
pub open spec fn sorted_by_syntax(s: Seq<(Seq<char>, Seq<char>)>) -> bool {
    forall|i: int, j: int| 0 <= i < j < s.len() ==> lex_le(s[i].0, s[j].0)
}

/// Inserts `e` after the entries whose syntax does not come after it.
fn insert_sorted(v: &mut Vec<(&'static str, &'static str)>, e: (&'static str, &'static str))
    requires
        sorted_by_syntax(entries_view(old(v)@)),
    ensures
        final(v)@.len() == old(v)@.len() + 1,
        sorted_by_syntax(entries_view(final(v)@)),
        entries_view(final(v)@).to_multiset() == entries_view(old(v)@).to_multiset().insert(
            entry_view(e),
        ),
{
    let ghost s = entries_view(v@);
    let mut k: usize = 0;
    while k < v.len() && !str_lt(e.0, v[k].0)
        invariant
            k <= v@.len(),
            s == entries_view(v@),
            forall|i: int| 0 <= i < k ==> !lex_lt(e.0@, #[trigger] v@[i].0@),
        decreases v@.len() - k,
    {
        k = k + 1;
    }
    v.insert(k, e);
    proof {
        let t = entries_view(v@);
        assert(t =~= s.insert(k as int, entry_view(e)));
        assert forall|i: int, j: int| 0 <= i < j < t.len() implies lex_le(t[i].0, t[j].0) by {
            if j < k {
                assert(t[i] == s[i] && t[j] == s[j]);
            } else if j == k {
                assert(t[i] == s[i]);
                assert(!lex_lt(e.0@, v@[i].0@));
                lemma_lex_total(e.0@, s[i].0);
            } else if i == k {
                assert(t[j] == s[j - 1]);
                assert(lex_lt(e.0@, s[k as int].0));
                if j - 1 > k {
                    lemma_lex_trans(e.0@, s[k as int].0, s[j - 1].0);
                }
            } else if i < k {
                assert(t[i] == s[i] && t[j] == s[j - 1]);
            } else {
                assert(t[i] == s[i - 1] && t[j] == s[j - 1]);
            }
        }
    }
}

/// The help entries, in list order, of the described commands of category
/// `cat`.
pub open spec fn entries_in(
    descs: Seq<Option<(Seq<char>, Seq<char>, Seq<char>)>>,
    cat: Seq<char>,
) -> Seq<(Seq<char>, Seq<char>)>
    decreases descs.len(),
{
    if descs.len() == 0 {
        seq![]
    } else {
        let prev = entries_in(descs.drop_last(), cat);
        match descs.last() {
            Some((u, d, c)) => if c == cat {
                prev.push((u, d))
            } else {
                prev
            },
            None => prev,
        }
    }
}

/// The category of the basic game controls, which also lists `re`.
pub open spec fn game_control() -> Seq<char> {
    "🎮 遊戲控制"@
}

/// The entry of the `re` command, which repeats the previous command.
pub open spec fn repeat_entry() -> (Seq<char>, Seq<char>) {
    ("re / repeat"@, "重複上一次的命令"@)
}

/// The help groups: for each category of `order` that holds at least one
/// described command, the category and its entries (with `re` added to the
/// game controls), before ordering.
pub open spec fn help_groups(
    descs: Seq<Option<(Seq<char>, Seq<char>, Seq<char>)>>,
    order: Seq<Seq<char>>,
) -> Seq<(Seq<char>, Seq<(Seq<char>, Seq<char>)>)>
    decreases order.len(),
{
    if order.len() == 0 {
        seq![]
    } else {
        let prev = help_groups(descs, order.drop_last());
        let cat = order.last();
        let es = entries_in(descs, cat);
        if es.len() > 0 {
            prev.push(
                (
                    cat,
                    if cat == game_control() {
                        es.push(repeat_entry())
                    } else {
                        es
                    },
                ),
            )
        } else {
            prev
        }
    }
}

/// The views of a help description.
pub open spec fn desc_view(d: Option<(&'static str, &'static str, &'static str)>) -> Option<
    (Seq<char>, Seq<char>, Seq<char>),
> {
    match d {
        Some((a, b, c)) => Some((a@, b@, c@)),
        None => None,
    }
}

/// The result of a help listing holds exactly `groups`: the same categories
/// in the same order, each group's entries ordered by syntax.
pub open spec fn help_matches(
    r: Seq<(&'static str, Vec<(&'static str, &'static str)>)>,
    groups: Seq<(Seq<char>, Seq<(Seq<char>, Seq<char>)>)>,
) -> bool {
    &&& r.len() == groups.len()
    &&& forall|k: int|
        0 <= k < r.len() ==> {
            &&& (#[trigger] r[k]).0@ == groups[k].0
            &&& sorted_by_syntax(entries_view(r[k].1@))
            &&& entries_view(r[k].1@).to_multiset() == groups[k].1.to_multiset()
        }
}

/// Groups the described commands of `descs` by the categories of `order`,
/// each group ordered by syntax, and adds the `re` entry to the game
/// controls.
pub fn group_help(
    descs: &Vec<Option<(&'static str, &'static str, &'static str)>>,
    order: &Vec<&'static str>,
) -> (r: Vec<(&'static str, Vec<(&'static str, &'static str)>)>)
    ensures
        help_matches(
            r@,
            help_groups(
                descs@.map_values(|d: Option<(&'static str, &'static str, &'static str)>| desc_view(d)),
                order@.map_values(|c: &'static str| c@),
            ),
        ),
{
    let ghost dv = descs@.map_values(
        |d: Option<(&'static str, &'static str, &'static str)>| desc_view(d),
    );
    let ghost ov = order@.map_values(|c: &'static str| c@);
    let mut result: Vec<(&'static str, Vec<(&'static str, &'static str)>)> = Vec::new();
    let mut i: usize = 0;
    while i < order.len()
        invariant
            i <= order@.len(),
            dv == descs@.map_values(
                |d: Option<(&'static str, &'static str, &'static str)>| desc_view(d),
            ),
            ov == order@.map_values(|c: &'static str| c@),
            help_matches(result@, help_groups(dv, ov.take(i as int))),
        decreases order@.len() - i,
    {
        let cat = order[i];
        let mut cmds: Vec<(&'static str, &'static str)> = Vec::new();
        let mut j: usize = 0;
        proof {
            assert(dv.take(0) =~= seq![]);
            assert(entries_view(cmds@) =~= seq![]);
        }
        while j < descs.len()
            invariant
                j <= descs@.len(),
                dv == descs@.map_values(
                    |d: Option<(&'static str, &'static str, &'static str)>| desc_view(d),
                ),
                sorted_by_syntax(entries_view(cmds@)),
                entries_view(cmds@).to_multiset() == entries_in(dv.take(j as int), cat@).to_multiset(),
                entries_view(cmds@).len() == entries_in(dv.take(j as int), cat@).len(),
            decreases descs@.len() - j,
        {
            proof {
                assert(dv.take(j + 1).drop_last() =~= dv.take(j as int));
                assert(dv.take(j + 1).last() == desc_view(descs@[j as int]));
            }
            match descs[j] {
                Some((usage, desc, c)) => {
                    if crate::text::str_eq(c, cat) {
                        insert_sorted(&mut cmds, (usage, desc));
                    }
                },
                None => {},
            }
            j = j + 1;
        }
        proof {
            assert(dv.take(descs@.len() as int) =~= dv);
            assert(ov.take(i + 1).drop_last() =~= ov.take(i as int));
            assert(ov.take(i + 1).last() == cat@);
        }
        if cmds.len() > 0 {
            if crate::text::str_eq(cat, "🎮 遊戲控制") {
                insert_sorted(&mut cmds, ("re / repeat", "重複上一次的命令"));
            }
            let ghost before = result@;
            result.push((cat, cmds));
            proof {
                let g = help_groups(dv, ov.take(i + 1));
                assert forall|k: int| 0 <= k < result@.len() implies {
                    &&& (#[trigger] result@[k]).0@ == g[k].0
                    &&& sorted_by_syntax(entries_view(result@[k].1@))
                    &&& entries_view(result@[k].1@).to_multiset() == g[k].1.to_multiset()
                } by {
                    if k < before.len() {
                        assert(result@[k] == before[k]);
                    }
                }
            }
        }
        i = i + 1;
    }
    proof {
        assert(ov.take(order@.len() as int) =~= ov);
    }
    result
}

} // verus!
