//! Layering a configuration document over a base: the user's keys win, and
//! tables are merged key by key.

use vstd::prelude::*;

use crate::text::str_eq;

verus! {

/// A configuration document: tables of named entries, and leaves.
#[derive(Debug)]
pub enum Tree<L> {
    Table(Vec<(String, Tree<L>)>),
    Leaf(L),
}

/// The mathematical value of a [`Tree`].
pub enum TreeV<L> {
    Table(Seq<(Seq<char>, TreeV<L>)>),
    Leaf(L),
}

/// The entries of a table (none for a leaf).
pub open spec fn entries<L>(t: Tree<L>) -> Seq<(String, Tree<L>)> {
    match t {
        Tree::Table(es) => es@,
        Tree::Leaf(_) => Seq::empty(),
    }
}

/// The value of a tree.
pub open spec fn tree_view<L>(t: Tree<L>) -> TreeV<L>
    decreases t, entries(t).len() + 1,
{
    match t {
        Tree::Table(es) => TreeV::Table(entries_view(t, 0)),
        Tree::Leaf(l) => TreeV::Leaf(l),
    }
}

/// The values of the entries of table `t` from `i` on.
pub open spec fn entries_view<L>(t: Tree<L>, i: nat) -> Seq<(Seq<char>, TreeV<L>)>
    decreases t, entries(t).len() - i,
{
    if i >= entries(t).len() {
        Seq::empty()
    } else {
        proof {
            assert(decreases_to!(t => entries(t)[i as int].1));
        }
        seq![(entries(t)[i as int].0@, tree_view(entries(t)[i as int].1))] + entries_view(t, i + 1)
    }
}

/// The entries of a table value (none for a leaf).
pub open spec fn entries_v<L>(t: TreeV<L>) -> Seq<(Seq<char>, TreeV<L>)> {
    match t {
        TreeV::Table(es) => es,
        TreeV::Leaf(_) => Seq::empty(),
    }
}

/// Index of the first entry with key `k`.
pub open spec fn key_index<L>(es: Seq<(Seq<char>, TreeV<L>)>, k: Seq<char>) -> Option<int>
    decreases es.len(),
{
    if es.len() == 0 {
        None
    } else {
        match key_index(es.drop_last(), k) {
            Some(j) => Some(j),
            None => if es.last().0 == k {
                Some(es.len() - 1)
            } else {
                None
            },
        }
    }
}

/// `over` layered on `base`: two tables merge entry by entry, anything else
/// is replaced by `over`.
pub open spec fn spec_merge<L>(base: TreeV<L>, over: TreeV<L>) -> TreeV<L>
    decreases over, entries_v(over).len() + 1,
{
    match (base, over) {
        (TreeV::Table(b), TreeV::Table(o)) => TreeV::Table(merge_from(over, b, 0)),
        _ => over,
    }
}

/// `acc` with the entries of table `over` from `i` on merged in, in order:
/// an existing key gets the merged value, a new key is appended.
pub open spec fn merge_from<L>(over: TreeV<L>, acc: Seq<(Seq<char>, TreeV<L>)>, i: nat) -> Seq<(Seq<char>, TreeV<L>)>
    decreases over, entries_v(over).len() - i,
{
    if i >= entries_v(over).len() {
        acc
    } else {
        let (k, v) = entries_v(over)[i as int];
        proof {
            assert(decreases_to!(over => entries_v(over)[i as int].1));
        }
        let next = match key_index(acc, k) {
            Some(j) => acc.update(j, (k, spec_merge(acc[j].1, v))),
            None => acc.push((k, v)),
        };
        merge_from(over, next, i + 1)
    }
}

} // verus!

verus! {

/// The values of a list of entries.
pub open spec fn ventries<L>(es: Seq<(String, Tree<L>)>) -> Seq<(Seq<char>, TreeV<L>)> {
    es.map_values(|e: (String, Tree<L>)| (e.0@, tree_view(e.1)))
}

proof fn lemma_entries_view<L>(t: Tree<L>, i: nat)
    requires
        i <= entries(t).len(),
    ensures
        entries_view(t, i) == ventries(entries(t).skip(i as int)),
    decreases entries(t).len() - i,
{
    if i < entries(t).len() {
        lemma_entries_view(t, i + 1);
        assert(ventries(entries(t).skip(i as int)) =~= seq![
            (entries(t)[i as int].0@, tree_view(entries(t)[i as int].1)),
        ] + ventries(entries(t).skip(i as int + 1)));
    } else {
        assert(ventries(entries(t).skip(i as int)) =~= Seq::<(Seq<char>, TreeV<L>)>::empty());
    }
}

/// The value of a table is the values of its entries.
pub proof fn lemma_table_view<L>(es: Vec<(String, Tree<L>)>)
    ensures
        tree_view(Tree::Table(es)) == TreeV::<L>::Table(ventries(es@)),
{
    lemma_entries_view(Tree::Table(es), 0);
    assert(es@.skip(0) =~= es@);
}

pub proof fn lemma_key_index<L>(es: Seq<(Seq<char>, TreeV<L>)>, k: Seq<char>, j: int)
    requires
        0 <= j <= es.len(),
        forall|x: int| 0 <= x < j ==> #[trigger] es[x].0 != k,
        j < es.len() ==> es[j].0 == k,
    ensures
        key_index(es, k) == (if j < es.len() {
            Some(j)
        } else {
            None::<int>
        }),
    decreases es.len(),
{
    if es.len() > 0 {
        let d = es.drop_last();
        if j < es.len() - 1 {
            assert forall|x: int| 0 <= x < j implies #[trigger] d[x].0 != k by {
                assert(d[x] == es[x]);
            }
            assert(d[j] == es[j]);
            lemma_key_index(d, k, j);
        } else {
            assert forall|x: int| 0 <= x < d.len() implies #[trigger] d[x].0 != k by {
                assert(d[x] == es[x]);
            }
            lemma_key_index(d, k, d.len() as int);
        }
    }
}

/// Layer `over` on `base`: the user's keys win, tables merge key by key.
#[verifier::loop_isolation(false)]
pub fn deep_merge<L>(base: Tree<L>, over: Tree<L>) -> (r: Tree<L>)
    ensures
        tree_view(r) == spec_merge(tree_view(base), tree_view(over)),
    decreases over,
{
    let ghost over0 = over;
    let ghost base0 = base;
    match base {
        Tree::Table(b) => match over {
            Tree::Table(o) => {
                let ghost ov = tree_view(over0);
                let ghost o0 = o@;
                proof {
                    lemma_table_view(b);
                    lemma_table_view(o);
                }
                let n = o.len();
                let mut acc = b;
                let mut rest = o;
                let mut i: usize = 0;
                assert(o0.skip(0) =~= o0);
                while rest.len() > 0
                    invariant
                        i <= o0.len(),
                        o0.len() == n,
                        rest@ == o0.skip(i as int),
                        over0 == Tree::Table(o),
                        o@ == o0,
                        ov == tree_view(over0),
                        entries_v(ov) == ventries(o0),
                        merge_from(ov, ventries(acc@), i as nat) == merge_from(ov, entries_v(tree_view(base0)), 0),
                    decreases rest@.len(),
                {
                    let (k, v) = rest.remove(0);
                    proof {
                        assert(o0[i as int] == (k, v));
                        assert(rest@ =~= o0.skip(i + 1));
                        assert(decreases_to!(over0 => o));
                        assert(decreases_to!(o => o@));
                        assert(decreases_to!(o@ => o@[i as int]));
                        assert(decreases_to!(o@[i as int] => o@[i as int].1));
                        assert(decreases_to!(over0 => v));
                    }
                    let ghost av = ventries(acc@);
                    let mut j: usize = 0;
                    while j < acc.len() && !str_eq(acc[j].0.as_str(), k.as_str())
                        invariant
                            j <= acc@.len(),
                            av == ventries(acc@),
                            forall|x: int| 0 <= x < j ==> #[trigger] av[x].0 != k@,
                        decreases acc@.len() - j,
                    {
                        j = j + 1;
                    }
                    proof {
                        lemma_key_index(av, k@, j as int);
                        assert(entries_v(ov)[i as int] == (k@, tree_view(v)));
                    }
                    if j < acc.len() {
                        let (_, existing) = acc.remove(j);
                        let merged = deep_merge(existing, v);
                        acc.insert(j, (k, merged));
                        proof {
                            assert(ventries(acc@) =~= av.update(j as int, (k@, spec_merge(av[j as int].1, tree_view(v)))));
                        }
                    } else {
                        acc.push((k, v));
                        proof {
                            assert(ventries(acc@) =~= av.push((k@, tree_view(v))));
                        }
                    }
                    i = i + 1;
                }
                proof {
                    assert(i == o0.len());
                    lemma_table_view(acc);
                }
                Tree::Table(acc)
            },
            Tree::Leaf(l) => Tree::Leaf(l),
        },
        Tree::Leaf(l) => over,
    }
}


// ---------------------------------------------------------------------------
// The user's keys win
// ---------------------------------------------------------------------------

/// The value of the first entry with key `k`.
pub open spec fn lookup<L>(es: Seq<(Seq<char>, TreeV<L>)>, k: Seq<char>) -> Option<TreeV<L>> {
    match key_index(es, k) {
        Some(j) => Some(es[j].1),
        None => None,
    }
}

/// No key occurs twice.
pub open spec fn distinct_keys<L>(es: Seq<(Seq<char>, TreeV<L>)>) -> bool {
    forall|x: int, y: int| 0 <= x < y < es.len() ==> #[trigger] es[x].0 != #[trigger] es[y].0
}

/// What a key holds once `over` is layered on `base`: the base value where
/// the user sets nothing, the user's value where the base has none, and the
/// two merged where both do.
pub open spec fn layered<L>(base: Option<TreeV<L>>, over: Option<TreeV<L>>) -> Option<TreeV<L>> {
    match over {
        None => base,
        Some(v) => match base {
            Some(b) => Some(spec_merge(b, v)),
            None => Some(v),
        },
    }
}

/// `key_index` finds the first entry with the key.
proof fn lemma_key_index_first<L>(es: Seq<(Seq<char>, TreeV<L>)>, k: Seq<char>)
    ensures
        match key_index(es, k) {
            Some(j) => 0 <= j < es.len() && es[j].0 == k && forall|x: int| 0 <= x < j ==> #[trigger] es[x].0 != k,
            None => forall|x: int| 0 <= x < es.len() ==> #[trigger] es[x].0 != k,
        },
    decreases es.len(),
{
    if es.len() > 0 {
        let d = es.drop_last();
        lemma_key_index_first(d, k);
        assert forall|x: int| 0 <= x < d.len() implies d[x] == es[x] by {}
    }
}

/// The lookup in a sequence whose first entry is not `k` is the lookup in
/// the rest.
proof fn lemma_lookup_rest<L>(es: Seq<(Seq<char>, TreeV<L>)>, k: Seq<char>)
    requires
        es.len() > 0,
    ensures
        es[0].0 == k ==> lookup(es, k) == Some(es[0].1),
        es[0].0 != k ==> lookup(es, k) == lookup(es.skip(1), k),
{
    let t = es.skip(1);
    if es[0].0 == k {
        lemma_key_index(es, k, 0);
    } else {
        lemma_key_index_first(t, k);
        match key_index(t, k) {
            Some(j) => {
                assert forall|x: int| 0 <= x < j + 1 implies #[trigger] es[x].0 != k by {
                    if x > 0 {
                        assert(es[x] == t[x - 1]);
                    }
                }
                assert(es[j + 1] == t[j]);
                lemma_key_index(es, k, j + 1);
            },
            None => {
                assert forall|x: int| 0 <= x < es.len() implies #[trigger] es[x].0 != k by {
                    if x > 0 {
                        assert(es[x] == t[x - 1]);
                    }
                }
                lemma_key_index(es, k, es.len() as int);
            },
        }
    }
}

/// One merge step sets the value of `k` and leaves every other key alone.
proof fn lemma_merge_step<L>(acc: Seq<(Seq<char>, TreeV<L>)>, k: Seq<char>, v: TreeV<L>, q: Seq<char>)
    ensures
        ({
            let next = match key_index(acc, k) {
                Some(j) => acc.update(j, (k, spec_merge(acc[j].1, v))),
                None => acc.push((k, v)),
            };
            &&& q == k ==> lookup(next, q) == layered(lookup(acc, k), Some(v))
            &&& q != k ==> lookup(next, q) == lookup(acc, q)
        }),
{
    lemma_key_index_first(acc, k);
    lemma_key_index_first(acc, q);
    match key_index(acc, k) {
        Some(j) => {
            let next = acc.update(j, (k, spec_merge(acc[j].1, v)));
            assert forall|x: int| 0 <= x < acc.len() implies #[trigger] next[x].0 == acc[x].0 by {}
            if q == k {
                lemma_key_index(next, k, j);
            } else {
                match key_index(acc, q) {
                    Some(m) => {
                        assert(next[m] == acc[m]);
                        lemma_key_index(next, q, m);
                    },
                    None => lemma_key_index(next, q, next.len() as int),
                }
            }
        },
        None => {
            let next = acc.push((k, v));
            assert forall|x: int| 0 <= x < acc.len() implies #[trigger] next[x] == acc[x] by {}
            if q == k {
                lemma_key_index(next, k, acc.len() as int);
            } else {
                match key_index(acc, q) {
                    Some(m) => lemma_key_index(next, q, m),
                    None => lemma_key_index(next, q, next.len() as int),
                }
            }
        },
    }
}

/// Merging the entries of `over` from `i` on into `acc` gives each key its
/// layered value.
proof fn lemma_merge_from_lookup<L>(over: TreeV<L>, acc: Seq<(Seq<char>, TreeV<L>)>, i: nat, q: Seq<char>)
    requires
        i <= entries_v(over).len(),
        distinct_keys(entries_v(over)),
    ensures
        lookup(merge_from(over, acc, i), q) == layered(lookup(acc, q), lookup(entries_v(over).skip(i as int), q)),
    decreases entries_v(over).len() - i,
{
    let o = entries_v(over);
    let t = o.skip(i as int);
    if i < o.len() {
        let (k, v) = o[i as int];
        let next = match key_index(acc, k) {
            Some(j) => acc.update(j, (k, spec_merge(acc[j].1, v))),
            None => acc.push((k, v)),
        };
        lemma_merge_from_lookup(over, next, (i + 1) as nat, q);
        lemma_merge_step(acc, k, v, q);
        lemma_lookup_rest(t, q);
        assert(t[0] == o[i as int]);
        assert(t.skip(1) =~= o.skip(i as int + 1));
        if q == k {
            lemma_key_index_first(o.skip(i as int + 1), q);
            assert forall|x: int| 0 <= x < o.skip(i as int + 1).len() implies #[trigger] o.skip(i as int + 1)[x].0 != q by {
                assert(o.skip(i as int + 1)[x] == o[i as int + 1 + x]);
            }
            lemma_key_index(o.skip(i as int + 1), q, o.skip(i as int + 1).len() as int);
        }
    } else {
        lemma_key_index(t, q, 0);
    }
}

/// Law: the user's keys win. Layering a table `over` (whose keys are
/// distinct, as in any parsed document) on a table `base` gives each key its
/// base value when the user sets nothing, the user's value when the base
/// has none, and the two merged when both do; so a value the user sets that
/// is not a table replaces the base's, and base keys the user leaves alone
/// are kept.
pub proof fn law_user_keys_win<L>(base: Seq<(Seq<char>, TreeV<L>)>, over: Seq<(Seq<char>, TreeV<L>)>, k: Seq<char>)
    requires
        distinct_keys(over),
    ensures
        spec_merge(TreeV::Table(base), TreeV::Table(over)) matches TreeV::Table(r) && lookup(r, k) == layered(
            lookup(base, k),
            lookup(over, k),
        ),
        lookup(over, k) matches Some(TreeV::Leaf(l)) ==> (spec_merge(TreeV::Table(base), TreeV::Table(over))
            matches TreeV::Table(r) && lookup(r, k) == Some(TreeV::Leaf(l))),
        lookup(over, k) is None ==> (spec_merge(TreeV::Table(base), TreeV::Table(over)) matches TreeV::Table(r)
            && lookup(r, k) == lookup(base, k)),
{
    let ov = TreeV::Table(over);
    assert(over.skip(0) =~= over);
    lemma_merge_from_lookup(ov, base, 0, k);
}

} // verus!
