//! The directory-tree renderer: given a snapshot of a directory's entries, it
//! skips hidden names, sorts each level lexicographically with subdirectories
//! ahead of files, indents two spaces per depth level, and cuts recursion off
//! with a `...` placeholder past the depth limit.

use crate::text::{lemma_lex_le_total, lemma_lex_le_trans, lex_le, str_lex_le};
use vstd::prelude::*;

verus! {

/// A snapshot of one filesystem entry: its name, and for a directory the
/// entries found inside it.
pub enum FsTree {
    File { name: String },
    Dir { name: String, children: Vec<FsTree> },
}

/// The name of an entry.
pub open spec fn tree_name(t: FsTree) -> Seq<char> {
    match t {
        FsTree::File { name } => name@,
        FsTree::Dir { name, children } => name@,
    }
}

/// A name beginning with a dot marks a hidden entry.
pub open spec fn is_hidden_name(n: Seq<char>) -> bool {
    n.len() > 0 && n[0] == '.'
}

/// Whether the scan keeps this entry at a level: hidden entries are skipped,
/// and `dirs` selects between the subdirectory and the file partition.
pub open spec fn is_kept(t: FsTree, dirs: bool) -> bool {
    (t is Dir) == dirs && !is_hidden_name(tree_name(t))
}

/// The entries of a level that the scan keeps in one partition, in their
/// original order.
pub open spec fn visible_entries(cs: Seq<FsTree>, dirs: bool) -> Seq<FsTree>
    decreases cs.len(),
{
    if cs.len() == 0 {
        Seq::empty()
    } else {
        let rest = visible_entries(cs.drop_last(), dirs);
        if is_kept(cs.last(), dirs) {
            rest.push(cs.last())
        } else {
            rest
        }
    }
}

/// The subdirectories of a level that the scan keeps, in their original order.
pub open spec fn visible_dirs(cs: Seq<FsTree>) -> Seq<FsTree> {
    visible_entries(cs, true)
}

/// The files of a level that the scan keeps, in their original order.
pub open spec fn visible_files(cs: Seq<FsTree>) -> Seq<FsTree> {
    visible_entries(cs, false)
}

/// Inserts an entry behind every entry whose name is at most its own, the
/// step of a stable insertion sort by name.
pub open spec fn sorted_insert(s: Seq<FsTree>, x: FsTree) -> Seq<FsTree>
    decreases s.len(),
{
    if s.len() == 0 {
        seq![x]
    } else if lex_le(tree_name(s[0]), tree_name(x)) {
        seq![s[0]] + sorted_insert(s.drop_first(), x)
    } else {
        seq![x] + s
    }
}

/// Stable insertion sort of a level's entries by name.
pub open spec fn sort_by_name(s: Seq<FsTree>) -> Seq<FsTree>
    decreases s.len(),
{
    if s.len() == 0 {
        Seq::empty()
    } else {
        sorted_insert(sort_by_name(s.drop_last()), s.last())
    }
}

/// Names appear in lexicographically ascending order.
pub open spec fn sorted_by_name(s: Seq<FsTree>) -> bool {
    forall|i: int, j: int|
        0 <= i < j < s.len() ==> lex_le(tree_name(s[i]), tree_name(s[j]))
}

proof fn lemma_lex_le_refl(a: Seq<char>)
    ensures
        lex_le(a, a),
    decreases a.len(),
{
    if a.len() > 0 {
        lemma_lex_le_refl(a.drop_first());
    }
}

proof fn lemma_to_multiset_cons(e: FsTree, t: Seq<FsTree>)
    ensures
        (seq![e] + t).to_multiset() =~= t.to_multiset().insert(e),
{
    broadcast use vstd::multiset::group_multiset_axioms;

    let s = seq![e] + t;
    s.to_multiset_ensures();
    assert(s.remove(0) =~= t);
    assert(s[0] == e);
    assert(s.remove(0).to_multiset() =~= s.to_multiset().remove(e));
    assert(s.contains(e));
    assert(s.to_multiset().count(e) > 0);
    assert(t.to_multiset().insert(e) =~= s.to_multiset());
}

proof fn lemma_sorted_insert_multiset(s: Seq<FsTree>, x: FsTree)
    ensures
        sorted_insert(s, x).to_multiset() =~= s.to_multiset().insert(x),
    decreases s.len(),
{
    if s.len() == 0 {
        lemma_to_multiset_cons(x, s);
    } else if lex_le(tree_name(s[0]), tree_name(x)) {
        let rest = s.drop_first();
        lemma_sorted_insert_multiset(rest, x);
        lemma_to_multiset_cons(s[0], sorted_insert(rest, x));
        lemma_to_multiset_cons(s[0], rest);
        assert(seq![s[0]] + rest =~= s);
    } else {
        lemma_to_multiset_cons(x, s);
    }
}

proof fn lemma_sorted_insert_membership(s: Seq<FsTree>, x: FsTree, k: int)
    requires
        0 <= k < sorted_insert(s, x).len(),
    ensures
        sorted_insert(s, x)[k] == x || s.contains(sorted_insert(s, x)[k]),
{
    let out = sorted_insert(s, x);
    lemma_sorted_insert_multiset(s, x);
    out.to_multiset_ensures();
    s.to_multiset_ensures();
    assert(out.contains(out[k]));
    assert(out.to_multiset().count(out[k]) > 0);
    if out[k] != x {
        assert(s.to_multiset().count(out[k]) > 0);
    }
}

proof fn lemma_sorted_insert_sorted(s: Seq<FsTree>, x: FsTree)
    requires
        sorted_by_name(s),
    ensures
        sorted_by_name(sorted_insert(s, x)),
    decreases s.len(),
{
    let out = sorted_insert(s, x);
    if s.len() == 0 {
    } else if lex_le(tree_name(s[0]), tree_name(x)) {
        let rest = s.drop_first();
        assert(sorted_by_name(rest)) by {
            assert(forall|i: int, j: int|
                0 <= i < j < rest.len() ==> lex_le(tree_name(rest[i]), tree_name(rest[j])))
                by {
                assert(forall|i: int| 0 <= i < rest.len() ==> rest[i] == s[i + 1]);
            }
        }
        lemma_sorted_insert_sorted(rest, x);
        let inner = sorted_insert(rest, x);
        assert(out =~= seq![s[0]] + inner);
        assert forall|i: int, j: int| 0 <= i < j < out.len() implies lex_le(
            tree_name(out[i]),
            tree_name(out[j]),
        ) by {
            if i == 0 {
                lemma_sorted_insert_membership(rest, x, j - 1);
                assert(out[j] == inner[j - 1]);
                if inner[j - 1] == x {
                    assert(lex_le(tree_name(s[0]), tree_name(out[j])));
                } else {
                    let m = choose|m: int| 0 <= m < rest.len() && rest[m] == inner[j - 1];
                    assert(rest[m] == s[m + 1]);
                    lemma_lex_le_refl(tree_name(s[0]));
                    assert(lex_le(tree_name(s[0]), tree_name(s[m + 1])));
                }
            } else {
                assert(out[i] == inner[i - 1] && out[j] == inner[j - 1]);
            }
        }
    } else {
        lemma_lex_le_total(tree_name(s[0]), tree_name(x));
        assert(lex_le(tree_name(x), tree_name(s[0])));
        assert forall|i: int, j: int| 0 <= i < j < out.len() implies lex_le(
            tree_name(out[i]),
            tree_name(out[j]),
        ) by {
            if i == 0 {
                assert(out[j] == s[j - 1]);
                if j == 1 {
                } else {
                    lemma_lex_le_trans(tree_name(x), tree_name(s[0]), tree_name(s[j - 1]));
                }
            } else {
                assert(out[i] == s[i - 1] && out[j] == s[j - 1]);
            }
        }
    }
}

/// The sort of a level is ordered by name and keeps exactly the level's
/// entries.
pub proof fn lemma_sort_by_name_sorted(s: Seq<FsTree>)
    ensures
        sorted_by_name(sort_by_name(s)),
        sort_by_name(s).to_multiset() =~= s.to_multiset(),
    decreases s.len(),
{
    if s.len() == 0 {
        assert(s =~= Seq::<FsTree>::empty());
        s.to_multiset_ensures();
        assert(s.to_multiset().len() == 0);
        assert(sort_by_name(s).to_multiset() =~= s.to_multiset());
    } else {
        let dl = s.drop_last();
        lemma_sort_by_name_sorted(dl);
        lemma_sorted_insert_sorted(sort_by_name(dl), s.last());
        lemma_sorted_insert_multiset(sort_by_name(dl), s.last());
        dl.to_multiset_ensures();
        assert(dl.push(s.last()) =~= s);
        assert(dl.push(s.last()).to_multiset() =~= dl.to_multiset().insert(s.last()));
        assert(sort_by_name(s).to_multiset() =~= s.to_multiset());
    }
}

/// The entries behind a sequence of references.
pub open spec fn deref_trees(s: Seq<&FsTree>) -> Seq<FsTree> {
    s.map_values(|t: &FsTree| *t)
}

/// The name of an entry.
pub fn tree_name_ref<'a>(t: &'a FsTree) -> (r: &'a String)
    ensures
        r@ == tree_name(*t),
{
    match t {
        FsTree::File { name } => name,
        FsTree::Dir { name, children } => name,
    }
}

proof fn lemma_sorted_insert_at(s: Seq<FsTree>, x: FsTree, j: int)
    requires
        0 <= j <= s.len(),
        forall|k: int| 0 <= k < j ==> lex_le(tree_name(s[k]), tree_name(x)),
        j == s.len() || !lex_le(tree_name(s[j]), tree_name(x)),
    ensures
        sorted_insert(s, x) == s.take(j) + seq![x] + s.skip(j),
    decreases j,
{
    if j == 0 {
        if s.len() == 0 {
            assert(sorted_insert(s, x) =~= s.take(0) + seq![x] + s.skip(0));
        } else {
            assert(seq![x] + s =~= s.take(0) + seq![x] + s.skip(0));
        }
    } else {
        let rest = s.drop_first();
        assert(forall|k: int| 0 <= k < j - 1 ==> rest[k] == s[k + 1]);
        lemma_sorted_insert_at(rest, x, j - 1);
        assert(seq![s[0]] + (rest.take(j - 1) + seq![x] + rest.skip(j - 1)) =~= s.take(j)
            + seq![x] + s.skip(j));
    }
}

/// Stable insertion sort of a level's entries by name, as [`sort_by_name`]
/// states.
fn sort_tree_refs<'a>(v: Vec<&'a FsTree>) -> (r: Vec<&'a FsTree>)
    ensures
        deref_trees(r@) == sort_by_name(deref_trees(v@)),
{
    let mut out: Vec<&'a FsTree> = Vec::new();
    let mut i: usize = 0;
    proof {
        assert(deref_trees(out@) =~= Seq::<FsTree>::empty());
        assert(deref_trees(v@.take(0)) =~= Seq::<FsTree>::empty());
    }
    while i < v.len()
        invariant
            0 <= i <= v@.len(),
            deref_trees(out@) == sort_by_name(deref_trees(v@.take(i as int))),
        decreases v@.len() - i,
    {
        let x: &'a FsTree = v[i];
        let mut j: usize = 0;
        while j < out.len() && str_lex_le(tree_name_ref(out[j]).as_str(), tree_name_ref(x).as_str())
            invariant
                0 <= j <= out@.len(),
                forall|k: int|
                    0 <= k < j ==> lex_le(tree_name(deref_trees(out@)[k]), tree_name(*x)),
            decreases out@.len() - j,
        {
            j = j + 1;
        }
        proof {
            lemma_sorted_insert_at(deref_trees(out@), *x, j as int);
        }
        let ghost old_out = out@;
        out.insert(j, x);
        i = i + 1;
        proof {
            assert(deref_trees(out@) =~= deref_trees(old_out).take(j as int) + seq![*x]
                + deref_trees(old_out).skip(j as int));
            let prefix = deref_trees(v@.take(i - 1));
            let with_x = deref_trees(v@.take(i as int));
            assert(with_x =~= prefix.push(*x));
            assert(with_x.drop_last() =~= prefix);
            assert(with_x.last() == *x);
            assert(deref_trees(out@) == sorted_insert(sort_by_name(prefix), *x));
            assert(sort_by_name(with_x) == sorted_insert(sort_by_name(prefix), *x));
        }
    }
    proof {
        assert(v@.take(v@.len() as int) =~= v@);
    }
    out
}

/// Two spaces of indentation per depth level.
pub open spec fn indent_spec(depth: nat) -> Seq<char>
    decreases depth,
{
    if depth == 0 {
        Seq::empty()
    } else {
        indent_spec((depth - 1) as nat) + "  "@
    }
}

/// The line rendered for a subdirectory entry.
pub open spec fn dir_line(name: Seq<char>, depth: nat) -> Seq<char> {
    indent_spec(depth) + "📁 "@ + name + "/\n"@
}

/// The line rendered for a file entry.
pub open spec fn file_line(name: Seq<char>, depth: nat) -> Seq<char> {
    indent_spec(depth) + "📄 "@ + name + "\n"@
}

/// The rendering of a level's files, one line each.
pub open spec fn render_files(fs: Seq<FsTree>, depth: nat) -> Seq<char>
    decreases fs.len(),
{
    if fs.len() == 0 {
        Seq::empty()
    } else {
        file_line(tree_name(fs[0]), depth) + render_files(fs.drop_first(), depth)
    }
}

/// The rendering of a level's subdirectories: a line for each, followed by
/// the subdirectory's own rendering one level deeper, which is the `...`
/// placeholder once the depth limit is passed.
pub open spec fn render_dirs(ds: Seq<FsTree>, max_depth: nat, depth: nat) -> Seq<char>
    decreases max_depth - depth + 1, 0int, ds.len(),
{
    if ds.len() == 0 {
        Seq::empty()
    } else {
        dir_line(tree_name(ds[0]), depth) + (if depth < max_depth {
            render_tree(ds[0], max_depth, (depth + 1) as nat)
        } else {
            "..."@
        }) + render_dirs(ds.drop_first(), max_depth, depth)
    }
}

/// The full rendering of one entry at a depth: `...` past the depth limit,
/// nothing for a file, and for a directory the kept subdirectories in name
/// order followed by the kept files in name order.
pub open spec fn render_tree(t: FsTree, max_depth: nat, depth: nat) -> Seq<char>
    decreases max_depth - depth + 1, 1int, 0int,
{
    if depth > max_depth {
        "..."@
    } else {
        match t {
            FsTree::File { name } => Seq::empty(),
            FsTree::Dir { name, children } => render_dirs(
                sort_by_name(visible_dirs(children@)),
                max_depth,
                depth,
            ) + render_files(sort_by_name(visible_files(children@)), depth),
        }
    }
}

proof fn lemma_visible_entries_add(a: Seq<FsTree>, b: Seq<FsTree>, dirs: bool)
    ensures
        visible_entries(a + b, dirs) == visible_entries(a, dirs) + visible_entries(b, dirs),
    decreases b.len(),
{
    if b.len() == 0 {
        assert(a + b =~= a);
        assert(visible_entries(b, dirs) =~= Seq::<FsTree>::empty());
        assert(visible_entries(a, dirs) + visible_entries(b, dirs) =~= visible_entries(a, dirs));
    } else {
        lemma_visible_entries_add(a, b.drop_last(), dirs);
        assert((a + b).drop_last() =~= a + b.drop_last());
        assert((a + b).last() == b.last());
        if is_kept(b.last(), dirs) {
            assert((visible_entries(a, dirs) + visible_entries(b.drop_last(), dirs)).push(
                b.last(),
            ) =~= visible_entries(a, dirs) + visible_entries(b.drop_last(), dirs).push(b.last()));
        }
    }
}

/// Every entry that the scan keeps at a level is not hidden and belongs to
/// the partition it was kept in: no hidden name is ever rendered, at any
/// depth.
pub proof fn lemma_visible_entry_not_hidden(cs: Seq<FsTree>, dirs: bool, k: int)
    requires
        0 <= k < visible_entries(cs, dirs).len(),
    ensures
        !is_hidden_name(tree_name(visible_entries(cs, dirs)[k])),
        (visible_entries(cs, dirs)[k] is Dir) == dirs,
    decreases cs.len(),
{
    if cs.len() > 0 {
        let rest = visible_entries(cs.drop_last(), dirs);
        if is_kept(cs.last(), dirs) {
            if k < rest.len() {
                lemma_visible_entry_not_hidden(cs.drop_last(), dirs, k);
            }
        } else {
            lemma_visible_entry_not_hidden(cs.drop_last(), dirs, k);
        }
    }
}

/// Inserting a hidden entry anywhere into a level leaves both kept
/// partitions unchanged, so the rendering never includes it.
pub proof fn lemma_hidden_entry_ignored(cs: Seq<FsTree>, h: FsTree, i: int, dirs: bool)
    requires
        0 <= i <= cs.len(),
        is_hidden_name(tree_name(h)),
    ensures
        visible_entries(cs.insert(i, h), dirs) == visible_entries(cs, dirs),
{
    let a = cs.take(i);
    let b = cs.skip(i);
    assert(cs.insert(i, h) =~= (a + seq![h]) + b);
    lemma_visible_entries_add(a + seq![h], b, dirs);
    lemma_visible_entries_add(a, seq![h], dirs);
    assert(seq![h].drop_last() =~= Seq::<FsTree>::empty());
    assert(visible_entries(Seq::<FsTree>::empty(), dirs) =~= Seq::<FsTree>::empty());
    assert(!is_kept(h, dirs));
    assert(visible_entries(seq![h], dirs) =~= Seq::<FsTree>::empty());
    lemma_visible_entries_add(a, b, dirs);
    assert(a + b =~= cs);
    assert(visible_entries(a, dirs) + Seq::<FsTree>::empty() =~= visible_entries(a, dirs));
}

/// Every entry of a rendered partition came through the filter: it is of the
/// partition's kind, and its name is not hidden. With [`lemma_sort_by_name_sorted`],
/// each rendered level shows the kept subdirectories in name order, then the
/// kept files in name order, and nothing else.
pub proof fn lemma_scan_partitions(cs: Seq<FsTree>, dirs: bool, k: int)
    requires
        0 <= k < sort_by_name(visible_entries(cs, dirs)).len(),
    ensures
        (sort_by_name(visible_entries(cs, dirs))[k] is Dir) == dirs,
        !is_hidden_name(tree_name(sort_by_name(visible_entries(cs, dirs))[k])),
{
    let v = visible_entries(cs, dirs);
    let s = sort_by_name(v);
    lemma_sort_by_name_sorted(v);
    s.to_multiset_ensures();
    v.to_multiset_ensures();
    assert(s.contains(s[k]));
    assert(s.to_multiset().count(s[k]) > 0);
    assert(v.contains(s[k]));
    let i = choose|i: int| 0 <= i < v.len() && v[i] == s[k];
    lemma_visible_entry_not_hidden(cs, dirs, i);
}

/// Past the depth limit nothing of a subtree is rendered, only the literal
/// placeholder: with `max_depth` of zero no grandchild can appear.
pub proof fn lemma_depth_cutoff(t: FsTree, max_depth: nat, depth: nat)
    requires
        depth > max_depth,
    ensures
        render_tree(t, max_depth, depth) == "..."@,
{
}

/// Two levels agree in shape: entry for entry the same names and the same
/// kinds, whatever the subtrees hold.
pub open spec fn same_shape(a: Seq<FsTree>, b: Seq<FsTree>) -> bool {
    a.len() == b.len() && (forall|k: int|
        0 <= k < a.len() ==> tree_name(#[trigger] a[k]) == tree_name(b[k]) && ((a[k] is Dir) == (
        b[k] is Dir)))
}

proof fn lemma_visible_same_shape(a: Seq<FsTree>, b: Seq<FsTree>, dirs: bool)
    requires
        same_shape(a, b),
    ensures
        same_shape(visible_entries(a, dirs), visible_entries(b, dirs)),
    decreases a.len(),
{
    if a.len() > 0 {
        assert(same_shape(a.drop_last(), b.drop_last()));
        lemma_visible_same_shape(a.drop_last(), b.drop_last(), dirs);
        assert(tree_name(a.last()) == tree_name(b.last()));
        assert(is_kept(a.last(), dirs) == is_kept(b.last(), dirs));
        if is_kept(a.last(), dirs) {
            let va = visible_entries(a.drop_last(), dirs).push(a.last());
            let vb = visible_entries(b.drop_last(), dirs).push(b.last());
            assert forall|k: int| 0 <= k < va.len() implies tree_name(#[trigger] va[k])
                == tree_name(vb[k]) && ((va[k] is Dir) == (vb[k] is Dir)) by {
                if k < va.len() - 1 {
                    assert(va[k] == visible_entries(a.drop_last(), dirs)[k]);
                    assert(vb[k] == visible_entries(b.drop_last(), dirs)[k]);
                }
            }
        }
    }
}

proof fn lemma_sorted_insert_same_shape(s: Seq<FsTree>, t: Seq<FsTree>, x: FsTree, y: FsTree)
    requires
        same_shape(s, t),
        tree_name(x) == tree_name(y),
        (x is Dir) == (y is Dir),
    ensures
        same_shape(sorted_insert(s, x), sorted_insert(t, y)),
    decreases s.len(),
{
    if s.len() == 0 {
        assert(same_shape(seq![x], seq![y]));
    } else if lex_le(tree_name(s[0]), tree_name(x)) {
        assert(same_shape(s.drop_first(), t.drop_first()));
        lemma_sorted_insert_same_shape(s.drop_first(), t.drop_first(), x, y);
        let ia = seq![s[0]] + sorted_insert(s.drop_first(), x);
        let ib = seq![t[0]] + sorted_insert(t.drop_first(), y);
        assert forall|k: int| 0 <= k < ia.len() implies tree_name(#[trigger] ia[k]) == tree_name(
            ib[k],
        ) && ((ia[k] is Dir) == (ib[k] is Dir)) by {
            if k > 0 {
                assert(ia[k] == sorted_insert(s.drop_first(), x)[k - 1]);
                assert(ib[k] == sorted_insert(t.drop_first(), y)[k - 1]);
            }
        }
    } else {
        assert(same_shape(seq![x] + s, seq![y] + t));
    }
}

proof fn lemma_sort_same_shape(a: Seq<FsTree>, b: Seq<FsTree>)
    requires
        same_shape(a, b),
    ensures
        same_shape(sort_by_name(a), sort_by_name(b)),
    decreases a.len(),
{
    if a.len() > 0 {
        assert(same_shape(a.drop_last(), b.drop_last()));
        lemma_sort_same_shape(a.drop_last(), b.drop_last());
        lemma_sorted_insert_same_shape(
            sort_by_name(a.drop_last()),
            sort_by_name(b.drop_last()),
            a.last(),
            b.last(),
        );
    }
}

proof fn lemma_render_files_same_shape(fa: Seq<FsTree>, fb: Seq<FsTree>, depth: nat)
    requires
        same_shape(fa, fb),
    ensures
        render_files(fa, depth) == render_files(fb, depth),
    decreases fa.len(),
{
    if fa.len() > 0 {
        assert(same_shape(fa.drop_first(), fb.drop_first()));
        lemma_render_files_same_shape(fa.drop_first(), fb.drop_first(), depth);
    }
}

proof fn lemma_render_dirs_at_limit_same_shape(da: Seq<FsTree>, db: Seq<FsTree>, m: nat)
    requires
        same_shape(da, db),
    ensures
        render_dirs(da, m, m) == render_dirs(db, m, m),
    decreases da.len(),
{
    if da.len() > 0 {
        assert(same_shape(da.drop_first(), db.drop_first()));
        lemma_render_dirs_at_limit_same_shape(da.drop_first(), db.drop_first(), m);
    }
}

/// At the depth limit the rendering of a level reads only the names and
/// kinds of the immediate children: the subtrees below them have no
/// influence. With a depth limit of zero, in particular, no grandchild name
/// can appear in the output.
pub proof fn lemma_scan_at_limit_ignores_subtrees(cs1: Seq<FsTree>, cs2: Seq<FsTree>, m: nat)
    requires
        same_shape(cs1, cs2),
    ensures
        render_dirs(sort_by_name(visible_dirs(cs1)), m, m) == render_dirs(
            sort_by_name(visible_dirs(cs2)),
            m,
            m,
        ),
        render_files(sort_by_name(visible_files(cs1)), m) == render_files(
            sort_by_name(visible_files(cs2)),
            m,
        ),
{
    lemma_visible_same_shape(cs1, cs2, true);
    lemma_sort_same_shape(visible_entries(cs1, true), visible_entries(cs2, true));
    lemma_render_dirs_at_limit_same_shape(
        sort_by_name(visible_dirs(cs1)),
        sort_by_name(visible_dirs(cs2)),
        m,
    );
    lemma_visible_same_shape(cs1, cs2, false);
    lemma_sort_same_shape(visible_entries(cs1, false), visible_entries(cs2, false));
    lemma_render_files_same_shape(
        sort_by_name(visible_files(cs1)),
        sort_by_name(visible_files(cs2)),
        m,
    );
}

/// Whether an entry's name marks it as hidden.
pub fn name_is_hidden(name: &String) -> (r: bool)
    ensures
        r == is_hidden_name(name@),
{
    if name.as_str().is_empty() {
        false
    } else {
        name.as_str().get_char(0) == '.'
    }
}

fn indent(depth: usize) -> (r: String)
    ensures
        r@ == indent_spec(depth as nat),
{
    let mut s = String::new();
    let mut i: usize = 0;
    while i < depth
        invariant
            0 <= i <= depth,
            s@ == indent_spec(i as nat),
        decreases depth - i,
    {
        s.append("  ");
        i = i + 1;
    }
    s
}

/// Renders the snapshot of a directory tree, as [`render_tree`] states: at
/// each level hidden entries are skipped and subdirectories come before
/// files, each partition sorted by name; past `max_depth` the rendering is
/// the literal `...` placeholder.
pub fn scan_directory(tree: &FsTree, max_depth: usize, current_depth: usize) -> (r: String)
    ensures
        r@ == render_tree(*tree, max_depth as nat, current_depth as nat),
    decreases max_depth - current_depth,
{
    if current_depth > max_depth {
        return String::from_str("...");
    }
    match tree {
        FsTree::File { name } => String::new(),
        FsTree::Dir { name, children } => {
            let ghost cs = children@;
            let mut dirs: Vec<&FsTree> = Vec::new();
            let mut files: Vec<&FsTree> = Vec::new();
            let mut i: usize = 0;
            proof {
                assert(deref_trees(dirs@) =~= visible_entries(cs.take(0), true));
                assert(deref_trees(files@) =~= visible_entries(cs.take(0), false));
            }
            while i < children.len()
                invariant
                    0 <= i <= cs.len(),
                    cs == children@,
                    deref_trees(dirs@) == visible_entries(cs.take(i as int), true),
                    deref_trees(files@) == visible_entries(cs.take(i as int), false),
                decreases cs.len() - i,
            {
                let c = &children[i];
                let ghost old_dirs = dirs@;
                let ghost old_files = files@;
                if !name_is_hidden(tree_name_ref(c)) {
                    match c {
                        FsTree::Dir { .. } => dirs.push(c),
                        FsTree::File { .. } => files.push(c),
                    }
                }
                i = i + 1;
                proof {
                    let t = cs.take(i as int);
                    assert(t.drop_last() =~= cs.take(i - 1));
                    assert(t.last() == cs[i - 1]);
                    assert(deref_trees(dirs@) =~= if is_kept(cs[i - 1], true) {
                        deref_trees(old_dirs).push(cs[i - 1])
                    } else {
                        deref_trees(old_dirs)
                    });
                    assert(deref_trees(files@) =~= if is_kept(cs[i - 1], false) {
                        deref_trees(old_files).push(cs[i - 1])
                    } else {
                        deref_trees(old_files)
                    });
                }
            }
            proof {
                assert(cs.take(cs.len() as int) =~= cs);
            }
            let sorted_dirs = sort_tree_refs(dirs);
            let sorted_files = sort_tree_refs(files);
            let ghost ds = deref_trees(sorted_dirs@);
            let ghost fs = deref_trees(sorted_files@);
            let ind = indent(current_depth);
            let ghost m = max_depth as nat;
            let ghost d = current_depth as nat;
            let mut out = String::new();
            let mut k: usize = 0;
            proof {
                assert(ds.skip(0) =~= ds);
                assert(out@ + render_dirs(ds, m, d) =~= render_dirs(ds, m, d));
            }
            while k < sorted_dirs.len()
                invariant
                    0 <= k <= ds.len(),
                    ds.len() == sorted_dirs@.len(),
                    ds == deref_trees(sorted_dirs@),
                    ind@ == indent_spec(d),
                    current_depth <= max_depth,
                    m == max_depth as nat,
                    d == current_depth as nat,
                    render_dirs(ds, m, d) == out@ + render_dirs(ds.skip(k as int), m, d),
                decreases ds.len() - k,
            {
                let dir_entry: &FsTree = sorted_dirs[k];
                let ghost before = out@;
                out.append(ind.as_str());
                out.append("📁 ");
                out.append(tree_name_ref(dir_entry).as_str());
                out.append("/\n");
                let sub = if current_depth < max_depth {
                    scan_directory(dir_entry, max_depth, current_depth + 1)
                } else {
                    String::from_str("...")
                };
                out.append(sub.as_str());
                k = k + 1;
                proof {
                    let tail = ds.skip(k - 1);
                    assert(tail[0] == ds[k - 1]);
                    assert(tail.drop_first() =~= ds.skip(k as int));
                    assert(ds[k - 1] == *dir_entry);
                    assert(out@ =~= before + dir_line(tree_name(*dir_entry), d) + sub@);
                    assert(render_dirs(tail, m, d) == dir_line(tree_name(tail[0]), d) + (if d
                        < m {
                        render_tree(tail[0], m, (d + 1) as nat)
                    } else {
                        "..."@
                    }) + render_dirs(tail.drop_first(), m, d));
                    assert(sub@ == if d < m {
                        render_tree(ds[k - 1], m, (d + 1) as nat)
                    } else {
                        "..."@
                    });
                    assert(before + render_dirs(tail, m, d) =~= out@ + render_dirs(
                        ds.skip(k as int),
                        m,
                        d,
                    ));
                }
            }
            proof {
                assert(ds.skip(ds.len() as int) =~= Seq::<FsTree>::empty());
                assert(render_dirs(ds, m, d) == out@);
            }
            let mut k2: usize = 0;
            proof {
                assert(fs.skip(0) =~= fs);
                assert(out@ + render_files(fs, d) =~= render_dirs(ds, m, d) + render_files(fs, d));
            }
            while k2 < sorted_files.len()
                invariant
                    0 <= k2 <= fs.len(),
                    fs.len() == sorted_files@.len(),
                    fs == deref_trees(sorted_files@),
                    ind@ == indent_spec(d),
                    d == current_depth as nat,
                    render_dirs(ds, m, d) + render_files(fs, d) == out@ + render_files(
                        fs.skip(k2 as int),
                        d,
                    ),
                decreases fs.len() - k2,
            {
                let file_entry: &FsTree = sorted_files[k2];
                let ghost before = out@;
                out.append(ind.as_str());
                out.append("📄 ");
                out.append(tree_name_ref(file_entry).as_str());
                out.append("\n");
                k2 = k2 + 1;
                proof {
                    let tail = fs.skip(k2 - 1);
                    assert(tail[0] == fs[k2 - 1]);
                    assert(tail.drop_first() =~= fs.skip(k2 as int));
                    assert(fs[k2 - 1] == *file_entry);
                    assert(out@ =~= before + file_line(tree_name(*file_entry), d));
                    assert(render_files(tail, d) == file_line(tree_name(tail[0]), d)
                        + render_files(tail.drop_first(), d));
                    assert(before + render_files(tail, d) =~= out@ + render_files(
                        fs.skip(k2 as int),
                        d,
                    ));
                }
            }
            proof {
                assert(fs.skip(fs.len() as int) =~= Seq::<FsTree>::empty());
                assert(out@ =~= render_dirs(ds, m, d) + render_files(fs, d));
            }
            out
        },
    }
}

} // verus!
