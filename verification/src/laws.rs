//! Laws of the generator, proved once and for all: determinism of the file
//! set, the shape of variant unions and their case tags, the two renderings
//! of `option`, and the typed-array specialization of lists.

use vstd::prelude::*;

verus! {

use crate::driver::sp_generate;
use crate::emit::sp_case_block;
use crate::emit::sp_arms;
use crate::graph::Case;
use crate::graph::Graph;
use crate::graph::Ty;
use crate::graph::World;
use crate::names::sp_pascal;
use crate::printer::sp_is_opt;
use crate::printer::sp_print_ty;
use crate::text::sp_contains;

/// Generation is deterministic: any two file lists that satisfy the
/// contract of `generate` for the same graph and world are byte-identical,
/// file for file.
pub proof fn lemma_generate_deterministic(
    g: Graph,
    w: World,
    r1: Seq<(String, String)>,
    r2: Seq<(String, String)>,
)
    requires
        r1.len() == sp_generate(g, w).len(),
        forall|i: int|
            0 <= i < r1.len() ==> (#[trigger] r1[i]).0@ == sp_generate(g, w)[i].0 && r1[i].1@
                == sp_generate(g, w)[i].1,
        r2.len() == sp_generate(g, w).len(),
        forall|i: int|
            0 <= i < r2.len() ==> (#[trigger] r2[i]).0@ == sp_generate(g, w)[i].0 && r2[i].1@
                == sp_generate(g, w)[i].1,
    ensures
        r1.len() == r2.len(),
        forall|i: int|
            0 <= i < r1.len() ==> (#[trigger] r1[i]).0@ == r2[i].0@ && r1[i].1@ == r2[i].1@,
{
}

/// The union arm names of a variant, one per case in case order.
pub open spec fn sp_arm_list(name: Seq<char>, cs: Vec<Case>) -> Seq<Seq<char>> {
    Seq::new(cs.len() as nat, |i: int| sp_pascal(name) + sp_pascal(cs[i].name@))
}

/// Arm names joined with ` | `.
pub open spec fn sp_join_arms(l: Seq<Seq<char>>) -> Seq<char>
    decreases l.len(),
{
    if l.len() == 0 {
        Seq::empty()
    } else {
        l[0] + (if l.len() > 1 {
            " | "@
        } else {
            Seq::empty()
        }) + sp_join_arms(l.drop_first())
    }
}

proof fn lemma_arms_join_from(name: Seq<char>, cs: Vec<Case>, i: int)
    requires
        0 <= i <= cs.len(),
    ensures
        sp_arms(name, cs, i) == sp_join_arms(sp_arm_list(name, cs).skip(i)),
    decreases cs.len() - i,
{
    let l = sp_arm_list(name, cs);
    if i == cs.len() {
        assert(l.skip(i) =~= Seq::<Seq<char>>::empty());
    } else {
        lemma_arms_join_from(name, cs, i + 1);
        assert(l.skip(i).drop_first() =~= l.skip(i + 1));
        assert(l.skip(i)[0] == l[i]);
        assert(l.skip(i).len() == cs.len() - i);
        assert(sp_arms(name, cs, i) =~= sp_join_arms(l.skip(i)));
    }
}

/// A variant's union is the join of exactly one arm per case: the arm list
/// has the length of the case list, arm `i` is the projected variant name
/// followed by the projected name of case `i`, and the rendered union is
/// their ` | `-separated join.
pub proof fn lemma_variant_one_arm_per_case(name: Seq<char>, cs: Vec<Case>)
    ensures
        sp_arm_list(name, cs).len() == cs.len(),
        forall|i: int|
            0 <= i < cs.len() ==> sp_arm_list(name, cs)[i] == sp_pascal(name) + sp_pascal(
                #[trigger] cs[i].name@,
            ),
        sp_arms(name, cs, 0) == sp_join_arms(sp_arm_list(name, cs)),
{
    lemma_arms_join_from(name, cs, 0);
    assert(sp_arm_list(name, cs).skip(0) =~= sp_arm_list(name, cs));
}

/// Every rendered case interface carries the raw WIT case name as its `tag`
/// literal.
pub proof fn lemma_case_tag_is_raw_name(
    g: Graph,
    wm: bool,
    name: Seq<char>,
    c: Case,
    ind: Seq<char>,
)
    ensures
        sp_contains(sp_case_block(g, wm, name, c, ind), "tag: '"@ + c.name@ + "'"@),
{
    let block = sp_case_block(g, wm, name, c, ind);
    let pat = "tag: '"@ + c.name@ + "'"@;
    reveal_strlit("  tag: '");
    reveal_strlit("tag: '");
    reveal_strlit("  ");
    reveal_strlit("',\n");
    reveal_strlit("'");
    reveal_strlit(",\n");
    let pre = ind + "export interface "@ + sp_pascal(name) + sp_pascal(c.name@) + " {\n"@ + ind
        + "  "@;
    let suf = ",\n"@ + (match c.payload {
        Some(t) => ind + "  val: "@ + sp_print_ty(g, wm, t, false) + ",\n"@,
        None => Seq::<char>::empty(),
    }) + ind + "}\n"@;
    assert("  tag: '"@ =~= "  "@ + "tag: '"@);
    assert("',\n"@ =~= "'"@ + ",\n"@);
    assert(block =~= pre + pat + suf);
    let k = pre.len() as int;
    assert(block.subrange(k, k + pat.len()) =~= pat);
    assert(0 <= k <= block.len() - pat.len());
}

/// The two renderings of `option<T>`: at a function parameter, function
/// result or record field (`top`), a single option is `T | undefined`;
/// nested inside another generic it is `Option<T | undefined>`; and a
/// directly nested `option<option<U>>` is `Option<...>` in every position.
pub proof fn lemma_option_projection(g: Graph, wm: bool, ty: Ty)
    ensures
        ty matches Ty::Opt(t) ==> {
            &&& !sp_is_opt(*t) ==> sp_print_ty(g, wm, ty, true) == sp_print_ty(g, wm, *t, true)
                + " | undefined"@
            &&& !sp_is_opt(*t) ==> sp_print_ty(g, wm, ty, false) == "Option<"@ + sp_print_ty(
                g,
                wm,
                *t,
                true,
            ) + " | undefined>"@
            &&& sp_is_opt(*t) ==> sp_print_ty(g, wm, ty, true) == "Option<"@ + sp_print_ty(
                g,
                wm,
                *t,
                true,
            ) + ">"@ && sp_print_ty(g, wm, ty, false) == "Option<"@ + sp_print_ty(g, wm, *t, true)
                + ">"@
        },
{
}

/// `list<u8>` renders as `Uint8Array` and `list<string>` as `string[]`, in
/// every position and in both emission modes.
pub proof fn lemma_list_specializations(g: Graph, wm: bool, ty: Ty, top: bool)
    ensures
        ty matches Ty::List(t) ==> {
            &&& *t == Ty::U8 ==> sp_print_ty(g, wm, ty, top) == "Uint8Array"@
            &&& *t == Ty::Str ==> sp_print_ty(g, wm, ty, top) == "string"@ + "[]"@
        },
{
    match ty {
        Ty::List(t) => {
            if *t == Ty::U8 {
                assert(crate::printer::sp_resolve(g, *t, g.typedefs.len() as nat) == Ty::U8);
            }
            if *t == Ty::Str {
                assert(crate::printer::sp_resolve(g, *t, g.typedefs.len() as nat) == Ty::Str);
                assert(sp_print_ty(g, wm, *t, false) == "string"@);
            }
        },
        _ => {},
    }
}


/// The number of marked entries.
pub open spec fn sp_count(s: Seq<bool>) -> nat
    decreases s.len(),
{
    if s.len() == 0 {
        0
    } else {
        (if s[0] {
            1nat
        } else {
            0nat
        }) + sp_count(s.drop_first())
    }
}

proof fn lemma_count_le_len(s: Seq<bool>)
    ensures
        sp_count(s) <= s.len(),
    decreases s.len(),
{
    if s.len() > 0 {
        lemma_count_le_len(s.drop_first());
    }
}

proof fn lemma_count_mono(s: Seq<bool>, t: Seq<bool>)
    requires
        s.len() == t.len(),
        forall|i: int| 0 <= i < s.len() ==> (s[i] ==> #[trigger] t[i]),
    ensures
        sp_count(s) <= sp_count(t),
    decreases s.len(),
{
    if s.len() > 0 {
        assert forall|i: int| 0 <= i < s.drop_first().len() implies (s.drop_first()[i]
            ==> #[trigger] t.drop_first()[i]) by {
            assert(s.drop_first()[i] == s[i + 1]);
            assert(t.drop_first()[i] == t[i + 1]);
        }
        lemma_count_mono(s.drop_first(), t.drop_first());
    }
}

proof fn lemma_count_strict(s: Seq<bool>, t: Seq<bool>, i0: int)
    requires
        s.len() == t.len(),
        forall|i: int| 0 <= i < s.len() ==> (s[i] ==> #[trigger] t[i]),
        0 <= i0 < s.len(),
        !s[i0],
        t[i0],
    ensures
        sp_count(s) < sp_count(t),
    decreases s.len(),
{
    assert forall|i: int| 0 <= i < s.drop_first().len() implies (s.drop_first()[i]
        ==> #[trigger] t.drop_first()[i]) by {
        assert(s.drop_first()[i] == s[i + 1]);
        assert(t.drop_first()[i] == t[i + 1]);
    }
    if i0 == 0 {
        lemma_count_mono(s.drop_first(), t.drop_first());
    } else {
        assert(s.drop_first()[i0 - 1] == s[i0]);
        assert(t.drop_first()[i0 - 1] == t[i0]);
        lemma_count_strict(s.drop_first(), t.drop_first(), i0 - 1);
    }
}

proof fn lemma_step_stable(g: Graph, s: Seq<bool>, k: nat)
    requires
        crate::driver::sp_step(g, s) == s,
    ensures
        crate::driver::sp_reach(g, s, k) == s,
    decreases k,
{
    if k > 0 {
        lemma_step_stable(g, s, (k - 1) as nat);
    }
}

proof fn lemma_reach_fixpoint(g: Graph, s: Seq<bool>, k: nat)
    requires
        k + sp_count(s) >= s.len(),
    ensures
        crate::driver::sp_step(g, crate::driver::sp_reach(g, s, k)) == crate::driver::sp_reach(
            g,
            s,
            k,
        ),
        crate::driver::sp_reach(g, s, k).len() == s.len(),
    decreases k,
{
    let t = crate::driver::sp_step(g, s);
    assert(t.len() == s.len());
    assert(forall|i: int| 0 <= i < s.len() ==> (s[i] ==> #[trigger] t[i]));
    if t =~= s {
        lemma_step_stable(g, s, k);
    } else {
        assert(exists|i: int| 0 <= i < s.len() && s[i] != #[trigger] t[i]) by {
            if forall|i: int| 0 <= i < s.len() ==> s[i] == #[trigger] t[i] {
                assert(t =~= s);
            }
        }
        let i0 = choose|i: int| 0 <= i < s.len() && s[i] != #[trigger] t[i];
        lemma_count_strict(s, t, i0);
        lemma_count_le_len(t);
        lemma_reach_fixpoint(g, t, (k - 1) as nat);
    }
}

proof fn lemma_mark_exported_len(g: Graph, items: Vec<crate::graph::WorldItem>, k: int, acc: Seq<bool>)
    ensures
        crate::driver::sp_mark_exported(g, items, k, acc).len() == acc.len(),
    decreases items.len() - k,
{
    if 0 <= k < items.len() {
        match items[k].kind {
            crate::graph::WorldItemKind::Iface(id) => {
                if id < acc.len() {
                    lemma_mark_exported_len(g, items, k + 1, acc.update(id as int, true));
                } else {
                    lemma_mark_exported_len(g, items, k + 1, acc);
                }
            },
            crate::graph::WorldItemKind::Func(_) => {
                lemma_mark_exported_len(g, items, k + 1, acc);
            },
        }
    }
}

proof fn lemma_mark_owner_list_len(os: Seq<usize>, m: int, exported: Seq<bool>, acc: Seq<bool>)
    ensures
        crate::driver::sp_mark_owner_list(os, m, exported, acc).len() == acc.len(),
    decreases os.len() - m,
{
    if 0 <= m < os.len() {
        if os[m] < acc.len() && os[m] < exported.len() && !exported[os[m] as int] {
            lemma_mark_owner_list_len(os, m + 1, exported, acc.update(os[m] as int, true));
        } else {
            lemma_mark_owner_list_len(os, m + 1, exported, acc);
        }
    }
}

proof fn lemma_seed_exports_len(
    g: Graph,
    items: Vec<crate::graph::WorldItem>,
    k: int,
    exported: Seq<bool>,
    acc: Seq<bool>,
)
    ensures
        crate::driver::sp_seed_exports(g, items, k, exported, acc).len() == acc.len(),
    decreases items.len() - k,
{
    if 0 <= k < items.len() {
        lemma_mark_owner_list_len(
            crate::driver::sp_item_owners(g, items[k]),
            0,
            exported,
            acc,
        );
        lemma_seed_exports_len(
            g,
            items,
            k + 1,
            exported,
            crate::driver::sp_mark_owner_list(
                crate::driver::sp_item_owners(g, items[k]),
                0,
                exported,
                acc,
            ),
        );
    }
}

proof fn lemma_mark_imports_len(g: Graph, items: Vec<crate::graph::WorldItem>, k: int, acc: Seq<bool>)
    ensures
        crate::driver::sp_mark_imports(g, items, k, acc).len() == acc.len(),
    decreases items.len() - k,
{
    if 0 <= k < items.len() {
        match items[k].kind {
            crate::graph::WorldItemKind::Iface(id) => {
                if id < acc.len() {
                    lemma_mark_imports_len(g, items, k + 1, acc.update(id as int, true));
                } else {
                    lemma_mark_imports_len(g, items, k + 1, acc);
                }
            },
            crate::graph::WorldItemKind::Func(_) => {
                lemma_mark_imports_len(g, items, k + 1, acc);
            },
        }
    }
}

proof fn lemma_seeds_len(g: Graph, w: World)
    ensures
        crate::driver::sp_seeds(g, w).len() == g.interfaces.len(),
{
    let n = g.interfaces.len() as nat;
    lemma_seed_exports_len(
        g,
        w.exports,
        0,
        crate::driver::sp_exported(g, w),
        crate::driver::sp_falses(n),
    );
    lemma_mark_imports_len(
        g,
        w.imports,
        0,
        crate::driver::sp_seed_exports(
            g,
            w.exports,
            0,
            crate::driver::sp_exported(g, w),
            crate::driver::sp_falses(n),
        ),
    );
}

/// The emit set is closed under cross references: whatever an emitted
/// interface mentions is emitted too.
pub proof fn lemma_emit_set_closed(g: Graph, w: World, i: usize, o: usize)
    requires
        i < g.interfaces.len(),
        crate::driver::sp_emit_set(g, w)[i as int],
        crate::driver::sp_mentions(g, i as int).contains(o),
        o < g.interfaces.len(),
    ensures
        crate::driver::sp_emit_set(g, w)[o as int],
{
    let seeds = crate::driver::sp_seeds(g, w);
    let n = g.interfaces.len() as nat;
    lemma_seeds_len(g, w);
    lemma_reach_fixpoint(g, seeds, n);
    let e = crate::driver::sp_emit_set(g, w);
    assert(e.len() == g.interfaces.len());
    assert(crate::driver::sp_mentions(g, i as int).contains((o as int) as usize));
    assert(0 <= (i as int) && (i as int) < e.len() && e[i as int] && crate::driver::sp_mentions(
        g,
        i as int,
    ).contains((o as int) as usize));
    assert(crate::driver::sp_step(g, e)[o as int]);
}

proof fn lemma_insert_tid_mem(g: Graph, x: usize, s: Seq<usize>, y: usize)
    requires
        crate::modfile::sp_insert_tid(g, x, s).contains(y),
    ensures
        y == x || s.contains(y),
    decreases s.len(),
{
    let r = crate::modfile::sp_insert_tid(g, x, s);
    if s.len() == 0 {
        assert(r =~= seq![x]);
    } else if crate::modfile::sp_tid_same(g, x, s[0]) {
    } else if crate::modfile::sp_tid_le(g, x, s[0]) {
        let k = choose|k: int| 0 <= k < r.len() && r[k] == y;
        if k >= 1 {
            assert(s[k - 1] == y);
        }
    } else {
        let k = choose|k: int| 0 <= k < r.len() && r[k] == y;
        if k == 0 {
            assert(s[0] == y);
        } else {
            assert(crate::modfile::sp_insert_tid(g, x, s.drop_first())[k - 1] == y);
            lemma_insert_tid_mem(g, x, s.drop_first(), y);
            if s.drop_first().contains(y) {
                let m = choose|m: int| 0 <= m < s.drop_first().len() && s.drop_first()[m] == y;
                assert(s[m + 1] == y);
            }
        }
    }
}

proof fn lemma_sort_tids_mem(g: Graph, s: Seq<usize>, y: usize)
    requires
        crate::modfile::sp_sort_tids(g, s).contains(y),
    ensures
        s.contains(y),
    decreases s.len(),
{
    if s.len() > 0 {
        lemma_insert_tid_mem(g, s[0], crate::modfile::sp_sort_tids(g, s.drop_first()), y);
        if y == s[0] {
            assert(s.contains(y));
        } else {
            lemma_sort_tids_mem(g, s.drop_first(), y);
            let m = choose|m: int| 0 <= m < s.drop_first().len() && s.drop_first()[m] == y;
            assert(s[m + 1] == y);
        }
    }
}

proof fn lemma_filter_cross_mem(g: Graph, iid: usize, ids: Seq<usize>, j: int, tid: usize)
    requires
        crate::modfile::sp_filter_cross(g, iid, ids, j).contains(tid),
    ensures
        tid < g.typedefs.len(),
        g.typedefs[tid as int].owner != iid,
        g.typedefs[tid as int].owner < g.interfaces.len(),
        exists|m: int| j <= m < ids.len() && ids[m] == tid,
    decreases ids.len() - j,
{
    let r = crate::modfile::sp_filter_cross(g, iid, ids, j);
    let keep = ids[j] < g.typedefs.len() && g.typedefs[ids[j] as int].owner != iid
        && g.typedefs[ids[j] as int].owner < g.interfaces.len();
    if keep && ids[j] == tid {
        assert(ids[j] == tid);
    } else {
        let k = choose|k: int| 0 <= k < r.len() && r[k] == tid;
        if keep {
            assert(crate::modfile::sp_filter_cross(g, iid, ids, j + 1)[k - 1] == tid);
        } else {
            assert(crate::modfile::sp_filter_cross(g, iid, ids, j + 1)[k] == tid);
        }
        lemma_filter_cross_mem(g, iid, ids, j + 1, tid);
    }
}

proof fn lemma_owners_mem(g: Graph, ids: Seq<usize>, j: int, m: int)
    requires
        0 <= j <= m < ids.len(),
        ids[m] < g.typedefs.len(),
    ensures
        crate::driver::sp_owners(g, ids, j).contains(g.typedefs[ids[m] as int].owner),
    decreases m - j,
{
    let r = crate::driver::sp_owners(g, ids, j);
    let o = g.typedefs[ids[m] as int].owner;
    if m == j {
        assert(r[0] == o);
    } else {
        lemma_owners_mem(g, ids, j + 1, m);
        let rest = crate::driver::sp_owners(g, ids, j + 1);
        let head = if ids[j] < g.typedefs.len() {
            seq![g.typedefs[ids[j] as int].owner]
        } else {
            Seq::<usize>::empty()
        };
        let k = choose|k: int| 0 <= k < rest.len() && rest[k] == o;
        assert(r[head.len() + k] == o);
    }
}

/// Every `import type` of an emitted module file refers to the module of an
/// interface that is itself emitted, and never to the importing module: the
/// file it names exists in the same output set.
pub proof fn lemma_import_targets_emitted(g: Graph, w: World, iid: usize, tid: usize)
    requires
        iid < g.interfaces.len(),
        crate::driver::sp_emit_set(g, w)[iid as int],
        crate::modfile::sp_sort_tids(
            g,
            crate::modfile::sp_filter_cross(
                g,
                iid,
                crate::printer::sp_ids_in_iface(g, g.interfaces[iid as int]),
                0,
            ),
        ).contains(tid),
    ensures
        tid < g.typedefs.len(),
        g.typedefs[tid as int].owner != iid,
        g.typedefs[tid as int].owner < g.interfaces.len(),
        crate::driver::sp_emit_set(g, w)[g.typedefs[tid as int].owner as int],
{
    let ids = crate::printer::sp_ids_in_iface(g, g.interfaces[iid as int]);
    lemma_sort_tids_mem(g, crate::modfile::sp_filter_cross(g, iid, ids, 0), tid);
    lemma_filter_cross_mem(g, iid, ids, 0, tid);
    let m = choose|m: int| 0 <= m < ids.len() && ids[m] == tid;
    lemma_owners_mem(g, ids, 0, m);
    assert(crate::driver::sp_mentions(g, iid as int).contains(g.typedefs[tid as int].owner));
    lemma_emit_set_closed(g, w, iid, g.typedefs[tid as int].owner);
}


proof fn lemma_count_update(s: Seq<bool>, i: int)
    requires
        0 <= i < s.len(),
        !s[i],
    ensures
        sp_count(s.update(i, true)) == sp_count(s) + 1,
    decreases s.len(),
{
    let t = s.update(i, true);
    if i == 0 {
        assert(t.drop_first() =~= s.drop_first());
    } else {
        assert(t[0] == s[0]);
        assert(t.drop_first() =~= s.drop_first().update(i - 1, true));
        lemma_count_update(s.drop_first(), i - 1);
    }
}

proof fn lemma_count_full(s: Seq<bool>)
    requires
        sp_count(s) == s.len(),
    ensures
        forall|p: int| 0 <= p < s.len() ==> s[p],
    decreases s.len(),
{
    if s.len() > 0 {
        lemma_count_le_len(s.drop_first());
        assert(s[0]);
        lemma_count_full(s.drop_first());
        assert forall|p: int| 0 <= p < s.len() implies s[p] by {
            if p > 0 {
                assert(s.drop_first()[p - 1]);
            }
        }
    }
}

proof fn lemma_count_falses(n: nat)
    ensures
        sp_count(Seq::new(n, |q: int| false)) == 0,
    decreases n,
{
    if n > 0 {
        assert(Seq::new(n, |q: int| false).drop_first() =~= Seq::new(
            (n - 1) as nat,
            |q: int| false,
        ));
        lemma_count_falses((n - 1) as nat);
    }
}

proof fn lemma_pick_any_none(ids: Seq<usize>, done: Seq<bool>, p: int)
    requires
        0 <= p,
        crate::modfile::sp_pick_any(ids, done, p) == -1,
    ensures
        forall|q: int| p <= q < ids.len() ==> done[q],
    decreases ids.len() - p,
{
    if p < ids.len() {
        lemma_pick_any_none(ids, done, p + 1);
    }
}

proof fn lemma_pick_any_some(ids: Seq<usize>, done: Seq<bool>, p: int)
    requires
        0 <= p,
        crate::modfile::sp_pick_any(ids, done, p) != -1,
    ensures
        p <= crate::modfile::sp_pick_any(ids, done, p) < ids.len(),
        !done[crate::modfile::sp_pick_any(ids, done, p)],
    decreases ids.len() - p,
{
    if p < ids.len() && !(!done[p]) {
        lemma_pick_any_some(ids, done, p + 1);
    }
}

proof fn lemma_pick_ready_some(g: Graph, ids: Seq<usize>, done: Seq<bool>, p: int)
    requires
        0 <= p,
        crate::modfile::sp_pick_ready(g, ids, done, p) != -1,
    ensures
        p <= crate::modfile::sp_pick_ready(g, ids, done, p) < ids.len(),
        !done[crate::modfile::sp_pick_ready(g, ids, done, p)],
    decreases ids.len() - p,
{
    if p < ids.len() {
        if !(!done[p] && crate::modfile::sp_ready(g, ids, done, p)) {
            lemma_pick_ready_some(g, ids, done, p + 1);
        }
    }
}

proof fn lemma_topo_rec_perm(g: Graph, ids: Seq<usize>, done: Seq<bool>, k: nat)
    requires
        done.len() == ids.len(),
        ids.len() <= usize::MAX,
        k + sp_count(done) >= ids.len(),
    ensures
        crate::modfile::sp_topo_rec(g, ids, done, k).len() + sp_count(done) == ids.len(),
        forall|m: int|
            0 <= m < crate::modfile::sp_topo_rec(g, ids, done, k).len() ==> (
            #[trigger] crate::modfile::sp_topo_rec(g, ids, done, k)[m]) < ids.len()
                && !done[crate::modfile::sp_topo_rec(g, ids, done, k)[m] as int],
        forall|m1: int, m2: int|
            0 <= m1 < m2 < crate::modfile::sp_topo_rec(g, ids, done, k).len()
                ==> #[trigger] crate::modfile::sp_topo_rec(g, ids, done, k)[m1]
                != #[trigger] crate::modfile::sp_topo_rec(g, ids, done, k)[m2],
        forall|p: int|
            0 <= p < ids.len() && !done[p] ==> #[trigger] crate::modfile::sp_topo_rec(
                g,
                ids,
                done,
                k,
            ).contains(p as usize),
    decreases k,
{
    let r = crate::modfile::sp_topo_rec(g, ids, done, k);
    let pk = crate::modfile::sp_pick(g, ids, done);
    lemma_count_le_len(done);
    if k == 0 {
        lemma_count_full(done);
        assert(r =~= Seq::<usize>::empty());
    } else if pk < 0 || pk >= done.len() {
        if crate::modfile::sp_pick_ready(g, ids, done, 0) >= 0 {
            lemma_pick_ready_some(g, ids, done, 0);
        } else if crate::modfile::sp_pick_any(ids, done, 0) != -1 {
            lemma_pick_any_some(ids, done, 0);
        } else {
            lemma_pick_any_none(ids, done, 0);
        }
        assert(forall|q: int| 0 <= q < done.len() ==> done[q]);
        assert(sp_count(done) == done.len()) by {
            lemma_count_mono(Seq::new(done.len(), |q: int| true), done);
            lemma_count_all_true(done.len());
        }
        assert(r =~= Seq::<usize>::empty());
    } else {
        if crate::modfile::sp_pick_ready(g, ids, done, 0) >= 0 {
            lemma_pick_ready_some(g, ids, done, 0);
        } else {
            lemma_pick_any_some(ids, done, 0);
        }
        assert(!done[pk]);
        let done2 = done.update(pk, true);
        lemma_count_update(done, pk);
        lemma_topo_rec_perm(g, ids, done2, (k - 1) as nat);
        let r2 = crate::modfile::sp_topo_rec(g, ids, done2, (k - 1) as nat);
        assert(r =~= seq![pk as usize] + r2);
        assert(r.len() == 1 + r2.len());
        assert(r[0] == pk as usize);
        assert(forall|m: int| 0 <= m < r2.len() ==> r[m + 1] == #[trigger] r2[m]);
        assert forall|m: int| 0 <= m < r.len() implies (#[trigger] r[m]) < ids.len() && !done[r[m] as int] by {
            if m > 0 {
                assert(r[m] == r2[m - 1]);
                assert(!done2[r2[m - 1] as int]);
            }
        }
        assert forall|m1: int, m2: int| 0 <= m1 < m2 < r.len() implies #[trigger] r[m1]
            != #[trigger] r[m2] by {
            if m1 == 0 {
                assert(r[m2] == r2[m2 - 1]);
                assert(!done2[r2[m2 - 1] as int]);
                assert(r2[m2 - 1] != pk as usize);
            } else {
                assert(r[m1] == r2[m1 - 1]);
                assert(r[m2] == r2[m2 - 1]);
            }
        }
        assert forall|p: int| 0 <= p < ids.len() && !done[p] implies #[trigger] r.contains(
            p as usize,
        ) by {
            if p == pk {
                assert(r[0] == p as usize);
            } else {
                assert(!done2[p]);
                assert(r2.contains(p as usize));
                let m = choose|m: int| 0 <= m < r2.len() && r2[m] == p as usize;
                assert(r[m + 1] == p as usize);
            }
        }
    }
}

proof fn lemma_count_all_true(n: nat)
    ensures
        sp_count(Seq::new(n, |q: int| true)) == n,
    decreases n,
{
    if n > 0 {
        assert(Seq::new(n, |q: int| true).drop_first() =~= Seq::new(
            (n - 1) as nat,
            |q: int| true,
        ));
        lemma_count_all_true((n - 1) as nat);
    }
}

/// The emission order of a declaration list is a permutation of its
/// positions: every named type of the interface is emitted exactly once.
pub proof fn lemma_topo_emits_each_once(g: Graph, ids: Seq<usize>)
    requires
        ids.len() <= usize::MAX,
    ensures
        crate::modfile::sp_topo(g, ids).len() == ids.len(),
        forall|m: int|
            0 <= m < ids.len() ==> (#[trigger] crate::modfile::sp_topo(g, ids)[m]) < ids.len(),
        forall|m1: int, m2: int|
            0 <= m1 < m2 < ids.len() ==> #[trigger] crate::modfile::sp_topo(g, ids)[m1]
                != #[trigger] crate::modfile::sp_topo(g, ids)[m2],
        forall|p: int|
            0 <= p < ids.len() ==> #[trigger] crate::modfile::sp_topo(g, ids).contains(
                p as usize,
            ),
{
    let done0 = Seq::new(ids.len() as nat, |q: int| false);
    lemma_count_falses(ids.len() as nat);
    lemma_topo_rec_perm(g, ids, done0, ids.len() as nat);
}


proof fn lemma_lex_le_total(a: Seq<char>, b: Seq<char>)
    ensures
        crate::modfile::sp_lex_le(a, b) || crate::modfile::sp_lex_le(b, a),
    decreases a.len(),
{
    if a.len() > 0 && b.len() > 0 {
        if a[0] == b[0] {
            lemma_lex_le_total(a.drop_first(), b.drop_first());
        } else {
            vstd::utf8::char_u32_cast(a[0], a[0] as u32);
            vstd::utf8::char_u32_cast(b[0], b[0] as u32);
            assert((a[0] as u32) != (b[0] as u32));
        }
    }
}

proof fn lemma_lex_le_trans(a: Seq<char>, b: Seq<char>, c: Seq<char>)
    requires
        crate::modfile::sp_lex_le(a, b),
        crate::modfile::sp_lex_le(b, c),
    ensures
        crate::modfile::sp_lex_le(a, c),
    decreases a.len(),
{
    if a.len() > 0 && b.len() > 0 && c.len() > 0 {
        if a[0] == b[0] && b[0] == c[0] {
            lemma_lex_le_trans(a.drop_first(), b.drop_first(), c.drop_first());
        }
    }
}

proof fn lemma_lex_le_antisym(a: Seq<char>, b: Seq<char>)
    requires
        crate::modfile::sp_lex_le(a, b),
        crate::modfile::sp_lex_le(b, a),
    ensures
        a == b,
    decreases a.len(),
{
    if a.len() > 0 && b.len() > 0 {
        vstd::utf8::char_u32_cast(a[0], a[0] as u32);
        vstd::utf8::char_u32_cast(b[0], b[0] as u32);
        assert(a[0] == b[0]) by {
            if a[0] != b[0] {
                assert((a[0] as u32) != (b[0] as u32));
                assert((a[0] as u32) < (b[0] as u32) && (b[0] as u32) < (a[0] as u32));
            }
        }
        lemma_lex_le_antisym(a.drop_first(), b.drop_first());
        assert(a =~= seq![a[0]] + a.drop_first());
        assert(b =~= seq![b[0]] + b.drop_first());
    } else {
        assert(a.len() == 0 && b.len() == 0);
        assert(a =~= b);
    }
}

proof fn lemma_tid_le_total(g: Graph, a: usize, b: usize)
    ensures
        crate::modfile::sp_tid_le(g, a, b) || crate::modfile::sp_tid_le(g, b, a),
{
    lemma_lex_le_total(crate::modfile::sp_tid_name(g, a), crate::modfile::sp_tid_name(g, b));
    lemma_lex_le_total(crate::modfile::sp_tid_module(g, a), crate::modfile::sp_tid_module(g, b));
}

proof fn lemma_tid_le_trans(g: Graph, a: usize, b: usize, c: usize)
    requires
        crate::modfile::sp_tid_le(g, a, b),
        crate::modfile::sp_tid_le(g, b, c),
    ensures
        crate::modfile::sp_tid_le(g, a, c),
{
    let ma = crate::modfile::sp_tid_module(g, a);
    let mb = crate::modfile::sp_tid_module(g, b);
    let mc = crate::modfile::sp_tid_module(g, c);
    if ma == mb && mb == mc {
        lemma_lex_le_trans(
            crate::modfile::sp_tid_name(g, a),
            crate::modfile::sp_tid_name(g, b),
            crate::modfile::sp_tid_name(g, c),
        );
    } else if ma != mb && mb != mc {
        lemma_lex_le_trans(ma, mb, mc);
        if ma == mc {
            lemma_lex_le_antisym(ma, mb);
        }
    }
}

/// A sequence of import keys in rendering order.
pub open spec fn sp_tids_sorted(g: Graph, s: Seq<usize>) -> bool {
    forall|i: int, j: int|
        0 <= i < j < s.len() ==> crate::modfile::sp_tid_le(g, #[trigger] s[i], #[trigger] s[j])
}

proof fn lemma_insert_tid_sorted(g: Graph, x: usize, s: Seq<usize>)
    requires
        sp_tids_sorted(g, s),
    ensures
        sp_tids_sorted(g, crate::modfile::sp_insert_tid(g, x, s)),
    decreases s.len(),
{
    let r = crate::modfile::sp_insert_tid(g, x, s);
    if s.len() == 0 {
        assert(r =~= seq![x]);
    } else if crate::modfile::sp_tid_same(g, x, s[0]) {
    } else if crate::modfile::sp_tid_le(g, x, s[0]) {
        assert(r =~= seq![x] + s);
        assert forall|i: int, j: int| 0 <= i < j < r.len() implies crate::modfile::sp_tid_le(
            g,
            #[trigger] r[i],
            #[trigger] r[j],
        ) by {
            if i == 0 {
                assert(r[j] == s[j - 1]);
                if j > 1 {
                    assert(crate::modfile::sp_tid_le(g, s[0], s[j - 1]));
                    lemma_tid_le_trans(g, x, s[0], s[j - 1]);
                }
            } else {
                assert(r[i] == s[i - 1] && r[j] == s[j - 1]);
            }
        }
    } else {
        assert forall|i: int, j: int|
            0 <= i < j < s.drop_first().len() implies crate::modfile::sp_tid_le(
            g,
            #[trigger] s.drop_first()[i],
            #[trigger] s.drop_first()[j],
        ) by {
            assert(s.drop_first()[i] == s[i + 1] && s.drop_first()[j] == s[j + 1]);
        }
        lemma_insert_tid_sorted(g, x, s.drop_first());
        let t = crate::modfile::sp_insert_tid(g, x, s.drop_first());
        assert(r =~= seq![s[0]] + t);
        lemma_tid_le_total(g, x, s[0]);
        assert(crate::modfile::sp_tid_le(g, s[0], x));
        assert forall|i: int, j: int| 0 <= i < j < r.len() implies crate::modfile::sp_tid_le(
            g,
            #[trigger] r[i],
            #[trigger] r[j],
        ) by {
            if i == 0 {
                assert(r[j] == t[j - 1]);
                assert(t.contains(t[j - 1]));
                lemma_insert_tid_mem(g, x, s.drop_first(), t[j - 1]);
                if t[j - 1] == x {
                } else {
                    let m = choose|m: int|
                        0 <= m < s.drop_first().len() && s.drop_first()[m] == t[j - 1];
                    assert(s[m + 1] == t[j - 1]);
                    assert(crate::modfile::sp_tid_le(g, s[0], s[m + 1]));
                }
            } else {
                assert(r[i] == t[i - 1] && r[j] == t[j - 1]);
            }
        }
    }
}

proof fn lemma_sort_tids_sorted(g: Graph, s: Seq<usize>)
    ensures
        sp_tids_sorted(g, crate::modfile::sp_sort_tids(g, s)),
    decreases s.len(),
{
    if s.len() == 0 {
        assert(crate::modfile::sp_sort_tids(g, s) =~= Seq::<usize>::empty());
    } else {
        lemma_sort_tids_sorted(g, s.drop_first());
        lemma_insert_tid_sorted(g, s[0], crate::modfile::sp_sort_tids(g, s.drop_first()));
    }
}

/// The import lines of every module file stand in order: by source module
/// first, then by type name.
pub proof fn lemma_imports_sorted(g: Graph, iid: usize)
    requires
        iid < g.interfaces.len(),
    ensures
        sp_tids_sorted(
            g,
            crate::modfile::sp_sort_tids(
                g,
                crate::modfile::sp_filter_cross(
                    g,
                    iid,
                    crate::printer::sp_ids_in_iface(g, g.interfaces[iid as int]),
                    0,
                ),
            ),
        ),
{
    lemma_sort_tids_sorted(
        g,
        crate::modfile::sp_filter_cross(
            g,
            iid,
            crate::printer::sp_ids_in_iface(g, g.interfaces[iid as int]),
            0,
        ),
    );
}

/// A sequence of interfaces in module-file order.
pub open spec fn sp_ifaces_sorted(g: Graph, s: Seq<usize>) -> bool {
    forall|i: int, j: int|
        0 <= i < j < s.len() ==> crate::driver::sp_iface_le(g, #[trigger] s[i], #[trigger] s[j])
}

proof fn lemma_iface_le_total(g: Graph, a: usize, b: usize)
    ensures
        crate::driver::sp_iface_le(g, a, b) || crate::driver::sp_iface_le(g, b, a),
{
    let sa = if a < g.interfaces.len() {
        crate::modfile::sp_specifier(g, g.interfaces[a as int])
    } else {
        Seq::<char>::empty()
    };
    let sb = if b < g.interfaces.len() {
        crate::modfile::sp_specifier(g, g.interfaces[b as int])
    } else {
        Seq::<char>::empty()
    };
    lemma_lex_le_total(sa, sb);
}

proof fn lemma_iface_le_trans(g: Graph, a: usize, b: usize, c: usize)
    requires
        crate::driver::sp_iface_le(g, a, b),
        crate::driver::sp_iface_le(g, b, c),
    ensures
        crate::driver::sp_iface_le(g, a, c),
{
    let sa = if a < g.interfaces.len() {
        crate::modfile::sp_specifier(g, g.interfaces[a as int])
    } else {
        Seq::<char>::empty()
    };
    let sb = if b < g.interfaces.len() {
        crate::modfile::sp_specifier(g, g.interfaces[b as int])
    } else {
        Seq::<char>::empty()
    };
    let sc = if c < g.interfaces.len() {
        crate::modfile::sp_specifier(g, g.interfaces[c as int])
    } else {
        Seq::<char>::empty()
    };
    lemma_lex_le_trans(sa, sb, sc);
}

proof fn lemma_insert_iface_mem(g: Graph, x: usize, s: Seq<usize>, y: usize)
    requires
        crate::driver::sp_insert_iface(g, x, s).contains(y),
    ensures
        y == x || s.contains(y),
    decreases s.len(),
{
    let r = crate::driver::sp_insert_iface(g, x, s);
    if s.len() == 0 {
        assert(r =~= seq![x]);
    } else if crate::driver::sp_iface_le(g, x, s[0]) {
        let k = choose|k: int| 0 <= k < r.len() && r[k] == y;
        if k >= 1 {
            assert(s[k - 1] == y);
        }
    } else {
        let k = choose|k: int| 0 <= k < r.len() && r[k] == y;
        if k == 0 {
            assert(s[0] == y);
        } else {
            assert(crate::driver::sp_insert_iface(g, x, s.drop_first())[k - 1] == y);
            lemma_insert_iface_mem(g, x, s.drop_first(), y);
            if s.drop_first().contains(y) {
                let m = choose|m: int| 0 <= m < s.drop_first().len() && s.drop_first()[m] == y;
                assert(s[m + 1] == y);
            }
        }
    }
}

proof fn lemma_insert_iface_sorted(g: Graph, x: usize, s: Seq<usize>)
    requires
        sp_ifaces_sorted(g, s),
    ensures
        sp_ifaces_sorted(g, crate::driver::sp_insert_iface(g, x, s)),
    decreases s.len(),
{
    let r = crate::driver::sp_insert_iface(g, x, s);
    if s.len() == 0 {
        assert(r =~= seq![x]);
    } else if crate::driver::sp_iface_le(g, x, s[0]) {
        assert(r =~= seq![x] + s);
        assert forall|i: int, j: int| 0 <= i < j < r.len() implies crate::driver::sp_iface_le(
            g,
            #[trigger] r[i],
            #[trigger] r[j],
        ) by {
            if i == 0 {
                assert(r[j] == s[j - 1]);
                if j > 1 {
                    assert(crate::driver::sp_iface_le(g, s[0], s[j - 1]));
                    lemma_iface_le_trans(g, x, s[0], s[j - 1]);
                }
            } else {
                assert(r[i] == s[i - 1] && r[j] == s[j - 1]);
            }
        }
    } else {
        assert forall|i: int, j: int|
            0 <= i < j < s.drop_first().len() implies crate::driver::sp_iface_le(
            g,
            #[trigger] s.drop_first()[i],
            #[trigger] s.drop_first()[j],
        ) by {
            assert(s.drop_first()[i] == s[i + 1] && s.drop_first()[j] == s[j + 1]);
        }
        lemma_insert_iface_sorted(g, x, s.drop_first());
        let t = crate::driver::sp_insert_iface(g, x, s.drop_first());
        assert(r =~= seq![s[0]] + t);
        lemma_iface_le_total(g, x, s[0]);
        assert(crate::driver::sp_iface_le(g, s[0], x));
        assert forall|i: int, j: int| 0 <= i < j < r.len() implies crate::driver::sp_iface_le(
            g,
            #[trigger] r[i],
            #[trigger] r[j],
        ) by {
            if i == 0 {
                assert(r[j] == t[j - 1]);
                assert(t.contains(t[j - 1]));
                lemma_insert_iface_mem(g, x, s.drop_first(), t[j - 1]);
                if t[j - 1] == x {
                } else {
                    let m = choose|m: int|
                        0 <= m < s.drop_first().len() && s.drop_first()[m] == t[j - 1];
                    assert(s[m + 1] == t[j - 1]);
                    assert(crate::driver::sp_iface_le(g, s[0], s[m + 1]));
                }
            } else {
                assert(r[i] == t[i - 1] && r[j] == t[j - 1]);
            }
        }
    }
}

proof fn lemma_sort_ifaces_sorted(g: Graph, s: Seq<usize>)
    ensures
        sp_ifaces_sorted(g, crate::driver::sp_sort_ifaces(g, s)),
    decreases s.len(),
{
    if s.len() == 0 {
        assert(crate::driver::sp_sort_ifaces(g, s) =~= Seq::<usize>::empty());
    } else {
        lemma_sort_ifaces_sorted(g, s.drop_first());
        lemma_insert_iface_sorted(g, s[0], crate::driver::sp_sort_ifaces(g, s.drop_first()));
    }
}

/// Module files come out sorted by fully qualified interface name.
pub proof fn lemma_module_files_sorted(g: Graph, w: World)
    ensures
        sp_ifaces_sorted(g, crate::driver::sp_module_order(g, w)),
{
    lemma_sort_ifaces_sorted(
        g,
        crate::driver::sp_marked_list(crate::driver::sp_emit_set(g, w), 0),
    );
}


/// The union arm names of an enum, one per case in case order; an enum is a
/// variant whose cases carry no payload.
pub open spec fn sp_enum_arm_list(name: Seq<char>, cs: Vec<String>) -> Seq<Seq<char>> {
    Seq::new(cs.len() as nat, |i: int| sp_pascal(name) + sp_pascal(cs[i]@))
}

proof fn lemma_enum_arms_join_from(name: Seq<char>, cs: Vec<String>, i: int)
    requires
        0 <= i <= cs.len(),
    ensures
        crate::emit::sp_enum_arms(name, cs, i) == sp_join_arms(sp_enum_arm_list(name, cs).skip(i)),
    decreases cs.len() - i,
{
    let l = sp_enum_arm_list(name, cs);
    if i == cs.len() {
        assert(l.skip(i) =~= Seq::<Seq<char>>::empty());
    } else {
        lemma_enum_arms_join_from(name, cs, i + 1);
        assert(l.skip(i).drop_first() =~= l.skip(i + 1));
        assert(l.skip(i)[0] == l[i]);
        assert(l.skip(i).len() == cs.len() - i);
        assert(crate::emit::sp_enum_arms(name, cs, i) =~= sp_join_arms(l.skip(i)));
    }
}

/// An enum's union is the join of exactly one arm per case, like a variant's.
pub proof fn lemma_enum_one_arm_per_case(name: Seq<char>, cs: Vec<String>)
    ensures
        sp_enum_arm_list(name, cs).len() == cs.len(),
        forall|i: int|
            0 <= i < cs.len() ==> sp_enum_arm_list(name, cs)[i] == sp_pascal(name) + sp_pascal(
                (#[trigger] cs[i])@,
            ),
        crate::emit::sp_enum_arms(name, cs, 0) == sp_join_arms(sp_enum_arm_list(name, cs)),
{
    lemma_enum_arms_join_from(name, cs, 0);
    assert(sp_enum_arm_list(name, cs).skip(0) =~= sp_enum_arm_list(name, cs));
}

/// Every rendered enum case interface carries the raw WIT case name as its
/// `tag` literal.
pub proof fn lemma_enum_tag_is_raw_name(name: Seq<char>, c: String, ind: Seq<char>)
    ensures
        sp_contains(
            ind + "export interface "@ + sp_pascal(name) + sp_pascal(c@) + " {\n"@ + ind
                + "  tag: '"@ + c@ + "',\n"@ + ind + "}\n"@,
            "tag: '"@ + c@ + "'"@,
        ),
{
    let block = ind + "export interface "@ + sp_pascal(name) + sp_pascal(c@) + " {\n"@ + ind
        + "  tag: '"@ + c@ + "',\n"@ + ind + "}\n"@;
    let pat = "tag: '"@ + c@ + "'"@;
    reveal_strlit("  tag: '");
    reveal_strlit("tag: '");
    reveal_strlit("  ");
    reveal_strlit("',\n");
    reveal_strlit("'");
    reveal_strlit(",\n");
    let pre = ind + "export interface "@ + sp_pascal(name) + sp_pascal(c@) + " {\n"@ + ind
        + "  "@;
    let suf = ",\n"@ + ind + "}\n"@;
    assert("  tag: '"@ =~= "  "@ + "tag: '"@);
    assert("',\n"@ =~= "'"@ + ",\n"@);
    assert(block =~= pre + pat + suf);
    let k = pre.len() as int;
    assert(block.subrange(k, k + pat.len()) =~= pat);
    assert(0 <= k <= block.len() - pat.len());
}


proof fn lemma_marked_list_mem(s: Seq<bool>, i: int, p: int)
    requires
        0 <= i <= p < s.len(),
        s[p],
        p <= usize::MAX,
    ensures
        crate::driver::sp_marked_list(s, i).contains(p as usize),
    decreases p - i,
{
    let r = crate::driver::sp_marked_list(s, i);
    if i == p {
        assert(r[0] == p as usize);
    } else {
        lemma_marked_list_mem(s, i + 1, p);
        let rest = crate::driver::sp_marked_list(s, i + 1);
        let m = choose|m: int| 0 <= m < rest.len() && rest[m] == p as usize;
        if s[i] {
            assert(r[m + 1] == p as usize);
        } else {
            assert(r[m] == p as usize);
        }
    }
}

proof fn lemma_insert_iface_mem_back(g: Graph, x: usize, s: Seq<usize>, y: usize)
    requires
        y == x || s.contains(y),
    ensures
        crate::driver::sp_insert_iface(g, x, s).contains(y),
    decreases s.len(),
{
    let r = crate::driver::sp_insert_iface(g, x, s);
    if s.len() == 0 {
        assert(r[0] == x);
    } else if crate::driver::sp_iface_le(g, x, s[0]) {
        if y == x {
            assert(r[0] == y);
        } else {
            let m = choose|m: int| 0 <= m < s.len() && s[m] == y;
            assert(r[m + 1] == y);
        }
    } else {
        if y == s[0] {
            assert(r[0] == y);
        } else {
            if s.contains(y) {
                let m = choose|m: int| 0 <= m < s.len() && s[m] == y;
                assert(s.drop_first()[m - 1] == y);
                lemma_insert_iface_mem_back(g, x, s.drop_first(), y);
            } else {
                lemma_insert_iface_mem_back(g, x, s.drop_first(), y);
            }
            let t = crate::driver::sp_insert_iface(g, x, s.drop_first());
            let m = choose|m: int| 0 <= m < t.len() && t[m] == y;
            assert(r[m + 1] == y);
        }
    }
}

proof fn lemma_sort_ifaces_mem_back(g: Graph, s: Seq<usize>, y: usize)
    requires
        s.contains(y),
    ensures
        crate::driver::sp_sort_ifaces(g, s).contains(y),
    decreases s.len(),
{
    let m = choose|m: int| 0 <= m < s.len() && s[m] == y;
    if m == 0 {
        lemma_insert_iface_mem_back(g, s[0], crate::driver::sp_sort_ifaces(g, s.drop_first()), y);
    } else {
        assert(s.drop_first()[m - 1] == y);
        lemma_sort_ifaces_mem_back(g, s.drop_first(), y);
        lemma_insert_iface_mem_back(g, s[0], crate::driver::sp_sort_ifaces(g, s.drop_first()), y);
    }
}

proof fn lemma_outputs_mem(g: Graph, order: Seq<usize>, j: int, m: int)
    requires
        0 <= j <= m < order.len(),
        order[m] < g.interfaces.len(),
    ensures
        crate::driver::sp_outputs(g, order, j).contains(
            (crate::driver::sp_module_path(g, order[m]), crate::modfile::sp_module_file(
                g,
                order[m],
            )),
        ),
    decreases m - j,
{
    let r = crate::driver::sp_outputs(g, order, j);
    let entry = (crate::driver::sp_module_path(g, order[m]), crate::modfile::sp_module_file(
        g,
        order[m],
    ));
    if m == j {
        assert(r[0] == entry);
    } else {
        lemma_outputs_mem(g, order, j + 1, m);
        let rest = crate::driver::sp_outputs(g, order, j + 1);
        let k = choose|k: int| 0 <= k < rest.len() && rest[k] == entry;
        if order[j] < g.interfaces.len() {
            assert(r[k + 1] == entry);
        } else {
            assert(r[k] == entry);
        }
    }
}

/// Every interface in the emit set owns one of the generated files: the
/// output list holds its module path and its module text.
pub proof fn lemma_emitted_interface_has_file(g: Graph, w: World, o: usize)
    requires
        o < g.interfaces.len(),
        crate::driver::sp_emit_set(g, w)[o as int],
    ensures
        crate::driver::sp_generate(g, w).contains(
            (crate::driver::sp_module_path(g, o), crate::modfile::sp_module_file(g, o)),
        ),
{
    let marks = crate::driver::sp_emit_set(g, w);
    lemma_seeds_len(g, w);
    lemma_reach_fixpoint(g, crate::driver::sp_seeds(g, w), g.interfaces.len() as nat);
    lemma_marked_list_mem(marks, 0, o as int);
    lemma_sort_ifaces_mem_back(g, crate::driver::sp_marked_list(marks, 0), o);
    let order = crate::driver::sp_module_order(g, w);
    let m = choose|m: int| 0 <= m < order.len() && order[m] == o;
    lemma_outputs_mem(g, order, 0, m);
    let entry = (crate::driver::sp_module_path(g, o), crate::modfile::sp_module_file(g, o));
    let outs = crate::driver::sp_outputs(g, order, 0);
    let k = choose|k: int| 0 <= k < outs.len() && outs[k] == entry;
    assert(crate::driver::sp_generate(g, w)[k] == entry);
}

} // verus!
