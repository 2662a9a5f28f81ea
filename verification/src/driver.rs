//! The world emitter and the driver: the world's own `.d.ts`, the set of
//! interfaces reachable from a world, their order, and the full output list
//! of one generation run.

use vstd::prelude::*;

verus! {

use vstd::pervasive::VecAdditionalExecFns;
use vstd::string::StringExecFns;
use crate::emit::members_str;
use crate::emit::res_members_str;
use crate::emit::sp_member;
use crate::emit::sp_members;
use crate::emit::sp_res_members;
use crate::emit::sp_splits;
use crate::emit::splits_str;
use crate::graph::Graph;
use crate::graph::World;
use crate::graph::WorldItem;
use crate::graph::WorldItemKind;
use crate::graph::graph_wf;
use crate::graph::iface_wf;
use crate::graph::items_wf;
use crate::graph::world_wf;
use crate::modfile::contains_usize;
use crate::modfile::helpers_str;
use crate::modfile::lex_le;
use crate::modfile::sp_file_stem;
use crate::modfile::sp_helpers;
use crate::modfile::sp_lex_le;
use crate::modfile::sp_module_file;
use crate::modfile::sp_specifier;
use crate::modfile::sp_topo;
use crate::modfile::sp_typedecls;
use crate::modfile::file_stem_str;
use crate::modfile::module_file_str;
use crate::modfile::specifier_str;
use crate::modfile::topo_order;
use crate::modfile::typedecls_str;
use crate::names::camel;
use crate::names::lower_all;
use crate::names::pascal;
use crate::names::sp_camel;
use crate::names::sp_lower_all;
use crate::names::sp_pascal;
use crate::printer::ids_in_func;
use crate::printer::ids_in_iface;
use crate::printer::sp_ids_in_func;
use crate::printer::sp_ids_in_iface;

/// One exported interface inlined into the world file: its umbrella
/// interface, then its type declarations, then the `Static` / `Instance`
/// pair of each of its resources.
pub open spec fn sp_inline_iface(g: Graph, name: Seq<char>, iid: usize) -> Seq<char> {
    if iid < g.interfaces.len() {
        let itf = g.interfaces[iid as int];
        "export interface "@ + sp_pascal(name) + " {\n"@ + sp_members(g, true, itf.funcs, 0, "  "@)
            + sp_res_members(g, itf.typedefs, 0) + "}\n"@ + sp_typedecls(
            g,
            true,
            itf.typedefs@,
            sp_topo(g, itf.typedefs@),
            0,
            Seq::empty(),
        ) + sp_splits(g, itf.typedefs, 0)
    } else {
        Seq::empty()
    }
}

pub fn inline_iface_str(g: &Graph, name: &str, iid: usize) -> (r: String)
    requires
        graph_wf(*g),
        iid < g.interfaces.len(),
    ensures
        r@ == sp_inline_iface(*g, name@, iid),
{
    proof {
        assert(iface_wf(*g, g.interfaces[iid as int]));
    }
    let itf = &g.interfaces[iid];
    let mut out = "export interface ".to_owned();
    let n = pascal(name);
    out.append(n.as_str());
    out.append(" {\n");
    let ms = members_str(g, true, &itf.funcs, "  ");
    out.append(ms.as_str());
    let rs = res_members_str(g, &itf.typedefs);
    out.append(rs.as_str());
    out.append("}\n");
    let order = topo_order(g, &itf.typedefs);
    let tds = typedecls_str(g, true, &itf.typedefs, &order, "");
    out.append(tds.as_str());
    let sp = splits_str(g, &itf.typedefs);
    out.append(sp.as_str());
    proof {
        reveal_strlit("");
        assert(""@ =~= Seq::<char>::empty());
        assert(out@ =~= sp_inline_iface(*g, name@, iid));
    }
    out
}

/// The inlined blocks of every exported interface, in export order.
pub open spec fn sp_exports_text(g: Graph, items: Vec<WorldItem>, j: int) -> Seq<char>
    decreases items.len() - j,
{
    if j < 0 || j >= items.len() {
        Seq::empty()
    } else {
        (match items[j].kind {
            WorldItemKind::Iface(id) => sp_inline_iface(g, items[j].name@, id),
            WorldItemKind::Func(_) => Seq::empty(),
        }) + sp_exports_text(g, items, j + 1)
    }
}

#[verifier::loop_isolation(false)]
pub fn exports_text_str(g: &Graph, items: &Vec<WorldItem>) -> (r: String)
    requires
        graph_wf(*g),
        items_wf(*g, *items, 0),
    ensures
        r@ == sp_exports_text(*g, *items, 0),
{
    let mut out = String::new();
    let mut j: usize = 0;
    proof {
        assert(out@ + sp_exports_text(*g, *items, 0) =~= sp_exports_text(*g, *items, 0));
    }
    while j < items.len()
        invariant
            j <= items.len(),
            items_wf(*g, *items, j as int),
            out@ + sp_exports_text(*g, *items, j as int) == sp_exports_text(*g, *items, 0),
        decreases items.len() - j,
    {
        match &items[j].kind {
            WorldItemKind::Iface(id) => {
                let b = inline_iface_str(g, items[j].name.as_str(), *id);
                out.append(b.as_str());
            },
            WorldItemKind::Func(_) => {},
        }
        proof {
            assert(out@ + sp_exports_text(*g, *items, j + 1) =~= sp_exports_text(*g, *items, 0));
        }
        j = j + 1;
    }
    out
}

/// The fields of the world umbrella interface: one per export.
pub open spec fn sp_world_fields(g: Graph, items: Vec<WorldItem>, j: int) -> Seq<char>
    decreases items.len() - j,
{
    if j < 0 || j >= items.len() {
        Seq::empty()
    } else {
        (match items[j].kind {
            WorldItemKind::Iface(_) => "  "@ + sp_camel(items[j].name@) + ": "@ + sp_pascal(
                items[j].name@,
            ) + ",\n"@,
            WorldItemKind::Func(f) => sp_member(g, true, f, "  "@),
        }) + sp_world_fields(g, items, j + 1)
    }
}

#[verifier::loop_isolation(false)]
pub fn world_fields_str(g: &Graph, items: &Vec<WorldItem>) -> (r: String)
    requires
        graph_wf(*g),
        items_wf(*g, *items, 0),
    ensures
        r@ == sp_world_fields(*g, *items, 0),
{
    let mut out = String::new();
    let mut j: usize = 0;
    proof {
        assert(out@ + sp_world_fields(*g, *items, 0) =~= sp_world_fields(*g, *items, 0));
    }
    while j < items.len()
        invariant
            j <= items.len(),
            items_wf(*g, *items, j as int),
            out@ + sp_world_fields(*g, *items, j as int) == sp_world_fields(*g, *items, 0),
        decreases items.len() - j,
    {
        match &items[j].kind {
            WorldItemKind::Iface(_) => {
                out.append("  ");
                let c = camel(items[j].name.as_str());
                out.append(c.as_str());
                out.append(": ");
                let p = pascal(items[j].name.as_str());
                out.append(p.as_str());
                out.append(",\n");
            },
            WorldItemKind::Func(f) => {
                let m = crate::emit::member_str(g, true, f, "  ");
                out.append(m.as_str());
            },
        }
        proof {
            assert(out@ + sp_world_fields(*g, *items, j + 1) =~= sp_world_fields(*g, *items, 0));
        }
        j = j + 1;
    }
    out
}

/// The world umbrella interface, `<Name>World`.
pub open spec fn sp_umbrella(g: Graph, w: World) -> Seq<char> {
    "export interface "@ + sp_pascal(w.name@) + "World {\n"@ + sp_world_fields(g, w.exports, 0)
        + "}\n"@
}

pub fn umbrella_str(g: &Graph, w: &World) -> (r: String)
    requires
        graph_wf(*g),
        world_wf(*g, *w),
    ensures
        r@ == sp_umbrella(*g, *w),
{
    let mut out = "export interface ".to_owned();
    let n = pascal(w.name.as_str());
    out.append(n.as_str());
    out.append("World {\n");
    let fs = world_fields_str(g, &w.exports);
    out.append(fs.as_str());
    out.append("}\n");
    out
}

/// The world's own `.d.ts`: the inlined exports, the helper aliases when the
/// file uses them, then the umbrella interface.
pub open spec fn sp_world_file(g: Graph, w: World) -> Seq<char> {
    sp_exports_text(g, w.exports, 0) + sp_helpers(
        sp_exports_text(g, w.exports, 0) + sp_umbrella(g, w),
        Seq::empty(),
    ) + sp_umbrella(g, w)
}

pub fn world_file_str(g: &Graph, w: &World) -> (r: String)
    requires
        graph_wf(*g),
        world_wf(*g, *w),
    ensures
        r@ == sp_world_file(*g, *w),
{
    let e = exports_text_str(g, &w.exports);
    let u = umbrella_str(g, w);
    let mut scan = e.clone();
    scan.append(u.as_str());
    let h = helpers_str(scan.as_str(), "");
    let mut out = e;
    out.append(h.as_str());
    out.append(u.as_str());
    proof {
        reveal_strlit("");
        assert(""@ =~= Seq::<char>::empty());
        assert(out@ =~= sp_world_file(*g, *w));
    }
    out
}

/// The interfaces a mentioned type definition points back to.
pub open spec fn sp_owners(g: Graph, ids: Seq<usize>, k: int) -> Seq<usize>
    decreases ids.len() - k,
{
    if k < 0 || k >= ids.len() {
        Seq::empty()
    } else {
        (if ids[k] < g.typedefs.len() {
            seq![g.typedefs[ids[k] as int].owner]
        } else {
            Seq::empty()
        }) + sp_owners(g, ids, k + 1)
    }
}

#[verifier::loop_isolation(false)]
pub fn owners_of(g: &Graph, ids: &Vec<usize>) -> (r: Vec<usize>)
    ensures
        r@ == sp_owners(*g, ids@, 0),
{
    let mut out: Vec<usize> = Vec::new();
    let mut k: usize = 0;
    proof {
        assert(out@ + sp_owners(*g, ids@, 0) =~= sp_owners(*g, ids@, 0));
    }
    while k < ids.len()
        invariant
            k <= ids.len(),
            out@ + sp_owners(*g, ids@, k as int) == sp_owners(*g, ids@, 0),
        decreases ids.len() - k,
    {
        if ids[k] < g.typedefs.len() {
            out.push(g.typedefs[ids[k]].owner);
        }
        proof {
            assert(out@ + sp_owners(*g, ids@, k + 1) =~= sp_owners(*g, ids@, 0));
        }
        k = k + 1;
    }
    out
}

/// The interfaces that interface `j` refers to, via any of its types or
/// function signatures.
pub open spec fn sp_mentions(g: Graph, j: int) -> Seq<usize> {
    if 0 <= j < g.interfaces.len() {
        sp_owners(g, sp_ids_in_iface(g, g.interfaces[j]), 0)
    } else {
        Seq::empty()
    }
}

pub fn mentions_of(g: &Graph, j: usize) -> (r: Vec<usize>)
    requires
        j < g.interfaces.len(),
    ensures
        r@ == sp_mentions(*g, j as int),
{
    let mut ids: Vec<usize> = Vec::new();
    ids_in_iface(g, &g.interfaces[j], &mut ids);
    proof {
        assert(ids@ =~= sp_ids_in_iface(*g, g.interfaces[j as int]));
    }
    owners_of(g, &ids)
}

/// One closure step: an interface is marked when it was marked, or when a
/// marked interface mentions it.
pub open spec fn sp_step(g: Graph, s: Seq<bool>) -> Seq<bool> {
    Seq::new(
        s.len(),
        |i: int|
            s[i] || exists|j: int|
                0 <= j < s.len() && s[j] && #[trigger] sp_mentions(g, j).contains(i as usize),
    )
}

/// The closure after `k` steps.
pub open spec fn sp_reach(g: Graph, s: Seq<bool>, k: nat) -> Seq<bool>
    decreases k,
{
    if k == 0 {
        s
    } else {
        sp_reach(g, sp_step(g, s), (k - 1) as nat)
    }
}

#[verifier::loop_isolation(false)]
fn step(g: &Graph, s: &Vec<bool>, mention: &Vec<Vec<usize>>) -> (r: Vec<bool>)
    requires
        mention@.len() == s@.len(),
        forall|j: int| 0 <= j < s@.len() ==> #[trigger] mention@[j]@ == sp_mentions(*g, j),
    ensures
        r@ == sp_step(*g, s@),
{
    let n = s.len();
    let mut out: Vec<bool> = Vec::new();
    let mut i: usize = 0;
    while i < n
        invariant
            i <= n,
            out@.len() == i,
            forall|m: int| 0 <= m < i ==> out@[m] == sp_step(*g, s@)[m],
        decreases n - i,
    {
        let mut b = s[i];
        let mut j: usize = 0;
        while j < n
            invariant
                j <= n,
                b == (s@[i as int] || exists|jj: int|
                    0 <= jj < j && s@[jj] && #[trigger] sp_mentions(*g, jj).contains(i as usize)),
            decreases n - j,
        {
            let sj = s[j];
            let c = contains_usize(&mention[j], i);
            proof {
                if sj && c {
                    assert(s@[j as int] && sp_mentions(*g, j as int).contains(i as usize));
                } else {
                    assert(!(s@[j as int] && sp_mentions(*g, j as int).contains(i as usize)));
                }
            }
            if sj && c {
                b = true;
            }
            j = j + 1;
        }
        out.push(b);
        i = i + 1;
    }
    proof {
        assert(out@ =~= sp_step(*g, s@));
    }
    out
}

/// Marks of the interfaces a world exports by name.
pub open spec fn sp_mark_exported(g: Graph, items: Vec<WorldItem>, k: int, acc: Seq<bool>) -> Seq<
    bool,
>
    decreases items.len() - k,
{
    if k < 0 || k >= items.len() {
        acc
    } else {
        sp_mark_exported(
            g,
            items,
            k + 1,
            match items[k].kind {
                WorldItemKind::Iface(id) => if id < acc.len() {
                    acc.update(id as int, true)
                } else {
                    acc
                },
                WorldItemKind::Func(_) => acc,
            },
        )
    }
}

/// Marks the owners in `os` that are not exported interfaces.
pub open spec fn sp_mark_owner_list(
    os: Seq<usize>,
    m: int,
    exported: Seq<bool>,
    acc: Seq<bool>,
) -> Seq<bool>
    decreases os.len() - m,
{
    if m < 0 || m >= os.len() {
        acc
    } else {
        sp_mark_owner_list(
            os,
            m + 1,
            exported,
            if os[m] < acc.len() && os[m] < exported.len() && !exported[os[m] as int] {
                acc.update(os[m] as int, true)
            } else {
                acc
            },
        )
    }
}

/// The interfaces an export mentions.
pub open spec fn sp_item_owners(g: Graph, item: WorldItem) -> Seq<usize> {
    match item.kind {
        WorldItemKind::Iface(id) => sp_mentions(g, id as int),
        WorldItemKind::Func(f) => sp_owners(g, sp_ids_in_func(f), 0),
    }
}

/// Seeds from a world's exports: every non-exported interface one of them
/// mentions.
pub open spec fn sp_seed_exports(
    g: Graph,
    items: Vec<WorldItem>,
    k: int,
    exported: Seq<bool>,
    acc: Seq<bool>,
) -> Seq<bool>
    decreases items.len() - k,
{
    if k < 0 || k >= items.len() {
        acc
    } else {
        sp_seed_exports(
            g,
            items,
            k + 1,
            exported,
            sp_mark_owner_list(sp_item_owners(g, items[k]), 0, exported, acc),
        )
    }
}

/// Seeds from a world's imports: every interface imported by reference.
pub open spec fn sp_mark_imports(g: Graph, items: Vec<WorldItem>, k: int, acc: Seq<bool>) -> Seq<
    bool,
>
    decreases items.len() - k,
{
    if k < 0 || k >= items.len() {
        acc
    } else {
        sp_mark_imports(
            g,
            items,
            k + 1,
            match items[k].kind {
                WorldItemKind::Iface(id) => if id < acc.len() {
                    acc.update(id as int, true)
                } else {
                    acc
                },
                WorldItemKind::Func(_) => acc,
            },
        )
    }
}

pub open spec fn sp_falses(n: nat) -> Seq<bool> {
    Seq::new(n, |q: int| false)
}

pub open spec fn sp_exported(g: Graph, w: World) -> Seq<bool> {
    sp_mark_exported(g, w.exports, 0, sp_falses(g.interfaces.len() as nat))
}

pub open spec fn sp_seeds(g: Graph, w: World) -> Seq<bool> {
    sp_mark_imports(
        g,
        w.imports,
        0,
        sp_seed_exports(
            g,
            w.exports,
            0,
            sp_exported(g, w),
            sp_falses(g.interfaces.len() as nat),
        ),
    )
}

/// The interfaces that get a module file: everything reachable from the
/// world's imports and from its exports' cross references.
pub open spec fn sp_emit_set(g: Graph, w: World) -> Seq<bool> {
    sp_reach(g, sp_seeds(g, w), g.interfaces.len() as nat)
}

fn falses(n: usize) -> (r: Vec<bool>)
    ensures
        r@ == sp_falses(n as nat),
{
    let mut out: Vec<bool> = Vec::new();
    let mut q: usize = 0;
    while q < n
        invariant
            q <= n,
            out@ =~= Seq::new(q as nat, |m: int| false),
        decreases n - q,
    {
        out.push(false);
        q = q + 1;
    }
    proof {
        assert(out@ =~= sp_falses(n as nat));
    }
    out
}

#[verifier::loop_isolation(false)]
fn mark_exported(g: &Graph, items: &Vec<WorldItem>, acc: &mut Vec<bool>)
    ensures
        final(acc)@ == sp_mark_exported(*g, *items, 0, old(acc)@),
        final(acc)@.len() == old(acc)@.len(),
{
    let mut k: usize = 0;
    while k < items.len()
        invariant
            k <= items.len(),
            acc@.len() == old(acc)@.len(),
            sp_mark_exported(*g, *items, 0, old(acc)@) == sp_mark_exported(
                *g,
                *items,
                k as int,
                acc@,
            ),
        decreases items.len() - k,
    {
        match &items[k].kind {
            WorldItemKind::Iface(id) => {
                if *id < acc.len() {
                    acc.set(*id, true);
                }
            },
            WorldItemKind::Func(_) => {},
        }
        k = k + 1;
    }
}

#[verifier::loop_isolation(false)]
fn mark_owner_list(os: &Vec<usize>, exported: &Vec<bool>, acc: &mut Vec<bool>)
    ensures
        final(acc)@ == sp_mark_owner_list(os@, 0, exported@, old(acc)@),
        final(acc)@.len() == old(acc)@.len(),
{
    let mut m: usize = 0;
    while m < os.len()
        invariant
            m <= os.len(),
            acc@.len() == old(acc)@.len(),
            sp_mark_owner_list(os@, 0, exported@, old(acc)@) == sp_mark_owner_list(
                os@,
                m as int,
                exported@,
                acc@,
            ),
        decreases os.len() - m,
    {
        let o = os[m];
        if o < acc.len() && o < exported.len() && !exported[o] {
            acc.set(o, true);
        }
        m = m + 1;
    }
}

#[verifier::loop_isolation(false)]
fn seed_exports(g: &Graph, items: &Vec<WorldItem>, exported: &Vec<bool>, acc: &mut Vec<bool>)
    requires
        graph_wf(*g),
        items_wf(*g, *items, 0),
    ensures
        final(acc)@ == sp_seed_exports(*g, *items, 0, exported@, old(acc)@),
        final(acc)@.len() == old(acc)@.len(),
{
    let mut k: usize = 0;
    while k < items.len()
        invariant
            k <= items.len(),
            acc@.len() == old(acc)@.len(),
            items_wf(*g, *items, k as int),
            sp_seed_exports(*g, *items, 0, exported@, old(acc)@) == sp_seed_exports(
                *g,
                *items,
                k as int,
                exported@,
                acc@,
            ),
        decreases items.len() - k,
    {
        let os = match &items[k].kind {
            WorldItemKind::Iface(id) => {
                if *id < g.interfaces.len() {
                    mentions_of(g, *id)
                } else {
                    Vec::new()
                }
            },
            WorldItemKind::Func(f) => {
                let mut ids: Vec<usize> = Vec::new();
                ids_in_func(f, &mut ids);
                proof {
                    assert(ids@ =~= sp_ids_in_func(items@[k as int].kind->Func_0));
                }
                owners_of(g, &ids)
            },
        };
        proof {
            assert(os@ == sp_item_owners(*g, items@[k as int]));
        }
        mark_owner_list(&os, exported, acc);
        k = k + 1;
    }
}

#[verifier::loop_isolation(false)]
fn mark_imports(g: &Graph, items: &Vec<WorldItem>, acc: &mut Vec<bool>)
    ensures
        final(acc)@ == sp_mark_imports(*g, *items, 0, old(acc)@),
        final(acc)@.len() == old(acc)@.len(),
{
    let mut k: usize = 0;
    while k < items.len()
        invariant
            k <= items.len(),
            acc@.len() == old(acc)@.len(),
            sp_mark_imports(*g, *items, 0, old(acc)@) == sp_mark_imports(
                *g,
                *items,
                k as int,
                acc@,
            ),
        decreases items.len() - k,
    {
        match &items[k].kind {
            WorldItemKind::Iface(id) => {
                if *id < acc.len() {
                    acc.set(*id, true);
                }
            },
            WorldItemKind::Func(_) => {},
        }
        k = k + 1;
    }
}

#[verifier::loop_isolation(false)]
pub fn emit_set(g: &Graph, w: &World) -> (r: Vec<bool>)
    requires
        graph_wf(*g),
        world_wf(*g, *w),
    ensures
        r@ == sp_emit_set(*g, *w),
{
    let n = g.interfaces.len();
    let mut exported = falses(n);
    mark_exported(g, &w.exports, &mut exported);
    let mut seeds = falses(n);
    seed_exports(g, &w.exports, &exported, &mut seeds);
    mark_imports(g, &w.imports, &mut seeds);
    proof {
        assert(seeds@ == sp_seeds(*g, *w));
    }
    let mut mention: Vec<Vec<usize>> = Vec::new();
    let mut j: usize = 0;
    while j < n
        invariant
            j <= n,
            mention@.len() == j,
            forall|m: int| 0 <= m < j ==> #[trigger] mention@[m]@ == sp_mentions(*g, m),
        decreases n - j,
    {
        let ms = mentions_of(g, j);
        mention.push(ms);
        j = j + 1;
    }
    let mut cur = seeds;
    let mut t: usize = 0;
    while t < n
        invariant
            t <= n,
            cur@.len() == n,
            mention@.len() == n,
            forall|m: int| 0 <= m < n ==> #[trigger] mention@[m]@ == sp_mentions(*g, m),
            sp_reach(*g, sp_seeds(*g, *w), n as nat) == sp_reach(*g, cur@, (n - t) as nat),
        decreases n - t,
    {
        cur = step(g, &cur, &mention);
        t = t + 1;
    }
    cur
}

/// The marked interfaces, in index order.
pub open spec fn sp_marked_list(s: Seq<bool>, i: int) -> Seq<usize>
    decreases s.len() - i,
{
    if i < 0 || i >= s.len() {
        Seq::empty()
    } else {
        (if s[i] {
            seq![i as usize]
        } else {
            Seq::empty()
        }) + sp_marked_list(s, i + 1)
    }
}

#[verifier::loop_isolation(false)]
pub fn marked_list(s: &Vec<bool>) -> (r: Vec<usize>)
    ensures
        r@ == sp_marked_list(s@, 0),
{
    let mut out: Vec<usize> = Vec::new();
    let mut i: usize = 0;
    proof {
        assert(out@ + sp_marked_list(s@, 0) =~= sp_marked_list(s@, 0));
    }
    while i < s.len()
        invariant
            i <= s.len(),
            out@ + sp_marked_list(s@, i as int) == sp_marked_list(s@, 0),
        decreases s.len() - i,
    {
        if s[i] {
            out.push(i);
        }
        proof {
            assert(out@ + sp_marked_list(s@, i + 1) =~= sp_marked_list(s@, 0));
        }
        i = i + 1;
    }
    out
}

/// Module-file order: interfaces sorted by their fully qualified name.
pub open spec fn sp_iface_le(g: Graph, a: usize, b: usize) -> bool {
    sp_lex_le(
        if a < g.interfaces.len() {
            sp_specifier(g, g.interfaces[a as int])
        } else {
            Seq::empty()
        },
        if b < g.interfaces.len() {
            sp_specifier(g, g.interfaces[b as int])
        } else {
            Seq::empty()
        },
    )
}

fn iface_le(g: &Graph, a: usize, b: usize) -> (r: bool)
    requires
        graph_wf(*g),
    ensures
        r == sp_iface_le(*g, a, b),
{
    let sa = if a < g.interfaces.len() {
        proof {
            assert(iface_wf(*g, g.interfaces[a as int]));
        }
        specifier_str(g, &g.interfaces[a])
    } else {
        String::new()
    };
    let sb = if b < g.interfaces.len() {
        proof {
            assert(iface_wf(*g, g.interfaces[b as int]));
        }
        specifier_str(g, &g.interfaces[b])
    } else {
        String::new()
    };
    lex_le(sa.as_str(), sb.as_str())
}

pub open spec fn sp_insert_iface(g: Graph, x: usize, s: Seq<usize>) -> Seq<usize>
    decreases s.len(),
{
    if s.len() == 0 {
        seq![x]
    } else if sp_iface_le(g, x, s[0]) {
        seq![x] + s
    } else {
        seq![s[0]] + sp_insert_iface(g, x, s.drop_first())
    }
}

pub open spec fn sp_sort_ifaces(g: Graph, s: Seq<usize>) -> Seq<usize>
    decreases s.len(),
{
    if s.len() == 0 {
        Seq::empty()
    } else {
        sp_insert_iface(g, s[0], sp_sort_ifaces(g, s.drop_first()))
    }
}

proof fn lemma_insert_iface_skip(g: Graph, x: usize, s: Seq<usize>, j: int)
    requires
        0 <= j <= s.len(),
        forall|m: int| 0 <= m < j ==> !sp_iface_le(g, x, s[m]),
    ensures
        sp_insert_iface(g, x, s) =~= s.take(j) + sp_insert_iface(g, x, s.skip(j)),
    decreases j,
{
    if j == 0 {
        assert(s.skip(0) =~= s);
        assert(s.take(0) + sp_insert_iface(g, x, s) =~= sp_insert_iface(g, x, s));
    } else {
        assert(!sp_iface_le(g, x, s[0]));
        lemma_insert_iface_skip(g, x, s.drop_first(), j - 1);
        assert(s.drop_first().take(j - 1) =~= s.take(j).drop_first());
        assert(s.drop_first().skip(j - 1) =~= s.skip(j));
        assert(seq![s[0]] + (s.drop_first().take(j - 1) + sp_insert_iface(g, x, s.skip(j)))
            =~= s.take(j) + sp_insert_iface(g, x, s.skip(j)));
    }
}

#[verifier::loop_isolation(false)]
fn insert_iface(g: &Graph, x: usize, v: &mut Vec<usize>)
    requires
        graph_wf(*g),
    ensures
        final(v)@ == sp_insert_iface(*g, x, old(v)@),
{
    let mut j: usize = 0;
    while j < v.len() && !iface_le(g, x, v[j])
        invariant
            j <= v.len(),
            v@ == old(v)@,
            forall|m: int| 0 <= m < j ==> !sp_iface_le(*g, x, v@[m]),
        decreases v.len() - j,
    {
        j = j + 1;
    }
    proof {
        lemma_insert_iface_skip(*g, x, v@, j as int);
        if j < v@.len() {
            assert(v@.skip(j as int)[0] == v@[j as int]);
            assert(sp_insert_iface(*g, x, v@.skip(j as int)) =~= seq![x] + v@.skip(j as int));
        } else {
            assert(v@.skip(j as int) =~= Seq::<usize>::empty());
            assert(sp_insert_iface(*g, x, v@.skip(j as int)) =~= seq![x]);
        }
    }
    v.insert(j, x);
    proof {
        assert(v@ =~= old(v)@.take(j as int) + (seq![x] + old(v)@.skip(j as int)));
    }
}

#[verifier::loop_isolation(false)]
pub fn sort_ifaces(g: &Graph, s: &Vec<usize>) -> (r: Vec<usize>)
    requires
        graph_wf(*g),
    ensures
        r@ == sp_sort_ifaces(*g, s@),
{
    let mut out: Vec<usize> = Vec::new();
    let mut i: usize = s.len();
    proof {
        assert(s@.skip(s@.len() as int) =~= Seq::<usize>::empty());
    }
    while i > 0
        invariant
            i <= s.len(),
            out@ == sp_sort_ifaces(*g, s@.skip(i as int)),
        decreases i,
    {
        i = i - 1;
        insert_iface(g, s[i], &mut out);
        proof {
            crate::text::lemma_skip_step(s@, i as int);
        }
    }
    proof {
        assert(s@.skip(0) =~= s@);
    }
    out
}

/// The ordered list of interfaces that own a module file for this world.
pub open spec fn sp_module_order(g: Graph, w: World) -> Seq<usize> {
    sp_sort_ifaces(g, sp_marked_list(sp_emit_set(g, w), 0))
}

/// The path of an interface's module file.
pub open spec fn sp_module_path(g: Graph, iid: usize) -> Seq<char> {
    if iid < g.interfaces.len() {
        "interfaces/"@ + sp_file_stem(g, g.interfaces[iid as int]) + ".d.ts"@
    } else {
        Seq::empty()
    }
}

/// The path of a world's file: its name lowered, `.d.ts` appended.
pub open spec fn sp_world_path(w: World) -> Seq<char> {
    sp_lower_all(w.name@) + ".d.ts"@
}

/// The full output of one generation run: every module file in order, then
/// the world file.
pub open spec fn sp_outputs(g: Graph, order: Seq<usize>, j: int) -> Seq<(Seq<char>, Seq<char>)>
    decreases order.len() - j,
{
    if j < 0 || j >= order.len() {
        Seq::empty()
    } else {
        (if order[j] < g.interfaces.len() {
            seq![(sp_module_path(g, order[j]), sp_module_file(g, order[j]))]
        } else {
            Seq::empty()
        }) + sp_outputs(g, order, j + 1)
    }
}

pub open spec fn sp_generate(g: Graph, w: World) -> Seq<(Seq<char>, Seq<char>)> {
    sp_outputs(g, sp_module_order(g, w), 0) + seq![(sp_world_path(w), sp_world_file(g, w))]
}

#[verifier::loop_isolation(false)]
pub fn generate_world(g: &Graph, w: &World) -> (r: Vec<(String, String)>)
    requires
        graph_wf(*g),
        world_wf(*g, *w),
    ensures
        r@.len() == sp_generate(*g, *w).len(),
        forall|i: int|
            0 <= i < r@.len() ==> #[trigger] r@[i].0@ == sp_generate(*g, *w)[i].0 && r@[i].1@
                == sp_generate(*g, *w)[i].1,
{
    let marks = emit_set(g, w);
    let listed = marked_list(&marks);
    let order = sort_ifaces(g, &listed);
    let mut files: Vec<(String, String)> = Vec::new();
    let mut j: usize = 0;
    let ghost outs = sp_outputs(*g, order@, 0);
    while j < order.len()
        invariant
            j <= order.len(),
            order@ == sp_module_order(*g, *w),
            sp_outputs(*g, order@, j as int).len() + files@.len() == outs.len(),
            forall|m: int|
                0 <= m < files@.len() ==> #[trigger] files@[m].0@ == outs[m].0 && files@[m].1@
                    == outs[m].1,
            outs =~= files@.map_values(|p: (String, String)| (p.0@, p.1@)) + sp_outputs(
                *g,
                order@,
                j as int,
            ),
        decreases order.len() - j,
    {
        let iid = order[j];
        if iid < g.interfaces.len() {
            proof {
                assert(iface_wf(*g, g.interfaces[iid as int]));
            }
            let mut path = "interfaces/".to_owned();
            let stem = file_stem_str(g, &g.interfaces[iid]);
            path.append(stem.as_str());
            path.append(".d.ts");
            let body = module_file_str(g, iid);
            proof {
                assert(path@ =~= sp_module_path(*g, iid));
            }
            files.push((path, body));
        }
        proof {
            assert(outs =~= files@.map_values(|p: (String, String)| (p.0@, p.1@)) + sp_outputs(
                *g,
                order@,
                j + 1,
            ));
        }
        j = j + 1;
    }
    let mut wpath = lower_all(w.name.as_str());
    wpath.append(".d.ts");
    let wbody = world_file_str(g, w);
    files.push((wpath, wbody));
    proof {
        assert(sp_outputs(*g, order@, order@.len() as int) =~= Seq::<(Seq<char>, Seq<char>)>::empty());
    }
    files
}

} // verus!
