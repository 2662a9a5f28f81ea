//! Assembly of one ambient-module `.d.ts` file for an interface: module
//! specifier and file stem, deduplicated and sorted `import type` lines,
//! topological ordering of type declarations, and the file text itself.

use vstd::prelude::*;

verus! {

use vstd::pervasive::VecAdditionalExecFns;
use vstd::string::StrSliceExecFns;
use vstd::string::StringExecFns;
use crate::emit::sp_classes;
use crate::emit::sp_fn_decls;
use crate::emit::sp_typedecl;
use crate::emit::classes_str;
use crate::emit::fn_decls_str;
use crate::emit::typedecl_str;
use crate::graph::Graph;
use crate::graph::Interface;
use crate::graph::graph_wf;
use crate::graph::iface_wf;
use crate::graph::typedef_wf;
use crate::names::pascal;
use crate::names::sp_pascal;
use crate::printer::ids_in_def;
use crate::printer::ids_in_iface;
use crate::printer::sp_ids_in_def;
use crate::printer::sp_ids_in_iface;
use crate::text::contains;
use crate::text::lemma_skip_step;
use crate::text::sp_contains;
use crate::text::str_eq;

/// Lexicographic order on character sequences, by code point; a strict
/// prefix sorts first.
pub open spec fn sp_lex_le(a: Seq<char>, b: Seq<char>) -> bool
    decreases a.len(),
{
    if a.len() == 0 {
        true
    } else if b.len() == 0 {
        false
    } else if a[0] != b[0] {
        (a[0] as u32) < (b[0] as u32)
    } else {
        sp_lex_le(a.drop_first(), b.drop_first())
    }
}

#[verifier::loop_isolation(false)]
pub fn lex_le(a: &str, b: &str) -> (r: bool)
    ensures
        r == sp_lex_le(a@, b@),
{
    let al = a.unicode_len();
    let bl = b.unicode_len();
    let mut i: usize = 0;
    proof {
        assert(a@.skip(0) =~= a@);
        assert(b@.skip(0) =~= b@);
    }
    while i < al && i < bl
        invariant
            i <= al,
            i <= bl,
            al == a@.len(),
            bl == b@.len(),
            sp_lex_le(a@, b@) == sp_lex_le(a@.skip(i as int), b@.skip(i as int)),
        decreases al - i,
    {
        let ca = a.get_char(i);
        let cb = b.get_char(i);
        proof {
            lemma_skip_step(a@, i as int);
            lemma_skip_step(b@, i as int);
        }
        if ca != cb {
            return (ca as u32) < (cb as u32);
        }
        i = i + 1;
    }
    proof {
        if i >= al {
            assert(a@.skip(i as int).len() == 0);
        } else {
            assert(b@.skip(i as int).len() == 0);
            assert(a@.skip(i as int).len() > 0);
        }
    }
    al <= bl
}

/// The module specifier of an interface: `ns:pkg/name`, with `@version`
/// retained when the package has one.
pub open spec fn sp_specifier(g: Graph, itf: Interface) -> Seq<char> {
    if itf.package < g.packages.len() {
        let p = g.packages[itf.package as int];
        p.namespace@ + ":"@ + p.name@ + "/"@ + itf.name@ + (match p.version {
            Some(v) => "@"@ + v@,
            None => Seq::empty(),
        })
    } else {
        Seq::empty()
    }
}

/// The file stem of an interface: `ns-pkg-name`, the version dropped.
pub open spec fn sp_file_stem(g: Graph, itf: Interface) -> Seq<char> {
    if itf.package < g.packages.len() {
        let p = g.packages[itf.package as int];
        p.namespace@ + "-"@ + p.name@ + "-"@ + itf.name@
    } else {
        Seq::empty()
    }
}

pub fn specifier_str(g: &Graph, itf: &Interface) -> (r: String)
    requires
        itf.package < g.packages.len(),
    ensures
        r@ == sp_specifier(*g, *itf),
{
    let p = &g.packages[itf.package];
    let mut out = String::new();
    out.append(p.namespace.as_str());
    out.append(":");
    out.append(p.name.as_str());
    out.append("/");
    out.append(itf.name.as_str());
    match &p.version {
        Some(v) => {
            out.append("@");
            out.append(v.as_str());
        },
        None => {},
    }
    proof {
        assert(out@ =~= sp_specifier(*g, *itf));
    }
    out
}

pub fn file_stem_str(g: &Graph, itf: &Interface) -> (r: String)
    requires
        itf.package < g.packages.len(),
    ensures
        r@ == sp_file_stem(*g, *itf),
{
    let p = &g.packages[itf.package];
    let mut out = String::new();
    out.append(p.namespace.as_str());
    out.append("-");
    out.append(p.name.as_str());
    out.append("-");
    out.append(itf.name.as_str());
    proof {
        assert(out@ =~= sp_file_stem(*g, *itf));
    }
    out
}

/// The import key of a referenced type definition: its projected name and
/// the specifier of the module that owns it.
pub open spec fn sp_tid_name(g: Graph, tid: usize) -> Seq<char> {
    if tid < g.typedefs.len() {
        sp_pascal(g.typedefs[tid as int].name@)
    } else {
        Seq::empty()
    }
}

pub open spec fn sp_tid_module(g: Graph, tid: usize) -> Seq<char> {
    if tid < g.typedefs.len() && g.typedefs[tid as int].owner < g.interfaces.len() {
        sp_specifier(g, g.interfaces[g.typedefs[tid as int].owner as int])
    } else {
        Seq::empty()
    }
}

/// Import order: by source module first, then by type name.
pub open spec fn sp_tid_le(g: Graph, a: usize, b: usize) -> bool {
    if sp_tid_module(g, a) == sp_tid_module(g, b) {
        sp_lex_le(sp_tid_name(g, a), sp_tid_name(g, b))
    } else {
        sp_lex_le(sp_tid_module(g, a), sp_tid_module(g, b))
    }
}

/// Two referenced type definitions that would render the same import line.
pub open spec fn sp_tid_same(g: Graph, a: usize, b: usize) -> bool {
    sp_tid_name(g, a) == sp_tid_name(g, b) && sp_tid_module(g, a) == sp_tid_module(g, b)
}

fn tid_name_str(g: &Graph, tid: usize) -> (r: String)
    requires
        graph_wf(*g),
    ensures
        r@ == sp_tid_name(*g, tid),
{
    if tid < g.typedefs.len() {
        pascal(g.typedefs[tid].name.as_str())
    } else {
        String::new()
    }
}

fn tid_module_str(g: &Graph, tid: usize) -> (r: String)
    requires
        graph_wf(*g),
    ensures
        r@ == sp_tid_module(*g, tid),
{
    if tid < g.typedefs.len() {
        proof {
            assert(typedef_wf(*g, g.typedefs[tid as int]));
        }
        let owner = g.typedefs[tid].owner;
        if owner < g.interfaces.len() {
            proof {
                assert(iface_wf(*g, g.interfaces[owner as int]));
            }
            specifier_str(g, &g.interfaces[owner])
        } else {
            String::new()
        }
    } else {
        String::new()
    }
}

fn tid_le(g: &Graph, a: usize, b: usize) -> (r: bool)
    requires
        graph_wf(*g),
    ensures
        r == sp_tid_le(*g, a, b),
{
    let ma = tid_module_str(g, a);
    let mb = tid_module_str(g, b);
    if str_eq(ma.as_str(), mb.as_str()) {
        let na = tid_name_str(g, a);
        let nb = tid_name_str(g, b);
        lex_le(na.as_str(), nb.as_str())
    } else {
        lex_le(ma.as_str(), mb.as_str())
    }
}

fn tid_same(g: &Graph, a: usize, b: usize) -> (r: bool)
    requires
        graph_wf(*g),
    ensures
        r == sp_tid_same(*g, a, b),
{
    let na = tid_name_str(g, a);
    let nb = tid_name_str(g, b);
    let ma = tid_module_str(g, a);
    let mb = tid_module_str(g, b);
    str_eq(na.as_str(), nb.as_str()) && str_eq(ma.as_str(), mb.as_str())
}

/// The cross-interface references of interface `iid` among the mentioned
/// type definitions: those owned by another interface.
pub open spec fn sp_filter_cross(g: Graph, iid: usize, ids: Seq<usize>, j: int) -> Seq<usize>
    decreases ids.len() - j,
{
    if j < 0 || j >= ids.len() {
        Seq::empty()
    } else {
        (if ids[j] < g.typedefs.len() && g.typedefs[ids[j] as int].owner != iid
            && g.typedefs[ids[j] as int].owner < g.interfaces.len() {
            seq![ids[j]]
        } else {
            Seq::empty()
        }) + sp_filter_cross(g, iid, ids, j + 1)
    }
}

#[verifier::loop_isolation(false)]
fn filter_cross(g: &Graph, iid: usize, ids: &Vec<usize>) -> (r: Vec<usize>)
    ensures
        r@ == sp_filter_cross(*g, iid, ids@, 0),
{
    let mut out: Vec<usize> = Vec::new();
    let mut j: usize = 0;
    proof {
        assert(out@ + sp_filter_cross(*g, iid, ids@, 0) =~= sp_filter_cross(*g, iid, ids@, 0));
    }
    while j < ids.len()
        invariant
            j <= ids.len(),
            out@ + sp_filter_cross(*g, iid, ids@, j as int) == sp_filter_cross(*g, iid, ids@, 0),
        decreases ids.len() - j,
    {
        let tid = ids[j];
        if tid < g.typedefs.len() && g.typedefs[tid].owner != iid && g.typedefs[tid].owner
            < g.interfaces.len() {
            out.push(tid);
        }
        proof {
            assert(out@ + sp_filter_cross(*g, iid, ids@, j + 1) =~= sp_filter_cross(
                *g,
                iid,
                ids@,
                0,
            ));
        }
        j = j + 1;
    }
    out
}

/// Insertion into a sorted list of import keys; an already-present key is
/// dropped.
pub open spec fn sp_insert_tid(g: Graph, x: usize, s: Seq<usize>) -> Seq<usize>
    decreases s.len(),
{
    if s.len() == 0 {
        seq![x]
    } else if sp_tid_same(g, x, s[0]) {
        s
    } else if sp_tid_le(g, x, s[0]) {
        seq![x] + s
    } else {
        seq![s[0]] + sp_insert_tid(g, x, s.drop_first())
    }
}

/// Insertion sort of import keys, deduplicated.
pub open spec fn sp_sort_tids(g: Graph, s: Seq<usize>) -> Seq<usize>
    decreases s.len(),
{
    if s.len() == 0 {
        Seq::empty()
    } else {
        sp_insert_tid(g, s[0], sp_sort_tids(g, s.drop_first()))
    }
}

proof fn lemma_insert_tid_skip(g: Graph, x: usize, s: Seq<usize>, j: int)
    requires
        0 <= j <= s.len(),
        forall|m: int|
            0 <= m < j ==> !sp_tid_same(g, x, s[m]) && !sp_tid_le(g, x, s[m]),
    ensures
        sp_insert_tid(g, x, s) =~= s.take(j) + sp_insert_tid(g, x, s.skip(j)),
    decreases j,
{
    if j == 0 {
        assert(s.skip(0) =~= s);
        assert(s.take(0) + sp_insert_tid(g, x, s) =~= sp_insert_tid(g, x, s));
    } else {
        assert(!sp_tid_same(g, x, s[0]));
        assert(!sp_tid_le(g, x, s[0]));
        lemma_insert_tid_skip(g, x, s.drop_first(), j - 1);
        assert(s.drop_first().take(j - 1) =~= s.take(j).drop_first());
        assert(s.drop_first().skip(j - 1) =~= s.skip(j));
        assert(seq![s[0]] + (s.drop_first().take(j - 1) + sp_insert_tid(g, x, s.skip(j))) =~= s.take(
            j,
        ) + sp_insert_tid(g, x, s.skip(j)));
    }
}

#[verifier::loop_isolation(false)]
fn insert_tid(g: &Graph, x: usize, v: &mut Vec<usize>)
    requires
        graph_wf(*g),
    ensures
        final(v)@ == sp_insert_tid(*g, x, old(v)@),
{
    let mut j: usize = 0;
    while j < v.len() && !tid_same(g, x, v[j]) && !tid_le(g, x, v[j])
        invariant
            j <= v.len(),
            v@ == old(v)@,
            forall|m: int|
                0 <= m < j ==> !sp_tid_same(*g, x, v@[m]) && !sp_tid_le(*g, x, v@[m]),
        decreases v.len() - j,
    {
        j = j + 1;
    }
    proof {
        lemma_insert_tid_skip(*g, x, v@, j as int);
    }
    if j < v.len() && tid_same(g, x, v[j]) {
        proof {
            assert(v@.skip(j as int)[0] == v@[j as int]);
            assert(sp_insert_tid(*g, x, v@.skip(j as int)) =~= v@.skip(j as int));
            assert(v@.take(j as int) + v@.skip(j as int) =~= v@);
        }
    } else {
        proof {
            if j < v.len() {
                assert(v@.skip(j as int)[0] == v@[j as int]);
                assert(sp_insert_tid(*g, x, v@.skip(j as int)) =~= seq![x] + v@.skip(j as int));
            } else {
                assert(v@.skip(j as int) =~= Seq::<usize>::empty());
                assert(sp_insert_tid(*g, x, v@.skip(j as int)) =~= seq![x]);
            }
        }
        v.insert(j, x);
        proof {
            assert(v@ =~= old(v)@.take(j as int) + (seq![x] + old(v)@.skip(j as int)));
        }
    }
}

#[verifier::loop_isolation(false)]
fn sort_tids(g: &Graph, s: &Vec<usize>) -> (r: Vec<usize>)
    requires
        graph_wf(*g),
    ensures
        r@ == sp_sort_tids(*g, s@),
{
    let mut out: Vec<usize> = Vec::new();
    let mut i: usize = s.len();
    proof {
        assert(s@.skip(s@.len() as int) =~= Seq::<usize>::empty());
    }
    while i > 0
        invariant
            i <= s.len(),
            out@ == sp_sort_tids(*g, s@.skip(i as int)),
        decreases i,
    {
        i = i - 1;
        insert_tid(g, s[i], &mut out);
        proof {
            lemma_skip_step(s@, i as int);
        }
    }
    proof {
        assert(s@.skip(0) =~= s@);
    }
    out
}

/// One `import type` line per referenced type definition.
pub open spec fn sp_import_lines(g: Graph, tids: Seq<usize>, j: int, ind: Seq<char>) -> Seq<char>
    decreases tids.len() - j,
{
    if j < 0 || j >= tids.len() {
        Seq::empty()
    } else {
        ind + "import type { "@ + sp_tid_name(g, tids[j]) + " } from \""@ + sp_tid_module(
            g,
            tids[j],
        ) + "\";\n"@ + sp_import_lines(g, tids, j + 1, ind)
    }
}

#[verifier::loop_isolation(false)]
fn import_lines_str(g: &Graph, tids: &Vec<usize>, ind: &str) -> (r: String)
    requires
        graph_wf(*g),
    ensures
        r@ == sp_import_lines(*g, tids@, 0, ind@),
{
    let mut out = String::new();
    let mut j: usize = 0;
    proof {
        assert(out@ + sp_import_lines(*g, tids@, 0, ind@) =~= sp_import_lines(*g, tids@, 0, ind@));
    }
    while j < tids.len()
        invariant
            j <= tids.len(),
            out@ + sp_import_lines(*g, tids@, j as int, ind@) == sp_import_lines(
                *g,
                tids@,
                0,
                ind@,
            ),
        decreases tids.len() - j,
    {
        out.append(ind);
        out.append("import type { ");
        let n = tid_name_str(g, tids[j]);
        out.append(n.as_str());
        out.append(" } from \"");
        let m = tid_module_str(g, tids[j]);
        out.append(m.as_str());
        out.append("\";\n");
        proof {
            assert(out@ + sp_import_lines(*g, tids@, j + 1, ind@) =~= sp_import_lines(
                *g,
                tids@,
                0,
                ind@,
            ));
        }
        j = j + 1;
    }
    out
}

/// The deduplicated, sorted import lines of an interface's file.
pub open spec fn sp_imports(g: Graph, iid: usize, ind: Seq<char>) -> Seq<char> {
    if iid < g.interfaces.len() {
        sp_import_lines(
            g,
            sp_sort_tids(
                g,
                sp_filter_cross(g, iid, sp_ids_in_iface(g, g.interfaces[iid as int]), 0),
            ),
            0,
            ind,
        )
    } else {
        Seq::empty()
    }
}

pub fn imports_str(g: &Graph, iid: usize, ind: &str) -> (r: String)
    requires
        graph_wf(*g),
        iid < g.interfaces.len(),
    ensures
        r@ == sp_imports(*g, iid, ind@),
{
    let mut ids: Vec<usize> = Vec::new();
    ids_in_iface(g, &g.interfaces[iid], &mut ids);
    proof {
        assert(ids@ =~= sp_ids_in_iface(*g, g.interfaces[iid as int]));
    }
    let cross = filter_cross(g, iid, &ids);
    let sorted = sort_tids(g, &cross);
    import_lines_str(g, &sorted, ind)
}

/// Whether every dependency of the declaration at position `p` that also
/// stands in the declaration list is already emitted.
pub open spec fn sp_ready(g: Graph, ids: Seq<usize>, done: Seq<bool>, p: int) -> bool {
    forall|q: int|
        0 <= q < ids.len() && q != p && ids[p] < g.typedefs.len() && #[trigger] sp_ids_in_def(
            g.typedefs[ids[p] as int].kind,
        ).contains(ids[q]) ==> done[q]
}

/// The first position not yet emitted whose dependencies are all emitted.
pub open spec fn sp_pick_ready(g: Graph, ids: Seq<usize>, done: Seq<bool>, p: int) -> int
    decreases ids.len() - p,
{
    if p < 0 || p >= ids.len() {
        -1
    } else if !done[p] && sp_ready(g, ids, done, p) {
        p
    } else {
        sp_pick_ready(g, ids, done, p + 1)
    }
}

/// The first position not yet emitted, the cycle fallback.
pub open spec fn sp_pick_any(ids: Seq<usize>, done: Seq<bool>, p: int) -> int
    decreases ids.len() - p,
{
    if p < 0 || p >= ids.len() {
        -1
    } else if !done[p] {
        p
    } else {
        sp_pick_any(ids, done, p + 1)
    }
}

pub open spec fn sp_pick(g: Graph, ids: Seq<usize>, done: Seq<bool>) -> int {
    if sp_pick_ready(g, ids, done, 0) >= 0 {
        sp_pick_ready(g, ids, done, 0)
    } else {
        sp_pick_any(ids, done, 0)
    }
}

/// The emission order of a declaration list: a topological traversal that
/// falls back to declaration order on cycles.
pub open spec fn sp_topo_rec(g: Graph, ids: Seq<usize>, done: Seq<bool>, k: nat) -> Seq<usize>
    decreases k,
{
    if k == 0 {
        Seq::empty()
    } else {
        let p = sp_pick(g, ids, done);
        if p < 0 || p >= done.len() {
            Seq::empty()
        } else {
            seq![p as usize] + sp_topo_rec(g, ids, done.update(p, true), (k - 1) as nat)
        }
    }
}

pub open spec fn sp_topo(g: Graph, ids: Seq<usize>) -> Seq<usize> {
    sp_topo_rec(g, ids, Seq::new(ids.len(), |q: int| false), ids.len())
}

pub fn contains_usize(v: &Vec<usize>, x: usize) -> (r: bool)
    ensures
        r == v@.contains(x),
{
    let mut i: usize = 0;
    while i < v.len()
        invariant
            i <= v.len(),
            forall|m: int| 0 <= m < i ==> v@[m] != x,
        decreases v.len() - i,
    {
        if v[i] == x {
            return true;
        }
        i = i + 1;
    }
    false
}

#[verifier::loop_isolation(false)]
fn is_ready(g: &Graph, ids: &Vec<usize>, done: &Vec<bool>, p: usize) -> (r: bool)
    requires
        done@.len() == ids@.len(),
        p < ids@.len(),
    ensures
        r == sp_ready(*g, ids@, done@, p as int),
{
    if !(ids[p] < g.typedefs.len()) {
        return true;
    }
    let mut deps: Vec<usize> = Vec::new();
    ids_in_def(&g.typedefs[ids[p]].kind, &mut deps);
    proof {
        assert(deps@ =~= sp_ids_in_def(g.typedefs[ids@[p as int] as int].kind));
    }
    let mut q: usize = 0;
    while q < ids.len()
        invariant
            q <= ids@.len(),
            deps@ == sp_ids_in_def(g.typedefs[ids@[p as int] as int].kind),
            forall|m: int|
                0 <= m < q && m != p && #[trigger] sp_ids_in_def(
                    g.typedefs[ids@[p as int] as int].kind,
                ).contains(ids@[m]) ==> done@[m],
        decreases ids.len() - q,
    {
        if q != p && !done[q] && contains_usize(&deps, ids[q]) {
            return false;
        }
        q = q + 1;
    }
    true
}

#[verifier::loop_isolation(false)]
fn pick(g: &Graph, ids: &Vec<usize>, done: &Vec<bool>) -> (r: Option<usize>)
    requires
        done@.len() == ids@.len(),
    ensures
        match r {
            Some(p) => sp_pick(*g, ids@, done@) == p as int && p < ids@.len(),
            None => sp_pick(*g, ids@, done@) == -1,
        },
{
    let mut p: usize = 0;
    while p < ids.len()
        invariant
            p <= ids@.len(),
            sp_pick_ready(*g, ids@, done@, 0) == sp_pick_ready(*g, ids@, done@, p as int),
        decreases ids.len() - p,
    {
        if !done[p] && is_ready(g, ids, done, p) {
            return Some(p);
        }
        p = p + 1;
    }
    let mut p: usize = 0;
    while p < ids.len()
        invariant
            p <= ids@.len(),
            sp_pick_ready(*g, ids@, done@, 0) == -1,
            sp_pick_any(ids@, done@, 0) == sp_pick_any(ids@, done@, p as int),
        decreases ids.len() - p,
    {
        if !done[p] {
            return Some(p);
        }
        p = p + 1;
    }
    None
}

#[verifier::loop_isolation(false)]
pub fn topo_order(g: &Graph, ids: &Vec<usize>) -> (r: Vec<usize>)
    ensures
        r@ == sp_topo(*g, ids@),
{
    let n = ids.len();
    let mut done: Vec<bool> = Vec::new();
    let mut q: usize = 0;
    while q < n
        invariant
            q <= n,
            done@ =~= Seq::new(q as nat, |m: int| false),
        decreases n - q,
    {
        done.push(false);
        q = q + 1;
    }
    let mut out: Vec<usize> = Vec::new();
    let mut k: usize = 0;
    proof {
        assert(out@ + sp_topo_rec(*g, ids@, done@, (n - k) as nat) =~= sp_topo(*g, ids@));
    }
    while k < n
        invariant
            k <= n,
            done@.len() == ids@.len(),
            out@ + sp_topo_rec(*g, ids@, done@, (n - k) as nat) == sp_topo(*g, ids@),
        decreases n - k,
    {
        match pick(g, ids, &done) {
            None => {
                proof {
                    assert(sp_topo_rec(*g, ids@, done@, (n - k) as nat) =~= Seq::<usize>::empty());
                    assert(out@ =~= out@ + Seq::<usize>::empty());
                }
                return out;
            },
            Some(p) => {
                out.push(p);
                done.set(p, true);
                proof {
                    assert(out@ + sp_topo_rec(*g, ids@, done@, (n - k - 1) as nat) =~= sp_topo(
                        *g,
                        ids@,
                    ));
                }
            },
        }
        k = k + 1;
    }
    proof {
        assert(sp_topo_rec(*g, ids@, done@, 0) =~= Seq::<usize>::empty());
        assert(out@ =~= out@ + Seq::<usize>::empty());
    }
    out
}

/// The type declarations of a declaration list, in emission order.
pub open spec fn sp_typedecls(
    g: Graph,
    wm: bool,
    ids: Seq<usize>,
    order: Seq<usize>,
    j: int,
    ind: Seq<char>,
) -> Seq<char>
    decreases order.len() - j,
{
    if j < 0 || j >= order.len() {
        Seq::empty()
    } else {
        (if order[j] < ids.len() && ids[order[j] as int] < g.typedefs.len() {
            sp_typedecl(g, wm, g.typedefs[ids[order[j] as int] as int], ind)
        } else {
            Seq::empty()
        }) + sp_typedecls(g, wm, ids, order, j + 1, ind)
    }
}

#[verifier::loop_isolation(false)]
pub fn typedecls_str(g: &Graph, wm: bool, ids: &Vec<usize>, order: &Vec<usize>, ind: &str) -> (r:
    String)
    requires
        graph_wf(*g),
    ensures
        r@ == sp_typedecls(*g, wm, ids@, order@, 0, ind@),
{
    let mut out = String::new();
    let mut j: usize = 0;
    proof {
        assert(out@ + sp_typedecls(*g, wm, ids@, order@, 0, ind@) =~= sp_typedecls(
            *g,
            wm,
            ids@,
            order@,
            0,
            ind@,
        ));
    }
    while j < order.len()
        invariant
            j <= order.len(),
            out@ + sp_typedecls(*g, wm, ids@, order@, j as int, ind@) == sp_typedecls(
                *g,
                wm,
                ids@,
                order@,
                0,
                ind@,
            ),
        decreases order.len() - j,
    {
        let p = order[j];
        if p < ids.len() && ids[p] < g.typedefs.len() {
            proof {
                assert(typedef_wf(*g, g.typedefs[ids@[p as int] as int]));
            }
            let d = typedecl_str(g, wm, &g.typedefs[ids[p]], ind);
            out.append(d.as_str());
        }
        proof {
            assert(out@ + sp_typedecls(*g, wm, ids@, order@, j + 1, ind@) =~= sp_typedecls(
                *g,
                wm,
                ids@,
                order@,
                0,
                ind@,
            ));
        }
        j = j + 1;
    }
    out
}

/// The helper aliases, emitted into a file exactly when its body uses them.
pub open spec fn sp_helpers(body: Seq<char>, ind: Seq<char>) -> Seq<char> {
    (if sp_contains(body, "Option<"@) {
        ind + "export type Option<T> = { tag: 'none' } | { tag: 'some', val: T };\n"@
    } else {
        Seq::empty()
    }) + (if sp_contains(body, "Result<"@) {
        ind + "export type Result<T, E> = { tag: 'ok', val: T } | { tag: 'err', val: E };\n"@
    } else {
        Seq::empty()
    })
}

pub fn helpers_str(body: &str, ind: &str) -> (r: String)
    ensures
        r@ == sp_helpers(body@, ind@),
{
    let mut out = String::new();
    if contains(body, "Option<") {
        out.append(ind);
        out.append("export type Option<T> = { tag: 'none' } | { tag: 'some', val: T };\n");
    }
    if contains(body, "Result<") {
        out.append(ind);
        out.append("export type Result<T, E> = { tag: 'ok', val: T } | { tag: 'err', val: E };\n");
    }
    proof {
        assert(out@ =~= sp_helpers(body@, ind@));
    }
    out
}

/// The body of an interface's ambient module: type declarations in emission
/// order, freestanding functions, then resource classes.
pub open spec fn sp_module_body(g: Graph, itf: Interface) -> Seq<char> {
    sp_typedecls(g, false, itf.typedefs@, sp_topo(g, itf.typedefs@), 0, "  "@) + sp_fn_decls(
        g,
        itf.funcs,
        0,
        "  "@,
    ) + sp_classes(g, itf.typedefs, 0, "  "@)
}

/// The whole `.d.ts` of an interface emitted as its own ambient module.
pub open spec fn sp_module_file(g: Graph, iid: usize) -> Seq<char> {
    if iid < g.interfaces.len() {
        let itf = g.interfaces[iid as int];
        "declare module \""@ + sp_specifier(g, itf) + "\" {\n"@ + sp_imports(g, iid, "  "@)
            + sp_module_body(g, itf) + sp_helpers(sp_module_body(g, itf), "  "@) + "}\n"@
    } else {
        Seq::empty()
    }
}

pub fn module_file_str(g: &Graph, iid: usize) -> (r: String)
    requires
        graph_wf(*g),
        iid < g.interfaces.len(),
    ensures
        r@ == sp_module_file(*g, iid),
{
    proof {
        assert(iface_wf(*g, g.interfaces[iid as int]));
    }
    let itf = &g.interfaces[iid];
    let mut out = "declare module \"".to_owned();
    let s = specifier_str(g, itf);
    out.append(s.as_str());
    out.append("\" {\n");
    let imps = imports_str(g, iid, "  ");
    out.append(imps.as_str());
    let order = topo_order(g, &itf.typedefs);
    let mut body = typedecls_str(g, false, &itf.typedefs, &order, "  ");
    let fns = fn_decls_str(g, &itf.funcs, "  ");
    body.append(fns.as_str());
    let cls = classes_str(g, &itf.typedefs, "  ");
    body.append(cls.as_str());
    proof {
        assert(body@ =~= sp_module_body(*g, g.interfaces[iid as int]));
    }
    out.append(body.as_str());
    let h = helpers_str(body.as_str(), "  ");
    out.append(h.as_str());
    out.append("}\n");
    proof {
        assert(out@ =~= sp_module_file(*g, iid));
    }
    out
}

} // verus!
