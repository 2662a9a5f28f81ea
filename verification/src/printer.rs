//! The type printer: a WIT type expression becomes a TypeScript type
//! expression. Named types print as their projected name only; structural
//! types print inline. The printer also enumerates the named types a type
//! expression mentions, which drives import synthesis and reachability.

use vstd::prelude::*;

verus! {

use vstd::string::StringExecFns;
use crate::graph::Case;
use crate::graph::DefKind;
use crate::graph::Field;
use crate::graph::Func;
use crate::graph::Graph;
use crate::graph::Interface;
use crate::graph::Param;
use crate::graph::Ty;
use crate::graph::graph_wf;
use crate::graph::ty_wf;
use crate::graph::tys_wf;
use crate::graph::typedef_wf;
use crate::names::pascal;
use crate::names::sp_pascal;

broadcast use vstd::std_specs::vec::axiom_vec_index_decreases;

/// Follows alias definitions for up to `fuel` steps; used to give lists of
/// numeric element types their typed-array form even through aliases.
pub open spec fn sp_resolve(g: Graph, ty: Ty, fuel: nat) -> Ty
    decreases fuel,
{
    if fuel == 0 {
        ty
    } else {
        match ty {
            Ty::Named(id) => if id < g.typedefs.len() {
                match g.typedefs[id as int].kind {
                    DefKind::Alias(t) => sp_resolve(g, t, (fuel - 1) as nat),
                    _ => ty,
                }
            } else {
                ty
            },
            _ => ty,
        }
    }
}

/// The typed-array form of `list<T>` for numeric `T`, if there is one.
pub open spec fn sp_array_lit(rt: Ty) -> Option<Seq<char>> {
    match rt {
        Ty::U8 => Some("Uint8Array"@),
        Ty::S8 => Some("Int8Array"@),
        Ty::U16 => Some("Uint16Array"@),
        Ty::S16 => Some("Int16Array"@),
        Ty::U32 => Some("Uint32Array"@),
        Ty::S32 => Some("Int32Array"@),
        Ty::U64 => Some("BigUint64Array"@),
        Ty::S64 => Some("BigInt64Array"@),
        Ty::Float32 => Some("Float32Array"@),
        Ty::Float64 => Some("Float64Array"@),
        _ => None,
    }
}

pub open spec fn sp_is_opt(ty: Ty) -> bool {
    ty matches Ty::Opt(_)
}

/// The TypeScript expression for a WIT type. `world_mode` selects the
/// world-file convention for resource handles (`NameInstance`); `top` is true
/// exactly at function parameter, function result and record field positions,
/// where an option prints as `T | undefined` rather than `Option<...>`.
pub open spec fn sp_print_ty(g: Graph, wm: bool, ty: Ty, top: bool) -> Seq<char>
    decreases ty, 0int,
{
    match ty {
        Ty::Bool => "boolean"@,
        Ty::U8 => "number"@,
        Ty::U16 => "number"@,
        Ty::U32 => "number"@,
        Ty::U64 => "bigint"@,
        Ty::S8 => "number"@,
        Ty::S16 => "number"@,
        Ty::S32 => "number"@,
        Ty::S64 => "bigint"@,
        Ty::Float32 => "number"@,
        Ty::Float64 => "number"@,
        Ty::Char => "string"@,
        Ty::Str => "string"@,
        Ty::List(t) => {
            match sp_array_lit(sp_resolve(g, *t, g.typedefs.len() as nat)) {
                Some(lit) => lit,
                None => sp_print_ty(g, wm, *t, false) + "[]"@,
            }
        },
        Ty::Opt(t) => {
            if sp_is_opt(*t) {
                "Option<"@ + sp_print_ty(g, wm, *t, true) + ">"@
            } else if top {
                sp_print_ty(g, wm, *t, true) + " | undefined"@
            } else {
                "Option<"@ + sp_print_ty(g, wm, *t, true) + " | undefined>"@
            }
        },
        Ty::Res(ok, err) => {
            "Result<"@ + (match ok {
                Some(t) => sp_print_ty(g, wm, *t, false),
                None => "void"@,
            }) + ", "@ + (match err {
                Some(t) => sp_print_ty(g, wm, *t, false),
                None => "void"@,
            }) + ">"@
        },
        Ty::Tuple(ts) => "["@ + sp_print_tys(g, wm, ts, 0) + "]"@,
        Ty::Named(id) => {
            if id < g.typedefs.len() {
                let d = g.typedefs[id as int];
                match d.kind {
                    DefKind::Resource(_) => if wm {
                        sp_pascal(d.name@) + "Instance"@
                    } else {
                        sp_pascal(d.name@)
                    },
                    _ => sp_pascal(d.name@),
                }
            } else {
                Seq::empty()
            }
        },
    }
}

/// Tuple elements, separated by `, `.
pub open spec fn sp_print_tys(g: Graph, wm: bool, ts: Vec<Ty>, i: int) -> Seq<char>
    decreases ts, ts.len() - i,
{
    if i < 0 || i >= ts.len() {
        Seq::empty()
    } else {
        sp_print_ty(g, wm, ts[i], false) + (if i + 1 < ts.len() {
            ", "@
        } else {
            Seq::empty()
        }) + sp_print_tys(g, wm, ts, i + 1)
    }
}

fn resolve<'a>(g: &'a Graph, ty: &'a Ty, fuel: usize) -> (r: &'a Ty)
    requires
        graph_wf(*g),
        ty_wf(*g, *ty),
    ensures
        *r == sp_resolve(*g, *ty, fuel as nat),
        ty_wf(*g, *r),
    decreases fuel,
{
    if fuel == 0 {
        return ty;
    }
    match ty {
        Ty::Named(id) => {
            proof {
                assert(typedef_wf(*g, g.typedefs[*id as int]));
            }
            match &g.typedefs[*id].kind {
                DefKind::Alias(t) => resolve(g, t, fuel - 1),
                _ => ty,
            }
        },
        _ => ty,
    }
}

fn array_lit(rt: &Ty) -> (r: Option<&'static str>)
    ensures
        match r {
            Some(s) => sp_array_lit(*rt) == Some(s@),
            None => sp_array_lit(*rt) is None,
        },
{
    match rt {
        Ty::U8 => Some("Uint8Array"),
        Ty::S8 => Some("Int8Array"),
        Ty::U16 => Some("Uint16Array"),
        Ty::S16 => Some("Int16Array"),
        Ty::U32 => Some("Uint32Array"),
        Ty::S32 => Some("Int32Array"),
        Ty::U64 => Some("BigUint64Array"),
        Ty::S64 => Some("BigInt64Array"),
        Ty::Float32 => Some("Float32Array"),
        Ty::Float64 => Some("Float64Array"),
        _ => None,
    }
}

#[verifier::loop_isolation(false)]
pub fn print_ty(g: &Graph, wm: bool, ty: &Ty, top: bool) -> (r: String)
    requires
        graph_wf(*g),
        ty_wf(*g, *ty),
    ensures
        r@ == sp_print_ty(*g, wm, *ty, top),
    decreases ty, 0int,
{
    match ty {
        Ty::Bool => "boolean".to_owned(),
        Ty::U8 => "number".to_owned(),
        Ty::U16 => "number".to_owned(),
        Ty::U32 => "number".to_owned(),
        Ty::U64 => "bigint".to_owned(),
        Ty::S8 => "number".to_owned(),
        Ty::S16 => "number".to_owned(),
        Ty::S32 => "number".to_owned(),
        Ty::S64 => "bigint".to_owned(),
        Ty::Float32 => "number".to_owned(),
        Ty::Float64 => "number".to_owned(),
        Ty::Char => "string".to_owned(),
        Ty::Str => "string".to_owned(),
        Ty::List(t) => {
            let rt = resolve(g, t, g.typedefs.len());
            match array_lit(rt) {
                Some(lit) => lit.to_owned(),
                None => {
                    let mut out = print_ty(g, wm, t, false);
                    out.append("[]");
                    out
                },
            }
        },
        Ty::Opt(t) => {
            let inner_is_opt = match &**t {
                Ty::Opt(_) => true,
                _ => false,
            };
            let inner = print_ty(g, wm, t, true);
            if inner_is_opt {
                let mut out = "Option<".to_owned();
                out.append(inner.as_str());
                out.append(">");
                out
            } else if top {
                let mut out = inner;
                out.append(" | undefined");
                out
            } else {
                let mut out = "Option<".to_owned();
                out.append(inner.as_str());
                out.append(" | undefined>");
                out
            }
        },
        Ty::Res(ok, err) => {
            let mut out = "Result<".to_owned();
            match ok {
                Some(t) => {
                    let s = print_ty(g, wm, t, false);
                    out.append(s.as_str());
                },
                None => out.append("void"),
            }
            out.append(", ");
            match err {
                Some(t) => {
                    let s = print_ty(g, wm, t, false);
                    out.append(s.as_str());
                },
                None => out.append("void"),
            }
            out.append(">");
            out
        },
        Ty::Tuple(ts) => {
            let mut out = "[".to_owned();
            let mut i: usize = 0;
            while i < ts.len()
                invariant
                    i <= ts.len(),
                    tys_wf(*g, *ts, i as int),
                    out@ + sp_print_tys(*g, wm, *ts, i as int) == "["@ + sp_print_tys(
                        *g,
                        wm,
                        *ts,
                        0,
                    ),
                decreases ts.len() - i,
            {
                let s = print_ty(g, wm, &ts[i], false);
                out.append(s.as_str());
                if i + 1 < ts.len() {
                    out.append(", ");
                }
                proof {
                    assert(out@ + sp_print_tys(*g, wm, *ts, i + 1) =~= "["@ + sp_print_tys(
                        *g,
                        wm,
                        *ts,
                        0,
                    ));
                }
                i = i + 1;
            }
            out.append("]");
            proof {
                assert(out@ =~= "["@ + sp_print_tys(*g, wm, *ts, 0) + "]"@);
            }
            out
        },
        Ty::Named(id) => {
            proof {
                assert(typedef_wf(*g, g.typedefs[*id as int]));
            }
            let d = &g.typedefs[*id];
            let is_res = match &d.kind {
                DefKind::Resource(_) => true,
                _ => false,
            };
            let mut out = pascal(d.name.as_str());
            if is_res && wm {
                out.append("Instance");
            }
            out
        },
    }
}

/// Every `Named` index a type expression mentions, in order of appearance.
pub open spec fn sp_ids_in_ty(ty: Ty) -> Seq<usize>
    decreases ty, 0int,
{
    match ty {
        Ty::List(t) => sp_ids_in_ty(*t),
        Ty::Opt(t) => sp_ids_in_ty(*t),
        Ty::Res(ok, err) => (match ok {
            Some(t) => sp_ids_in_ty(*t),
            None => Seq::empty(),
        }) + (match err {
            Some(t) => sp_ids_in_ty(*t),
            None => Seq::empty(),
        }),
        Ty::Tuple(ts) => sp_ids_in_tys(ts, 0),
        Ty::Named(id) => seq![id],
        _ => Seq::empty(),
    }
}

pub open spec fn sp_ids_in_tys(ts: Vec<Ty>, i: int) -> Seq<usize>
    decreases ts, ts.len() - i,
{
    if i < 0 || i >= ts.len() {
        Seq::empty()
    } else {
        sp_ids_in_ty(ts[i]) + sp_ids_in_tys(ts, i + 1)
    }
}

pub open spec fn sp_ids_in_opt_ty(t: Option<Ty>) -> Seq<usize> {
    match t {
        Some(ty) => sp_ids_in_ty(ty),
        None => Seq::empty(),
    }
}

/// Named indices mentioned by a function signature: parameters first, then
/// the result.
pub open spec fn sp_ids_in_func(f: Func) -> Seq<usize> {
    sp_ids_in_params(f.params, 0) + sp_ids_in_opt_ty(f.result)
}

pub open spec fn sp_ids_in_params(ps: Vec<Param>, i: int) -> Seq<usize>
    decreases ps.len() - i,
{
    if i < 0 || i >= ps.len() {
        Seq::empty()
    } else {
        sp_ids_in_ty(ps[i].ty) + sp_ids_in_params(ps, i + 1)
    }
}

pub open spec fn sp_ids_in_funcs(fs: Vec<Func>, i: int) -> Seq<usize>
    decreases fs.len() - i,
{
    if i < 0 || i >= fs.len() {
        Seq::empty()
    } else {
        sp_ids_in_func(fs[i]) + sp_ids_in_funcs(fs, i + 1)
    }
}

/// Named indices mentioned by a type definition's own structure.
pub open spec fn sp_ids_in_def(k: DefKind) -> Seq<usize> {
    match k {
        DefKind::Record(fields) => sp_ids_in_fields(fields, 0),
        DefKind::Variant(cases) => sp_ids_in_cases(cases, 0),
        DefKind::Enum(_) => Seq::empty(),
        DefKind::Flags(_) => Seq::empty(),
        DefKind::Alias(t) => sp_ids_in_ty(t),
        DefKind::Resource(fs) => sp_ids_in_funcs(fs, 0),
    }
}

pub open spec fn sp_ids_in_fields(fields: Vec<Field>, i: int) -> Seq<usize>
    decreases fields.len() - i,
{
    if i < 0 || i >= fields.len() {
        Seq::empty()
    } else {
        sp_ids_in_ty(fields[i].ty) + sp_ids_in_fields(fields, i + 1)
    }
}

pub open spec fn sp_ids_in_cases(cases: Vec<Case>, i: int) -> Seq<usize>
    decreases cases.len() - i,
{
    if i < 0 || i >= cases.len() {
        Seq::empty()
    } else {
        sp_ids_in_opt_ty(cases[i].payload) + sp_ids_in_cases(cases, i + 1)
    }
}

/// Named indices mentioned anywhere in an interface: its type definitions in
/// declaration order, then its function signatures.
pub open spec fn sp_ids_in_iface(g: Graph, itf: Interface) -> Seq<usize> {
    sp_ids_in_decls(g, itf.typedefs, 0) + sp_ids_in_funcs(itf.funcs, 0)
}

pub open spec fn sp_ids_in_decls(g: Graph, ids: Vec<usize>, i: int) -> Seq<usize>
    decreases ids.len() - i,
{
    if i < 0 || i >= ids.len() {
        Seq::empty()
    } else {
        (if ids[i] < g.typedefs.len() {
            sp_ids_in_def(g.typedefs[ids[i] as int].kind)
        } else {
            Seq::empty()
        }) + sp_ids_in_decls(g, ids, i + 1)
    }
}

#[verifier::loop_isolation(false)]
pub fn ids_in_ty(ty: &Ty, out: &mut Vec<usize>)
    ensures
        final(out)@ == old(out)@ + sp_ids_in_ty(*ty),
    decreases ty, 0int,
{
    match ty {
        Ty::List(t) => ids_in_ty(t, out),
        Ty::Opt(t) => ids_in_ty(t, out),
        Ty::Res(ok, err) => {
            match ok {
                Some(t) => ids_in_ty(t, out),
                None => (),
            }
            match err {
                Some(t) => ids_in_ty(t, out),
                None => (),
            }
            proof {
                assert(out@ =~= old(out)@ + sp_ids_in_ty(*ty));
            }
        },
        Ty::Tuple(ts) => {
            let mut i: usize = 0;
            while i < ts.len()
                invariant
                    i <= ts.len(),
                    out@ + sp_ids_in_tys(*ts, i as int) == old(out)@ + sp_ids_in_tys(*ts, 0),
                decreases ts.len() - i,
            {
                ids_in_ty(&ts[i], out);
                proof {
                    assert(out@ + sp_ids_in_tys(*ts, i + 1) =~= old(out)@ + sp_ids_in_tys(
                        *ts,
                        0,
                    ));
                }
                i = i + 1;
            }
            proof {
                assert(out@ =~= old(out)@ + sp_ids_in_tys(*ts, 0));
            }
        },
        Ty::Named(id) => {
            out.push(*id);
            proof {
                assert(out@ =~= old(out)@ + seq![*id]);
            }
        },
        _ => {
            proof {
                assert(out@ =~= old(out)@ + Seq::<usize>::empty());
            }
        },
    }
}

pub fn ids_in_opt_ty(t: &Option<Ty>, out: &mut Vec<usize>)
    ensures
        final(out)@ == old(out)@ + sp_ids_in_opt_ty(*t),
{
    match t {
        Some(ty) => ids_in_ty(ty, out),
        None => {
            proof {
                assert(out@ =~= old(out)@ + Seq::<usize>::empty());
            }
        },
    }
}

#[verifier::loop_isolation(false)]
pub fn ids_in_func(f: &Func, out: &mut Vec<usize>)
    ensures
        final(out)@ == old(out)@ + sp_ids_in_func(*f),
{
    let mut i: usize = 0;
    while i < f.params.len()
        invariant
            i <= f.params.len(),
            out@ + sp_ids_in_params(f.params, i as int) == old(out)@ + sp_ids_in_params(
                f.params,
                0,
            ),
        decreases f.params.len() - i,
    {
        ids_in_ty(&f.params[i].ty, out);
        proof {
            assert(out@ + sp_ids_in_params(f.params, i + 1) =~= old(out)@ + sp_ids_in_params(
                f.params,
                0,
            ));
        }
        i = i + 1;
    }
    ids_in_opt_ty(&f.result, out);
    proof {
        assert(out@ =~= old(out)@ + sp_ids_in_func(*f));
    }
}

#[verifier::loop_isolation(false)]
pub fn ids_in_funcs(fs: &Vec<Func>, out: &mut Vec<usize>)
    ensures
        final(out)@ == old(out)@ + sp_ids_in_funcs(*fs, 0),
{
    let mut i: usize = 0;
    while i < fs.len()
        invariant
            i <= fs.len(),
            out@ + sp_ids_in_funcs(*fs, i as int) == old(out)@ + sp_ids_in_funcs(*fs, 0),
        decreases fs.len() - i,
    {
        ids_in_func(&fs[i], out);
        proof {
            assert(out@ + sp_ids_in_funcs(*fs, i + 1) =~= old(out)@ + sp_ids_in_funcs(*fs, 0));
        }
        i = i + 1;
    }
    proof {
        assert(out@ =~= old(out)@ + sp_ids_in_funcs(*fs, 0));
    }
}

#[verifier::loop_isolation(false)]
pub fn ids_in_def(k: &DefKind, out: &mut Vec<usize>)
    ensures
        final(out)@ == old(out)@ + sp_ids_in_def(*k),
{
    match k {
        DefKind::Record(fields) => {
            let mut i: usize = 0;
            while i < fields.len()
                invariant
                    i <= fields.len(),
                    out@ + sp_ids_in_fields(*fields, i as int) == old(out)@ + sp_ids_in_fields(
                        *fields,
                        0,
                    ),
                decreases fields.len() - i,
            {
                ids_in_ty(&fields[i].ty, out);
                proof {
                    assert(out@ + sp_ids_in_fields(*fields, i + 1) =~= old(out)@
                        + sp_ids_in_fields(*fields, 0));
                }
                i = i + 1;
            }
            proof {
                assert(out@ =~= old(out)@ + sp_ids_in_fields(*fields, 0));
            }
        },
        DefKind::Variant(cases) => {
            let mut i: usize = 0;
            while i < cases.len()
                invariant
                    i <= cases.len(),
                    out@ + sp_ids_in_cases(*cases, i as int) == old(out)@ + sp_ids_in_cases(
                        *cases,
                        0,
                    ),
                decreases cases.len() - i,
            {
                ids_in_opt_ty(&cases[i].payload, out);
                proof {
                    assert(out@ + sp_ids_in_cases(*cases, i + 1) =~= old(out)@ + sp_ids_in_cases(
                        *cases,
                        0,
                    ));
                }
                i = i + 1;
            }
            proof {
                assert(out@ =~= old(out)@ + sp_ids_in_cases(*cases, 0));
            }
        },
        DefKind::Alias(t) => ids_in_ty(t, out),
        DefKind::Resource(fs) => ids_in_funcs(fs, out),
        _ => {
            proof {
                assert(out@ =~= old(out)@ + Seq::<usize>::empty());
            }
        },
    }
}

#[verifier::loop_isolation(false)]
pub fn ids_in_iface(g: &Graph, itf: &Interface, out: &mut Vec<usize>)
    ensures
        final(out)@ == old(out)@ + sp_ids_in_iface(*g, *itf),
{
    let mut i: usize = 0;
    while i < itf.typedefs.len()
        invariant
            i <= itf.typedefs.len(),
            out@ + sp_ids_in_decls(*g, itf.typedefs, i as int) == old(out)@ + sp_ids_in_decls(
                *g,
                itf.typedefs,
                0,
            ),
        decreases itf.typedefs.len() - i,
    {
        let id = itf.typedefs[i];
        if id < g.typedefs.len() {
            ids_in_def(&g.typedefs[id].kind, out);
        }
        proof {
            assert(out@ + sp_ids_in_decls(*g, itf.typedefs, i + 1) =~= old(out)@
                + sp_ids_in_decls(*g, itf.typedefs, 0));
        }
        i = i + 1;
    }
    ids_in_funcs(&itf.funcs, out);
    proof {
        assert(out@ =~= old(out)@ + sp_ids_in_iface(*g, *itf));
    }
}

} // verus!
