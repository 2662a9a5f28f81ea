//! The interface and world emitters: signatures, type declarations, resource
//! classes and their world-file split, ambient module files, and world files.

use vstd::prelude::*;

verus! {

use vstd::string::StringExecFns;
use crate::graph::DefKind;
use crate::graph::Func;
use crate::graph::FuncKind;
use crate::graph::Graph;
use crate::graph::Param;
use crate::graph::TypeDef;
use crate::graph::cases_wf;
use crate::graph::fields_wf;
use crate::graph::func_wf;
use crate::graph::funcs_wf;
use crate::graph::graph_wf;
use crate::graph::params_wf;
use crate::graph::typedef_wf;
use crate::names::camel;
use crate::names::is_reserved;
use crate::names::pascal;
use crate::names::sp_camel;
use crate::names::sp_is_reserved;
use crate::names::sp_pascal;
use crate::names::sp_value_name;
use crate::names::value_name;
use crate::printer::print_ty;
use crate::printer::sp_print_ty;

/// A parameter list: `name: Type` pairs separated by `, `, names escaped.
pub open spec fn sp_params(g: Graph, wm: bool, ps: Vec<Param>, i: int) -> Seq<char>
    decreases ps.len() - i,
{
    if i < 0 || i >= ps.len() {
        Seq::empty()
    } else {
        sp_value_name(ps[i].name@) + ": "@ + sp_print_ty(g, wm, ps[i].ty, true) + (if i + 1
            < ps.len() {
            ", "@
        } else {
            Seq::empty()
        }) + sp_params(g, wm, ps, i + 1)
    }
}

/// A function result: its printed type, or `void` when there is none.
pub open spec fn sp_ret(g: Graph, wm: bool, r: Option<crate::graph::Ty>) -> Seq<char> {
    match r {
        Some(t) => sp_print_ty(g, wm, t, true),
        None => "void"@,
    }
}

#[verifier::loop_isolation(false)]
pub fn params_str(g: &Graph, wm: bool, ps: &Vec<Param>) -> (r: String)
    requires
        graph_wf(*g),
        params_wf(*g, *ps, 0),
    ensures
        r@ == sp_params(*g, wm, *ps, 0),
{
    let mut out = String::new();
    let mut i: usize = 0;
    proof {
        assert(out@ + sp_params(*g, wm, *ps, 0) =~= sp_params(*g, wm, *ps, 0));
    }
    while i < ps.len()
        invariant
            i <= ps.len(),
            params_wf(*g, *ps, i as int),
            out@ + sp_params(*g, wm, *ps, i as int) == sp_params(*g, wm, *ps, 0),
        decreases ps.len() - i,
    {
        let n = value_name(ps[i].name.as_str());
        out.append(n.as_str());
        out.append(": ");
        let t = print_ty(g, wm, &ps[i].ty, true);
        out.append(t.as_str());
        if i + 1 < ps.len() {
            out.append(", ");
        }
        proof {
            assert(out@ + sp_params(*g, wm, *ps, i + 1) =~= sp_params(*g, wm, *ps, 0));
        }
        i = i + 1;
    }
    out
}

pub fn ret_str(g: &Graph, wm: bool, r: &Option<crate::graph::Ty>) -> (s: String)
    requires
        graph_wf(*g),
        match *r {
            Some(t) => crate::graph::ty_wf(*g, t),
            None => true,
        },
    ensures
        s@ == sp_ret(*g, wm, *r),
{
    match r {
        Some(t) => print_ty(g, wm, t, true),
        None => "void".to_owned(),
    }
}

/// One interface-member signature: `name(params): ret,`.
pub open spec fn sp_member(g: Graph, wm: bool, f: Func, ind: Seq<char>) -> Seq<char> {
    ind + sp_camel(f.name@) + "("@ + sp_params(g, wm, f.params, 0) + "): "@ + sp_ret(
        g,
        wm,
        f.result,
    ) + ",\n"@
}

pub fn member_str(g: &Graph, wm: bool, f: &Func, ind: &str) -> (r: String)
    requires
        graph_wf(*g),
        func_wf(*g, *f),
    ensures
        r@ == sp_member(*g, wm, *f, ind@),
{
    let mut out = ind.to_owned();
    let n = camel(f.name.as_str());
    out.append(n.as_str());
    out.append("(");
    let p = params_str(g, wm, &f.params);
    out.append(p.as_str());
    out.append("): ");
    let rt = ret_str(g, wm, &f.result);
    out.append(rt.as_str());
    out.append(",\n");
    out
}

/// The member signatures of every function of an interface, in order.
pub open spec fn sp_members(g: Graph, wm: bool, fs: Vec<Func>, i: int, ind: Seq<char>) -> Seq<char>
    decreases fs.len() - i,
{
    if i < 0 || i >= fs.len() {
        Seq::empty()
    } else {
        sp_member(g, wm, fs[i], ind) + sp_members(g, wm, fs, i + 1, ind)
    }
}

#[verifier::loop_isolation(false)]
pub fn members_str(g: &Graph, wm: bool, fs: &Vec<Func>, ind: &str) -> (r: String)
    requires
        graph_wf(*g),
        funcs_wf(*g, *fs, 0),
    ensures
        r@ == sp_members(*g, wm, *fs, 0, ind@),
{
    let mut out = String::new();
    let mut i: usize = 0;
    proof {
        assert(out@ + sp_members(*g, wm, *fs, 0, ind@) =~= sp_members(*g, wm, *fs, 0, ind@));
    }
    while i < fs.len()
        invariant
            i <= fs.len(),
            funcs_wf(*g, *fs, i as int),
            out@ + sp_members(*g, wm, *fs, i as int, ind@) == sp_members(*g, wm, *fs, 0, ind@),
        decreases fs.len() - i,
    {
        let m = member_str(g, wm, &fs[i], ind);
        out.append(m.as_str());
        proof {
            assert(out@ + sp_members(*g, wm, *fs, i + 1, ind@) =~= sp_members(
                *g,
                wm,
                *fs,
                0,
                ind@,
            ));
        }
        i = i + 1;
    }
    out
}

/// One record field: `name: Type,` or `name?: Type,` for an option field.
pub open spec fn sp_field(g: Graph, wm: bool, f: crate::graph::Field, ind: Seq<char>) -> Seq<char> {
    match f.ty {
        crate::graph::Ty::Opt(t) => ind + "  "@ + sp_camel(f.name@) + "?: "@ + sp_print_ty(
            g,
            wm,
            *t,
            true,
        ) + ",\n"@,
        _ => ind + "  "@ + sp_camel(f.name@) + ": "@ + sp_print_ty(g, wm, f.ty, true) + ",\n"@,
    }
}

pub open spec fn sp_fields(
    g: Graph,
    wm: bool,
    fs: Vec<crate::graph::Field>,
    i: int,
    ind: Seq<char>,
) -> Seq<char>
    decreases fs.len() - i,
{
    if i < 0 || i >= fs.len() {
        Seq::empty()
    } else {
        sp_field(g, wm, fs[i], ind) + sp_fields(g, wm, fs, i + 1, ind)
    }
}

/// The union arms of a variant: one per case, named `Name ++ CaseName`.
pub open spec fn sp_arms(name: Seq<char>, cs: Vec<crate::graph::Case>, i: int) -> Seq<char>
    decreases cs.len() - i,
{
    if i < 0 || i >= cs.len() {
        Seq::empty()
    } else {
        sp_pascal(name) + sp_pascal(cs[i].name@) + (if i + 1 < cs.len() {
            " | "@
        } else {
            Seq::empty()
        }) + sp_arms(name, cs, i + 1)
    }
}

/// One per-case interface: the raw case name as `tag` literal, plus a `val`
/// field when the case has a payload.
pub open spec fn sp_case_block(
    g: Graph,
    wm: bool,
    name: Seq<char>,
    c: crate::graph::Case,
    ind: Seq<char>,
) -> Seq<char> {
    ind + "export interface "@ + sp_pascal(name) + sp_pascal(c.name@) + " {\n"@ + ind + "  tag: '"@
        + c.name@ + "',\n"@ + (match c.payload {
        Some(t) => ind + "  val: "@ + sp_print_ty(g, wm, t, false) + ",\n"@,
        None => Seq::empty(),
    }) + ind + "}\n"@
}

pub open spec fn sp_case_blocks(
    g: Graph,
    wm: bool,
    name: Seq<char>,
    cs: Vec<crate::graph::Case>,
    i: int,
    ind: Seq<char>,
) -> Seq<char>
    decreases cs.len() - i,
{
    if i < 0 || i >= cs.len() {
        Seq::empty()
    } else {
        sp_case_block(g, wm, name, cs[i], ind) + sp_case_blocks(g, wm, name, cs, i + 1, ind)
    }
}

/// The union arms of an enum, one per case.
pub open spec fn sp_enum_arms(name: Seq<char>, cs: Vec<String>, i: int) -> Seq<char>
    decreases cs.len() - i,
{
    if i < 0 || i >= cs.len() {
        Seq::empty()
    } else {
        sp_pascal(name) + sp_pascal(cs[i]@) + (if i + 1 < cs.len() {
            " | "@
        } else {
            Seq::empty()
        }) + sp_enum_arms(name, cs, i + 1)
    }
}

pub open spec fn sp_enum_blocks(name: Seq<char>, cs: Vec<String>, i: int, ind: Seq<char>) -> Seq<
    char,
>
    decreases cs.len() - i,
{
    if i < 0 || i >= cs.len() {
        Seq::empty()
    } else {
        ind + "export interface "@ + sp_pascal(name) + sp_pascal(cs[i]@) + " {\n"@ + ind
            + "  tag: '"@ + cs[i]@ + "',\n"@ + ind + "}\n"@ + sp_enum_blocks(name, cs, i + 1, ind)
    }
}

/// One flag field: `name?: boolean,`.
pub open spec fn sp_flag_lines(cs: Vec<String>, i: int, ind: Seq<char>) -> Seq<char>
    decreases cs.len() - i,
{
    if i < 0 || i >= cs.len() {
        Seq::empty()
    } else {
        ind + "  "@ + sp_camel(cs[i]@) + "?: boolean,\n"@ + sp_flag_lines(cs, i + 1, ind)
    }
}

/// The declaration a named type emits: a type alias, an interface for a
/// record or for flags, or a union plus per-case interfaces for a variant or
/// an enum. Resources are emitted by a separate pass and contribute nothing
/// here.
pub open spec fn sp_typedecl(g: Graph, wm: bool, d: TypeDef, ind: Seq<char>) -> Seq<char> {
    match d.kind {
        DefKind::Alias(t) => ind + "export type "@ + sp_pascal(d.name@) + " = "@ + sp_print_ty(
            g,
            wm,
            t,
            false,
        ) + ";\n"@,
        DefKind::Record(fs) => ind + "export interface "@ + sp_pascal(d.name@) + " {\n"@
            + sp_fields(g, wm, fs, 0, ind) + ind + "}\n"@,
        DefKind::Variant(cs) => ind + "export type "@ + sp_pascal(d.name@) + " = "@ + sp_arms(
            d.name@,
            cs,
            0,
        ) + ";\n"@ + sp_case_blocks(g, wm, d.name@, cs, 0, ind),
        DefKind::Enum(cs) => ind + "export type "@ + sp_pascal(d.name@) + " = "@ + sp_enum_arms(
            d.name@,
            cs,
            0,
        ) + ";\n"@ + sp_enum_blocks(d.name@, cs, 0, ind),
        DefKind::Flags(cs) => ind + "export interface "@ + sp_pascal(d.name@) + " {\n"@
            + sp_flag_lines(cs, 0, ind) + ind + "}\n"@,
        DefKind::Resource(_) => Seq::empty(),
    }
}

#[verifier::loop_isolation(false)]
fn fields_str(g: &Graph, wm: bool, fs: &Vec<crate::graph::Field>, ind: &str) -> (r: String)
    requires
        graph_wf(*g),
        fields_wf(*g, *fs, 0),
    ensures
        r@ == sp_fields(*g, wm, *fs, 0, ind@),
{
    let mut out = String::new();
    let mut i: usize = 0;
    proof {
        assert(out@ + sp_fields(*g, wm, *fs, 0, ind@) =~= sp_fields(*g, wm, *fs, 0, ind@));
    }
    while i < fs.len()
        invariant
            i <= fs.len(),
            fields_wf(*g, *fs, i as int),
            out@ + sp_fields(*g, wm, *fs, i as int, ind@) == sp_fields(*g, wm, *fs, 0, ind@),
        decreases fs.len() - i,
    {
        out.append(ind);
        out.append("  ");
        let fname = camel(fs[i].name.as_str());
        out.append(fname.as_str());
        match &fs[i].ty {
            crate::graph::Ty::Opt(t) => {
                out.append("?: ");
                let ts = print_ty(g, wm, t, true);
                out.append(ts.as_str());
            },
            _ => {
                out.append(": ");
                let ts = print_ty(g, wm, &fs[i].ty, true);
                out.append(ts.as_str());
            },
        }
        out.append(",\n");
        proof {
            assert(out@ + sp_fields(*g, wm, *fs, i + 1, ind@) =~= sp_fields(*g, wm, *fs, 0, ind@));
        }
        i = i + 1;
    }
    out
}

#[verifier::loop_isolation(false)]
fn arms_str(name: &str, cs: &Vec<crate::graph::Case>) -> (r: String)
    ensures
        r@ == sp_arms(name@, *cs, 0),
{
    let mut out = String::new();
    let mut i: usize = 0;
    proof {
        assert(out@ + sp_arms(name@, *cs, 0) =~= sp_arms(name@, *cs, 0));
    }
    while i < cs.len()
        invariant
            i <= cs.len(),
            out@ + sp_arms(name@, *cs, i as int) == sp_arms(name@, *cs, 0),
        decreases cs.len() - i,
    {
        let an = pascal(name);
        out.append(an.as_str());
        let cn = pascal(cs[i].name.as_str());
        out.append(cn.as_str());
        if i + 1 < cs.len() {
            out.append(" | ");
        }
        proof {
            assert(out@ + sp_arms(name@, *cs, i + 1) =~= sp_arms(name@, *cs, 0));
        }
        i = i + 1;
    }
    out
}

#[verifier::loop_isolation(false)]
#[verifier::rlimit(60)]
fn case_blocks_str(g: &Graph, wm: bool, name: &str, cs: &Vec<crate::graph::Case>, ind: &str) -> (r:
    String)
    requires
        graph_wf(*g),
        cases_wf(*g, *cs, 0),
    ensures
        r@ == sp_case_blocks(*g, wm, name@, *cs, 0, ind@),
{
    let mut out = String::new();
    let mut i: usize = 0;
    proof {
        assert(out@ + sp_case_blocks(*g, wm, name@, *cs, 0, ind@) =~= sp_case_blocks(
            *g,
            wm,
            name@,
            *cs,
            0,
            ind@,
        ));
    }
    while i < cs.len()
        invariant
            i <= cs.len(),
            cases_wf(*g, *cs, i as int),
            out@ + sp_case_blocks(*g, wm, name@, *cs, i as int, ind@) == sp_case_blocks(
                *g,
                wm,
                name@,
                *cs,
                0,
                ind@,
            ),
        decreases cs.len() - i,
    {
        out.append(ind);
        out.append("export interface ");
        let an = pascal(name);
        out.append(an.as_str());
        let cn = pascal(cs[i].name.as_str());
        out.append(cn.as_str());
        out.append(" {\n");
        out.append(ind);
        out.append("  tag: '");
        out.append(cs[i].name.as_str());
        out.append("',\n");
        match &cs[i].payload {
            Some(t) => {
                out.append(ind);
                out.append("  val: ");
                let ts = print_ty(g, wm, t, false);
                out.append(ts.as_str());
                out.append(",\n");
            },
            None => {},
        }
        out.append(ind);
        out.append("}\n");
        proof {
            assert(out@ + sp_case_blocks(*g, wm, name@, *cs, i + 1, ind@) =~= sp_case_blocks(
                *g,
                wm,
                name@,
                *cs,
                0,
                ind@,
            ));
        }
        i = i + 1;
    }
    out
}

#[verifier::loop_isolation(false)]
fn enum_arms_str(name: &str, cs: &Vec<String>) -> (r: String)
    ensures
        r@ == sp_enum_arms(name@, *cs, 0),
{
    let mut out = String::new();
    let mut i: usize = 0;
    proof {
        assert(out@ + sp_enum_arms(name@, *cs, 0) =~= sp_enum_arms(name@, *cs, 0));
    }
    while i < cs.len()
        invariant
            i <= cs.len(),
            out@ + sp_enum_arms(name@, *cs, i as int) == sp_enum_arms(name@, *cs, 0),
        decreases cs.len() - i,
    {
        let an = pascal(name);
        out.append(an.as_str());
        let cn = pascal(cs[i].as_str());
        out.append(cn.as_str());
        if i + 1 < cs.len() {
            out.append(" | ");
        }
        proof {
            assert(out@ + sp_enum_arms(name@, *cs, i + 1) =~= sp_enum_arms(name@, *cs, 0));
        }
        i = i + 1;
    }
    out
}

#[verifier::loop_isolation(false)]
fn enum_blocks_str(name: &str, cs: &Vec<String>, ind: &str) -> (r: String)
    ensures
        r@ == sp_enum_blocks(name@, *cs, 0, ind@),
{
    let mut out = String::new();
    let mut i: usize = 0;
    proof {
        assert(out@ + sp_enum_blocks(name@, *cs, 0, ind@) =~= sp_enum_blocks(name@, *cs, 0, ind@));
    }
    while i < cs.len()
        invariant
            i <= cs.len(),
            out@ + sp_enum_blocks(name@, *cs, i as int, ind@) == sp_enum_blocks(
                name@,
                *cs,
                0,
                ind@,
            ),
        decreases cs.len() - i,
    {
        out.append(ind);
        out.append("export interface ");
        let an = pascal(name);
        out.append(an.as_str());
        let cn = pascal(cs[i].as_str());
        out.append(cn.as_str());
        out.append(" {\n");
        out.append(ind);
        out.append("  tag: '");
        out.append(cs[i].as_str());
        out.append("',\n");
        out.append(ind);
        out.append("}\n");
        proof {
            assert(out@ + sp_enum_blocks(name@, *cs, i + 1, ind@) =~= sp_enum_blocks(
                name@,
                *cs,
                0,
                ind@,
            ));
        }
        i = i + 1;
    }
    out
}

#[verifier::loop_isolation(false)]
fn flag_lines_str(cs: &Vec<String>, ind: &str) -> (r: String)
    ensures
        r@ == sp_flag_lines(*cs, 0, ind@),
{
    let mut out = String::new();
    let mut i: usize = 0;
    proof {
        assert(out@ + sp_flag_lines(*cs, 0, ind@) =~= sp_flag_lines(*cs, 0, ind@));
    }
    while i < cs.len()
        invariant
            i <= cs.len(),
            out@ + sp_flag_lines(*cs, i as int, ind@) == sp_flag_lines(*cs, 0, ind@),
        decreases cs.len() - i,
    {
        out.append(ind);
        out.append("  ");
        let fname = camel(cs[i].as_str());
        out.append(fname.as_str());
        out.append("?: boolean,\n");
        proof {
            assert(out@ + sp_flag_lines(*cs, i + 1, ind@) =~= sp_flag_lines(*cs, 0, ind@));
        }
        i = i + 1;
    }
    out
}

pub fn typedecl_str(g: &Graph, wm: bool, d: &TypeDef, ind: &str) -> (r: String)
    requires
        graph_wf(*g),
        typedef_wf(*g, *d),
    ensures
        r@ == sp_typedecl(*g, wm, *d, ind@),
{
    match &d.kind {
        DefKind::Alias(t) => {
            let mut out = ind.to_owned();
            out.append("export type ");
            let n = pascal(d.name.as_str());
            out.append(n.as_str());
            out.append(" = ");
            let ts = print_ty(g, wm, t, false);
            out.append(ts.as_str());
            out.append(";\n");
            out
        },
        DefKind::Record(fs) => {
            let mut out = ind.to_owned();
            out.append("export interface ");
            let n = pascal(d.name.as_str());
            out.append(n.as_str());
            out.append(" {\n");
            let body = fields_str(g, wm, fs, ind);
            out.append(body.as_str());
            out.append(ind);
            out.append("}\n");
            out
        },
        DefKind::Variant(cs) => {
            let mut out = ind.to_owned();
            out.append("export type ");
            let n = pascal(d.name.as_str());
            out.append(n.as_str());
            out.append(" = ");
            let arms = arms_str(d.name.as_str(), cs);
            out.append(arms.as_str());
            out.append(";\n");
            let blocks = case_blocks_str(g, wm, d.name.as_str(), cs, ind);
            out.append(blocks.as_str());
            out
        },
        DefKind::Enum(cs) => {
            let mut out = ind.to_owned();
            out.append("export type ");
            let n = pascal(d.name.as_str());
            out.append(n.as_str());
            out.append(" = ");
            let arms = enum_arms_str(d.name.as_str(), cs);
            out.append(arms.as_str());
            out.append(";\n");
            let blocks = enum_blocks_str(d.name.as_str(), cs, ind);
            out.append(blocks.as_str());
            out
        },
        DefKind::Flags(cs) => {
            let mut out = ind.to_owned();
            out.append("export interface ");
            let n = pascal(d.name.as_str());
            out.append(n.as_str());
            out.append(" {\n");
            let body = flag_lines_str(cs, ind);
            out.append(body.as_str());
            out.append(ind);
            out.append("}\n");
            out
        },
        DefKind::Resource(_) => {
            let out = String::new();
            proof {
                assert(out@ =~= sp_typedecl(*g, wm, *d, ind@));
            }
            out
        },
    }
}

/// One freestanding function declaration in an ambient module; a reserved
/// projected name is declared under `_name` and re-exported under its own.
pub open spec fn sp_fn_decl(g: Graph, f: Func, ind: Seq<char>) -> Seq<char> {
    if sp_is_reserved(sp_camel(f.name@)) {
        ind + "export { _"@ + sp_camel(f.name@) + " as "@ + sp_camel(f.name@) + " };\n"@ + ind
            + "declare function _"@ + sp_camel(f.name@) + "("@ + sp_params(g, false, f.params, 0)
            + "): "@ + sp_ret(g, false, f.result) + ";\n"@
    } else {
        ind + "export function "@ + sp_camel(f.name@) + "("@ + sp_params(g, false, f.params, 0)
            + "): "@ + sp_ret(g, false, f.result) + ";\n"@
    }
}

pub fn fn_decl_str(g: &Graph, f: &Func, ind: &str) -> (r: String)
    requires
        graph_wf(*g),
        func_wf(*g, *f),
    ensures
        r@ == sp_fn_decl(*g, *f, ind@),
{
    let cn = camel(f.name.as_str());
    let p = params_str(g, false, &f.params);
    let rt = ret_str(g, false, &f.result);
    if is_reserved(cn.as_str()) {
        let mut out = ind.to_owned();
        out.append("export { _");
        out.append(cn.as_str());
        out.append(" as ");
        out.append(cn.as_str());
        out.append(" };\n");
        out.append(ind);
        out.append("declare function _");
        out.append(cn.as_str());
        out.append("(");
        out.append(p.as_str());
        out.append("): ");
        out.append(rt.as_str());
        out.append(";\n");
        out
    } else {
        let mut out = ind.to_owned();
        out.append("export function ");
        out.append(cn.as_str());
        out.append("(");
        out.append(p.as_str());
        out.append("): ");
        out.append(rt.as_str());
        out.append(";\n");
        out
    }
}

pub open spec fn sp_fn_decls(g: Graph, fs: Vec<Func>, i: int, ind: Seq<char>) -> Seq<char>
    decreases fs.len() - i,
{
    if i < 0 || i >= fs.len() {
        Seq::empty()
    } else {
        sp_fn_decl(g, fs[i], ind) + sp_fn_decls(g, fs, i + 1, ind)
    }
}

#[verifier::loop_isolation(false)]
pub fn fn_decls_str(g: &Graph, fs: &Vec<Func>, ind: &str) -> (r: String)
    requires
        graph_wf(*g),
        funcs_wf(*g, *fs, 0),
    ensures
        r@ == sp_fn_decls(*g, *fs, 0, ind@),
{
    let mut out = String::new();
    let mut i: usize = 0;
    proof {
        assert(out@ + sp_fn_decls(*g, *fs, 0, ind@) =~= sp_fn_decls(*g, *fs, 0, ind@));
    }
    while i < fs.len()
        invariant
            i <= fs.len(),
            funcs_wf(*g, *fs, i as int),
            out@ + sp_fn_decls(*g, *fs, i as int, ind@) == sp_fn_decls(*g, *fs, 0, ind@),
        decreases fs.len() - i,
    {
        let d = fn_decl_str(g, &fs[i], ind);
        out.append(d.as_str());
        proof {
            assert(out@ + sp_fn_decls(*g, *fs, i + 1, ind@) =~= sp_fn_decls(*g, *fs, 0, ind@));
        }
        i = i + 1;
    }
    out
}

/// Constructor lines of a resource class: `constructor(params)`.
pub open spec fn sp_ctor_lines(g: Graph, fs: Vec<Func>, i: int, ind: Seq<char>) -> Seq<char>
    decreases fs.len() - i,
{
    if i < 0 || i >= fs.len() {
        Seq::empty()
    } else {
        (if (fs[i].kind matches FuncKind::Constructor) {
            ind + "  constructor("@ + sp_params(g, false, fs[i].params, 0) + ")\n"@
        } else {
            Seq::empty()
        }) + sp_ctor_lines(g, fs, i + 1, ind)
    }
}

/// Method and static-method lines of a resource class.
pub open spec fn sp_class_members(g: Graph, fs: Vec<Func>, i: int, ind: Seq<char>) -> Seq<char>
    decreases fs.len() - i,
{
    if i < 0 || i >= fs.len() {
        Seq::empty()
    } else {
        (match fs[i].kind {
            FuncKind::Constructor => Seq::empty(),
            FuncKind::Static => ind + "  static "@ + sp_camel(fs[i].name@) + "("@ + sp_params(
                g,
                false,
                fs[i].params,
                0,
            ) + "): "@ + sp_ret(g, false, fs[i].result) + ";\n"@,
            _ => ind + "  "@ + sp_camel(fs[i].name@) + "("@ + sp_params(g, false, fs[i].params, 0)
                + "): "@ + sp_ret(g, false, fs[i].result) + ";\n"@,
        }) + sp_class_members(g, fs, i + 1, ind)
    }
}

/// A resource in an ambient module: an exported class with a constructor,
/// methods, and `static` methods.
pub open spec fn sp_class(g: Graph, d: TypeDef, fs: Vec<Func>, ind: Seq<char>) -> Seq<char> {
    ind + "export class "@ + sp_pascal(d.name@) + " {\n"@ + sp_ctor_lines(g, fs, 0, ind)
        + sp_class_members(g, fs, 0, ind) + ind + "}\n"@
}

#[verifier::loop_isolation(false)]
pub fn class_str(g: &Graph, d: &TypeDef, fs: &Vec<Func>, ind: &str) -> (r: String)
    requires
        graph_wf(*g),
        funcs_wf(*g, *fs, 0),
    ensures
        r@ == sp_class(*g, *d, *fs, ind@),
{
    let mut out = ind.to_owned();
    out.append("export class ");
    let n = pascal(d.name.as_str());
    out.append(n.as_str());
    out.append(" {\n");
    let ghost head = out@;
    let mut i: usize = 0;
    proof {
        assert(out@ + sp_ctor_lines(*g, *fs, 0, ind@) =~= head + sp_ctor_lines(*g, *fs, 0, ind@));
    }
    while i < fs.len()
        invariant
            i <= fs.len(),
            funcs_wf(*g, *fs, i as int),
            out@ + sp_ctor_lines(*g, *fs, i as int, ind@) == head + sp_ctor_lines(
                *g,
                *fs,
                0,
                ind@,
            ),
        decreases fs.len() - i,
    {
        match &fs[i].kind {
            FuncKind::Constructor => {
                out.append(ind);
                out.append("  constructor(");
                let p = params_str(g, false, &fs[i].params);
                out.append(p.as_str());
                out.append(")\n");
            },
            _ => {},
        }
        proof {
            assert(out@ + sp_ctor_lines(*g, *fs, i + 1, ind@) =~= head + sp_ctor_lines(
                *g,
                *fs,
                0,
                ind@,
            ));
        }
        i = i + 1;
    }
    let ghost head2 = out@;
    let mut i: usize = 0;
    proof {
        assert(out@ + sp_class_members(*g, *fs, 0, ind@) =~= head2 + sp_class_members(
            *g,
            *fs,
            0,
            ind@,
        ));
    }
    while i < fs.len()
        invariant
            i <= fs.len(),
            funcs_wf(*g, *fs, i as int),
            out@ + sp_class_members(*g, *fs, i as int, ind@) == head2 + sp_class_members(
                *g,
                *fs,
                0,
                ind@,
            ),
        decreases fs.len() - i,
    {
        match &fs[i].kind {
            FuncKind::Constructor => {},
            FuncKind::Static => {
                out.append(ind);
                out.append("  static ");
                let cn = camel(fs[i].name.as_str());
                out.append(cn.as_str());
                out.append("(");
                let p = params_str(g, false, &fs[i].params);
                out.append(p.as_str());
                out.append("): ");
                let rt = ret_str(g, false, &fs[i].result);
                out.append(rt.as_str());
                out.append(";\n");
            },
            _ => {
                out.append(ind);
                out.append("  ");
                let cn = camel(fs[i].name.as_str());
                out.append(cn.as_str());
                out.append("(");
                let p = params_str(g, false, &fs[i].params);
                out.append(p.as_str());
                out.append("): ");
                let rt = ret_str(g, false, &fs[i].result);
                out.append(rt.as_str());
                out.append(";\n");
            },
        }
        proof {
            assert(out@ + sp_class_members(*g, *fs, i + 1, ind@) =~= head2 + sp_class_members(
                *g,
                *fs,
                0,
                ind@,
            ));
        }
        i = i + 1;
    }
    out.append(ind);
    out.append("}\n");
    proof {
        assert(out@ =~= sp_class(*g, *d, *fs, ind@));
    }
    out
}

/// The classes of every resource in an interface's declaration list.
pub open spec fn sp_classes(g: Graph, ids: Vec<usize>, i: int, ind: Seq<char>) -> Seq<char>
    decreases ids.len() - i,
{
    if i < 0 || i >= ids.len() {
        Seq::empty()
    } else {
        (if ids[i] < g.typedefs.len() {
            match g.typedefs[ids[i] as int].kind {
                DefKind::Resource(fs) => sp_class(g, g.typedefs[ids[i] as int], fs, ind),
                _ => Seq::empty(),
            }
        } else {
            Seq::empty()
        }) + sp_classes(g, ids, i + 1, ind)
    }
}

#[verifier::loop_isolation(false)]
pub fn classes_str(g: &Graph, ids: &Vec<usize>, ind: &str) -> (r: String)
    requires
        graph_wf(*g),
    ensures
        r@ == sp_classes(*g, *ids, 0, ind@),
{
    let mut out = String::new();
    let mut i: usize = 0;
    proof {
        assert(out@ + sp_classes(*g, *ids, 0, ind@) =~= sp_classes(*g, *ids, 0, ind@));
    }
    while i < ids.len()
        invariant
            i <= ids.len(),
            out@ + sp_classes(*g, *ids, i as int, ind@) == sp_classes(*g, *ids, 0, ind@),
        decreases ids.len() - i,
    {
        let id = ids[i];
        if id < g.typedefs.len() {
            proof {
                assert(typedef_wf(*g, g.typedefs[id as int]));
            }
            match &g.typedefs[id].kind {
                DefKind::Resource(fs) => {
                    let c = class_str(g, &g.typedefs[id], fs, ind);
                    out.append(c.as_str());
                },
                _ => {},
            }
        }
        proof {
            assert(out@ + sp_classes(*g, *ids, i + 1, ind@) =~= sp_classes(*g, *ids, 0, ind@));
        }
        i = i + 1;
    }
    out
}

/// `new` lines of the world-file `Static` interface of a resource.
pub open spec fn sp_new_lines(g: Graph, name: Seq<char>, fs: Vec<Func>, i: int) -> Seq<char>
    decreases fs.len() - i,
{
    if i < 0 || i >= fs.len() {
        Seq::empty()
    } else {
        (if (fs[i].kind matches FuncKind::Constructor) {
            "  new("@ + sp_params(g, true, fs[i].params, 0) + "): "@ + sp_pascal(name)
                + "Instance,\n"@
        } else {
            Seq::empty()
        }) + sp_new_lines(g, name, fs, i + 1)
    }
}

/// Static-method member lines of the `Static` interface.
pub open spec fn sp_static_lines(g: Graph, fs: Vec<Func>, i: int) -> Seq<char>
    decreases fs.len() - i,
{
    if i < 0 || i >= fs.len() {
        Seq::empty()
    } else {
        (if (fs[i].kind matches FuncKind::Static) {
            "  "@ + sp_camel(fs[i].name@) + "("@ + sp_params(g, true, fs[i].params, 0) + "): "@
                + sp_ret(g, true, fs[i].result) + ",\n"@
        } else {
            Seq::empty()
        }) + sp_static_lines(g, fs, i + 1)
    }
}

/// Instance-method member lines of the `Instance` interface.
pub open spec fn sp_method_lines(g: Graph, fs: Vec<Func>, i: int) -> Seq<char>
    decreases fs.len() - i,
{
    if i < 0 || i >= fs.len() {
        Seq::empty()
    } else {
        (match fs[i].kind {
            FuncKind::Constructor => Seq::empty(),
            FuncKind::Static => Seq::empty(),
            _ => "  "@ + sp_camel(fs[i].name@) + "("@ + sp_params(g, true, fs[i].params, 0)
                + "): "@ + sp_ret(g, true, fs[i].result) + ",\n"@,
        }) + sp_method_lines(g, fs, i + 1)
    }
}

/// An exported resource in the world file: the `Static` / `Instance`
/// interface pair.
pub open spec fn sp_split(g: Graph, d: TypeDef, fs: Vec<Func>) -> Seq<char> {
    "export interface "@ + sp_pascal(d.name@) + "Static {\n"@ + sp_new_lines(g, d.name@, fs, 0)
        + sp_static_lines(g, fs, 0) + "}\n"@ + "export interface "@ + sp_pascal(d.name@)
        + "Instance {\n"@ + sp_method_lines(g, fs, 0) + "}\n"@
}

#[verifier::loop_isolation(false)]
fn new_lines_str(g: &Graph, name: &str, fs: &Vec<Func>) -> (r: String)
    requires
        graph_wf(*g),
        funcs_wf(*g, *fs, 0),
    ensures
        r@ == sp_new_lines(*g, name@, *fs, 0),
{
    let mut out = String::new();
    let mut i: usize = 0;
    proof {
        assert(out@ + sp_new_lines(*g, name@, *fs, 0) =~= sp_new_lines(*g, name@, *fs, 0));
    }
    while i < fs.len()
        invariant
            i <= fs.len(),
            funcs_wf(*g, *fs, i as int),
            out@ + sp_new_lines(*g, name@, *fs, i as int) == sp_new_lines(*g, name@, *fs, 0),
        decreases fs.len() - i,
    {
        match &fs[i].kind {
            FuncKind::Constructor => {
                out.append("  new(");
                let p = params_str(g, true, &fs[i].params);
                out.append(p.as_str());
                out.append("): ");
                let nn = pascal(name);
                out.append(nn.as_str());
                out.append("Instance,\n");
            },
            _ => {},
        }
        proof {
            assert(out@ + sp_new_lines(*g, name@, *fs, i + 1) =~= sp_new_lines(
                *g,
                name@,
                *fs,
                0,
            ));
        }
        i = i + 1;
    }
    out
}

#[verifier::loop_isolation(false)]
fn static_lines_str(g: &Graph, fs: &Vec<Func>) -> (r: String)
    requires
        graph_wf(*g),
        funcs_wf(*g, *fs, 0),
    ensures
        r@ == sp_static_lines(*g, *fs, 0),
{
    let mut out = String::new();
    let mut i: usize = 0;
    proof {
        assert(out@ + sp_static_lines(*g, *fs, 0) =~= sp_static_lines(*g, *fs, 0));
    }
    while i < fs.len()
        invariant
            i <= fs.len(),
            funcs_wf(*g, *fs, i as int),
            out@ + sp_static_lines(*g, *fs, i as int) == sp_static_lines(*g, *fs, 0),
        decreases fs.len() - i,
    {
        match &fs[i].kind {
            FuncKind::Static => {
                out.append("  ");
                let cn = camel(fs[i].name.as_str());
                out.append(cn.as_str());
                out.append("(");
                let p = params_str(g, true, &fs[i].params);
                out.append(p.as_str());
                out.append("): ");
                let rt = ret_str(g, true, &fs[i].result);
                out.append(rt.as_str());
                out.append(",\n");
            },
            _ => {},
        }
        proof {
            assert(out@ + sp_static_lines(*g, *fs, i + 1) =~= sp_static_lines(*g, *fs, 0));
        }
        i = i + 1;
    }
    out
}

#[verifier::loop_isolation(false)]
fn method_lines_str(g: &Graph, fs: &Vec<Func>) -> (r: String)
    requires
        graph_wf(*g),
        funcs_wf(*g, *fs, 0),
    ensures
        r@ == sp_method_lines(*g, *fs, 0),
{
    let mut out = String::new();
    let mut i: usize = 0;
    proof {
        assert(out@ + sp_method_lines(*g, *fs, 0) =~= sp_method_lines(*g, *fs, 0));
    }
    while i < fs.len()
        invariant
            i <= fs.len(),
            funcs_wf(*g, *fs, i as int),
            out@ + sp_method_lines(*g, *fs, i as int) == sp_method_lines(*g, *fs, 0),
        decreases fs.len() - i,
    {
        match &fs[i].kind {
            FuncKind::Constructor => {},
            FuncKind::Static => {},
            _ => {
                out.append("  ");
                let cn = camel(fs[i].name.as_str());
                out.append(cn.as_str());
                out.append("(");
                let p = params_str(g, true, &fs[i].params);
                out.append(p.as_str());
                out.append("): ");
                let rt = ret_str(g, true, &fs[i].result);
                out.append(rt.as_str());
                out.append(",\n");
            },
        }
        proof {
            assert(out@ + sp_method_lines(*g, *fs, i + 1) =~= sp_method_lines(*g, *fs, 0));
        }
        i = i + 1;
    }
    out
}

pub fn split_str(g: &Graph, d: &TypeDef, fs: &Vec<Func>) -> (r: String)
    requires
        graph_wf(*g),
        funcs_wf(*g, *fs, 0),
    ensures
        r@ == sp_split(*g, *d, *fs),
{
    let mut out = "export interface ".to_owned();
    let n = pascal(d.name.as_str());
    out.append(n.as_str());
    out.append("Static {\n");
    let news = new_lines_str(g, d.name.as_str(), fs);
    out.append(news.as_str());
    let stats = static_lines_str(g, fs);
    out.append(stats.as_str());
    out.append("}\n");
    out.append("export interface ");
    let n2 = pascal(d.name.as_str());
    out.append(n2.as_str());
    out.append("Instance {\n");
    let meths = method_lines_str(g, fs);
    out.append(meths.as_str());
    out.append("}\n");
    out
}

/// The `Static` / `Instance` pairs of every resource in a declaration list.
pub open spec fn sp_splits(g: Graph, ids: Vec<usize>, i: int) -> Seq<char>
    decreases ids.len() - i,
{
    if i < 0 || i >= ids.len() {
        Seq::empty()
    } else {
        (if ids[i] < g.typedefs.len() {
            match g.typedefs[ids[i] as int].kind {
                DefKind::Resource(fs) => sp_split(g, g.typedefs[ids[i] as int], fs),
                _ => Seq::empty(),
            }
        } else {
            Seq::empty()
        }) + sp_splits(g, ids, i + 1)
    }
}

#[verifier::loop_isolation(false)]
pub fn splits_str(g: &Graph, ids: &Vec<usize>) -> (r: String)
    requires
        graph_wf(*g),
    ensures
        r@ == sp_splits(*g, *ids, 0),
{
    let mut out = String::new();
    let mut i: usize = 0;
    proof {
        assert(out@ + sp_splits(*g, *ids, 0) =~= sp_splits(*g, *ids, 0));
    }
    while i < ids.len()
        invariant
            i <= ids.len(),
            out@ + sp_splits(*g, *ids, i as int) == sp_splits(*g, *ids, 0),
        decreases ids.len() - i,
    {
        let id = ids[i];
        if id < g.typedefs.len() {
            proof {
                assert(typedef_wf(*g, g.typedefs[id as int]));
            }
            match &g.typedefs[id].kind {
                DefKind::Resource(fs) => {
                    let c = split_str(g, &g.typedefs[id], fs);
                    out.append(c.as_str());
                },
                _ => {},
            }
        }
        proof {
            assert(out@ + sp_splits(*g, *ids, i + 1) =~= sp_splits(*g, *ids, 0));
        }
        i = i + 1;
    }
    out
}

/// Resource members of a world-file umbrella interface: `Name: NameStatic`.
pub open spec fn sp_res_members(g: Graph, ids: Vec<usize>, i: int) -> Seq<char>
    decreases ids.len() - i,
{
    if i < 0 || i >= ids.len() {
        Seq::empty()
    } else {
        (if ids[i] < g.typedefs.len() {
            match g.typedefs[ids[i] as int].kind {
                DefKind::Resource(_) => "  "@ + sp_pascal(g.typedefs[ids[i] as int].name@) + ": "@
                    + sp_pascal(g.typedefs[ids[i] as int].name@) + "Static\n"@,
                _ => Seq::empty(),
            }
        } else {
            Seq::empty()
        }) + sp_res_members(g, ids, i + 1)
    }
}

#[verifier::loop_isolation(false)]
pub fn res_members_str(g: &Graph, ids: &Vec<usize>) -> (r: String)
    requires
        graph_wf(*g),
    ensures
        r@ == sp_res_members(*g, *ids, 0),
{
    let mut out = String::new();
    let mut i: usize = 0;
    proof {
        assert(out@ + sp_res_members(*g, *ids, 0) =~= sp_res_members(*g, *ids, 0));
    }
    while i < ids.len()
        invariant
            i <= ids.len(),
            out@ + sp_res_members(*g, *ids, i as int) == sp_res_members(*g, *ids, 0),
        decreases ids.len() - i,
    {
        let id = ids[i];
        if id < g.typedefs.len() {
            match &g.typedefs[id].kind {
                DefKind::Resource(_) => {
                    out.append("  ");
                    let n = pascal(g.typedefs[id].name.as_str());
                    out.append(n.as_str());
                    out.append(": ");
                    let n2 = pascal(g.typedefs[id].name.as_str());
                    out.append(n2.as_str());
                    out.append("Static\n");
                },
                _ => {},
            }
        }
        proof {
            assert(out@ + sp_res_members(*g, *ids, i + 1) =~= sp_res_members(*g, *ids, 0));
        }
        i = i + 1;
    }
    out
}

} // verus!
