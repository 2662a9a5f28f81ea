//! The name projector: deterministic mapping from WIT identifiers
//! (kebab-case or snake_case) to TypeScript identifiers, together with the
//! reserved-keyword escape used at value declaration sites.

use vstd::prelude::*;

verus! {

use vstd::string::StrSliceExecFns;
use vstd::string::StringExecFns;
use crate::text::push_char;
use crate::text::str_eq;
use crate::text::lemma_skip_step;

/// ASCII lower-case letters are capitalized; everything else is unchanged.
pub open spec fn sp_upper(c: char) -> char {
    if 97 <= c as u32 && c as u32 <= 122 {
        ((c as u32 - 32) as u8) as char
    } else {
        c
    }
}

/// ASCII upper-case letters are lowered; everything else is unchanged.
pub open spec fn sp_lower(c: char) -> char {
    if 65 <= c as u32 && c as u32 <= 90 {
        ((c as u32 + 32) as u8) as char
    } else {
        c
    }
}

/// Segments split on `-` and `_` are concatenated; the first character of a
/// segment is capitalized when `cap` asks for it, and every segment after the
/// first always starts capitalized.
pub open spec fn sp_project(s: Seq<char>, cap: bool) -> Seq<char>
    decreases s.len(),
{
    if s.len() == 0 {
        Seq::empty()
    } else if s[0] == '-' || s[0] == '_' {
        sp_project(s.drop_first(), true)
    } else if cap {
        seq![sp_upper(s[0])] + sp_project(s.drop_first(), false)
    } else {
        seq![s[0]] + sp_project(s.drop_first(), false)
    }
}

/// `TypeName` projection: every segment capitalized.
pub open spec fn sp_pascal(s: Seq<char>) -> Seq<char> {
    sp_project(s, true)
}

/// `ValueName` projection before keyword escaping: first segment kept,
/// later segments capitalized.
pub open spec fn sp_camel(s: Seq<char>) -> Seq<char> {
    sp_project(s, false)
}

/// Every ASCII upper-case letter lowered; used for world file stems.
pub open spec fn sp_lower_all(s: Seq<char>) -> Seq<char>
    decreases s.len(),
{
    if s.len() == 0 {
        Seq::empty()
    } else {
        seq![sp_lower(s[0])] + sp_lower_all(s.drop_first())
    }
}

/// The reserved TypeScript keywords that the escape policy covers.
pub open spec fn sp_is_reserved(s: Seq<char>) -> bool {
    ||| s == "delete"@
    ||| s == "default"@
    ||| s == "class"@
    ||| s == "function"@
    ||| s == "new"@
    ||| s == "return"@
    ||| s == "var"@
    ||| s == "let"@
    ||| s == "const"@
    ||| s == "switch"@
    ||| s == "case"@
    ||| s == "if"@
    ||| s == "else"@
    ||| s == "for"@
    ||| s == "while"@
    ||| s == "do"@
    ||| s == "break"@
    ||| s == "continue"@
    ||| s == "import"@
    ||| s == "export"@
    ||| s == "extends"@
    ||| s == "implements"@
    ||| s == "interface"@
    ||| s == "this"@
    ||| s == "super"@
    ||| s == "typeof"@
    ||| s == "instanceof"@
    ||| s == "void"@
    ||| s == "null"@
    ||| s == "true"@
    ||| s == "false"@
}

/// A projected value name that collides with a reserved keyword is declared
/// under a leading underscore.
pub open spec fn sp_escape(s: Seq<char>) -> Seq<char> {
    if sp_is_reserved(s) {
        "_"@ + s
    } else {
        s
    }
}

/// The identifier used at a value declaration site.
pub open spec fn sp_value_name(s: Seq<char>) -> Seq<char> {
    sp_escape(sp_camel(s))
}

fn upper_char(c: char) -> (r: char)
    ensures
        r == sp_upper(c),
{
    let u = c as u32;
    if 97 <= u && u <= 122 {
        ((u - 32) as u8) as char
    } else {
        c
    }
}

fn lower_char(c: char) -> (r: char)
    ensures
        r == sp_lower(c),
{
    let u = c as u32;
    if 65 <= u && u <= 90 {
        ((u + 32) as u8) as char
    } else {
        c
    }
}

#[verifier::loop_isolation(false)]
fn project(s: &str, cap0: bool) -> (r: String)
    ensures
        r@ == sp_project(s@, cap0),
{
    let n = s.unicode_len();
    let mut out = String::new();
    let mut cap = cap0;
    let mut i: usize = 0;
    proof {
        assert(s@.skip(0) =~= s@);
        assert(out@ + sp_project(s@, cap0) =~= sp_project(s@, cap0));
    }
    while i < n
        invariant
            i <= n,
            n == s@.len(),
            sp_project(s@, cap0) == out@ + sp_project(s@.skip(i as int), cap),
        decreases n - i,
    {
        let c = s.get_char(i);
        proof {
            lemma_skip_step(s@, i as int);
        }
        if c == '-' || c == '_' {
            cap = true;
        } else if cap {
            push_char(&mut out, upper_char(c));
            cap = false;
            proof {
                assert(out@ + sp_project(s@.skip(i + 1), false) =~= sp_project(s@, cap0));
            }
        } else {
            push_char(&mut out, c);
            proof {
                assert(out@ + sp_project(s@.skip(i + 1), false) =~= sp_project(s@, cap0));
            }
        }
        i = i + 1;
    }
    proof {
        assert(s@.skip(n as int) =~= Seq::<char>::empty());
        assert(out@ + sp_project(s@.skip(n as int), cap) =~= out@);
    }
    out
}

/// `TypeName` projection of a WIT identifier.
pub fn pascal(s: &str) -> (r: String)
    ensures
        r@ == sp_pascal(s@),
{
    project(s, true)
}

/// `ValueName` projection of a WIT identifier, before keyword escaping.
pub fn camel(s: &str) -> (r: String)
    ensures
        r@ == sp_camel(s@),
{
    project(s, false)
}

#[verifier::loop_isolation(false)]
pub fn lower_all(s: &str) -> (r: String)
    ensures
        r@ == sp_lower_all(s@),
{
    let n = s.unicode_len();
    let mut out = String::new();
    let mut i: usize = 0;
    proof {
        assert(s@.skip(0) =~= s@);
        assert(out@ + sp_lower_all(s@) =~= sp_lower_all(s@));
    }
    while i < n
        invariant
            i <= n,
            n == s@.len(),
            sp_lower_all(s@) == out@ + sp_lower_all(s@.skip(i as int)),
        decreases n - i,
    {
        let c = s.get_char(i);
        proof {
            lemma_skip_step(s@, i as int);
        }
        push_char(&mut out, lower_char(c));
        proof {
            assert(out@ + sp_lower_all(s@.skip(i + 1)) =~= sp_lower_all(s@));
        }
        i = i + 1;
    }
    proof {
        assert(s@.skip(n as int) =~= Seq::<char>::empty());
        assert(out@ + sp_lower_all(s@.skip(n as int)) =~= out@);
    }
    out
}

pub fn is_reserved(s: &str) -> (r: bool)
    ensures
        r == sp_is_reserved(s@),
{
    str_eq(s, "delete") || str_eq(s, "default") || str_eq(s, "class") || str_eq(s, "function")
        || str_eq(s, "new") || str_eq(s, "return") || str_eq(s, "var") || str_eq(s, "let")
        || str_eq(s, "const") || str_eq(s, "switch") || str_eq(s, "case") || str_eq(s, "if")
        || str_eq(s, "else") || str_eq(s, "for") || str_eq(s, "while") || str_eq(s, "do")
        || str_eq(s, "break") || str_eq(s, "continue") || str_eq(s, "import") || str_eq(
        s,
        "export",
    ) || str_eq(s, "extends") || str_eq(s, "implements") || str_eq(s, "interface") || str_eq(
        s,
        "this",
    ) || str_eq(s, "super") || str_eq(s, "typeof") || str_eq(s, "instanceof") || str_eq(s, "void")
        || str_eq(s, "null") || str_eq(s, "true") || str_eq(s, "false")
}

/// The identifier used at a value declaration site: the `ValueName`
/// projection, escaped with a leading underscore when it is reserved.
pub fn value_name(s: &str) -> (r: String)
    ensures
        r@ == sp_value_name(s@),
{
    let c = camel(s);
    if is_reserved(c.as_str()) {
        let mut out = String::new();
        out.append("_");
        out.append(c.as_str());
        proof {
            assert(out@ =~= "_"@ + c@);
        }
        out
    } else {
        c
    }
}

/// No identifier that leaves the keyword escape is itself a reserved
/// keyword: an escaped name starts with an underscore, and no keyword does.
pub proof fn lemma_escape_not_reserved(s: Seq<char>)
    ensures
        !sp_is_reserved(sp_escape(s)),
{
    reveal_strlit("_");
    reveal_strlit("delete");
    reveal_strlit("default");
    reveal_strlit("class");
    reveal_strlit("function");
    reveal_strlit("new");
    reveal_strlit("return");
    reveal_strlit("var");
    reveal_strlit("let");
    reveal_strlit("const");
    reveal_strlit("switch");
    reveal_strlit("case");
    reveal_strlit("if");
    reveal_strlit("else");
    reveal_strlit("for");
    reveal_strlit("while");
    reveal_strlit("do");
    reveal_strlit("break");
    reveal_strlit("continue");
    reveal_strlit("import");
    reveal_strlit("export");
    reveal_strlit("extends");
    reveal_strlit("implements");
    reveal_strlit("interface");
    reveal_strlit("this");
    reveal_strlit("super");
    reveal_strlit("typeof");
    reveal_strlit("instanceof");
    reveal_strlit("void");
    reveal_strlit("null");
    reveal_strlit("true");
    reveal_strlit("false");
    if sp_is_reserved(s) {
        assert(("_"@ + s)[0] == '_');
    }
}

} // verus!
