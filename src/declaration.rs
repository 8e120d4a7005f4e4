//! The declaration parser: one body line to one typed field.

use vstd::prelude::*;
use crate::errors::{DeclarationError, DeclarationFault, NameError, ParseError, name_error_text};
use crate::model::{VarModel, Variable, VariableModifier, VariableVisibility};
use crate::names::{is_valid_name, valid_name};
use crate::text::{
    chars_of, eq_lit, is_ws, is_ws_char, split_tokens, split_ws, string_of, trim_end, views,
};

verus! {

/// Why a declaration line is rejected, over plain values.
pub enum DeclFault {
    BadName(Seq<char>),
    Unexpected(Seq<char>),
    NoType,
    NoName,
    ConstMut(Seq<char>),
}

/// What the parser has collected after a prefix of the tokens.
pub struct DeclState {
    pub vis: Option<VariableVisibility>,
    pub mods: Seq<VariableModifier>,
    pub ty: Option<Seq<char>>,
    pub name: Option<Seq<char>>,
}

pub open spec fn visibility_word(t: Seq<char>) -> Option<VariableVisibility> {
    if t == "private"@ {
        Some(VariableVisibility::PRIVATE)
    } else if t == "public"@ {
        Some(VariableVisibility::PUBLIC)
    } else if t == "protected"@ {
        Some(VariableVisibility::PROTECTED)
    } else {
        None
    }
}

pub open spec fn modifier_word(t: Seq<char>) -> Option<VariableModifier> {
    if t == "const"@ {
        Some(VariableModifier::CONST)
    } else if t == "mut"@ {
        Some(VariableModifier::MUT)
    } else if t == "static"@ {
        Some(VariableModifier::STATIC)
    } else if t == "optional"@ {
        Some(VariableModifier::OPTIONAL)
    } else {
        None
    }
}

/// One of the fixed primitive type keywords.
pub open spec fn builtin_type(t: Seq<char>) -> bool {
    ||| t == "int8"@
    ||| t == "int16"@
    ||| t == "int32"@
    ||| t == "int64"@
    ||| t == "uint8"@
    ||| t == "uint16"@
    ||| t == "uint32"@
    ||| t == "uint64"@
    ||| t == "float"@
    ||| t == "double"@
    ||| t == "bool"@
    ||| t == "string"@
    ||| t == "char"@
}

/// A token that may stand as a field's type.
pub open spec fn type_token(t: Seq<char>) -> bool {
    builtin_type(t) || valid_name(t)
}

pub open spec fn decl_start() -> DeclState {
    DeclState { vis: None, mods: seq![], ty: None, name: None }
}

/// The parser's reaction to one token.
pub open spec fn decl_step(st: DeclState, t: Seq<char>) -> Result<DeclState, DeclFault> {
    if st.name is Some {
        Err(DeclFault::Unexpected(t))
    } else if visibility_word(t) is Some {
        if st.vis is Some || st.mods.len() > 0 || st.ty is Some {
            Err(DeclFault::Unexpected(t))
        } else {
            Ok(DeclState { vis: visibility_word(t), mods: st.mods, ty: st.ty, name: st.name })
        }
    } else if modifier_word(t) is Some {
        if st.ty is Some {
            Err(DeclFault::Unexpected(t))
        } else {
            let m = modifier_word(t)->0;
            Ok(
                DeclState {
                    vis: st.vis,
                    mods: if st.mods.contains(m) {
                        st.mods
                    } else {
                        st.mods.push(m)
                    },
                    ty: st.ty,
                    name: st.name,
                },
            )
        }
    } else if st.ty is None {
        if type_token(t) {
            Ok(DeclState { vis: st.vis, mods: st.mods, ty: Some(t), name: st.name })
        } else {
            Err(DeclFault::BadName(t))
        }
    } else if valid_name(t) {
        Ok(DeclState { vis: st.vis, mods: st.mods, ty: st.ty, name: Some(t) })
    } else {
        Err(DeclFault::BadName(t))
    }
}

/// The parser's state after the first `i` tokens.
pub open spec fn decl_prefix(toks: Seq<Seq<char>>, i: nat) -> Result<DeclState, DeclFault>
    decreases i,
{
    if i == 0 {
        Ok(decl_start())
    } else {
        match decl_prefix(toks, (i - 1) as nat) {
            Ok(st) => decl_step(st, toks[i - 1]),
            Err(e) => Err(e),
        }
    }
}

/// The checks made once every token is read.
pub open spec fn decl_finish(st: DeclState) -> Result<VarModel, DeclFault> {
    match st.ty {
        None => Err(DeclFault::NoType),
        Some(ty) => match st.name {
            None => Err(DeclFault::NoName),
            Some(n) => if st.mods.contains(VariableModifier::CONST) && st.mods.contains(
                VariableModifier::MUT,
            ) {
                Err(DeclFault::ConstMut(n))
            } else {
                Ok(
                    VarModel {
                        mods: st.mods,
                        vis: match st.vis {
                            Some(v) => v,
                            None => VariableVisibility::PRIVATE,
                        },
                        ty,
                        name: n,
                    },
                )
            },
        },
    }
}

/// The text of a line without trailing whitespace and one final `;`.
pub open spec fn decl_body(line: Seq<char>) -> Seq<char> {
    let t = trim_end(line);
    if t.len() > 0 && t.last() == ';' {
        t.drop_last()
    } else {
        t
    }
}

pub open spec fn decl_tokens_of(line: Seq<char>) -> Seq<Seq<char>> {
    split_ws(decl_body(line))
}

pub open spec fn parse_tokens(toks: Seq<Seq<char>>) -> Result<VarModel, DeclFault> {
    match decl_prefix(toks, toks.len()) {
        Ok(st) => decl_finish(st),
        Err(e) => Err(e),
    }
}

/// What a declaration line parses to.
pub open spec fn parse_decl(line: Seq<char>) -> Result<VarModel, DeclFault> {
    parse_tokens(decl_tokens_of(line))
}

pub open spec fn fault_model(f: DeclarationFault) -> DeclFault {
    match f {
        DeclarationFault::UnexpectedToken(t) => DeclFault::Unexpected(t@),
        DeclarationFault::NoType => DeclFault::NoType,
        DeclarationFault::NoName => DeclFault::NoName,
        DeclarationFault::ConstAndMut(n) => DeclFault::ConstMut(n@),
    }
}

/// `e` is the executable form of the fault `f` met on `line`.
pub open spec fn error_is(e: ParseError, f: DeclFault, line: Seq<char>) -> bool {
    match e {
        ParseError::Name(n) => f is BadName && n.message@ == name_error_text(f->BadName_0),
        ParseError::Declaration(d) => d.line@ == line && f == fault_model(d.fault),
    }
}

/// `r` is the executable form of `expected`, with `line` as the offending line.
pub open spec fn outcome_is(
    r: Result<Variable, ParseError>,
    expected: Result<VarModel, DeclFault>,
    line: Seq<char>,
) -> bool {
    match r {
        Ok(v) => expected == Ok::<VarModel, DeclFault>(v@),
        Err(e) => expected is Err && error_is(e, expected->Err_0, line),
    }
}

fn visibility_of(t: &Vec<char>) -> (r: Option<VariableVisibility>)
    ensures
        r == visibility_word(t@),
{
    if eq_lit(t, "private") {
        Some(VariableVisibility::PRIVATE)
    } else if eq_lit(t, "public") {
        Some(VariableVisibility::PUBLIC)
    } else if eq_lit(t, "protected") {
        Some(VariableVisibility::PROTECTED)
    } else {
        None
    }
}

fn modifier_of(t: &Vec<char>) -> (r: Option<VariableModifier>)
    ensures
        r == modifier_word(t@),
{
    if eq_lit(t, "const") {
        Some(VariableModifier::CONST)
    } else if eq_lit(t, "mut") {
        Some(VariableModifier::MUT)
    } else if eq_lit(t, "static") {
        Some(VariableModifier::STATIC)
    } else if eq_lit(t, "optional") {
        Some(VariableModifier::OPTIONAL)
    } else {
        None
    }
}

/// Whether `t` is one of the primitive type keywords.
pub fn is_builtin_type(t: &Vec<char>) -> (r: bool)
    ensures
        r == builtin_type(t@),
{
    eq_lit(t, "int8") || eq_lit(t, "int16") || eq_lit(t, "int32") || eq_lit(t, "int64") || eq_lit(
        t,
        "uint8",
    ) || eq_lit(t, "uint16") || eq_lit(t, "uint32") || eq_lit(t, "uint64") || eq_lit(t, "float")
        || eq_lit(t, "double") || eq_lit(t, "bool") || eq_lit(t, "string") || eq_lit(t, "char")
}

fn is_valid_chars(t: &Vec<char>) -> (r: bool)
    ensures
        r == valid_name(t@),
{
    let s = string_of(t);
    is_valid_name(s.as_str())
}

/// End of the declaration text in `s`: trailing whitespace and one `;` cut off.
pub fn decl_body_end(s: &Vec<char>) -> (hi: usize)
    ensures
        hi <= s.len(),
        s@.subrange(0, hi as int) == decl_body(s@),
{
    let mut hi = s.len();
    assert(s@.subrange(0, hi as int) =~= s@);
    while hi > 0 && is_ws_char(s[hi - 1])
        invariant
            hi <= s.len(),
            trim_end(s@) == trim_end(s@.subrange(0, hi as int)),
        decreases hi,
    {
        assert(s@.subrange(0, hi as int).drop_last() =~= s@.subrange(0, hi - 1));
        hi = hi - 1;
    }
    assert(trim_end(s@.subrange(0, hi as int)) == s@.subrange(0, hi as int));
    if hi > 0 && s[hi - 1] == ';' {
        assert(s@.subrange(0, hi as int).drop_last() =~= s@.subrange(0, hi - 1));
        hi - 1
    } else {
        hi
    }
}

pub open spec fn opt_view(o: Option<Vec<char>>) -> Option<Seq<char>> {
    match o {
        Some(v) => Some(v@),
        None => None,
    }
}

fn unexpected(line: &str, t: &Vec<char>) -> (r: ParseError)
    ensures
        r matches ParseError::Declaration(e) && e.line@ == line@ && fault_model(e.fault)
            == DeclFault::Unexpected(t@),
{
    ParseError::Declaration(
        DeclarationError {
            line: String::from_str(line),
            fault: DeclarationFault::UnexpectedToken(string_of(t)),
        },
    )
}

fn bad_name(t: &Vec<char>) -> (r: ParseError)
    ensures
        r matches ParseError::Name(e) && e.message@ == name_error_text(t@),
{
    ParseError::Name(NameError::for_chars(t))
}

/// Parses one body line `[visibility] {modifiers} type name[;]` into a field.
pub fn parse_variable_declaration(line: &str) -> (r: Result<Variable, ParseError>)
    ensures
        outcome_is(r, parse_decl(line@), line@),
{
    let chars = chars_of(line);
    let hi = decl_body_end(&chars);
    let toks = split_tokens(&chars, 0, hi);
    let ghost tv = views(toks@);
    assert(tv == decl_tokens_of(line@));
    let mut vis: Option<VariableVisibility> = None;
    let mut mods: Vec<VariableModifier> = Vec::new();
    let mut ty: Option<Vec<char>> = None;
    let mut name: Option<Vec<char>> = None;
    let mut i: usize = 0;
    while i < toks.len()
        invariant
            i <= toks.len(),
            tv == views(toks@),
            tv == decl_tokens_of(line@),
            decl_prefix(tv, i as nat) == Ok::<DeclState, DeclFault>(
                DeclState { vis, mods: mods@, ty: opt_view(ty), name: opt_view(name) },
            ),
        decreases toks.len() - i,
    {
        let t = &toks[i];
        assert(tv[i as int] == t@);
        if name.is_some() {
            let e = unexpected(line, t);
            proof {
                assert(parse_decl(line@) == Err::<VarModel, DeclFault>(DeclFault::Unexpected(t@)))
                    by { lemma_error_sticks(tv, (i + 1) as nat); }
            }
            return Err(e);
        }
        let v = visibility_of(t);
        if v.is_some() {
            if vis.is_some() || mods.len() > 0 || ty.is_some() {
                let e = unexpected(line, t);
                proof { lemma_error_sticks(tv, (i + 1) as nat); }
                return Err(e);
            }
            vis = v;
        } else {
            let m = modifier_of(t);
            match m {
                Some(m) => {
                    if ty.is_some() {
                        let e = unexpected(line, t);
                        proof { lemma_error_sticks(tv, (i + 1) as nat); }
                        return Err(e);
                    }
                    if !crate::model::has_modifier(&mods, m) {
                        mods.push(m);
                    }
                },
                None => {
                    if ty.is_none() {
                        if is_builtin_type(t) || is_valid_chars(t) {
                            ty = Some(t.clone());
                        } else {
                            let e = bad_name(t);
                            proof { lemma_error_sticks(tv, (i + 1) as nat); }
                            return Err(e);
                        }
                    } else if is_valid_chars(t) {
                        name = Some(t.clone());
                    } else {
                        let e = bad_name(t);
                        proof { lemma_error_sticks(tv, (i + 1) as nat); }
                        return Err(e);
                    }
                },
            }
        }
        i = i + 1;
    }
    assert(tv.len() == toks.len());
    match ty {
        None => Err(
            ParseError::Declaration(
                DeclarationError { line: String::from_str(line), fault: DeclarationFault::NoType },
            ),
        ),
        Some(ty) => match name {
            None => Err(
                ParseError::Declaration(
                    DeclarationError {
                        line: String::from_str(line),
                        fault: DeclarationFault::NoName,
                    },
                ),
            ),
            Some(name) => {
                let name_s = string_of(&name);
                let has_const = crate::model::has_modifier(&mods, VariableModifier::CONST);
                let has_mut = crate::model::has_modifier(&mods, VariableModifier::MUT);
                if has_const && has_mut {
                    Err(
                        ParseError::Declaration(
                            DeclarationError {
                                line: String::from_str(line),
                                fault: DeclarationFault::ConstAndMut(name_s),
                            },
                        ),
                    )
                } else {
                    let visibility = match vis {
                        Some(v) => v,
                        None => VariableVisibility::PRIVATE,
                    };
                    Ok(
                        Variable {
                            var_mod: mods,
                            visibility,
                            var_type: string_of(&ty),
                            name: name_s,
                        },
                    )
                }
            },
        },
    }
}

/// Once a prefix fails, every longer prefix fails the same way.
pub proof fn lemma_error_sticks(toks: Seq<Seq<char>>, i: nat)
    requires
        i <= toks.len(),
        decl_prefix(toks, i) is Err,
    ensures
        decl_prefix(toks, toks.len()) == decl_prefix(toks, i),
        parse_tokens(toks) == Err::<VarModel, DeclFault>(decl_prefix(toks, i)->Err_0),
    decreases toks.len() - i,
{
    if i < toks.len() {
        lemma_error_sticks(toks, i + 1);
    }
}

} // verus!

verus! {

pub open spec fn visibility_text(v: VariableVisibility) -> Seq<char> {
    match v {
        VariableVisibility::PRIVATE => "private"@,
        VariableVisibility::PUBLIC => "public"@,
        VariableVisibility::PROTECTED => "protected"@,
    }
}

pub open spec fn modifier_text(m: VariableModifier) -> Seq<char> {
    match m {
        VariableModifier::CONST => "const"@,
        VariableModifier::MUT => "mut"@,
        VariableModifier::STATIC => "static"@,
        VariableModifier::OPTIONAL => "optional"@,
    }
}

/// Tokens joined by single spaces.
pub open spec fn join_ws(toks: Seq<Seq<char>>) -> Seq<char>
    decreases toks.len(),
{
    if toks.len() == 0 {
        seq![]
    } else if toks.len() == 1 {
        toks[0]
    } else {
        toks[0] + seq![' '] + join_ws(toks.drop_first())
    }
}

/// The tokens of `[visibility] {modifiers} type name`.
pub open spec fn decl_tokens(
    vis: Option<VariableVisibility>,
    mods: Seq<VariableModifier>,
    ty: Seq<char>,
    name: Seq<char>,
) -> Seq<Seq<char>> {
    let v = match vis {
        Some(v) => seq![visibility_text(v)],
        None => Seq::<Seq<char>>::empty(),
    };
    v + mods.map_values(|m: VariableModifier| modifier_text(m)) + seq![ty, name]
}

/// The declaration line `[visibility] {modifiers} type name;` written out.
pub open spec fn declaration_line(
    vis: Option<VariableVisibility>,
    mods: Seq<VariableModifier>,
    ty: Seq<char>,
    name: Seq<char>,
) -> Seq<char> {
    join_ws(decl_tokens(vis, mods, ty, name)) + ";"@
}

/// Neither a visibility nor a modifier keyword.
pub open spec fn plain_word(t: Seq<char>) -> bool {
    visibility_word(t) is None && modifier_word(t) is None
}

pub open spec fn ws_free(t: Seq<char>) -> bool {
    t.len() > 0 && forall|i: int| 0 <= i < t.len() ==> !is_ws(#[trigger] t[i])
}

pub proof fn lemma_keywords()
    ensures
        forall|v: VariableVisibility| visibility_word(#[trigger] visibility_text(v)) == Some(v),
        forall|v: VariableVisibility| modifier_word(#[trigger] visibility_text(v)) is None,
        forall|m: VariableModifier| modifier_word(#[trigger] modifier_text(m)) == Some(m),
        forall|m: VariableModifier| visibility_word(#[trigger] modifier_text(m)) is None,
        forall|v: VariableVisibility| ws_free(#[trigger] visibility_text(v)),
        forall|m: VariableModifier| ws_free(#[trigger] modifier_text(m)),
        forall|t: Seq<char>| #[trigger] modifier_word(t) is Some ==> visibility_word(t) is None,
{
    reveal_strlit("private");
    reveal_strlit("public");
    reveal_strlit("protected");
    reveal_strlit("const");
    reveal_strlit("mut");
    reveal_strlit("static");
    reveal_strlit("optional");
    assert("private"@.len() == 7);
    assert("public"@.len() == 6 && "public"@[0] == 'p');
    assert("protected"@.len() == 9);
    assert("const"@.len() == 5);
    assert("mut"@.len() == 3);
    assert("static"@.len() == 6 && "static"@[0] == 's');
    assert("optional"@.len() == 8);
    assert forall|v: VariableVisibility| visibility_word(#[trigger] visibility_text(v)) == Some(v)
        && modifier_word(visibility_text(v)) is None by {
        match v {
            VariableVisibility::PRIVATE => {},
            VariableVisibility::PUBLIC => {},
            VariableVisibility::PROTECTED => {},
        }
    }
    assert forall|m: VariableModifier| modifier_word(#[trigger] modifier_text(m)) == Some(m)
        && visibility_word(modifier_text(m)) is None by {
        match m {
            VariableModifier::CONST => {},
            VariableModifier::MUT => {},
            VariableModifier::STATIC => {},
            VariableModifier::OPTIONAL => {},
        }
    }
}

pub proof fn lemma_builtin_ws_free(t: Seq<char>)
    requires
        builtin_type(t),
    ensures
        ws_free(t),
{
    reveal_strlit("int8");
    reveal_strlit("int16");
    reveal_strlit("int32");
    reveal_strlit("int64");
    reveal_strlit("uint8");
    reveal_strlit("uint16");
    reveal_strlit("uint32");
    reveal_strlit("uint64");
    reveal_strlit("float");
    reveal_strlit("double");
    reveal_strlit("bool");
    reveal_strlit("string");
    reveal_strlit("char");
}

pub proof fn lemma_name_ws_free(t: Seq<char>)
    requires
        valid_name(t),
    ensures
        ws_free(t),
{
    assert forall|i: int| 0 <= i < t.len() implies !is_ws(#[trigger] t[i]) by {
        if i > 0 {
            assert(crate::names::is_name_char(t[i]));
        }
    }
}

/// Splitting tokens joined by spaces gives the tokens back.
pub proof fn lemma_split_join(toks: Seq<Seq<char>>)
    requires
        forall|k: int| 0 <= k < toks.len() ==> ws_free(#[trigger] toks[k]),
    ensures
        split_ws(join_ws(toks)) == toks,
    decreases toks.len(),
{
    if toks.len() == 0 {
        assert(split_ws(join_ws(toks)) =~= toks);
    } else {
        let t0 = toks[0];
        assert(ws_free(t0));
        let s = join_ws(toks);
        if toks.len() == 1 {
            crate::text::lemma_token_len_exact(s, t0.len() as int);
            assert(s.take(t0.len() as int) =~= t0);
            assert(split_ws(s.skip(t0.len() as int)) =~= seq![]);
            assert(split_ws(s) =~= toks);
        } else {
            let rest = toks.drop_first();
            assert forall|k: int| 0 <= k < rest.len() implies ws_free(#[trigger] rest[k]) by {
                assert(rest[k] == toks[k + 1]);
            }
            lemma_split_join(rest);
            assert(s == t0 + seq![' '] + join_ws(rest));
            assert forall|k: int| 0 <= k < t0.len() implies !is_ws(#[trigger] s[k]) by {
                assert(s[k] == t0[k]);
            }
            assert(s[t0.len() as int] == ' ');
            crate::text::lemma_token_len_exact(s, t0.len() as int);
            assert(s.take(t0.len() as int) =~= t0);
            let after = s.skip(t0.len() as int);
            assert(after.drop_first() =~= join_ws(rest));
            assert(split_ws(after) == split_ws(join_ws(rest)));
            assert(split_ws(s) =~= toks);
        }
    }
}

proof fn lemma_prefix_mods(
    vis: Option<VariableVisibility>,
    mods: Seq<VariableModifier>,
    ty: Seq<char>,
    name: Seq<char>,
    k: nat,
)
    requires
        k <= mods.len(),
        mods.no_duplicates(),
    ensures
        decl_prefix(decl_tokens(vis, mods, ty, name), (if vis is Some { 1nat } else { 0nat }) + k)
            == Ok::<DeclState, DeclFault>(
            DeclState { vis, mods: mods.take(k as int), ty: None, name: None },
        ),
    decreases k,
{
    lemma_keywords();
    let toks = decl_tokens(vis, mods, ty, name);
    let nv: nat = if vis is Some { 1nat } else { 0nat };
    if k == 0 {
        assert(mods.take(0) =~= seq![]);
        if vis is Some {
            assert(toks[0] == visibility_text(vis->0));
            assert(decl_prefix(toks, 0) == Ok::<DeclState, DeclFault>(decl_start()));
        }
    } else {
        lemma_prefix_mods(vis, mods, ty, name, (k - 1) as nat);
        let m = mods[k - 1];
        assert(toks[(nv + k - 1) as int] == modifier_text(m));
        assert(!mods.take(k - 1).contains(m)) by {
            if mods.take(k - 1).contains(m) {
                let w = choose|w: int| 0 <= w < k - 1 && #[trigger] mods.take(k - 1)[w] == m;
                assert(mods[w] == mods[k - 1]);
            }
        }
        assert(mods.take(k - 1).push(m) =~= mods.take(k as int));
    }
}

/// Parsing a well-formed declaration line gives back its visibility (private
/// when none is written), its modifiers, its type and its name; writing the
/// parsed field out again and parsing that gives the same field.
pub proof fn lemma_declaration_round_trip(
    vis: Option<VariableVisibility>,
    mods: Seq<VariableModifier>,
    ty: Seq<char>,
    name: Seq<char>,
)
    requires
        type_token(ty),
        plain_word(ty),
        valid_name(name),
        plain_word(name),
        mods.no_duplicates(),
        !(mods.contains(VariableModifier::CONST) && mods.contains(VariableModifier::MUT)),
    ensures
        parse_decl(declaration_line(vis, mods, ty, name)) == Ok::<VarModel, DeclFault>(
            VarModel {
                mods,
                vis: match vis {
                    Some(v) => v,
                    None => VariableVisibility::PRIVATE,
                },
                ty,
                name,
            },
        ),
        ({
            let m = parse_decl(declaration_line(vis, mods, ty, name))->Ok_0;
            parse_decl(declaration_line(Some(m.vis), m.mods, m.ty, m.name)) == Ok::<
                VarModel,
                DeclFault,
            >(m)
        }),
{
    lemma_declaration_read(vis, mods, ty, name);
    let v = match vis {
        Some(v) => v,
        None => VariableVisibility::PRIVATE,
    };
    lemma_declaration_read(Some(v), mods, ty, name);
}

/// A well-formed declaration line is read into its visibility, modifiers,
/// type and name; what it parses to is then decided by the final checks.
pub proof fn lemma_declaration_read(
    vis: Option<VariableVisibility>,
    mods: Seq<VariableModifier>,
    ty: Seq<char>,
    name: Seq<char>,
)
    requires
        type_token(ty),
        plain_word(ty),
        valid_name(name),
        plain_word(name),
        mods.no_duplicates(),
    ensures
        decl_tokens_of(declaration_line(vis, mods, ty, name)) == decl_tokens(vis, mods, ty, name),
        parse_decl(declaration_line(vis, mods, ty, name)) == decl_finish(
            DeclState { vis, mods, ty: Some(ty), name: Some(name) },
        ),
{
    lemma_keywords();
    let toks = decl_tokens(vis, mods, ty, name);
    let nv: nat = if vis is Some { 1nat } else { 0nat };
    assert(toks.len() == nv + mods.len() + 2);
    // every token is free of whitespace
    if builtin_type(ty) {
        lemma_builtin_ws_free(ty);
    } else {
        lemma_name_ws_free(ty);
    }
    lemma_name_ws_free(name);
    assert forall|k: int| 0 <= k < toks.len() implies ws_free(#[trigger] toks[k]) by {
        if k < nv {
            assert(toks[k] == visibility_text(vis->0));
        } else if k < nv + mods.len() {
            assert(toks[k] == modifier_text(mods[k - nv]));
        } else if k == nv + mods.len() {
            assert(toks[k] == ty);
        } else {
            assert(toks[k] == name);
        }
    }
    lemma_split_join(toks);
    let line = declaration_line(vis, mods, ty, name);
    let j = join_ws(toks);
    reveal_strlit(";");
    assert(trim_end(line) == line);
    assert(line.drop_last() =~= j);
    assert(decl_body(line) == j);
    assert(decl_tokens_of(line) == toks);
    // the tokens are read in their roles
    lemma_prefix_mods(vis, mods, ty, name, mods.len());
    assert(mods.take(mods.len() as int) =~= mods);
    assert(toks[(nv + mods.len()) as int] == ty);
    assert(toks[(nv + mods.len() + 1) as int] == name);
    assert(decl_prefix(toks, nv + mods.len() + 1) == Ok::<DeclState, DeclFault>(
        DeclState { vis, mods, ty: Some(ty), name: None },
    ));
    assert(decl_prefix(toks, nv + mods.len() + 2) == Ok::<DeclState, DeclFault>(
        DeclState { vis, mods, ty: Some(ty), name: Some(name) },
    ));
}

/// Once the type has been read, a later visibility or modifier keyword is a
/// declaration error naming that keyword.
pub proof fn lemma_keyword_after_type_rejected(line: Seq<char>, j: nat)
    requires
        j < decl_tokens_of(line).len(),
        decl_prefix(decl_tokens_of(line), j) is Ok,
        decl_prefix(decl_tokens_of(line), j)->Ok_0.ty is Some,
        visibility_word(decl_tokens_of(line)[j as int]) is Some || modifier_word(
            decl_tokens_of(line)[j as int],
        ) is Some,
    ensures
        parse_decl(line) == Err::<VarModel, DeclFault>(
            DeclFault::Unexpected(decl_tokens_of(line)[j as int]),
        ),
{
    lemma_keywords();
    let toks = decl_tokens_of(line);
    assert(decl_prefix(toks, j + 1) == Err::<DeclState, DeclFault>(
        DeclFault::Unexpected(toks[j as int]),
    ));
    lemma_error_sticks(toks, j + 1);
}

/// Every modifier keyword read so far is in the collected modifiers.
proof fn lemma_mods_collected(toks: Seq<Seq<char>>, i: nat)
    requires
        i <= toks.len(),
        decl_prefix(toks, i) is Ok,
    ensures
        forall|k: int|
            0 <= k < i && #[trigger] modifier_word(toks[k]) is Some ==> decl_prefix(
                toks,
                i,
            )->Ok_0.mods.contains(modifier_word(toks[k])->0),
    decreases i,
{
    lemma_keywords();
    if i > 0 {
        lemma_mods_collected(toks, (i - 1) as nat);
        let prev = decl_prefix(toks, (i - 1) as nat)->Ok_0;
        let cur = decl_prefix(toks, i)->Ok_0;
        assert forall|k: int|
            0 <= k < i && #[trigger] modifier_word(toks[k]) is Some implies cur.mods.contains(
            modifier_word(toks[k])->0,
        ) by {
            let m = modifier_word(toks[k])->0;
            if k < i - 1 {
                let w = choose|w: int| 0 <= w < prev.mods.len() && prev.mods[w] == m;
                if cur.mods != prev.mods {
                    assert(cur.mods[w] == m);
                }
            } else if !prev.mods.contains(m) {
                assert(cur.mods[cur.mods.len() - 1] == m);
            }
        }
    }
}

/// A declaration holding both `const` and `mut`, in either order, is rejected.
pub proof fn lemma_const_mut_rejected(line: Seq<char>)
    requires
        decl_tokens_of(line).contains("const"@),
        decl_tokens_of(line).contains("mut"@),
    ensures
        parse_decl(line) is Err,
{
    let toks = decl_tokens_of(line);
    if decl_prefix(toks, toks.len()) is Ok {
        lemma_mods_collected(toks, toks.len());
        let a = choose|k: int| 0 <= k < toks.len() && toks[k] == "const"@;
        let b = choose|k: int| 0 <= k < toks.len() && toks[k] == "mut"@;
        assert(modifier_word(toks[a]) == Some(VariableModifier::CONST));
        lemma_keywords();
        assert(modifier_text(VariableModifier::MUT) == "mut"@);
        assert(modifier_word(toks[b]) == Some(VariableModifier::MUT));
    }
}

} // verus!

verus! {

/// A declaration line that is well formed but for holding both `const` and
/// `mut` is rejected with the const/mut error naming the field.
pub proof fn lemma_const_mut_error_names_field(
    vis: Option<VariableVisibility>,
    mods: Seq<VariableModifier>,
    ty: Seq<char>,
    name: Seq<char>,
)
    requires
        type_token(ty),
        plain_word(ty),
        valid_name(name),
        plain_word(name),
        mods.no_duplicates(),
        mods.contains(VariableModifier::CONST),
        mods.contains(VariableModifier::MUT),
    ensures
        parse_decl(declaration_line(vis, mods, ty, name)) == Err::<VarModel, DeclFault>(
            DeclFault::ConstMut(name),
        ),
{
    lemma_declaration_read(vis, mods, ty, name);
}

} // verus!

verus! {

/// Every character is a name character.
pub open spec fn name_chars(t: Seq<char>) -> bool {
    forall|i: int| 0 <= i < t.len() ==> crate::names::is_name_char(#[trigger] t[i])
}

proof fn lemma_token_name_chars(t: Seq<char>)
    requires
        type_token(t) || visibility_word(t) is Some || modifier_word(t) is Some,
    ensures
        name_chars(t),
{
    reveal_strlit("private");
    reveal_strlit("public");
    reveal_strlit("protected");
    reveal_strlit("const");
    reveal_strlit("mut");
    reveal_strlit("static");
    reveal_strlit("optional");
    reveal_strlit("int8");
    reveal_strlit("int16");
    reveal_strlit("int32");
    reveal_strlit("int64");
    reveal_strlit("uint8");
    reveal_strlit("uint16");
    reveal_strlit("uint32");
    reveal_strlit("uint64");
    reveal_strlit("float");
    reveal_strlit("double");
    reveal_strlit("bool");
    reveal_strlit("string");
    reveal_strlit("char");
}

proof fn lemma_join_chars(toks: Seq<Seq<char>>)
    requires
        forall|k: int| 0 <= k < toks.len() ==> name_chars(#[trigger] toks[k]),
    ensures
        forall|i: int|
            0 <= i < join_ws(toks).len() ==> crate::names::is_name_char(#[trigger] join_ws(toks)[i])
                || join_ws(toks)[i] == ' ',
    decreases toks.len(),
{
    if toks.len() > 1 {
        let rest = toks.drop_first();
        assert forall|k: int| 0 <= k < rest.len() implies name_chars(#[trigger] rest[k]) by {
            assert(rest[k] == toks[k + 1]);
        }
        lemma_join_chars(rest);
        assert(name_chars(toks[0]));
        let j = join_ws(toks);
        assert forall|i: int| 0 <= i < j.len() implies crate::names::is_name_char(#[trigger] j[i])
            || j[i] == ' ' by {
            let t0 = toks[0];
            if i < t0.len() {
                assert(j[i] == t0[i]);
            } else if i > t0.len() {
                assert(j[i] == join_ws(rest)[i - t0.len() - 1]);
            }
        }
    } else if toks.len() == 1 {
        assert(name_chars(toks[0]));
    }
}

/// The characters of a written-out declaration line.
pub proof fn lemma_declaration_line_chars(
    vis: Option<VariableVisibility>,
    mods: Seq<VariableModifier>,
    ty: Seq<char>,
    name: Seq<char>,
)
    requires
        type_token(ty),
        valid_name(name),
    ensures
        ({
            let line = declaration_line(vis, mods, ty, name);
            &&& line.len() > 0
            &&& line.last() == ';'
            &&& forall|i: int|
                0 <= i < line.len() - 1 ==> crate::names::is_name_char(#[trigger] line[i])
                    || line[i] == ' '
        }),
{
    lemma_keywords();
    let toks = decl_tokens(vis, mods, ty, name);
    let nv: int = if vis is Some { 1 } else { 0 };
    lemma_token_name_chars(ty);
    lemma_token_name_chars(name);
    assert forall|k: int| 0 <= k < toks.len() implies name_chars(#[trigger] toks[k]) by {
        if k < nv {
            assert(toks[k] == visibility_text(vis->0));
            lemma_token_name_chars(toks[k]);
        } else if k < nv + mods.len() {
            assert(toks[k] == modifier_text(mods[k - nv]));
            lemma_token_name_chars(toks[k]);
        } else if k == nv + mods.len() {
            assert(toks[k] == ty);
        } else {
            assert(toks[k] == name);
        }
    }
    lemma_join_chars(toks);
    reveal_strlit(";");
    let j = join_ws(toks);
    let line = declaration_line(vis, mods, ty, name);
    assert forall|i: int| 0 <= i < line.len() - 1 implies crate::names::is_name_char(
        #[trigger] line[i],
    ) || line[i] == ' ' by {
        assert(line[i] == j[i]);
    }
}

} // verus!
