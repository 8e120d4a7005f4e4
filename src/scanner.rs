//! The scanner: schema text to objects, with comments removed.

use vstd::prelude::*;
use crate::declaration::{
    DeclFault, decl_body_end, decl_prefix, declaration_line, lemma_const_mut_error_names_field,
    lemma_const_mut_rejected, lemma_declaration_line_chars, lemma_declaration_round_trip,
    lemma_keyword_after_type_rejected, modifier_word, plain_word, visibility_word, decl_tokens_of, error_is, is_builtin_type, outcome_is, parse_decl,
    parse_variable_declaration, type_token,
};
use crate::errors::{DeclarationError, DeclarationFault, NameError, ParseError, name_error_text};
use crate::model::{
    ObjModel, ObjectType, OmlObject, VarModel, Variable, VariableModifier, VariableVisibility,
    vars_view,
};
use crate::names::{is_valid_name, valid_name};
use crate::text::{chars_of, eq_lit, find_char, split_tokens, split_ws, string_of, sub_vec, views};

verus! {

/// Index of the first place where `a` is directly followed by `b`.
pub open spec fn find_pair(s: Seq<char>, a: char, b: char) -> Option<int>
    decreases s.len(),
{
    if s.len() < 2 {
        None
    } else if s[0] == a && s[1] == b {
        Some(0)
    } else {
        match find_pair(s.drop_first(), a, b) {
            Some(i) => Some(i + 1),
            None => None,
        }
    }
}

pub proof fn lemma_find_pair(s: Seq<char>, a: char, b: char, n: int)
    requires
        0 <= n,
        forall|k: int| 0 <= k < n && k + 1 < s.len() ==> !(s[k] == a && #[trigger] s[k + 1] == b),
    ensures
        n + 1 < s.len() && s[n] == a && s[n + 1] == b ==> find_pair(s, a, b) == Some(n),
        n + 1 >= s.len() ==> find_pair(s, a, b) is None,
        find_pair(s, a, b) matches Some(i) ==> 0 <= i && i + 1 < s.len(),
    decreases s.len(),
{
    if s.len() >= 2 {
        let t = s.drop_first();
        if n > 0 {
            assert(!(s[0] == a && s[0int + 1] == b));
            assert forall|k: int| 0 <= k < n - 1 && k + 1 < t.len() implies !(t[k] == a
                && #[trigger] t[k + 1] == b) by {
                assert(t[k] == s[k + 1] && t[k + 1] == s[k + 2]);
            }
        }
        lemma_find_pair(t, a, b, if n > 0 { n - 1 } else { 0 });
    }
}

pub proof fn lemma_find_char(s: Seq<char>, c: char, n: int)
    requires
        0 <= n <= s.len(),
        forall|k: int| 0 <= k < n ==> #[trigger] s[k] != c,
    ensures
        n < s.len() && s[n] == c ==> find_char(s, c) == Some(n),
        n == s.len() ==> find_char(s, c) is None,
        find_char(s, c) matches Some(i) ==> 0 <= i < s.len() && s[i] == c,
    decreases s.len(),
{
    if s.len() > 0 {
        let t = s.drop_first();
        if n > 0 {
            assert forall|k: int| 0 <= k < n - 1 implies #[trigger] t[k] != c by {
                assert(t[k] == s[k + 1]);
            }
        }
        lemma_find_char(t, c, if n > 0 { n - 1 } else { 0 });
    }
}

/// First index `i` in `lo..hi` where `s[i] == c`, if any.
pub fn find_char_in(s: &Vec<char>, lo: usize, hi: usize, c: char) -> (r: Option<usize>)
    requires
        lo <= hi <= s.len(),
    ensures
        match r {
            Some(i) => lo <= i < hi && find_char(s@.subrange(lo as int, hi as int), c) == Some(
                i - lo,
            ),
            None => find_char(s@.subrange(lo as int, hi as int), c) is None,
        },
{
    let ghost t = s@.subrange(lo as int, hi as int);
    let mut i = lo;
    while i < hi
        invariant
            lo <= i <= hi <= s.len(),
            t == s@.subrange(lo as int, hi as int),
            forall|k: int| 0 <= k < i - lo ==> #[trigger] t[k] != c,
        decreases hi - i,
    {
        if s[i] == c {
            proof { lemma_find_char(t, c, i - lo); }
            return Some(i);
        }
        i = i + 1;
    }
    proof { lemma_find_char(t, c, i - lo); }
    None
}

/// First index `i` in `lo..hi` where `s[i] == a` and `s[i + 1] == b`, if any.
pub fn find_pair_in(s: &Vec<char>, lo: usize, hi: usize, a: char, b: char) -> (r: Option<usize>)
    requires
        lo <= hi <= s.len(),
    ensures
        match r {
            Some(i) => lo <= i && i + 2 <= hi && find_pair(
                s@.subrange(lo as int, hi as int),
                a,
                b,
            ) == Some(i - lo),
            None => find_pair(s@.subrange(lo as int, hi as int), a, b) is None,
        },
{
    let ghost t = s@.subrange(lo as int, hi as int);
    let mut i = lo;
    while hi - i > 1
        invariant
            lo <= i <= hi <= s.len(),
            t == s@.subrange(lo as int, hi as int),
            forall|k: int| 0 <= k < i - lo && k + 1 < t.len() ==> !(t[k] == a && #[trigger] t[k + 1] == b),
        decreases hi - i,
    {
        if s[i] == a && s[i + 1] == b {
            proof { lemma_find_pair(t, a, b, i - lo); }
            return Some(i);
        }
        i = i + 1;
    }
    proof { lemma_find_pair(t, a, b, i - lo); }
    None
}

/// `s` with everything from the first `//` on removed.
pub open spec fn cut_line_comment(s: Seq<char>) -> Seq<char> {
    match find_pair(s, '/', '/') {
        Some(i) => s.take(i),
        None => s,
    }
}

/// `s` with its `/* ... */` comments spliced out, and whether a comment is
/// still open at its end.
pub open spec fn strip_blocks(s: Seq<char>) -> (Seq<char>, bool)
    decreases s.len(),
{
    match find_pair(s, '/', '*') {
        None => (s, false),
        Some(i) => {
            proof {
                lemma_find_pair(s, '/', '*', 0);
            }
            let rest = s.skip(i + 2);
            match find_pair(rest, '*', '/') {
                None => (s.take(i), true),
                Some(j) => {
                    proof {
                        lemma_find_pair(rest, '*', '/', 0);
                    }
                    let t = strip_blocks(rest.skip(j + 2));
                    (s.take(i) + t.0, t.1)
                },
            }
        },
    }
}

/// The text of one physical line that is not comment, and whether a block
/// comment is open after it; `in_block` tells whether one was open before.
pub open spec fn strip_comments(line: Seq<char>, in_block: bool) -> (Seq<char>, bool) {
    if in_block {
        match find_pair(line, '*', '/') {
            None => (seq![], true),
            Some(j) => strip_blocks(cut_line_comment(line.skip(j + 2))),
        }
    } else {
        strip_blocks(cut_line_comment(line))
    }
}

fn append_range(out: &mut Vec<char>, s: &Vec<char>, lo: usize, hi: usize)
    requires
        lo <= hi <= s.len(),
    ensures
        final(out)@ == old(out)@ + s@.subrange(lo as int, hi as int),
{
    let mut i = lo;
    while i < hi
        invariant
            lo <= i <= hi <= s.len(),
            out@ == old(out)@ + s@.subrange(lo as int, i as int),
        decreases hi - i,
    {
        out.push(s[i]);
        i = i + 1;
        assert(out@ =~= old(out)@ + s@.subrange(lo as int, i as int));
    }
}

/// The non-comment text of `s[lo..hi]`, a physical line, and whether a block
/// comment is open after it.
pub fn strip_line_comments(s: &Vec<char>, lo: usize, hi: usize, in_block: bool) -> (r: (
    Vec<char>,
    bool,
))
    requires
        lo <= hi <= s.len(),
    ensures
        (r.0@, r.1) == strip_comments(s@.subrange(lo as int, hi as int), in_block),
{
    let ghost line = s@.subrange(lo as int, hi as int);
    let mut pos = lo;
    if in_block {
        match find_pair_in(s, lo, hi, '*', '/') {
            None => {
                return (Vec::new(), true);
            },
            Some(j) => {
                assert(line.skip(j - lo + 2) =~= s@.subrange(j + 2, hi as int));
                pos = j + 2;
            },
        }
    }
    assert(strip_comments(line, in_block) == strip_blocks(
        cut_line_comment(s@.subrange(pos as int, hi as int)),
    )) by {
        if !in_block {
            assert(line =~= s@.subrange(pos as int, hi as int));
        }
    }
    let end = match find_pair_in(s, pos, hi, '/', '/') {
        Some(i) => i,
        None => hi,
    };
    assert(cut_line_comment(s@.subrange(pos as int, hi as int)) =~= s@.subrange(
        pos as int,
        end as int,
    ));
    let ghost whole = s@.subrange(pos as int, end as int);
    let mut out: Vec<char> = Vec::new();
    loop
        invariant
            lo <= pos <= end <= hi <= s.len(),
            line == s@.subrange(lo as int, hi as int),
            strip_comments(line, in_block) == strip_blocks(whole),
            strip_blocks(whole) == (
                out@ + strip_blocks(s@.subrange(pos as int, end as int)).0,
                strip_blocks(s@.subrange(pos as int, end as int)).1,
            ),
        decreases end - pos,
    {
        let ghost cur = s@.subrange(pos as int, end as int);
        match find_pair_in(s, pos, end, '/', '*') {
            None => {
                let ghost before = out@;
                append_range(&mut out, s, pos, end);
                assert(strip_blocks(cur) == (cur, false));
                assert(out@ == before + cur);
                return (out, false);
            },
            Some(i) => {
                assert(cur.take(i - pos) =~= s@.subrange(pos as int, i as int));
                assert(cur.skip(i - pos + 2) =~= s@.subrange(i + 2, end as int));
                match find_pair_in(s, i + 2, end, '*', '/') {
                    None => {
                        let ghost before = out@;
                        append_range(&mut out, s, pos, i);
                        assert(strip_blocks(cur) == (cur.take(i - pos), true));
                        assert(out@ == before + cur.take(i - pos));
                        return (out, true);
                    },
                    Some(j) => {
                        let ghost before = out@;
                        append_range(&mut out, s, pos, i);
                        assert(s@.subrange(i + 2, end as int).skip(j - (i + 2) + 2) =~= s@.subrange(
                            j + 2,
                            end as int,
                        ));
                        assert(out@ + strip_blocks(s@.subrange(j + 2, end as int)).0 =~= before + (
                        s@.subrange(pos as int, i as int) + strip_blocks(
                            s@.subrange(j + 2, end as int),
                        ).0));
                        pos = j + 2;
                    },
                }
            },
        }
    }
}

} // verus!

verus! {

/// Where the scanner stands between two pieces of text.
pub enum Mode {
    /// Outside any body; a keyword line seen but not yet opened is pending.
    Searching { pending: Option<(ObjectType, Seq<char>)> },
    /// Inside the body of an object, with its buffered declaration lines.
    InBody { kind: ObjectType, name: Seq<char>, lines: Seq<Seq<char>> },
}

pub struct ScanState {
    pub in_block: bool,
    pub mode: Mode,
    pub done: Seq<ObjModel>,
}

/// Why a schema text is rejected, over plain values.
pub enum ScanFault {
    BadObjectName(Seq<char>),
    /// A buffered body line and what is wrong with it.
    Line(Seq<char>, DeclFault),
}

/// Why a schema text was rejected.
#[derive(Debug, Clone)]
pub enum ScanError {
    /// The name after `class`, `enum` or `struct` fails the name grammar.
    ObjectName(NameError),
    /// A body line failed to parse; `line` is its text.
    Line { line: String, cause: ParseError },
}

pub open spec fn object_keyword(t: Seq<char>) -> Option<ObjectType> {
    if t == "class"@ {
        Some(ObjectType::CLASS)
    } else if t == "enum"@ {
        Some(ObjectType::ENUM)
    } else if t == "struct"@ {
        Some(ObjectType::STRUCT)
    } else {
        None
    }
}

/// The object a header (text before any `{`) announces, or `pending` when it
/// announces none.  A keyword without a name stands for the empty name.
pub open spec fn header_object(header: Seq<char>, pending: Option<(ObjectType, Seq<char>)>) -> Result<
    Option<(ObjectType, Seq<char>)>,
    ScanFault,
> {
    let toks = split_ws(header);
    if toks.len() > 0 && object_keyword(toks[0]) is Some {
        let name = if toks.len() > 1 {
            toks[1]
        } else {
            Seq::<char>::empty()
        };
        if valid_name(name) {
            Ok(Some((object_keyword(toks[0])->0, name)))
        } else {
            Err(ScanFault::BadObjectName(name))
        }
    } else {
        Ok(pending)
    }
}

/// Whether a piece of body text is buffered as a declaration: in an enum, any
/// piece with a name in it; elsewhere, one holding a type-like token and one
/// more token, or one that ends with `;`.
pub open spec fn is_candidate(kind: ObjectType, p: Seq<char>) -> bool {
    if kind == ObjectType::ENUM {
        decl_tokens_of(p).len() > 0
    } else {
        let toks = split_ws(p);
        (toks.len() >= 2 && exists|i: int| 0 <= i < toks.len() && type_token(#[trigger] toks[i]))
            || (p.len() > 0 && p.last() == ';')
    }
}

/// The declaration candidates of body text, cut after each `;`.
pub open spec fn candidates(kind: ObjectType, body: Seq<char>) -> Seq<Seq<char>>
    decreases body.len(),
{
    match find_char(body, ';') {
        Some(k) => {
            proof {
                lemma_find_char(body, ';', 0);
            }
            let p = body.take(k + 1);
            (if is_candidate(kind, p) {
                seq![p]
            } else {
                Seq::<Seq<char>>::empty()
            }) + candidates(kind, body.skip(k + 1))
        },
        None => if is_candidate(kind, body) {
            seq![body]
        } else {
            Seq::<Seq<char>>::empty()
        },
    }
}

/// An enumerant line: exactly one valid name.
pub open spec fn enum_member(line: Seq<char>) -> Result<VarModel, DeclFault> {
    let toks = decl_tokens_of(line);
    if toks.len() == 0 {
        Err(DeclFault::NoName)
    } else if !valid_name(toks[0]) {
        Err(DeclFault::BadName(toks[0]))
    } else if toks.len() > 1 {
        Err(DeclFault::Unexpected(toks[1]))
    } else {
        Ok(
            VarModel {
                mods: seq![],
                vis: VariableVisibility::PUBLIC,
                ty: Seq::<char>::empty(),
                name: toks[0],
            },
        )
    }
}

pub open spec fn member(kind: ObjectType, line: Seq<char>) -> Result<VarModel, DeclFault> {
    if kind == ObjectType::ENUM {
        enum_member(line)
    } else {
        parse_decl(line)
    }
}

/// The fields of an object from its buffered lines; the first bad line fails it.
pub open spec fn assemble_vars(kind: ObjectType, lines: Seq<Seq<char>>) -> Result<
    Seq<VarModel>,
    ScanFault,
>
    decreases lines.len(),
{
    if lines.len() == 0 {
        Ok(seq![])
    } else {
        match member(kind, lines[0]) {
            Err(f) => Err(ScanFault::Line(lines[0], f)),
            Ok(v) => match assemble_vars(kind, lines.drop_first()) {
                Ok(vs) => Ok(seq![v] + vs),
                Err(e) => Err(e),
            },
        }
    }
}

/// The scanner run over the (comment-free) text `s` of one line.
pub open spec fn scan_segment(mode: Mode, done: Seq<ObjModel>, s: Seq<char>) -> Result<
    (Mode, Seq<ObjModel>),
    ScanFault,
>
    decreases s.len(),
{
    match mode {
        Mode::Searching { pending } => {
            let k = find_char(s, '{');
            let header = match k {
                Some(k) => s.take(k),
                None => s,
            };
            match header_object(header, pending) {
                Err(e) => Err(e),
                Ok(p) => match k {
                    None => Ok((Mode::Searching { pending: p }, done)),
                    Some(k) => {
                        proof {
                            lemma_find_char(s, '{', 0);
                        }
                        let next = match p {
                            Some(o) => Mode::InBody { kind: o.0, name: o.1, lines: seq![] },
                            None => Mode::Searching { pending: None },
                        };
                        scan_segment(next, done, s.skip(k + 1))
                    },
                },
            }
        },
        Mode::InBody { kind, name, lines } => {
            let k = find_char(s, '}');
            let body = match k {
                Some(k) => s.take(k),
                None => s,
            };
            let lines2 = lines + candidates(kind, body);
            match k {
                None => Ok((Mode::InBody { kind, name, lines: lines2 }, done)),
                Some(k) => {
                    proof {
                        lemma_find_char(s, '}', 0);
                    }
                    match assemble_vars(kind, lines2) {
                        Err(e) => Err(e),
                        Ok(vs) => scan_segment(
                            Mode::Searching { pending: None },
                            done.push(ObjModel { kind, name, vars: vs }),
                            s.skip(k + 1),
                        ),
                    }
                },
            }
        },
    }
}

/// The scanner run over one physical line.
pub open spec fn scan_line(st: ScanState, line: Seq<char>) -> Result<ScanState, ScanFault> {
    let (kept, b) = strip_comments(line, st.in_block);
    match scan_segment(st.mode, st.done, kept) {
        Ok((m, d)) => Ok(ScanState { in_block: b, mode: m, done: d }),
        Err(e) => Err(e),
    }
}

/// The scanner run over the lines of `s`.
pub open spec fn scan_from(st: ScanState, s: Seq<char>) -> Result<ScanState, ScanFault>
    decreases s.len(),
{
    match find_char(s, '\n') {
        None => scan_line(st, s),
        Some(k) => {
            proof {
                lemma_find_char(s, '\n', 0);
            }
            match scan_line(st, s.take(k)) {
                Ok(st2) => scan_from(st2, s.skip(k + 1)),
                Err(e) => Err(e),
            }
        },
    }
}

pub open spec fn scan_start() -> ScanState {
    ScanState { in_block: false, mode: Mode::Searching { pending: None }, done: seq![] }
}

/// The objects a schema text declares, in order.  Objects whose body is still
/// open at the end of the text are left out.
pub open spec fn scan(text: Seq<char>) -> Result<Seq<ObjModel>, ScanFault> {
    match scan_from(scan_start(), text) {
        Ok(st) => Ok(st.done),
        Err(e) => Err(e),
    }
}

pub open spec fn objs_view(v: Seq<OmlObject>) -> Seq<ObjModel> {
    v.map_values(|o: OmlObject| o@)
}

/// `e` is the executable form of the fault `f`.
pub open spec fn scan_error_is(e: ScanError, f: ScanFault) -> bool {
    match e {
        ScanError::ObjectName(n) => f is BadObjectName && n.message@ == name_error_text(
            f->BadObjectName_0,
        ),
        ScanError::Line { line, cause } => f is Line && line@ == f->Line_0 && error_is(
            cause,
            f->Line_1,
            line@,
        ),
    }
}

pub open spec fn scan_outcome_is(
    r: Result<Vec<OmlObject>, ScanError>,
    expected: Result<Seq<ObjModel>, ScanFault>,
) -> bool {
    match r {
        Ok(v) => expected == Ok::<Seq<ObjModel>, ScanFault>(objs_view(v@)),
        Err(e) => expected is Err && scan_error_is(e, expected->Err_0),
    }
}

} // verus!

verus! {

fn object_keyword_of(t: &Vec<char>) -> (r: Option<ObjectType>)
    ensures
        r == object_keyword(t@),
{
    if eq_lit(t, "class") {
        Some(ObjectType::CLASS)
    } else if eq_lit(t, "enum") {
        Some(ObjectType::ENUM)
    } else if eq_lit(t, "struct") {
        Some(ObjectType::STRUCT)
    } else {
        None
    }
}

fn is_type_chars(t: &Vec<char>) -> (r: bool)
    ensures
        r == type_token(t@),
{
    if is_builtin_type(t) {
        true
    } else {
        let s = string_of(t);
        is_valid_name(s.as_str())
    }
}

fn candidate_in(kind: ObjectType, s: &Vec<char>, lo: usize, hi: usize) -> (r: bool)
    requires
        lo <= hi <= s.len(),
    ensures
        r == is_candidate(kind, s@.subrange(lo as int, hi as int)),
{
    let piece = sub_vec(s, lo, hi);
    if kind == ObjectType::ENUM {
        let end = decl_body_end(&piece);
        let toks = split_tokens(&piece, 0, end);
        return toks.len() > 0;
    }
    let toks = split_tokens(&piece, 0, piece.len());
    assert(piece@.subrange(0, piece.len() as int) =~= piece@);
    let ghost tv = views(toks@);
    let mut typed = false;
    if toks.len() >= 2 {
        let mut i: usize = 0;
        while i < toks.len() && !typed
            invariant
                i <= toks.len(),
                tv == views(toks@),
                typed ==> exists|j: int| 0 <= j < tv.len() && type_token(#[trigger] tv[j]),
                !typed ==> forall|j: int| 0 <= j < i ==> !type_token(#[trigger] tv[j]),
            decreases toks.len() - i,
        {
            if is_type_chars(&toks[i]) {
                assert(type_token(tv[i as int]));
                typed = true;
            }
            i = i + 1;
        }
    }
    typed || (piece.len() > 0 && piece[piece.len() - 1] == ';')
}

/// Appends to `lines` the declaration candidates of the body text `s[lo..hi]`.
fn collect_candidates(kind: ObjectType, s: &Vec<char>, lo: usize, hi: usize, lines: &mut Vec<Vec<char>>)
    requires
        lo <= hi <= s.len(),
    ensures
        views(final(lines)@) == views(old(lines)@) + candidates(kind, s@.subrange(lo as int, hi as int)),
{
    let mut pos = lo;
    assert(views(old(lines)@) + candidates(kind, s@.subrange(lo as int, hi as int)) =~= views(lines@)
        + candidates(kind, s@.subrange(pos as int, hi as int)));
    loop
        invariant
            lo <= pos <= hi <= s.len(),
            views(old(lines)@) + candidates(kind, s@.subrange(lo as int, hi as int)) == views(
                lines@,
            ) + candidates(kind, s@.subrange(pos as int, hi as int)),
        decreases hi - pos,
    {
        let ghost cur = s@.subrange(pos as int, hi as int);
        let ghost before = views(lines@);
        match find_char_in(s, pos, hi, ';') {
            Some(k) => {
                assert(cur.take(k - pos + 1) =~= s@.subrange(pos as int, k + 1));
                assert(cur.skip(k - pos + 1) =~= s@.subrange(k + 1, hi as int));
                if candidate_in(kind, s, pos, k + 1) {
                    lines.push(sub_vec(s, pos, k + 1));
                    assert(views(lines@) =~= before + seq![s@.subrange(pos as int, k + 1)]);
                } else {
                    assert(views(lines@) =~= before + Seq::<Seq<char>>::empty());
                }
                assert(views(lines@) + candidates(kind, s@.subrange(k + 1, hi as int)) =~= before
                    + candidates(kind, cur));
                pos = k + 1;
            },
            None => {
                if candidate_in(kind, s, pos, hi) {
                    lines.push(sub_vec(s, pos, hi));
                    assert(views(lines@) =~= before + seq![cur]);
                } else {
                    assert(views(lines@) =~= before + Seq::<Seq<char>>::empty());
                }
                return;
            },
        }
    }
}

/// Parses an enumerant line: a single valid name, with an optional `;`.
pub fn parse_enum_member(line: &str) -> (r: Result<Variable, ParseError>)
    ensures
        outcome_is(r, enum_member(line@), line@),
{
    let chars = chars_of(line);
    let hi = decl_body_end(&chars);
    let toks = split_tokens(&chars, 0, hi);
    let ghost tv = views(toks@);
    assert(tv == decl_tokens_of(line@));
    if toks.len() == 0 {
        return Err(
            ParseError::Declaration(
                DeclarationError { line: String::from_str(line), fault: DeclarationFault::NoName },
            ),
        );
    }
    assert(tv[0] == toks@[0]@);
    let name = string_of(&toks[0]);
    if !is_valid_name(name.as_str()) {
        return Err(ParseError::Name(NameError::for_name(name.as_str())));
    }
    if toks.len() > 1 {
        assert(tv[1] == toks@[1]@);
        return Err(
            ParseError::Declaration(
                DeclarationError {
                    line: String::from_str(line),
                    fault: DeclarationFault::UnexpectedToken(string_of(&toks[1])),
                },
            ),
        );
    }
    let v = Variable {
        var_mod: Vec::new(),
        visibility: VariableVisibility::PUBLIC,
        var_type: String::new(),
        name,
    };
    assert(v@.mods =~= seq![]);
    Ok(v)
}

pub open spec fn prepend_vars(pre: Seq<VarModel>, r: Result<Seq<VarModel>, ScanFault>) -> Result<
    Seq<VarModel>,
    ScanFault,
> {
    match r {
        Ok(vs) => Ok(pre + vs),
        Err(e) => Err(e),
    }
}

/// The object of the given kind and name with the fields of its buffered lines.
fn assemble(kind: ObjectType, name: &Vec<char>, lines: &Vec<Vec<char>>) -> (r: Result<
    OmlObject,
    ScanError,
>)
    ensures
        match assemble_vars(kind, views(lines@)) {
            Ok(vs) => r matches Ok(o) && o@ == ObjModel { kind, name: name@, vars: vs },
            Err(f) => r matches Err(e) && scan_error_is(e, f),
        },
{
    let ghost ls = views(lines@);
    let mut vars: Vec<Variable> = Vec::new();
    let mut i: usize = 0;
    assert(ls.skip(0) =~= ls);
    assert(prepend_vars(seq![], assemble_vars(kind, ls)) =~= assemble_vars(kind, ls));
    while i < lines.len()
        invariant
            i <= lines.len(),
            ls == views(lines@),
            assemble_vars(kind, ls) == prepend_vars(vars_view(vars@), assemble_vars(kind, ls.skip(i as int))),
        decreases lines.len() - i,
    {
        let ghost rest = ls.skip(i as int);
        assert(rest[0] == lines@[i as int]@);
        assert(rest.drop_first() =~= ls.skip(i + 1));
        let text = string_of(&lines[i]);
        let parsed = if kind == ObjectType::ENUM {
            parse_enum_member(text.as_str())
        } else {
            parse_variable_declaration(text.as_str())
        };
        match parsed {
            Ok(v) => {
                let ghost pre = vars_view(vars@);
                vars.push(v);
                assert(vars_view(vars@) =~= pre.push(v@));
                proof {
                    match assemble_vars(kind, ls.skip(i + 1)) {
                        Ok(vs) => {
                            assert(pre + (seq![v@] + vs) =~= pre.push(v@) + vs);
                        },
                        Err(e) => {},
                    }
                }
            },
            Err(e) => {
                return Err(ScanError::Line { line: text, cause: e });
            },
        }
        i = i + 1;
    }
    assert(ls.skip(i as int) =~= seq![]);
    assert(vars_view(vars@) + seq![] =~= vars_view(vars@));
    Ok(OmlObject { oml_type: kind, name: string_of(name), variables: vars })
}

} // verus!

verus! {

enum Phase {
    Searching(Option<(ObjectType, Vec<char>)>),
    InBody(ObjectType, Vec<char>, Vec<Vec<char>>),
}

spec fn phase_view(p: Phase) -> Mode {
    match p {
        Phase::Searching(None) => Mode::Searching { pending: None },
        Phase::Searching(Some(o)) => Mode::Searching { pending: Some((o.0, o.1@)) },
        Phase::InBody(kind, name, lines) => Mode::InBody { kind, name: name@, lines: views(lines@) },
    }
}

/// Runs the scanner over the comment-free text `s` of one line.
fn scan_segment_in(start: Phase, done0: Vec<OmlObject>, s: &Vec<char>) -> (r: Result<
    (Phase, Vec<OmlObject>),
    ScanError,
>)
    ensures
        match scan_segment(phase_view(start), objs_view(done0@), s@) {
            Ok((m, d)) => r matches Ok((p2, d2)) && phase_view(p2) == m && objs_view(d2@) == d,
            Err(f) => r matches Err(e) && scan_error_is(e, f),
        },
{
    let ghost target = scan_segment(phase_view(start), objs_view(done0@), s@);
    let n = s.len();
    let mut p: usize = 0;
    let mut phase = start;
    let mut done = done0;
    assert(s@.subrange(0, n as int) =~= s@);
    loop
        invariant
            p <= n == s.len(),
            target == scan_segment(phase_view(start), objs_view(done0@), s@),
            target == scan_segment(phase_view(phase), objs_view(done@), s@.subrange(p as int, n as int)),
        decreases n - p,
    {
        let ghost cur = s@.subrange(p as int, n as int);
        match phase {
            Phase::Searching(pending) => {
                let k = find_char_in(s, p, n, '{');
                let hend = match k {
                    Some(k) => k,
                    None => n,
                };
                assert(s@.subrange(p as int, hend as int) == match find_char(cur, '{') {
                    Some(k) => cur.take(k),
                    None => cur,
                }) by {
                    if k is Some {
                        assert(cur.take(hend - p) =~= s@.subrange(p as int, hend as int));
                    }
                }
                let toks = split_tokens(s, p, hend);
                let ghost tv = views(toks@);
                let kw = if toks.len() > 0 {
                    assert(tv[0] == toks@[0]@);
                    object_keyword_of(&toks[0])
                } else {
                    None
                };
                let next_pending = match kw {
                    Some(kind) => {
                        let name = if toks.len() > 1 {
                            assert(tv[1] == toks@[1]@);
                            toks[1].clone()
                        } else {
                            Vec::new()
                        };
                        assert(name@ == (if tv.len() > 1 { tv[1] } else { Seq::<char>::empty() }));
                        let name_s = string_of(&name);
                        if !is_valid_name(name_s.as_str()) {
                            return Err(ScanError::ObjectName(NameError::for_name(name_s.as_str())));
                        }
                        Some((kind, name))
                    },
                    None => pending,
                };
                match k {
                    None => {
                        return Ok((Phase::Searching(next_pending), done));
                    },
                    Some(k) => {
                        assert(cur.skip(k - p + 1) =~= s@.subrange(k + 1, n as int));
                        phase = match next_pending {
                            Some(o) => {
                                let empty: Vec<Vec<char>> = Vec::new();
                                assert(views(empty@) =~= seq![]);
                                Phase::InBody(o.0, o.1, empty)
                            },
                            None => Phase::Searching(None),
                        };
                        p = k + 1;
                    },
                }
            },
            Phase::InBody(kind, name, lines) => {
                let k = find_char_in(s, p, n, '}');
                let bend = match k {
                    Some(k) => k,
                    None => n,
                };
                assert(s@.subrange(p as int, bend as int) == match find_char(cur, '}') {
                    Some(k) => cur.take(k),
                    None => cur,
                }) by {
                    if k is Some {
                        assert(cur.take(bend - p) =~= s@.subrange(p as int, bend as int));
                    }
                }
                let mut lines = lines;
                collect_candidates(kind, s, p, bend, &mut lines);
                match k {
                    None => {
                        return Ok((Phase::InBody(kind, name, lines), done));
                    },
                    Some(k) => {
                        assert(cur.skip(k - p + 1) =~= s@.subrange(k + 1, n as int));
                        match assemble(kind, &name, &lines) {
                            Err(e) => {
                                return Err(e);
                            },
                            Ok(obj) => {
                                let ghost before = objs_view(done@);
                                done.push(obj);
                                assert(objs_view(done@) =~= before.push(obj@));
                                phase = Phase::Searching(None);
                                p = k + 1;
                            },
                        }
                    },
                }
            },
        }
    }
}

/// The objects declared by a schema text, in order, or the first error met.
pub fn scan_text(text: &str) -> (r: Result<Vec<OmlObject>, ScanError>)
    ensures
        scan_outcome_is(r, scan(text@)),
{
    let s = chars_of(text);
    let n = s.len();
    let mut pos: usize = 0;
    let mut in_block = false;
    let mut phase = Phase::Searching(None);
    let mut done: Vec<OmlObject> = Vec::new();
    let ghost target = scan_from(scan_start(), s@);
    assert(s@.subrange(0, n as int) =~= s@);
    assert(objs_view(done@) =~= seq![]);
    loop
        invariant
            pos <= n == s.len(),
            s@ == text@,
            target == scan_from(scan_start(), text@),
            target == scan_from(
                ScanState { in_block, mode: phase_view(phase), done: objs_view(done@) },
                s@.subrange(pos as int, n as int),
            ),
        decreases n - pos,
    {
        let ghost cur = s@.subrange(pos as int, n as int);
        let k = find_char_in(&s, pos, n, '\n');
        let lend = match k {
            Some(k) => k,
            None => n,
        };
        proof {
            if k is Some {
                assert(cur.take(lend - pos) =~= s@.subrange(pos as int, lend as int));
                assert(cur.skip(lend - pos + 1) =~= s@.subrange(lend + 1, n as int));
            }
        }
        let (kept, b) = strip_line_comments(&s, pos, lend, in_block);
        match scan_segment_in(phase, done, &kept) {
            Err(e) => {
                return Err(e);
            },
            Ok((p2, d2)) => {
                phase = p2;
                done = d2;
                in_block = b;
            },
        }
        match k {
            None => {
                return Ok(done);
            },
            Some(k) => {
                pos = k + 1;
            },
        }
    }
}

} // verus!

verus! {

/// Every finished object and the object in progress have a decided kind.
pub open spec fn decided(mode: Mode, done: Seq<ObjModel>) -> bool {
    &&& forall|i: int| 0 <= i < done.len() ==> (#[trigger] done[i]).kind != ObjectType::UNDECIDED
    &&& match mode {
        Mode::Searching { pending } => pending matches Some(p) ==> p.0 != ObjectType::UNDECIDED,
        Mode::InBody { kind, .. } => kind != ObjectType::UNDECIDED,
    }
}

proof fn lemma_segment_decided(mode: Mode, done: Seq<ObjModel>, s: Seq<char>)
    requires
        decided(mode, done),
    ensures
        scan_segment(mode, done, s) matches Ok((m, d)) ==> decided(m, d),
    decreases s.len(),
{
    match mode {
        Mode::Searching { pending } => {
            let k = find_char(s, '{');
            lemma_find_char(s, '{', 0);
            let header = match k {
                Some(k) => s.take(k),
                None => s,
            };
            if let Ok(p) = header_object(header, pending) {
                if let Some(k) = k {
                    let next = match p {
                        Some(o) => Mode::InBody { kind: o.0, name: o.1, lines: seq![] },
                        None => Mode::Searching { pending: None },
                    };
                    lemma_segment_decided(next, done, s.skip(k + 1));
                }
            }
        },
        Mode::InBody { kind, name, lines } => {
            let k = find_char(s, '}');
            lemma_find_char(s, '}', 0);
            let body = match k {
                Some(k) => s.take(k),
                None => s,
            };
            let lines2 = lines + candidates(kind, body);
            if let Some(k) = k {
                if let Ok(vs) = assemble_vars(kind, lines2) {
                    let d2 = done.push(ObjModel { kind, name, vars: vs });
                    assert forall|i: int| 0 <= i < d2.len() implies (#[trigger] d2[i]).kind
                        != ObjectType::UNDECIDED by {
                        if i < done.len() {
                            assert(d2[i] == done[i]);
                        }
                    }
                    lemma_segment_decided(Mode::Searching { pending: None }, d2, s.skip(k + 1));
                }
            }
        },
    }
}

proof fn lemma_from_decided(st: ScanState, s: Seq<char>)
    requires
        decided(st.mode, st.done),
    ensures
        scan_from(st, s) matches Ok(st2) ==> decided(st2.mode, st2.done),
    decreases s.len(),
{
    lemma_find_char(s, '\n', 0);
    match find_char(s, '\n') {
        None => {
            lemma_segment_decided(st.mode, st.done, strip_comments(s, st.in_block).0);
        },
        Some(k) => {
            lemma_segment_decided(st.mode, st.done, strip_comments(s.take(k), st.in_block).0);
            if let Ok(st2) = scan_line(st, s.take(k)) {
                lemma_from_decided(st2, s.skip(k + 1));
            }
        },
    }
}

/// No object the scanner yields is `UNDECIDED`: each was opened by a
/// `class`, `enum` or `struct` keyword.
pub proof fn lemma_scanned_objects_decided(text: Seq<char>)
    ensures
        scan(text) matches Ok(objs) ==> forall|i: int|
            0 <= i < objs.len() ==> (#[trigger] objs[i]).kind != ObjectType::UNDECIDED,
{
    lemma_from_decided(scan_start(), text);
}

} // verus!

verus! {

/// A class `A` whose body is the single line `line`.
pub open spec fn one_field_class(line: Seq<char>) -> Seq<char> {
    "class A{\n"@ + line + "\n}"@
}

/// A body line holding one declaration: no line break, comment, brace, and
/// a `;` only at its end.
pub open spec fn plain_line(line: Seq<char>) -> bool {
    &&& line.len() > 0
    &&& line.last() == ';'
    &&& forall|i: int|
        0 <= i < line.len() ==> {
            let c = #[trigger] line[i];
            c != '\n' && c != '/' && c != '{' && c != '}' && (i < line.len() - 1 ==> c != ';')
        }
}

proof fn lemma_comment_free(s: Seq<char>)
    requires
        forall|i: int| 0 <= i < s.len() ==> #[trigger] s[i] != '/',
    ensures
        strip_comments(s, false) == (s, false),
{
    lemma_find_pair(s, '/', '/', s.len() as int);
    lemma_find_pair(s, '/', '*', s.len() as int);
}

proof fn lemma_header_line()
    ensures
        scan_line(scan_start(), "class"@ + seq![' '] + "A"@ + seq!['{']) == Ok::<ScanState, ScanFault>(
            ScanState {
                in_block: false,
                mode: Mode::InBody { kind: ObjectType::CLASS, name: "A"@, lines: seq![] },
                done: seq![],
            },
        ),
{
    reveal_strlit("class");
    reveal_strlit("A");
    let cls = "class"@;
    let a = "A"@;
    let head = cls + seq![' '] + a + seq!['{'];
    lemma_comment_free(head);
    lemma_find_char(head, '{', 7);
    let header = head.take(7);
    let toks = seq![cls, a];
    assert(crate::declaration::ws_free(cls));
    assert(crate::declaration::ws_free(a));
    crate::declaration::lemma_split_join(toks);
    assert(crate::declaration::join_ws(toks.drop_first()) == a);
    assert(header =~= crate::declaration::join_ws(toks));
    assert(split_ws(header) == toks);
    assert(crate::names::valid_name(a));
    let empty = Seq::<char>::empty();
    assert(head.skip(8) =~= empty);
    assert(split_ws(empty) =~= Seq::<Seq<char>>::empty());
    assert(candidates(ObjectType::CLASS, empty) =~= Seq::<Seq<char>>::empty());
    let m1 = Mode::InBody { kind: ObjectType::CLASS, name: a, lines: seq![] };
    assert(Seq::<Seq<char>>::empty() + candidates(ObjectType::CLASS, empty) =~= Seq::<
        Seq<char>,
    >::empty());
    assert(scan_segment(m1, seq![], empty) == Ok::<(Mode, Seq<ObjModel>), ScanFault>((m1, seq![])));
}

proof fn lemma_body_line(line: Seq<char>)
    requires
        plain_line(line),
    ensures
        scan_line(
            ScanState {
                in_block: false,
                mode: Mode::InBody { kind: ObjectType::CLASS, name: "A"@, lines: seq![] },
                done: seq![],
            },
            line,
        ) == Ok::<ScanState, ScanFault>(
            ScanState {
                in_block: false,
                mode: Mode::InBody { kind: ObjectType::CLASS, name: "A"@, lines: seq![line] },
                done: seq![],
            },
        ),
{
    let n: int = line.len() as int;
    let empty = Seq::<char>::empty();
    lemma_comment_free(line);
    lemma_find_char(line, '}', n);
    lemma_find_char(line, ';', n - 1);
    assert(line.take(n) =~= line);
    assert(line.skip(n) =~= empty);
    assert(split_ws(empty) =~= Seq::<Seq<char>>::empty());
    assert(candidates(ObjectType::CLASS, empty) =~= Seq::<Seq<char>>::empty());
    assert(candidates(ObjectType::CLASS, line) =~= seq![line]);
    assert(Seq::<Seq<char>>::empty() + seq![line] =~= seq![line]);
}

proof fn lemma_closing_line(line: Seq<char>)
    ensures
        scan_from(
            ScanState {
                in_block: false,
                mode: Mode::InBody { kind: ObjectType::CLASS, name: "A"@, lines: seq![line] },
                done: seq![],
            },
            seq!['}'],
        ) == match parse_decl(line) {
            Ok(v) => Ok::<ScanState, ScanFault>(
                ScanState {
                    in_block: false,
                    mode: Mode::Searching { pending: None },
                    done: seq![ObjModel { kind: ObjectType::CLASS, name: "A"@, vars: seq![v] }],
                },
            ),
            Err(f) => Err::<ScanState, ScanFault>(ScanFault::Line(line, f)),
        },
{
    let t3 = seq!['}'];
    let empty = Seq::<char>::empty();
    let m2 = Mode::InBody { kind: ObjectType::CLASS, name: "A"@, lines: seq![line] };
    lemma_find_char(t3, '\n', 1);
    lemma_comment_free(t3);
    lemma_find_char(t3, '}', 0);
    assert(t3.take(0) =~= empty);
    assert(t3.skip(1) =~= empty);
    assert(split_ws(empty) =~= Seq::<Seq<char>>::empty());
    assert(candidates(ObjectType::CLASS, empty) =~= Seq::<Seq<char>>::empty());
    assert(seq![line] + candidates(ObjectType::CLASS, empty) =~= seq![line]);
    assert(seq![line].drop_first() =~= Seq::<Seq<char>>::empty());
    assert(assemble_vars(ObjectType::CLASS, Seq::<Seq<char>>::empty()) == Ok::<
        Seq<VarModel>,
        ScanFault,
    >(seq![]));
    match parse_decl(line) {
        Ok(v) => {
            assert(seq![v] + Seq::<VarModel>::empty() =~= seq![v]);
            let obj = ObjModel { kind: ObjectType::CLASS, name: "A"@, vars: seq![v] };
            assert(Seq::<ObjModel>::empty().push(obj) =~= seq![obj]);
            assert(header_object(empty, None) == Ok::<
                Option<(ObjectType, Seq<char>)>,
                ScanFault,
            >(None));
            assert(scan_segment(Mode::Searching { pending: None }, seq![obj], empty) == Ok::<
                (Mode, Seq<ObjModel>),
                ScanFault,
            >((Mode::Searching { pending: None }, seq![obj])));
            assert(scan_segment(m2, seq![], t3) == Ok::<(Mode, Seq<ObjModel>), ScanFault>(
                (Mode::Searching { pending: None }, seq![obj]),
            ));
        },
        Err(f) => {
            assert(scan_segment(m2, seq![], t3) == Err::<(Mode, Seq<ObjModel>), ScanFault>(
                ScanFault::Line(line, f),
            ));
        },
    }
}

/// Scanning a class whose body is one plain line gives that class with the
/// field the line parses to, or the line's error.
pub proof fn lemma_scan_one_field(line: Seq<char>)
    requires
        plain_line(line),
    ensures
        scan(one_field_class(line)) == match parse_decl(line) {
            Ok(v) => Ok::<Seq<ObjModel>, ScanFault>(
                seq![ObjModel { kind: ObjectType::CLASS, name: "A"@, vars: seq![v] }],
            ),
            Err(f) => Err::<Seq<ObjModel>, ScanFault>(ScanFault::Line(line, f)),
        },
{
    reveal_strlit("class A{\n");
    reveal_strlit("\n}");
    reveal_strlit("class");
    reveal_strlit("A");
    let head = "class"@ + seq![' '] + "A"@ + seq!['{'];
    let text = one_field_class(line);
    assert(text =~= head + seq!['\n'] + line + seq!['\n', '}']);
    let n: int = line.len() as int;
    lemma_find_char(text, '\n', 8);
    assert(text.take(8) =~= head);
    let t2 = text.skip(9);
    assert(t2 =~= line + seq!['\n', '}']);
    lemma_header_line();
    lemma_find_char(t2, '\n', n);
    assert(t2.take(n) =~= line);
    assert(t2.skip(n + 1) =~= seq!['}']);
    lemma_body_line(line);
    lemma_closing_line(line);
    let st1 = ScanState {
        in_block: false,
        mode: Mode::InBody { kind: ObjectType::CLASS, name: "A"@, lines: seq![] },
        done: seq![],
    };
    let st2 = ScanState {
        in_block: false,
        mode: Mode::InBody { kind: ObjectType::CLASS, name: "A"@, lines: seq![line] },
        done: seq![],
    };
    assert(scan_from(scan_start(), text) == scan_from(st1, t2));
    assert(scan_from(st1, t2) == scan_from(st2, seq!['}']));
}

} // verus!

verus! {

proof fn lemma_declaration_line_plain(
    vis: Option<VariableVisibility>,
    mods: Seq<VariableModifier>,
    ty: Seq<char>,
    name: Seq<char>,
)
    requires
        type_token(ty),
        valid_name(name),
    ensures
        plain_line(declaration_line(vis, mods, ty, name)),
{
    lemma_declaration_line_chars(vis, mods, ty, name);
}

/// Scanning a class whose body is one well-formed declaration line gives the
/// class with that single field, whose visibility (private when none is
/// written), modifiers, type and name are the ones written.
pub proof fn lemma_scan_declaration_round_trip(
    vis: Option<VariableVisibility>,
    mods: Seq<VariableModifier>,
    ty: Seq<char>,
    name: Seq<char>,
)
    requires
        type_token(ty),
        plain_word(ty),
        valid_name(name),
        plain_word(name),
        mods.no_duplicates(),
        !(mods.contains(VariableModifier::CONST) && mods.contains(VariableModifier::MUT)),
    ensures
        scan(one_field_class(declaration_line(vis, mods, ty, name))) == Ok::<
            Seq<ObjModel>,
            ScanFault,
        >(
            seq![
                ObjModel {
                    kind: ObjectType::CLASS,
                    name: "A"@,
                    vars: seq![
                        VarModel {
                            mods,
                            vis: match vis {
                                Some(v) => v,
                                None => VariableVisibility::PRIVATE,
                            },
                            ty,
                            name,
                        },
                    ],
                },
            ],
        ),
{
    lemma_declaration_line_plain(vis, mods, ty, name);
    lemma_scan_one_field(declaration_line(vis, mods, ty, name));
    lemma_declaration_round_trip(vis, mods, ty, name);
}

/// In a class body, a visibility or modifier keyword standing after the type
/// makes scanning fail on that line with a declaration error naming it.
pub proof fn lemma_scan_keyword_after_type_rejected(line: Seq<char>, j: nat)
    requires
        plain_line(line),
        j < decl_tokens_of(line).len(),
        decl_prefix(decl_tokens_of(line), j) is Ok,
        decl_prefix(decl_tokens_of(line), j)->Ok_0.ty is Some,
        visibility_word(decl_tokens_of(line)[j as int]) is Some || modifier_word(
            decl_tokens_of(line)[j as int],
        ) is Some,
    ensures
        scan(one_field_class(line)) == Err::<Seq<ObjModel>, ScanFault>(
            ScanFault::Line(line, DeclFault::Unexpected(decl_tokens_of(line)[j as int])),
        ),
{
    lemma_keyword_after_type_rejected(line, j);
    lemma_scan_one_field(line);
}

/// In a class body, a line holding both `const` and `mut`, in either order,
/// makes scanning fail on that line.
pub proof fn lemma_scan_const_mut_rejected(line: Seq<char>)
    requires
        plain_line(line),
        decl_tokens_of(line).contains("const"@),
        decl_tokens_of(line).contains("mut"@),
    ensures
        scan(one_field_class(line)) matches Err(ScanFault::Line(l, _)) && l == line,
{
    lemma_const_mut_rejected(line);
    lemma_scan_one_field(line);
}

/// In a class body, a declaration line that is well formed but for holding
/// both `const` and `mut` fails with the const/mut error naming the field.
pub proof fn lemma_scan_const_mut_error(
    vis: Option<VariableVisibility>,
    mods: Seq<VariableModifier>,
    ty: Seq<char>,
    name: Seq<char>,
)
    requires
        type_token(ty),
        plain_word(ty),
        valid_name(name),
        plain_word(name),
        mods.no_duplicates(),
        mods.contains(VariableModifier::CONST),
        mods.contains(VariableModifier::MUT),
    ensures
        scan(one_field_class(declaration_line(vis, mods, ty, name))) == Err::<
            Seq<ObjModel>,
            ScanFault,
        >(ScanFault::Line(declaration_line(vis, mods, ty, name), DeclFault::ConstMut(name))),
{
    lemma_declaration_line_plain(vis, mods, ty, name);
    lemma_scan_one_field(declaration_line(vis, mods, ty, name));
    lemma_const_mut_error_names_field(vis, mods, ty, name);
}

} // verus!
