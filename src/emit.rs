//! Text-building helpers shared by the backends.

use vstd::prelude::*;
use crate::model::{VarModel, Variable, VariableVisibility, vars_view};
use crate::text::{char_to_upper, to_upper, upper_char_of, upper_of};

verus! {

/// The texts `f(v)` of the elements of `vs`, one after another.
pub open spec fn concat_map(vs: Seq<VarModel>, f: spec_fn(VarModel) -> Seq<char>) -> Seq<char>
    decreases vs.len(),
{
    if vs.len() == 0 {
        seq![]
    } else {
        concat_map(vs.drop_last(), f) + f(vs.last())
    }
}

pub proof fn lemma_concat_map_push(vs: Seq<VarModel>, v: VarModel, f: spec_fn(VarModel) -> Seq<char>)
    ensures
        concat_map(vs.push(v), f) == concat_map(vs, f) + f(v),
{
    assert(vs.push(v).drop_last() =~= vs);
}

/// `parts` joined by `sep`.
pub open spec fn join(parts: Seq<Seq<char>>, sep: Seq<char>) -> Seq<char>
    decreases parts.len(),
{
    if parts.len() == 0 {
        seq![]
    } else if parts.len() == 1 {
        parts[0]
    } else {
        join(parts.drop_last(), sep) + sep + parts.last()
    }
}

pub proof fn lemma_join_push(parts: Seq<Seq<char>>, p: Seq<char>, sep: Seq<char>)
    ensures
        join(parts.push(p), sep) == if parts.len() == 0 {
            p
        } else {
            join(parts, sep) + sep + p
        },
{
    assert(parts.push(p).drop_last() =~= parts);
}

pub open spec fn strs(v: Seq<String>) -> Seq<Seq<char>> {
    v.map_values(|s: String| s@)
}

/// Writes `parts` joined by `sep`.
pub fn join_strings(parts: &Vec<String>, sep: &str) -> (r: String)
    ensures
        r@ == join(strs(parts@), sep@),
{
    let mut r = String::new();
    let mut i: usize = 0;
    while i < parts.len()
        invariant
            i <= parts.len(),
            r@ == join(strs(parts@).take(i as int), sep@),
        decreases parts.len() - i,
    {
        proof {
            lemma_join_push(strs(parts@).take(i as int), parts@[i as int]@, sep@);
            assert(strs(parts@).take(i as int).push(parts@[i as int]@) =~= strs(parts@).take(
                i + 1,
            ));
        }
        if i > 0 {
            r.append(sep);
        }
        r.append(parts[i].as_str());
        i = i + 1;
    }
    assert(strs(parts@).take(i as int) =~= strs(parts@));
    r
}

pub open spec fn vis_is(vis: VariableVisibility) -> spec_fn(VarModel) -> bool {
    |v: VarModel| v.vis == vis
}

pub open spec fn static_field() -> spec_fn(VarModel) -> bool {
    |v: VarModel| v.is_static()
}

pub open spec fn instance_field() -> spec_fn(VarModel) -> bool {
    |v: VarModel| !v.is_static()
}

pub open spec fn optional_field() -> spec_fn(VarModel) -> bool {
    |v: VarModel| v.is_optional()
}

pub open spec fn required_field() -> spec_fn(VarModel) -> bool {
    |v: VarModel| !v.is_optional()
}

pub open spec fn mutable_field() -> spec_fn(VarModel) -> bool {
    |v: VarModel| !v.is_const()
}

/// Constructor / initializer parameter order: the required fields, then the
/// optional ones, each group in declaration order.
pub open spec fn param_order(vs: Seq<VarModel>) -> Seq<VarModel> {
    vs.filter(required_field()) + vs.filter(optional_field())
}

pub proof fn lemma_filter_step(vs: Seq<VarModel>, p: spec_fn(VarModel) -> bool, i: int)
    requires
        0 <= i < vs.len(),
    ensures
        vs.take(i + 1).filter(p) == if p(vs[i]) {
            vs.take(i).filter(p).push(vs[i])
        } else {
            vs.take(i).filter(p)
        },
{
    reveal(Seq::filter);
    assert(vs.take(i + 1).drop_last() =~= vs.take(i));
}

pub proof fn lemma_take_all(vs: Seq<VarModel>)
    ensures
        vs.take(vs.len() as int) == vs,
{
    assert(vs.take(vs.len() as int) =~= vs);
}

pub proof fn lemma_filter_empty(p: spec_fn(VarModel) -> bool)
    ensures
        Seq::<VarModel>::empty().filter(p) == Seq::<VarModel>::empty(),
{
    reveal(Seq::filter);
}

/// `s` with its first character upper-cased.
pub open spec fn cap(s: Seq<char>) -> Seq<char> {
    if s.len() == 0 {
        seq![]
    } else {
        upper_char_of(s[0]) + s.drop_first()
    }
}

/// `s` with its first character upper-cased; the rest is kept as it is.
pub fn capitalize_first(s: &str) -> (r: String)
    ensures
        r@ == cap(s@),
{
    let n = s.unicode_len();
    if n == 0 {
        return String::new();
    }
    let mut r = char_to_upper(s.get_char(0));
    r.append(s.substring_char(1, n));
    assert(s@.subrange(1, n as int) =~= s@.drop_first());
    r
}

} // verus!

verus! {

pub proof fn lemma_filter_push(xs: Seq<VarModel>, x: VarModel, p: spec_fn(VarModel) -> bool)
    ensures
        xs.push(x).filter(p) == if p(x) {
            xs.filter(p).push(x)
        } else {
            xs.filter(p)
        },
{
    reveal(Seq::filter);
    assert(xs.push(x).drop_last() =~= xs);
}

} // verus!

verus! {

pub proof fn lemma_strs_push(v: Seq<String>, s: String)
    ensures
        strs(v.push(s)) == strs(v).push(s@),
{
    assert(strs(v.push(s)) =~= strs(v).push(s@));
}

pub proof fn lemma_map_push(xs: Seq<VarModel>, x: VarModel, f: spec_fn(VarModel) -> Seq<char>)
    ensures
        xs.push(x).map_values(f) == xs.map_values(f).push(f(x)),
{
    assert(xs.push(x).map_values(f) =~= xs.map_values(f).push(f(x)));
}

pub proof fn lemma_map_add(xs: Seq<VarModel>, ys: Seq<VarModel>, f: spec_fn(VarModel) -> Seq<char>)
    ensures
        (xs + ys).map_values(f) == xs.map_values(f) + ys.map_values(f),
{
    assert((xs + ys).map_values(f) =~= xs.map_values(f) + ys.map_values(f));
}

pub proof fn lemma_strs_add(v: Seq<String>, w: Seq<String>)
    ensures
        strs(v + w) == strs(v) + strs(w),
{
    assert(strs(v + w) =~= strs(v) + strs(w));
}

} // verus!

verus! {

/// Enumerant lines: each indented, all but the last followed by a comma.
pub open spec fn enum_lines(us: Seq<Seq<char>>) -> Seq<char>
    decreases us.len(),
{
    if us.len() == 0 {
        seq![]
    } else {
        comma_lines(us.drop_last()) + "\t"@ + us.last() + "\n"@
    }
}

pub open spec fn comma_lines(us: Seq<Seq<char>>) -> Seq<char>
    decreases us.len(),
{
    if us.len() == 0 {
        seq![]
    } else {
        comma_lines(us.drop_last()) + "\t"@ + us.last() + ",\n"@
    }
}

/// The upper-cased names of the fields.
pub open spec fn upper_name_fn() -> spec_fn(VarModel) -> Seq<char> {
    |v: VarModel| upper_of(v.name)
}

pub open spec fn upper_names(vs: Seq<VarModel>) -> Seq<Seq<char>> {
    vs.map_values(upper_name_fn())
}

/// Writes enumerant lines for the (already upper-cased) entries: each
/// indented, all but the last followed by a comma.
pub fn write_enum_entries(out: &mut String, entries: &Vec<String>)
    ensures
        final(out)@ == old(out)@ + enum_lines(strs(entries@)),
{
    let ghost es = strs(entries@);
    if entries.len() == 0 {
        assert(final(out)@ =~= old(out)@ + enum_lines(es));
        return;
    }
    let last = entries.len() - 1;
    let mut i: usize = 0;
    assert(es.take(0) =~= seq![]);
    while i < last
        invariant
            i <= last < entries.len(),
            es == strs(entries@),
            out@ == old(out)@ + comma_lines(es.take(i as int)),
        decreases last - i,
    {
        out.append("\t");
        out.append(entries[i].as_str());
        out.append(",\n");
        assert(es.take(i + 1).drop_last() =~= es.take(i as int));
        assert(out@ =~= old(out)@ + comma_lines(es.take(i + 1)));
        i = i + 1;
    }
    out.append("\t");
    out.append(entries[last].as_str());
    out.append("\n");
    assert(es.drop_last() =~= es.take(last as int));
    assert(final(out)@ =~= old(out)@ + enum_lines(es));
}

/// The upper-cased names of the fields, in order.
pub fn upper_case_names(variables: &Vec<Variable>) -> (r: Vec<String>)
    ensures
        strs(r@) == upper_names(vars_view(variables@)),
{
    let mut r: Vec<String> = Vec::new();
    let mut i: usize = 0;
    while i < variables.len()
        invariant
            i <= variables.len(),
            strs(r@) == upper_names(vars_view(variables@)).take(i as int),
        decreases variables.len() - i,
    {
        let u = to_upper(variables[i].name.as_str());
        proof {
            let vs = vars_view(variables@);
            lemma_strs_push(r@, u);
            assert(vs.take(i + 1) =~= vs.take(i as int).push(vs[i as int]));
            lemma_map_push(vs.take(i as int), vs[i as int], upper_name_fn());
            assert(upper_names(vs).take(i + 1) =~= upper_names(vs.take(i + 1)));
            assert(upper_names(vs).take(i as int) =~= upper_names(vs.take(i as int)));
        }
        r.push(u);
        i = i + 1;
    }
    assert(upper_names(vars_view(variables@)).take(i as int) =~= upper_names(vars_view(variables@)));
    r
}

} // verus!

verus! {

/// In every generated constructor or initializer parameter list, each
/// required field's parameter comes before each optional field's parameter.
pub proof fn lemma_required_before_optional(vs: Seq<VarModel>)
    ensures
        forall|i: int, j: int|
            0 <= i < param_order(vs).len() && 0 <= j < param_order(vs).len()
                && !(#[trigger] param_order(vs)[i]).is_optional() && (
            #[trigger] param_order(vs)[j]).is_optional() ==> i < j,
{
    let req = vs.filter(required_field());
    let opt = vs.filter(optional_field());
    broadcast use vstd::seq_lib::group_filter_ensures;
    assert forall|i: int, j: int|
        0 <= i < param_order(vs).len() && 0 <= j < param_order(vs).len()
            && !(#[trigger] param_order(vs)[i]).is_optional() && (
        #[trigger] param_order(vs)[j]).is_optional() implies i < j by {
        if i >= req.len() {
            assert(param_order(vs)[i] == opt[i - req.len()]);
            assert(optional_field()(opt[i - req.len()]));
        }
        if j < req.len() {
            assert(param_order(vs)[j] == req[j]);
            assert(required_field()(req[j]));
        }
    }
}

} // verus!
