//! The flat form mapping that the service accepts, and the primitives that
//! write parameter values into it at a key prefix.
use vstd::prelude::*;

verus! {

/// A flat form: key/value pairs in the order they are sent.
pub type FormPairs = Seq<(Seq<char>, Seq<char>)>;

/// The abstract form held by a vector of owned pairs.
pub open spec fn form_of(v: Seq<(String, String)>) -> FormPairs {
    v.map_values(|p: (String, String)| (p.0@, p.1@))
}

/// The key of field `name` below `prefix`: the bare name at the root,
/// `prefix[name]` below it.
pub open spec fn nest(prefix: Seq<char>, name: Seq<char>) -> Seq<char> {
    if prefix.len() == 0 {
        name
    } else {
        prefix + seq!['['] + name + seq![']']
    }
}

/// True when a key segment holds no bracket.
pub open spec fn is_plain(s: Seq<char>) -> bool {
    forall|i: int| 0 <= i < s.len() ==> s[i] != '[' && s[i] != ']'
}

pub open spec fn digit_char(d: nat) -> char {
    seq!['0', '1', '2', '3', '4', '5', '6', '7', '8', '9'][d as int]
}

/// Decimal digits of a natural number, most significant first.
pub open spec fn decimal(n: nat) -> Seq<char>
    decreases n,
{
    if n < 10 {
        seq![digit_char(n)]
    } else {
        decimal(n / 10) + seq![digit_char(n % 10)]
    }
}

/// Decimal text of an integer, with a leading `-` when it is negative.
pub open spec fn signed_decimal(x: int) -> Seq<char> {
    if x < 0 {
        seq!['-'] + decimal((-x) as nat)
    } else {
        decimal(x as nat)
    }
}

/// One entry for a field that is always sent.
pub open spec fn single(prefix: Seq<char>, name: Seq<char>, value: Seq<char>) -> FormPairs {
    seq![(nest(prefix, name), value)]
}

/// One entry for an optional field that is set, none for one that is unset.
pub open spec fn optional(prefix: Seq<char>, name: Seq<char>, value: Option<Seq<char>>) -> FormPairs {
    match value {
        Some(v) => single(prefix, name, v),
        None => Seq::empty(),
    }
}

/// The entries of a list under `path`: `path[0]`, `path[1]`, ... in list order.
pub open spec fn indexed(path: Seq<char>, items: Seq<Seq<char>>) -> FormPairs {
    Seq::new(items.len(), |i: int| (nest(path, decimal(i as nat)), items[i]))
}

/// The entries of a string map under `path`: `path[key]` for each key.
pub open spec fn keyed(path: Seq<char>, entries: FormPairs) -> FormPairs {
    entries.map_values(|e: (Seq<char>, Seq<char>)| (nest(path, e.0), e.1))
}

pub open spec fn text_of(v: Option<String>) -> Option<Seq<char>> {
    match v {
        Some(s) => Some(s@),
        None => None,
    }
}

pub open spec fn amount_of(v: Option<u64>) -> Option<Seq<char>> {
    match v {
        Some(n) => Some(decimal(n as nat)),
        None => None,
    }
}

pub open spec fn texts_of(v: Seq<String>) -> Seq<Seq<char>> {
    v.map_values(|s: String| s@)
}

/// The key lies at `path` or somewhere below it.
pub open spec fn under(key: Seq<char>, path: Seq<char>) -> bool {
    key == path || (key.len() > path.len() && key.subrange(0, path.len() as int) == path
        && key[path.len() as int] == '[')
}

/// The entries of a form whose keys lie at `path` or below it.
pub open spec fn entries_under(form: FormPairs, path: Seq<char>) -> FormPairs {
    form.filter(|e: (Seq<char>, Seq<char>)| under(e.0, path))
}

/// Every key of the form lies at `path` or below it.
pub open spec fn all_under(form: FormPairs, path: Seq<char>) -> bool {
    forall|i: int| 0 <= i < form.len() ==> under(#[trigger] form[i].0, path)
}

/// The forms of a struct's fields, each tagged with its field name, put together in order.
pub open spec fn concat_groups(groups: Seq<(Seq<char>, FormPairs)>) -> FormPairs
    decreases groups.len(),
{
    if groups.len() == 0 {
        Seq::empty()
    } else {
        concat_groups(groups.drop_last()) + groups.last().1
    }
}

/// The field groups of a struct at `prefix` are well laid out: names are
/// plain, non-empty and distinct, and each group lies below its own name.
pub open spec fn groups_well_laid(prefix: Seq<char>, groups: Seq<(Seq<char>, FormPairs)>) -> bool {
    &&& forall|i: int| 0 <= i < groups.len() ==> is_plain(#[trigger] groups[i].0) && groups[i].0.len() > 0
    &&& forall|i: int, j: int| 0 <= i < groups.len() && 0 <= j < groups.len() && i != j
        ==> #[trigger] groups[i].0 != #[trigger] groups[j].0
    &&& forall|i: int| 0 <= i < groups.len() ==> all_under(#[trigger] groups[i].1, nest(prefix, groups[i].0))
}

proof fn lemma_under_is_prefix(key: Seq<char>, path: Seq<char>)
    requires
        under(key, path),
    ensures
        path.len() <= key.len(),
        forall|i: int| 0 <= i < path.len() ==> key[i] == path[i],
{
    if key != path {
        assert forall|i: int| 0 <= i < path.len() implies key[i] == path[i] by {
            assert(key.subrange(0, path.len() as int)[i] == key[i]);
        }
    }
}

/// Keys below two different plain fields of one prefix never meet.
pub proof fn lemma_sibling_fields_disjoint(prefix: Seq<char>, a: Seq<char>, b: Seq<char>, key: Seq<char>)
    requires
        is_plain(a),
        is_plain(b),
        a.len() > 0,
        b.len() > 0,
        a != b,
        under(key, nest(prefix, a)),
    ensures
        !under(key, nest(prefix, b)),
{
    let pa = nest(prefix, a);
    let pb = nest(prefix, b);
    lemma_under_is_prefix(key, pa);
    if under(key, pb) {
        lemma_under_is_prefix(key, pb);
        if prefix.len() == 0 {
            if a.len() == b.len() {
                assert(a =~= b);
            } else if a.len() < b.len() {
                if key == a {
                } else {
                    assert(key[a.len() as int] == '[');
                    assert(b[a.len() as int] == key[a.len() as int]);
                }
            } else {
                if key == b {
                } else {
                    assert(key[b.len() as int] == '[');
                    assert(a[b.len() as int] == key[b.len() as int]);
                }
            }
        } else {
            let l: int = prefix.len() as int + 1;
            if a.len() == b.len() {
                assert forall|i: int| 0 <= i < a.len() implies a[i] == b[i] by {
                    assert(pa[l + i] == a[i]);
                    assert(pb[l + i] == b[i]);
                }
                assert(a =~= b);
            } else if a.len() < b.len() {
                assert(pa[l + a.len() as int] == ']');
                assert(pb[l + a.len() as int] == b[a.len() as int]);
            } else {
                assert(pb[l + b.len() as int] == ']');
                assert(pa[l + b.len() as int] == a[b.len() as int]);
            }
        }
    }
}

/// A key below `nest(p, x)` also lies below `p`, for a non-empty `p`.
pub proof fn lemma_under_parent(key: Seq<char>, p: Seq<char>, x: Seq<char>)
    requires
        p.len() > 0,
        under(key, nest(p, x)),
    ensures
        under(key, p),
{
    let q = nest(p, x);
    lemma_under_is_prefix(key, q);
    assert(q[p.len() as int] == '[');
    assert(key.subrange(0, p.len() as int) =~= p);
}

/// A form lying below `nest(p, x)` lies below `p`, for a non-empty `p`.
pub proof fn lemma_all_under_parent(form: FormPairs, p: Seq<char>, x: Seq<char>)
    requires
        p.len() > 0,
        all_under(form, nest(p, x)),
    ensures
        all_under(form, p),
{
    assert forall|i: int| 0 <= i < form.len() implies under(#[trigger] form[i].0, p) by {
        lemma_under_parent(form[i].0, p, x);
    }
}

proof fn lemma_filter_all(form: FormPairs, path: Seq<char>)
    requires
        all_under(form, path),
    ensures
        entries_under(form, path) == form,
    decreases form.len(),
{
    reveal(Seq::filter);
    if form.len() > 0 {
        let f = |e: (Seq<char>, Seq<char>)| under(e.0, path);
        assert(all_under(form.drop_last(), path)) by {
            assert forall|i: int| 0 <= i < form.drop_last().len() implies under(
                #[trigger] form.drop_last()[i].0,
                path,
            ) by {
                assert(form.drop_last()[i] == form[i]);
            }
        }
        lemma_filter_all(form.drop_last(), path);
        assert(form.drop_last().filter(f) == form.drop_last());
        assert(f(form.last()));
        assert(form.drop_last().push(form.last()) =~= form);
    }
}

proof fn lemma_filter_none(form: FormPairs, prefix: Seq<char>, a: Seq<char>, b: Seq<char>)
    requires
        is_plain(a),
        is_plain(b),
        a.len() > 0,
        b.len() > 0,
        a != b,
        all_under(form, nest(prefix, a)),
    ensures
        entries_under(form, nest(prefix, b)) == Seq::<(Seq<char>, Seq<char>)>::empty(),
    decreases form.len(),
{
    reveal(Seq::filter);
    if form.len() > 0 {
        let f = |e: (Seq<char>, Seq<char>)| under(e.0, nest(prefix, b));
        assert(all_under(form.drop_last(), nest(prefix, a))) by {
            assert forall|i: int| 0 <= i < form.drop_last().len() implies under(
                #[trigger] form.drop_last()[i].0,
                nest(prefix, a),
            ) by {
                assert(form.drop_last()[i] == form[i]);
            }
        }
        lemma_filter_none(form.drop_last(), prefix, a, b);
        assert(form.drop_last().filter(f) == Seq::<(Seq<char>, Seq<char>)>::empty());
        assert(under(form.last().0, nest(prefix, a)));
        lemma_sibling_fields_disjoint(prefix, a, b, form.last().0);
    }
}

/// In well laid out field groups, the entries below one field's key are
/// exactly that field's group.
pub proof fn lemma_field_group_selected(
    prefix: Seq<char>,
    groups: Seq<(Seq<char>, FormPairs)>,
    j: int,
)
    requires
        groups_well_laid(prefix, groups),
        0 <= j < groups.len(),
    ensures
        entries_under(concat_groups(groups), nest(prefix, groups[j].0)) == groups[j].1,
    decreases groups.len(),
{
    broadcast use Seq::filter_distributes_over_add;

    let n = groups.len();
    let init = groups.drop_last();
    let target = nest(prefix, groups[j].0);
    assert(groups_well_laid(prefix, init)) by {
        assert forall|i: int| 0 <= i < init.len() implies #[trigger] init[i] == groups[i] by {}
    }
    assert(concat_groups(groups) == concat_groups(init) + groups.last().1);
    if j == n - 1 {
        lemma_filter_all(groups[j].1, target);
        lemma_no_other_group(prefix, init, groups[j].0);
    } else {
        lemma_field_group_selected(prefix, init, j);
        assert(init[j] == groups[j]);
        lemma_filter_none(groups.last().1, prefix, groups.last().0, groups[j].0);
        assert(groups.last().1.filter(|e: (Seq<char>, Seq<char>)| under(e.0, target))
            == Seq::<(Seq<char>, Seq<char>)>::empty());
        assert(entries_under(concat_groups(init), target) + Seq::<(Seq<char>, Seq<char>)>::empty()
            =~= entries_under(concat_groups(init), target));
    }
}

/// No entry of well laid out groups lies below a plain name that none of them has.
proof fn lemma_no_other_group(prefix: Seq<char>, groups: Seq<(Seq<char>, FormPairs)>, b: Seq<char>)
    requires
        groups_well_laid(prefix, groups),
        is_plain(b),
        b.len() > 0,
        forall|i: int| 0 <= i < groups.len() ==> #[trigger] groups[i].0 != b,
    ensures
        entries_under(concat_groups(groups), nest(prefix, b)) == Seq::<(Seq<char>, Seq<char>)>::empty(),
    decreases groups.len(),
{
    broadcast use Seq::filter_distributes_over_add;

    reveal(Seq::filter);
    if groups.len() > 0 {
        let init = groups.drop_last();
        assert(groups_well_laid(prefix, init)) by {
            assert forall|i: int| 0 <= i < init.len() implies #[trigger] init[i] == groups[i] by {}
        }
        assert forall|i: int| 0 <= i < init.len() implies #[trigger] init[i].0 != b by {
            assert(init[i] == groups[i]);
        }
        lemma_no_other_group(prefix, init, b);
        lemma_filter_none(groups.last().1, prefix, groups.last().0, b);
        assert(Seq::<(Seq<char>, Seq<char>)>::empty() + Seq::<(Seq<char>, Seq<char>)>::empty()
            =~= Seq::<(Seq<char>, Seq<char>)>::empty());
    }
}

/// Every entry of well laid out groups at a non-empty prefix lies below the prefix.
pub proof fn lemma_groups_under_prefix(prefix: Seq<char>, groups: Seq<(Seq<char>, FormPairs)>)
    requires
        prefix.len() > 0,
        groups_well_laid(prefix, groups),
    ensures
        all_under(concat_groups(groups), prefix),
    decreases groups.len(),
{
    if groups.len() > 0 {
        let init = groups.drop_last();
        assert(groups_well_laid(prefix, init)) by {
            assert forall|i: int| 0 <= i < init.len() implies #[trigger] init[i] == groups[i] by {}
        }
        lemma_groups_under_prefix(prefix, init);
        let last = groups.last();
        lemma_all_under_parent(last.1, prefix, last.0);
        let c = concat_groups(groups);
        assert(c == concat_groups(init) + last.1);
        assert forall|i: int| 0 <= i < c.len() implies under(#[trigger] c[i].0, prefix) by {
            if i < concat_groups(init).len() {
                assert(c[i] == concat_groups(init)[i]);
            } else {
                assert(c[i] == last.1[i - concat_groups(init).len()]);
            }
        }
    }
}

/// The key of field `name` below `prefix`, as text.
pub fn nest_key(prefix: &str, name: &str) -> (r: String)
    ensures
        r@ == nest(prefix@, name@),
{
    if prefix.is_empty() {
        String::from_str(name)
    } else {
        let mut r = String::from_str(prefix);
        r.append("[");
        r.append(name);
        r.append("]");
        proof {
            reveal_strlit("[");
            reveal_strlit("]");
        }
        r
    }
}

fn append_digit(out: &mut String, d: u64)
    requires
        d < 10,
    ensures
        final(out)@ == old(out)@ + seq![digit_char(d as nat)],
{
    let t = match d {
        0 => "0",
        1 => "1",
        2 => "2",
        3 => "3",
        4 => "4",
        5 => "5",
        6 => "6",
        7 => "7",
        8 => "8",
        _ => "9",
    };
    proof {
        reveal_strlit("0");
        reveal_strlit("1");
        reveal_strlit("2");
        reveal_strlit("3");
        reveal_strlit("4");
        reveal_strlit("5");
        reveal_strlit("6");
        reveal_strlit("7");
        reveal_strlit("8");
        reveal_strlit("9");
    }
    assert(t@ =~= seq![digit_char(d as nat)]);
    out.append(t);
}

fn append_decimal(out: &mut String, n: u64)
    ensures
        final(out)@ == old(out)@ + decimal(n as nat),
    decreases n,
{
    if n >= 10 {
        append_decimal(out, n / 10);
    }
    append_digit(out, n % 10);
    proof {
        if n >= 10 {
            assert(decimal(n as nat) == decimal((n / 10) as nat) + seq![digit_char((n % 10) as nat)]);
        }
    }
    assert(final(out)@ =~= old(out)@ + decimal(n as nat));
}

/// The decimal text of an unsigned amount.
pub fn decimal_text(n: u64) -> (r: String)
    ensures
        r@ == decimal(n as nat),
{
    let mut r = String::new();
    append_decimal(&mut r, n);
    assert(r@ =~= decimal(n as nat));
    r
}

/// The decimal text of a signed amount, `-` first when it is negative.
pub fn signed_decimal_text(x: i64) -> (r: String)
    ensures
        r@ == signed_decimal(x as int),
{
    let mut r = String::new();
    if x < 0 {
        r.append("-");
        proof {
            reveal_strlit("-");
        }
        let m: u64 = (0i128 - x as i128) as u64;
        append_decimal(&mut r, m);
    } else {
        append_decimal(&mut r, x as u64);
    }
    assert(r@ =~= signed_decimal(x as int));
    r
}

/// Adds the entry `nest(prefix, name) = value`.
pub fn push_single(out: &mut Vec<(String, String)>, prefix: &str, name: &str, value: String)
    ensures
        form_of(final(out)@) == form_of(old(out)@) + single(prefix@, name@, value@),
{
    let k = nest_key(prefix, name);
    out.push((k, value));
    assert(form_of(final(out)@) =~= form_of(old(out)@) + single(prefix@, name@, value@));
}

/// Adds the entry of an optional text field when it is set.
pub fn push_optional_text(
    out: &mut Vec<(String, String)>,
    prefix: &str,
    name: &str,
    value: &Option<String>,
)
    ensures
        form_of(final(out)@) == form_of(old(out)@) + optional(prefix@, name@, text_of(*value)),
{
    match value {
        Some(v) => push_single(out, prefix, name, v.clone()),
        None => {
            assert(form_of(out@) =~= form_of(out@) + optional(prefix@, name@, text_of(*value)));
        },
    }
}

/// Adds the entry of an optional amount when it is set.
pub fn push_optional_amount(out: &mut Vec<(String, String)>, prefix: &str, name: &str, value: Option<u64>)
    ensures
        form_of(final(out)@) == form_of(old(out)@) + optional(prefix@, name@, amount_of(value)),
{
    match value {
        Some(n) => push_single(out, prefix, name, decimal_text(n)),
        None => {
            assert(form_of(out@) =~= form_of(out@) + optional(prefix@, name@, amount_of(value)));
        },
    }
}

/// Adds `path[0]`, `path[1]`, ... for the items of a list, in order.
pub fn push_indexed(out: &mut Vec<(String, String)>, path: &str, items: &Vec<String>)
    ensures
        form_of(final(out)@) == form_of(old(out)@) + indexed(path@, texts_of(items@)),
{
    let ghost start = form_of(out@);
    let mut i: usize = 0;
    while i < items.len()
        invariant
            i <= items@.len(),
            form_of(out@) == start + indexed(path@, texts_of(items@.take(i as int))),
        decreases items@.len() - i,
    {
        let index = decimal_text(i as u64);
        let k = nest_key(path, index.as_str());
        let ghost before = form_of(out@);
        out.push((k, items[i].clone()));
        assert(texts_of(items@.take(i + 1)) =~= texts_of(items@.take(i as int)).push(items@[i as int]@));
        assert(indexed(path@, texts_of(items@.take(i + 1))) =~= indexed(
            path@,
            texts_of(items@.take(i as int)),
        ).push((nest(path@, decimal(i as nat)), items@[i as int]@)));
        assert(form_of(out@) =~= before.push((nest(path@, decimal(i as nat)), items@[i as int]@)));
        i = i + 1;
    }
    assert(items@.take(items@.len() as int) =~= items@);
}

/// Adds `path[key] = value` for each entry of a string map, in order.
pub fn push_keyed(out: &mut Vec<(String, String)>, path: &str, entries: &Vec<(String, String)>)
    ensures
        form_of(final(out)@) == form_of(old(out)@) + keyed(path@, form_of(entries@)),
{
    let ghost start = form_of(out@);
    let mut i: usize = 0;
    while i < entries.len()
        invariant
            i <= entries@.len(),
            form_of(out@) == start + keyed(path@, form_of(entries@.take(i as int))),
        decreases entries@.len() - i,
    {
        let k = nest_key(path, entries[i].0.as_str());
        let ghost before = form_of(out@);
        out.push((k, entries[i].1.clone()));
        assert(form_of(entries@.take(i + 1)) =~= form_of(entries@.take(i as int)).push(
            (entries@[i as int].0@, entries@[i as int].1@),
        ));
        assert(keyed(path@, form_of(entries@.take(i + 1))) =~= keyed(
            path@,
            form_of(entries@.take(i as int)),
        ).push((nest(path@, entries@[i as int].0@), entries@[i as int].1@)));
        assert(form_of(out@) =~= before.push((nest(path@, entries@[i as int].0@), entries@[i as int].1@)));
        i = i + 1;
    }
    assert(entries@.take(entries@.len() as int) =~= entries@);
}

/// `nest(p, x)` lies below a non-empty `p`.
pub proof fn lemma_nest_under(p: Seq<char>, x: Seq<char>)
    requires
        p.len() > 0,
    ensures
        under(nest(p, x), p),
{
    let q = nest(p, x);
    assert(q.subrange(0, p.len() as int) =~= p);
}

/// The groups up to `k + 1`, put together, extend those up to `k` by group `k`.
pub proof fn lemma_concat_groups_step(
    start: FormPairs,
    groups: Seq<(Seq<char>, FormPairs)>,
    k: int,
    before: FormPairs,
    after: FormPairs,
)
    requires
        0 <= k < groups.len(),
        before == start + concat_groups(groups.take(k)),
        after == before + groups[k].1,
    ensures
        after == start + concat_groups(groups.take(k + 1)),
{
    assert(groups.take(k + 1).drop_last() =~= groups.take(k));
    assert(concat_groups(groups.take(k + 1)) == concat_groups(groups.take(k)) + groups[k].1);
    assert(after =~= start + concat_groups(groups.take(k + 1)));
}

pub proof fn lemma_decimal_shape(n: nat)
    ensures
        decimal(n).len() > 0,
        is_plain(decimal(n)),
        n < 10 <==> decimal(n).len() == 1,
    decreases n,
{
    if n >= 10 {
        lemma_decimal_shape(n / 10);
    }
}

/// Distinct numbers have distinct decimal texts.
pub proof fn lemma_decimal_injective(a: nat, b: nat)
    requires
        a != b,
    ensures
        decimal(a) != decimal(b),
    decreases a + b,
{
    lemma_decimal_shape(a);
    lemma_decimal_shape(b);
    if a >= 10 && b >= 10 {
        if decimal(a) == decimal(b) {
            let da = decimal(a);
            assert(da.drop_last() =~= decimal(a / 10));
            assert(decimal(b).drop_last() =~= decimal(b / 10));
            if a / 10 != b / 10 {
                lemma_decimal_injective(a / 10, b / 10);
            }
            assert(digit_char(a % 10) == da.last());
            assert(digit_char(b % 10) == decimal(b).last());
            assert(a % 10 == b % 10);
        }
    } else if a < 10 && b < 10 {
        assert(decimal(a)[0] != decimal(b)[0]);
    }
}

pub proof fn lemma_single_under(prefix: Seq<char>, name: Seq<char>, value: Seq<char>)
    ensures
        all_under(single(prefix, name, value), nest(prefix, name)),
{
    assert(single(prefix, name, value)[0].0 == nest(prefix, name));
}

pub proof fn lemma_optional_under(prefix: Seq<char>, name: Seq<char>, value: Option<Seq<char>>)
    ensures
        all_under(optional(prefix, name, value), nest(prefix, name)),
{
    if let Some(v) = value {
        lemma_single_under(prefix, name, v);
    }
}

pub proof fn lemma_indexed_under(path: Seq<char>, items: Seq<Seq<char>>)
    requires
        path.len() > 0,
    ensures
        all_under(indexed(path, items), path),
{
    let f = indexed(path, items);
    assert forall|i: int| 0 <= i < f.len() implies under(#[trigger] f[i].0, path) by {
        lemma_nest_under(path, decimal(i as nat));
    }
}

pub proof fn lemma_keyed_under(path: Seq<char>, entries: FormPairs)
    requires
        path.len() > 0,
    ensures
        all_under(keyed(path, entries), path),
{
    let f = keyed(path, entries);
    assert forall|i: int| 0 <= i < f.len() implies under(#[trigger] f[i].0, path) by {
        lemma_nest_under(path, entries[i].0);
    }
}

pub proof fn lemma_nest_nonempty(prefix: Seq<char>, name: Seq<char>)
    requires
        name.len() > 0,
    ensures
        nest(prefix, name).len() > 0,
{
}

/// Adds the entry of an optional field whose text is borrowed, when it is set.
pub fn push_optional_token(out: &mut Vec<(String, String)>, prefix: &str, name: &str, value: Option<&str>)
    ensures
        form_of(final(out)@) == form_of(old(out)@) + optional(
            prefix@,
            name@,
            match value {
                Some(t) => Some(t@),
                None => None,
            },
        ),
{
    match value {
        Some(t) => push_single(out, prefix, name, String::from_str(t)),
        None => {
            assert(form_of(out@) =~= form_of(out@) + Seq::<(Seq<char>, Seq<char>)>::empty());
        },
    }
}

} // verus!
