use vstd::prelude::*;
use crate::browser::{
    ascended, cursor_of, descended, highlighted, highlighted_dir, is_first_index, right_supplied,
    tag_set, tag_toggled, App,
};
use crate::commands::{confirm_decided, delete_decided};
use crate::effect::{effect_deletes, effect_removes_tree, DeleteProbe, Effect};
use crate::entry::{entry_paths, EntryModel, NodeKind, RawEntry};
use crate::listing::{
    goes_before, is_hidden_name, is_shown, is_stable_sort_of, model_of, shown_models, sort_key,
    with_key, ListOrder,
};
use crate::mode::{Confirm, InputMode};
use crate::order::{codes, lemma_codes_injective, lemma_lex_total, lex_lt};
use crate::path::{child_of, lemma_parent_of_child, name_of, parent_of};

verus! {

/// Entering the highlighted directory and then going back up returns to the
/// same working directory with the cursor on the same path, whatever listing
/// filled the right pane in between.
pub proof fn law_descend_ascend(s: App, t: App, raw: Seq<RawEntry>, t2: App, u: App)
    requires
        s.wf(),
        highlighted_dir(s.middle_column).is_some(),
        descended(s, t),
        right_supplied(t, raw, t2),
        ascended(t2, u),
    ensures
        u.pwd@ == s.pwd@,
        highlighted(u.middle_column).is_some(),
        highlighted(u.middle_column).unwrap().path.path@ == highlighted(s.middle_column).unwrap().path.path@,
{
    let d = highlighted_dir(s.middle_column).unwrap();
    let e = highlighted(s.middle_column).unwrap();
    let c = cursor_of(s.middle_column);
    assert(parent_of(s.middle_column.items@[c].path.path@) == Some(s.pwd@));
    assert(t2.pwd@ == d);
    assert(u.middle_column.items == s.middle_column.items);
    let paths = entry_paths(s.middle_column.items@);
    assert(paths[c] == d);
    assert(paths.contains(d));
    assert(is_first_index(paths, d, u.middle_column.selected));
}

proof fn lemma_filter_two<A>(s: Seq<A>, p: spec_fn(A) -> bool, i: int, j: int)
    requires
        0 <= i < j < s.len(),
        p(s[i]),
        p(s[j]),
    ensures
        s.filter(p).len() >= 2,
    decreases s.len(),
{
    reveal(Seq::filter);
    let dl = s.drop_last();
    if j < s.len() - 1 {
        lemma_filter_two(dl, p, i, j);
    } else {
        assert(dl[i] == s[i]);
        dl.lemma_filter_contains(p, i);
    }
}

/// Filtering keeps keys distinct.
proof fn lemma_filter_distinct<A>(s: Seq<A>, p: spec_fn(A) -> bool, key: spec_fn(A) -> Seq<char>)
    requires
        forall|i: int, j: int| 0 <= i < j < s.len() ==> key(#[trigger] s[i]) != key(#[trigger] s[j]),
    ensures
        forall|i: int, j: int|
            0 <= i < j < s.filter(p).len() ==> key(#[trigger] s.filter(p)[i]) != key(
                #[trigger] s.filter(p)[j],
            ),
    decreases s.len(),
{
    reveal(Seq::filter);
    if s.len() > 0 {
        let dl = s.drop_last();
        assert forall|i: int, j: int| 0 <= i < j < dl.len() implies key(#[trigger] dl[i]) != key(
            #[trigger] dl[j],
        ) by {
            assert(dl[i] == s[i] && dl[j] == s[j]);
        }
        lemma_filter_distinct(dl, p, key);
        let f = dl.filter(p);
        if p(s.last()) {
            assert forall|i: int, j: int| 0 <= i < j < s.filter(p).len() implies key(
                #[trigger] s.filter(p)[i],
            ) != key(#[trigger] s.filter(p)[j]) by {
                if j == f.len() {
                    assert(f.contains(f[i]));
                    dl.lemma_filter_contains_rev(p, f[i]);
                    let m = choose|m: int| 0 <= m < dl.len() && dl[m] == f[i];
                    assert(s[m] == f[i]);
                    assert(s[s.len() - 1] == s.last());
                } else {
                    assert(s.filter(p)[i] == f[i] && s.filter(p)[j] == f[j]);
                }
            }
        }
    }
}

pub open spec fn names_distinct(raw: Seq<RawEntry>) -> bool {
    forall|i: int, j: int| 0 <= i < j < raw.len() ==> (#[trigger] raw[i]).name@ != (#[trigger] raw[j]).name@
}

/// Listed by name, the entries of a directory whose names are distinct come
/// in strictly increasing lexicographic order of name.
pub proof fn law_name_order(
    dir: Seq<Seq<char>>,
    raw: Seq<RawEntry>,
    show_hidden: bool,
    tags: Seq<Seq<Seq<char>>>,
    r: Seq<EntryModel>,
)
    requires
        names_distinct(raw),
        is_stable_sort_of(r, shown_models(dir, raw, show_hidden, tags), ListOrder::Name),
    ensures
        forall|i: int, j: int| 0 <= i < j < r.len() ==> lex_lt(
            codes(name_of((#[trigger] r[i]).path)),
            codes(name_of((#[trigger] r[j]).path)),
        ),
{
    let sel = |e: RawEntry| is_shown(e, show_hidden);
    let mk = |e: RawEntry| model_of(dir, e, tags);
    let rname = |e: RawEntry| e.name@;
    let ename = |e: EntryModel| name_of(e.path);
    let f = raw.filter(sel);
    let input = f.map_values(mk);
    assert(shown_models(dir, raw, show_hidden, tags) == input);
    assert forall|i: int, j: int| 0 <= i < j < raw.len() implies rname(#[trigger] raw[i]) != rname(
        #[trigger] raw[j],
    ) by {}
    lemma_filter_distinct(raw, sel, rname);
    assert forall|i: int, j: int| 0 <= i < j < input.len() implies ename(#[trigger] input[i]) != ename(
        #[trigger] input[j],
    ) by {
        lemma_parent_of_child(dir, f[i].name@);
        lemma_parent_of_child(dir, f[j].name@);
        assert(rname(f[i]) != rname(f[j]));
    }
    assert forall|i: int, j: int| 0 <= i < j < r.len() implies lex_lt(
        codes(name_of((#[trigger] r[i]).path)),
        codes(name_of((#[trigger] r[j]).path)),
    ) by {
        let ki = sort_key(r[i], ListOrder::Name);
        let kj = sort_key(r[j], ListOrder::Name);
        assert(!goes_before(r[j], r[i], ListOrder::Name));
        if ki == kj {
            let pk = with_key(ListOrder::Name, ki);
            lemma_filter_two(r, pk, i, j);
            assert(r.filter(pk) == input.filter(pk));
            lemma_filter_distinct(input, pk, ename);
            let g = input.filter(pk);
            input.lemma_filter_pred(pk, 0);
            input.lemma_filter_pred(pk, 1);
            lemma_codes_injective(name_of(g[0].path), name_of(g[1].path));
            assert(ename(g[0]) != ename(g[1]));
        } else {
            lemma_lex_total(ki, kj);
        }
    }
}

proof fn lemma_filter_push_any<A>(s: Seq<A>, x: A, pred: spec_fn(A) -> bool)
    ensures
        s.push(x).filter(pred) == if pred(x) {
            s.filter(pred).push(x)
        } else {
            s.filter(pred)
        },
{
    reveal(Seq::filter);
    assert(s.push(x).drop_last() =~= s);
}

/// Two sorted sequences that agree on the entries of every key are equal.
proof fn lemma_sorted_classes_equal(a: Seq<EntryModel>, b: Seq<EntryModel>, order: ListOrder)
    requires
        crate::listing::is_sorted(a, order),
        crate::listing::is_sorted(b, order),
        forall|k: Seq<int>| #[trigger] a.filter(with_key(order, k)) == b.filter(with_key(order, k)),
    ensures
        a == b,
    decreases a.len() + b.len(),
{
    reveal(Seq::filter);
    if a.len() == 0 || b.len() == 0 {
        if b.len() > 0 {
            let k = sort_key(b[0], order);
            b.lemma_filter_contains(with_key(order, k), 0);
            assert(a.filter(with_key(order, k)).len() == 0);
        }
        if a.len() > 0 {
            let k = sort_key(a[0], order);
            a.lemma_filter_contains(with_key(order, k), 0);
            assert(b.filter(with_key(order, k)).len() == 0);
        }
        assert(a =~= b);
    } else {
        let x = a.last();
        let y = b.last();
        let kx = sort_key(x, order);
        let ky = sort_key(y, order);
        b.lemma_filter_contains(with_key(order, ky), b.len() - 1);
        a.lemma_filter_contains_rev(with_key(order, ky), y);
        let j = choose|j: int| 0 <= j < a.len() && a[j] == y;
        a.lemma_filter_contains(with_key(order, kx), a.len() - 1);
        b.lemma_filter_contains_rev(with_key(order, kx), x);
        let i = choose|i: int| 0 <= i < b.len() && b[i] == x;
        if j < a.len() - 1 {
            assert(!goes_before(a[a.len() - 1], a[j], order));
        }
        if i < b.len() - 1 {
            assert(!goes_before(b[b.len() - 1], b[i], order));
        }
        crate::order::lemma_lex_irreflexive(kx);
        crate::order::lemma_lex_irreflexive(ky);
        if kx != ky {
            lemma_lex_total(kx, ky);
        }
        assert(kx == ky);
        let da = a.drop_last();
        let db = b.drop_last();
        assert(a =~= da.push(x));
        assert(b =~= db.push(y));
        lemma_filter_push_any(da, x, with_key(order, kx));
        lemma_filter_push_any(db, y, with_key(order, kx));
        assert(a.filter(with_key(order, kx)) == b.filter(with_key(order, kx)));
        assert(da.filter(with_key(order, kx)).push(x) == db.filter(with_key(order, kx)).push(y));
        assert(x == da.filter(with_key(order, kx)).push(x).last());
        assert(x == y);
        assert(da.filter(with_key(order, kx)) =~= da.filter(with_key(order, kx)).push(x).drop_last());
        assert(db.filter(with_key(order, kx)) =~= db.filter(with_key(order, kx)).push(y).drop_last());
        assert forall|k: Seq<int>| #[trigger] da.filter(with_key(order, k)) == db.filter(with_key(order, k)) by {
            lemma_filter_push_any(da, x, with_key(order, k));
            lemma_filter_push_any(db, y, with_key(order, k));
            assert(a.filter(with_key(order, k)) == b.filter(with_key(order, k)));
            if k == kx {
            } else {
                assert(!with_key(order, k)(x));
            }
        }
        assert forall|p: int, q: int| 0 <= p < q < da.len() implies !goes_before(#[trigger] da[q], #[trigger] da[p], order) by {
            assert(da[q] == a[q] && da[p] == a[p]);
        }
        assert forall|p: int, q: int| 0 <= p < q < db.len() implies !goes_before(#[trigger] db[q], #[trigger] db[p], order) by {
            assert(db[q] == b[q] && db[p] == b[p]);
        }
        lemma_sorted_classes_equal(da, db, order);
    }
}

/// A listing is determined by what was read: two stable sorts of the same
/// entries under one order are the same sequence.
pub proof fn law_listing_determined(r1: Seq<EntryModel>, r2: Seq<EntryModel>, input: Seq<EntryModel>, order: ListOrder)
    requires
        is_stable_sort_of(r1, input, order),
        is_stable_sort_of(r2, input, order),
    ensures
        r1 == r2,
{
    assert forall|k: Seq<int>| #[trigger] r1.filter(with_key(order, k)) == r2.filter(with_key(order, k)) by {
        assert(r1.filter(with_key(order, k)) == input.filter(with_key(order, k)));
        assert(r2.filter(with_key(order, k)) == input.filter(with_key(order, k)));
    }
    lemma_sorted_classes_equal(r1, r2, order);
}

/// Listed directories first, no file comes before a directory, and within
/// each of the two groups the entries keep the order they were read in.
pub proof fn law_dirs_first(r: Seq<EntryModel>, input: Seq<EntryModel>)
    requires
        is_stable_sort_of(r, input, ListOrder::DirsFirst),
    ensures
        forall|i: int, j: int|
            0 <= i < j < r.len() && (#[trigger] r[i]).kind == NodeKind::File ==> (#[trigger] r[j]).kind
                == NodeKind::File,
        r.filter(with_key(ListOrder::DirsFirst, seq![0int])) == input.filter(
            with_key(ListOrder::DirsFirst, seq![0int]),
        ),
        r.filter(with_key(ListOrder::DirsFirst, seq![1int])) == input.filter(
            with_key(ListOrder::DirsFirst, seq![1int]),
        ),
{
    assert forall|i: int, j: int|
        0 <= i < j < r.len() && (#[trigger] r[i]).kind == NodeKind::File implies (#[trigger] r[j]).kind
        == NodeKind::File by {
        assert(!goes_before(r[j], r[i], ListOrder::DirsFirst));
        if r[j].kind != NodeKind::File {
            assert(seq![0int].drop_first() =~= Seq::<int>::empty());
            assert(lex_lt(seq![0int], seq![1int]));
        }
    }
}

proof fn lemma_filter_all<A>(s: Seq<A>, p: spec_fn(A) -> bool)
    requires
        forall|i: int| 0 <= i < s.len() ==> p(#[trigger] s[i]),
    ensures
        s.filter(p) == s,
    decreases s.len(),
{
    reveal(Seq::filter);
    if s.len() > 0 {
        lemma_filter_all(s.drop_last(), p);
        assert(s.drop_last().push(s.last()) =~= s);
    }
}

/// An entry of a stable sort is an entry of its input, and back.
proof fn lemma_sorted_members(r: Seq<EntryModel>, input: Seq<EntryModel>, order: ListOrder, x: EntryModel)
    requires
        is_stable_sort_of(r, input, order),
    ensures
        r.contains(x) == input.contains(x),
{
    let pk = with_key(order, sort_key(x, order));
    assert(r.filter(pk) == input.filter(pk));
    if r.contains(x) {
        let i = choose|i: int| 0 <= i < r.len() && r[i] == x;
        r.lemma_filter_contains(pk, i);
        input.lemma_filter_contains_rev(pk, x);
    }
    if input.contains(x) {
        let i = choose|i: int| 0 <= i < input.len() && input[i] == x;
        input.lemma_filter_contains(pk, i);
        r.lemma_filter_contains_rev(pk, x);
    }
}

/// Hidden entries off, no listed name begins with a dot; hidden entries on,
/// every entry read is listed.
pub proof fn law_hidden_filter(
    dir: Seq<Seq<char>>,
    raw: Seq<RawEntry>,
    tags: Seq<Seq<Seq<char>>>,
    order: ListOrder,
    hidden_off: Seq<EntryModel>,
    hidden_on: Seq<EntryModel>,
)
    requires
        is_stable_sort_of(hidden_off, shown_models(dir, raw, false, tags), order),
        is_stable_sort_of(hidden_on, shown_models(dir, raw, true, tags), order),
    ensures
        forall|i: int| 0 <= i < hidden_off.len() ==> !is_hidden_name(name_of((#[trigger] hidden_off[i]).path)),
        forall|j: int| 0 <= j < raw.len() ==> exists|i: int| 0 <= i < hidden_on.len()
            && (#[trigger] hidden_on[i]).path == child_of(dir, (#[trigger] raw[j]).name@),
{
    let off = |e: RawEntry| is_shown(e, false);
    let on = |e: RawEntry| is_shown(e, true);
    let mk = |e: RawEntry| model_of(dir, e, tags);
    let f = raw.filter(off);
    assert(shown_models(dir, raw, false, tags) == f.map_values(mk));
    assert forall|i: int| 0 <= i < hidden_off.len() implies !is_hidden_name(
        name_of((#[trigger] hidden_off[i]).path),
    ) by {
        let x = hidden_off[i];
        lemma_sorted_members(hidden_off, f.map_values(mk), order, x);
        assert(hidden_off.contains(x));
        let m = choose|m: int| 0 <= m < f.map_values(mk).len() && f.map_values(mk)[m] == x;
        raw.lemma_filter_pred(off, m);
        lemma_parent_of_child(dir, f[m].name@);
    }
    lemma_filter_all(raw, on);
    assert(shown_models(dir, raw, true, tags) == raw.map_values(mk));
    assert forall|j: int| 0 <= j < raw.len() implies exists|i: int| 0 <= i < hidden_on.len()
        && (#[trigger] hidden_on[i]).path == child_of(dir, (#[trigger] raw[j]).name@) by {
        let x = raw.map_values(mk)[j];
        assert(raw.map_values(mk).contains(x));
        lemma_sorted_members(hidden_on, raw.map_values(mk), order, x);
        let i = choose|i: int| 0 <= i < hidden_on.len() && hidden_on[i] == x;
        assert(hidden_on[i].path == child_of(dir, raw[j].name@));
    }
}

/// Deleting a directory with contents removes nothing at first and waits for
/// confirmation; the next keystroke removes the tree, once, exactly when it is
/// the expected `y`, and removes nothing otherwise.
pub proof fn law_confirmation_gate(s: App, t: App, r1: Effect, c: char, u: App, r2: Effect)
    requires
        s.wf(),
        highlighted(s.middle_column).is_some(),
        delete_decided(s, DeleteProbe::NonEmptyDir, t, r1),
        confirm_decided(t, c, u, r2),
    ensures
        !effect_deletes(r1),
        t.input_mode == InputMode::Confirmation(Confirm::DeleteFolder, 'y'),
        c == 'y' ==> effect_removes_tree(r2) == Some(highlighted(s.middle_column).unwrap().path.path@),
        c != 'y' ==> !effect_deletes(r2),
{
}

/// Flipping the highlighted entry's tag twice gives back the tag set's
/// membership and the entry's flag.
pub proof fn law_tag_toggle_twice(s: App, t: App, u: App)
    requires
        s.wf(),
        s.get_selected_spec().is_some(),
        tag_toggled(s, t),
        tag_toggled(t, u),
    ensures
        forall|x: Seq<Seq<char>>| #[trigger] tag_set(u).contains(x) == tag_set(s).contains(x),
        u.middle_column.items@[s.get_selected_spec().unwrap() as int].tagged == s.middle_column.items@[s.get_selected_spec().unwrap() as int].tagged,
{
    let i = s.get_selected_spec().unwrap();
    let p = s.middle_column.items@[i as int].path.path@;
    assert(t.get_selected_spec() == Some(i));
    assert(t.middle_column.items@[i as int].path.path@ == p);
    assert forall|x: Seq<Seq<char>>| #[trigger] tag_set(u).contains(x) == tag_set(s).contains(x) by {
        assert(tag_set(t).contains(x) == if x == p { !tag_set(s).contains(p) } else { tag_set(s).contains(x) });
        assert(tag_set(u).contains(x) == if x == p { !tag_set(t).contains(p) } else { tag_set(t).contains(x) });
        assert(tag_set(t).contains(p) == !tag_set(s).contains(p));
    }
}

} // verus!
