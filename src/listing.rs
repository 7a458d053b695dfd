use vstd::prelude::*;
use crate::entry::{
    contains_path, entry_model, entry_models, path_views, Entry, EntryModel, Item, Node, NodeKind,
    RawEntry,
};
use crate::finder::chars_of;
use crate::order::{
    codes, lemma_lex_asymmetric, lemma_lex_irreflexive, lemma_lex_total, lemma_lex_transitive,
    lex_lt,
};
use crate::path::{child_of, lemma_parent_of_child, name_of, parent_of, FsPath};

verus! {

/// How a listing is ordered.
#[derive(PartialEq, Eq, Structural, Clone, Copy, Debug)]
pub enum ListOrder {
    Default,
    Name,
    NameReverse,
    Modified,
    ModifiedReverse,
    Created,
    CreatedReverse,
    DirsFirst,
    FilesFirst,
}

pub open spec fn is_descending(order: ListOrder) -> bool {
    order == ListOrder::NameReverse || order == ListOrder::ModifiedReverse || order
        == ListOrder::CreatedReverse
}

/// The key an order sorts by; entries with equal keys keep their relative order.
pub open spec fn sort_key(e: EntryModel, order: ListOrder) -> Seq<int> {
    match order {
        ListOrder::Default => Seq::empty(),
        ListOrder::Name | ListOrder::NameReverse => codes(name_of(e.path)),
        ListOrder::Modified | ListOrder::ModifiedReverse => seq![e.modified as int],
        ListOrder::Created | ListOrder::CreatedReverse => seq![e.created as int],
        ListOrder::DirsFirst => seq![if e.kind == NodeKind::File { 1int } else { 0int }],
        ListOrder::FilesFirst => seq![if e.kind == NodeKind::Dir { 1int } else { 0int }],
    }
}

/// `a` belongs strictly before `b` under `order`.
pub open spec fn goes_before(a: EntryModel, b: EntryModel, order: ListOrder) -> bool {
    if is_descending(order) {
        lex_lt(sort_key(b, order), sort_key(a, order))
    } else {
        lex_lt(sort_key(a, order), sort_key(b, order))
    }
}

pub open spec fn is_sorted(s: Seq<EntryModel>, order: ListOrder) -> bool {
    forall|i: int, j: int| 0 <= i < j < s.len() ==> !goes_before(#[trigger] s[j], #[trigger] s[i], order)
}

pub open spec fn with_key(order: ListOrder, k: Seq<int>) -> spec_fn(EntryModel) -> bool {
    |e: EntryModel| sort_key(e, order) == k
}

/// `r` is `input` sorted by `order`, entries of equal key in their input order.
pub open spec fn is_stable_sort_of(r: Seq<EntryModel>, input: Seq<EntryModel>, order: ListOrder) -> bool {
    &&& is_sorted(r, order)
    &&& forall|k: Seq<int>| #[trigger] r.filter(with_key(order, k)) == input.filter(with_key(order, k))
}

pub open spec fn is_hidden_name(name: Seq<char>) -> bool {
    name.len() > 0 && name[0] == '.'
}

pub open spec fn is_shown(r: RawEntry, show_hidden: bool) -> bool {
    show_hidden || !is_hidden_name(r.name@)
}

pub open spec fn model_of(dir: Seq<Seq<char>>, r: RawEntry, tags: Seq<Seq<Seq<char>>>) -> EntryModel {
    EntryModel {
        path: child_of(dir, r.name@),
        kind: r.kind,
        modified: r.modified,
        created: r.created,
        tagged: tags.contains(child_of(dir, r.name@)),
    }
}

/// The entries of `dir` that a listing shows, in the order they were read.
pub open spec fn shown_models(
    dir: Seq<Seq<char>>,
    raw: Seq<RawEntry>,
    show_hidden: bool,
    tags: Seq<Seq<Seq<char>>>,
) -> Seq<EntryModel> {
    raw.filter(|r: RawEntry| is_shown(r, show_hidden)).map_values(|r: RawEntry| model_of(dir, r, tags))
}

proof fn lemma_lex_single(a: int, b: int)
    ensures
        lex_lt(seq![a], seq![b]) == (a < b),
{
    assert(seq![a].drop_first() =~= Seq::<int>::empty());
    assert(seq![b].drop_first() =~= Seq::<int>::empty());
    lemma_lex_irreflexive(Seq::<int>::empty());
}

/// After `x` belongs everything that `x` does not belong after, in a sorted run.
proof fn lemma_before_rest(r: Seq<EntryModel>, x: EntryModel, p: int, k: int, order: ListOrder)
    requires
        is_sorted(r, order),
        0 <= p <= k < r.len(),
        goes_before(x, r[p], order),
    ensures
        goes_before(x, r[k], order),
{
    if k > p {
        let kx = sort_key(x, order);
        let kp = sort_key(r[p], order);
        let kk = sort_key(r[k], order);
        assert(!goes_before(r[k], r[p], order));
        if kk != kp {
            lemma_lex_total(kk, kp);
        }
        if is_descending(order) {
            if kk != kp {
                lemma_lex_transitive(kk, kp, kx);
            }
        } else {
            if kk != kp {
                lemma_lex_transitive(kx, kp, kk);
            }
        }
    }
}

proof fn lemma_filter_none(s: Seq<EntryModel>, pred: spec_fn(EntryModel) -> bool)
    requires
        forall|i: int| 0 <= i < s.len() ==> !pred(#[trigger] s[i]),
    ensures
        s.filter(pred) == Seq::<EntryModel>::empty(),
    decreases s.len(),
{
    reveal(Seq::filter);
    if s.len() > 0 {
        lemma_filter_none(s.drop_last(), pred);
        assert(!pred(s[s.len() - 1]));
    }
}

proof fn lemma_filter_push(s: Seq<EntryModel>, x: EntryModel, pred: spec_fn(EntryModel) -> bool)
    ensures
        s.push(x).filter(pred) == if pred(x) {
            s.filter(pred).push(x)
        } else {
            s.filter(pred)
        },
{
    reveal(Seq::filter);
    assert(s.push(x).drop_last() =~= s);
}

/// Inserting `x` at the first place where it belongs keeps a stable sort.
proof fn lemma_insert_stable(
    r: Seq<EntryModel>,
    input: Seq<EntryModel>,
    x: EntryModel,
    p: int,
    order: ListOrder,
)
    requires
        is_stable_sort_of(r, input, order),
        0 <= p <= r.len(),
        forall|k: int| 0 <= k < p ==> !goes_before(x, #[trigger] r[k], order),
        p < r.len() ==> goes_before(x, r[p], order),
    ensures
        is_stable_sort_of(r.insert(p, x), input.push(x), order),
{
    let n = r.insert(p, x);
    let kx = sort_key(x, order);
    assert forall|k: int| p <= k < r.len() implies goes_before(x, #[trigger] r[k], order) by {
        lemma_before_rest(r, x, p, k, order);
    }
    assert forall|i: int, j: int| 0 <= i < j < n.len() implies !goes_before(
        #[trigger] n[j],
        #[trigger] n[i],
        order,
    ) by {
        if i == p {
            assert(goes_before(x, r[j - 1], order));
            if is_descending(order) {
                lemma_lex_asymmetric(sort_key(r[j - 1], order), kx);
            } else {
                lemma_lex_asymmetric(kx, sort_key(r[j - 1], order));
            }
        } else if j == p {
            assert(n[i] == r[i]);
        } else {
            let ii = if i < p { i } else { i - 1 };
            let jj = if j < p { j } else { j - 1 };
            assert(n[i] == r[ii]);
            assert(n[j] == r[jj]);
        }
    }
    let head = r.subrange(0, p);
    let tail = r.subrange(p, r.len() as int);
    assert(n =~= head + seq![x] + tail);
    assert(r =~= head + tail);
    assert forall|k: Seq<int>| #[trigger] n.filter(with_key(order, k)) == input.push(x).filter(
        with_key(order, k),
    ) by {
        let pred = with_key(order, k);
        Seq::filter_distributes_over_add(head + seq![x], tail, pred);
        Seq::filter_distributes_over_add(head, seq![x], pred);
        Seq::filter_distributes_over_add(head, tail, pred);
        lemma_filter_push(input, x, pred);
        lemma_filter_push(Seq::<EntryModel>::empty(), x, pred);
        assert(Seq::<EntryModel>::empty().push(x) =~= seq![x]);
        reveal(Seq::filter);
        assert(Seq::<EntryModel>::empty().filter(pred) =~= Seq::<EntryModel>::empty());
        if k == kx {
            assert forall|i: int| 0 <= i < tail.len() implies !pred(#[trigger] tail[i]) by {
                assert(tail[i] == r[p + i]);
                assert(goes_before(x, r[p + i], order));
                lemma_lex_irreflexive(kx);
            }
            lemma_filter_none(tail, pred);
            assert(head.filter(pred) + Seq::<EntryModel>::empty() =~= head.filter(pred));
            assert(r.filter(pred) == head.filter(pred));
            assert(n.filter(pred) =~= head.filter(pred).push(x));
        } else {
            assert(!pred(x));
            assert(n.filter(pred) =~= head.filter(pred) + tail.filter(pred));
        }
    }
}

fn chars_less(a: &Vec<char>, b: &Vec<char>) -> (r: bool)
    ensures
        r == lex_lt(codes(a@), codes(b@)),
{
    let ghost pa = codes(a@);
    let ghost pb = codes(b@);
    let mut i: usize = 0;
    assert(pa.subrange(0, pa.len() as int) =~= pa);
    assert(pb.subrange(0, pb.len() as int) =~= pb);
    while i < a.len() && i < b.len()
        invariant
            i <= a@.len(),
            i <= b@.len(),
            pa == codes(a@),
            pb == codes(b@),
            lex_lt(pa, pb) == lex_lt(
                pa.subrange(i as int, pa.len() as int),
                pb.subrange(i as int, pb.len() as int),
            ),
        decreases a.len() - i,
    {
        let ghost sa = pa.subrange(i as int, pa.len() as int);
        let ghost sb = pb.subrange(i as int, pb.len() as int);
        assert(sa[0] == a@[i as int] as int);
        assert(sb[0] == b@[i as int] as int);
        if a[i] != b[i] {
            return a[i] < b[i];
        }
        assert(sa.drop_first() =~= pa.subrange(i + 1, pa.len() as int));
        assert(sb.drop_first() =~= pb.subrange(i + 1, pb.len() as int));
        i = i + 1;
    }
    i < b.len()
}

fn kind_rank(kind: NodeKind, last: NodeKind) -> (r: u8)
    ensures
        r == if kind == last { 1u8 } else { 0u8 },
{
    if kind == last {
        1
    } else {
        0
    }
}

/// Whether `a` belongs strictly before `b` under `order`.
pub fn entry_goes_before(a: &Entry, b: &Entry, order: ListOrder) -> (r: bool)
    ensures
        r == goes_before(entry_model(*a), entry_model(*b), order),
{
    let ghost ma = entry_model(*a);
    let ghost mb = entry_model(*b);
    match order {
        ListOrder::Default => {
            proof { lemma_lex_irreflexive(Seq::<int>::empty()); }
            false
        },
        ListOrder::Name | ListOrder::NameReverse => {
            let na = chars_of(a.path.path.name().as_str());
            let nb = chars_of(b.path.path.name().as_str());
            if order == ListOrder::Name {
                chars_less(&na, &nb)
            } else {
                chars_less(&nb, &na)
            }
        },
        ListOrder::Modified => {
            proof { lemma_lex_single(ma.modified as int, mb.modified as int); }
            a.path.modified < b.path.modified
        },
        ListOrder::ModifiedReverse => {
            proof { lemma_lex_single(mb.modified as int, ma.modified as int); }
            b.path.modified < a.path.modified
        },
        ListOrder::Created => {
            proof { lemma_lex_single(ma.created as int, mb.created as int); }
            a.path.created < b.path.created
        },
        ListOrder::CreatedReverse => {
            proof { lemma_lex_single(mb.created as int, ma.created as int); }
            b.path.created < a.path.created
        },
        ListOrder::DirsFirst => {
            let ra = kind_rank(a.path.kind, NodeKind::File);
            let rb = kind_rank(b.path.kind, NodeKind::File);
            proof { lemma_lex_single(ra as int, rb as int); }
            ra < rb
        },
        ListOrder::FilesFirst => {
            let ra = kind_rank(a.path.kind, NodeKind::Dir);
            let rb = kind_rank(b.path.kind, NodeKind::Dir);
            proof { lemma_lex_single(ra as int, rb as int); }
            ra < rb
        },
    }
}

fn name_is_hidden(name: &String) -> (r: bool)
    ensures
        r == is_hidden_name(name@),
{
    let s = name.as_str();
    s.unicode_len() > 0 && vstd::string::StrSliceExecFns::get_char(s, 0) == '.'
}

/// The listing of `dir` from the entries read from it: hidden names left out
/// unless `show_hidden`, each entry tagged exactly when its path is in `tags`,
/// and the whole stably sorted by `order`.
pub fn list(
    dir: &FsPath,
    raw: &Vec<RawEntry>,
    show_hidden: bool,
    order: ListOrder,
    tags: &Vec<FsPath>,
) -> (r: Vec<Entry>)
    ensures
        is_stable_sort_of(
            entry_models(r@),
            shown_models(dir@, raw@, show_hidden, path_views(tags@)),
            order,
        ),
        forall|i: int| 0 <= i < r@.len() ==> (#[trigger] r@[i]).preview.is_none(),
        forall|i: int| 0 <= i < r@.len() ==> parent_of((#[trigger] r@[i]).path.path@) == Some(dir@),
        forall|i: int| 0 <= i < r@.len() ==> (#[trigger] r@[i]).tagged == path_views(tags@).contains(
            r@[i].path.path@,
        ),
{
    let ghost sel = |e: RawEntry| is_shown(e, show_hidden);
    let ghost mk = |e: RawEntry| model_of(dir@, e, path_views(tags@));
    let mut r: Vec<Entry> = Vec::new();
    let ghost mut input: Seq<EntryModel> = Seq::empty();
    let mut i: usize = 0;
    proof {
        reveal(Seq::filter);
        assert(raw@.subrange(0, 0).filter(sel) =~= Seq::<RawEntry>::empty());
        assert(entry_models(r@) =~= Seq::<EntryModel>::empty());
        assert forall|k: Seq<int>| #[trigger] entry_models(r@).filter(with_key(order, k))
            == input.filter(with_key(order, k)) by {
            assert(input.filter(with_key(order, k)) =~= Seq::<EntryModel>::empty());
            assert(entry_models(r@).filter(with_key(order, k)) =~= Seq::<EntryModel>::empty());
        }
    }
    while i < raw.len()
        invariant
            i <= raw@.len(),
            sel == (|e: RawEntry| is_shown(e, show_hidden)),
            mk == (|e: RawEntry| model_of(dir@, e, path_views(tags@))),
            input == raw@.subrange(0, i as int).filter(sel).map_values(mk),
            is_stable_sort_of(entry_models(r@), input, order),
            forall|j: int| 0 <= j < r@.len() ==> (#[trigger] r@[j]).preview.is_none(),
            forall|j: int| 0 <= j < r@.len() ==> parent_of((#[trigger] r@[j]).path.path@) == Some(dir@),
            forall|j: int| 0 <= j < r@.len() ==> (#[trigger] r@[j]).tagged == path_views(tags@).contains(
                r@[j].path.path@,
            ),
        decreases raw.len() - i,
    {
        let e = &raw[i];
        proof {
            reveal(Seq::filter);
            assert(raw@.subrange(0, i + 1).drop_last() =~= raw@.subrange(0, i as int));
            assert(raw@.subrange(0, i + 1).last() == raw@[i as int]);
        }
        if show_hidden || !name_is_hidden(&e.name) {
            let path = dir.join(&e.name);
            proof {
                lemma_parent_of_child(dir@, e.name@);
            }
            let tagged = contains_path(tags, &path);
            let node = Node { path, kind: e.kind, modified: e.modified, created: e.created };
            let x: Entry = Item::new(node, tagged);
            let ghost mx = entry_model(x);
            assert(mx == mk(*e));
            let mut p: usize = 0;
            while p < r.len() && !entry_goes_before(&x, &r[p], order)
                invariant
                    p <= r@.len(),
                    mx == entry_model(x),
                    forall|k: int| 0 <= k < p ==> !goes_before(mx, #[trigger] entry_models(r@)[k], order),
                decreases r.len() - p,
            {
                assert(entry_models(r@)[p as int] == entry_model(r@[p as int]));
                p = p + 1;
            }
            proof {
                lemma_insert_stable(entry_models(r@), input, mx, p as int, order);
            }
            let ghost old_r = r@;
            r.insert(p, x);
            proof {
                assert forall|j: int| 0 <= j < r@.len() implies parent_of((#[trigger] r@[j]).path.path@) == Some(dir@)
                    && r@[j].tagged == path_views(tags@).contains(r@[j].path.path@) by {
                    if j < p {
                        assert(r@[j] == old_r[j]);
                    } else if j > p {
                        assert(r@[j] == old_r[j - 1]);
                    }
                }
                assert(entry_models(r@) =~= entry_models(old_r).insert(p as int, mx));
                input = input.push(mx);
                assert(raw@.subrange(0, i + 1).filter(sel) =~= raw@.subrange(0, i as int).filter(sel).push(*e));
                assert(input =~= raw@.subrange(0, i + 1).filter(sel).map_values(mk));
            }
        } else {
            proof {
                assert(raw@.subrange(0, i + 1).filter(sel) =~= raw@.subrange(0, i as int).filter(sel));
            }
        }
        i = i + 1;
    }
    assert(raw@.subrange(0, raw@.len() as int) =~= raw@);
    r
}

} // verus!
