use vstd::prelude::*;
use vstd::string::StrSliceExecFns;
use crate::order::{lex_lt, lemma_lex_irreflexive, lemma_lex_transitive, lemma_lex_total};

verus! {

/// What `str::to_lowercase` makes of a string.
pub uninterp spec fn lower_of(s: Seq<char>) -> Seq<char>;

/// Relies on `str::to_lowercase`: its result depends on the characters alone,
/// and the empty string stays empty.
#[verifier::external_body]
fn lowercase(s: &str) -> (r: String)
    ensures
        r@ == lower_of(s@),
        s@.len() == 0 ==> r@.len() == 0,
{
    s.to_lowercase()
}

/// The characters of a string, one per element.
pub fn chars_of(s: &str) -> (r: Vec<char>)
    ensures
        r@ == s@,
{
    let n = s.unicode_len();
    let mut r: Vec<char> = Vec::new();
    let mut i: usize = 0;
    while i < n
        invariant
            n == s@.len(),
            i <= n,
            r@ == s@.subrange(0, i as int),
        decreases n - i,
    {
        r.push(s.get_char(i));
        i = i + 1;
        assert(r@ =~= s@.subrange(0, i as int));
    }
    assert(r@ =~= s@);
    r
}

/// The earliest position at or after `from` that holds `c`.
pub open spec fn first_at(name: Seq<char>, c: char, from: int) -> Option<int>
    decreases name.len() - from,
{
    if from >= name.len() {
        None
    } else if name[from] == c {
        Some(from)
    } else {
        first_at(name, c, from + 1)
    }
}

/// What `first_at` finds holds `c`, and nothing before it from `from` does.
pub proof fn lemma_first_at(name: Seq<char>, c: char, from: int)
    requires
        0 <= from,
    ensures
        match first_at(name, c, from) {
            Some(p) => from <= p < name.len() && name[p] == c && forall|k: int| from <= k < p ==> name[k] != c,
            None => forall|k: int| from <= k < name.len() ==> name[k] != c,
        },
    decreases name.len() - from,
{
    if from < name.len() && name[from] != c {
        lemma_first_at(name, c, from + 1);
    }
}

/// Greedy leftmost assignment of increasing positions in `name`, from `from`
/// on, to the characters of `q` in turn; `None` once a character finds none.
pub open spec fn greedy(q: Seq<char>, name: Seq<char>, from: int) -> Option<Seq<int>>
    decreases q.len(),
{
    if q.len() == 0 {
        Some(Seq::empty())
    } else {
        match first_at(name, q[0], from) {
            None => None,
            Some(p) => match greedy(q.drop_first(), name, p + 1) {
                None => None,
                Some(rest) => Some(seq![p] + rest),
            },
        }
    }
}

/// The score of `name` against the query: one position per query character.
pub open spec fn match_score(q: Seq<char>, name: Seq<char>) -> Option<Seq<int>> {
    greedy(q, name, 0)
}

pub open spec fn prepend(acc: Seq<int>, r: Option<Seq<int>>) -> Option<Seq<int>> {
    match r {
        None => None,
        Some(t) => Some(acc + t),
    }
}

pub open spec fn positions(v: Seq<usize>) -> Seq<int> {
    v.map_values(|x: usize| x as int)
}

/// `r` is the winner among `names`: the first of those with the smallest
/// complete score, or `None` when no name has a complete score.
pub open spec fn is_best_match(q: Seq<char>, names: Seq<Seq<char>>, r: Option<usize>) -> bool {
    &&& (r.is_none() <==> forall|i: int| 0 <= i < names.len() ==> match_score(q, #[trigger] names[i]).is_none())
    &&& (r matches Some(b) ==> {
        &&& b < names.len()
        &&& match_score(q, names[b as int]).is_some()
        &&& forall|j: int| 0 <= j < names.len() && match_score(q, #[trigger] names[j]).is_some()
            ==> !lex_lt(match_score(q, names[j]).unwrap(), match_score(q, names[b as int]).unwrap())
        &&& forall|j: int| 0 <= j < b && match_score(q, #[trigger] names[j]).is_some()
            ==> lex_lt(match_score(q, names[b as int]).unwrap(), match_score(q, names[j]).unwrap())
    })
}

pub open spec fn string_views(v: Seq<String>) -> Seq<Seq<char>> {
    v.map_values(|s: String| s@)
}

pub open spec fn lower_each(v: Seq<Seq<char>>) -> Seq<Seq<char>> {
    v.map_values(|s: Seq<char>| lower_of(s))
}

pub open spec fn starts_with(s: Seq<char>, p: Seq<char>) -> bool {
    p.len() <= s.len() && s.subrange(0, p.len() as int) == p
}

/// `r` is the first of `names` that begins with `p`, if any does.
pub open spec fn is_first_prefixed(p: Seq<char>, names: Seq<Seq<char>>, r: Option<usize>) -> bool {
    match r {
        None => forall|i: int| 0 <= i < names.len() ==> !starts_with(#[trigger] names[i], p),
        Some(b) => b < names.len() && starts_with(names[b as int], p) && forall|i: int|
            0 <= i < b ==> !starts_with(#[trigger] names[i], p),
    }
}

/// The first position at or after `from` that holds `c`.
pub fn scan_for(name: &Vec<char>, c: char, from: usize) -> (r: Option<usize>)
    requires
        from <= name@.len(),
    ensures
        match r {
            None => first_at(name@, c, from as int).is_none(),
            Some(p) => first_at(name@, c, from as int) == Some(p as int) && p < name@.len(),
        },
{
    let mut j = from;
    while j < name.len()
        invariant
            from <= j <= name@.len(),
            first_at(name@, c, from as int) == first_at(name@, c, j as int),
        decreases name.len() - j,
    {
        if name[j] == c {
            return Some(j);
        }
        j = j + 1;
    }
    None
}

/// The greedy score of `name` against `query`, both already case-folded.
pub fn match_positions(query: &Vec<char>, name: &Vec<char>) -> (r: Option<Vec<usize>>)
    ensures
        match r {
            None => match_score(query@, name@).is_none(),
            Some(v) => match_score(query@, name@) == Some(positions(v@)),
        },
{
    let mut acc: Vec<usize> = Vec::new();
    let mut pos: usize = 0;
    let mut k: usize = 0;
    let qn = query.len();
    let nn = name.len();
    assert(query@.subrange(0, qn as int) =~= query@);
    assert(positions(acc@) =~= Seq::<int>::empty());
    proof {
        if let Some(t) = match_score(query@, name@) {
            assert(Seq::<int>::empty() + t =~= t);
        }
    }
    while k < qn
        invariant
            qn == query@.len(),
            nn == name@.len(),
            k <= qn,
            pos <= name@.len(),
            match_score(query@, name@) == prepend(
                positions(acc@),
                greedy(query@.subrange(k as int, qn as int), name@, pos as int),
            ),
        decreases qn - k,
    {
        let ghost t = query@.subrange(k as int, qn as int);
        assert(t[0] == query@[k as int]);
        assert(t.drop_first() =~= query@.subrange(k + 1, qn as int));
        match scan_for(name, query[k], pos) {
            None => {
                return None;
            },
            Some(p) => {
                let ghost before = positions(acc@);
                acc.push(p);
                assert(positions(acc@) =~= before.push(p as int));
                proof {
                    let rest = greedy(t.drop_first(), name@, p + 1);
                    if let Some(tail) = rest {
                        assert(before + (seq![p as int] + tail) =~= before.push(p as int) + tail);
                    }
                }
                pos = p + 1;
                k = k + 1;
            },
        }
    }
    assert(query@.subrange(qn as int, qn as int) =~= Seq::<char>::empty());
    assert(positions(acc@) + Seq::<int>::empty() =~= positions(acc@));
    Some(acc)
}

/// Whether `a` comes strictly before `b` in lexicographic order.
pub fn positions_less(a: &Vec<usize>, b: &Vec<usize>) -> (r: bool)
    ensures
        r == lex_lt(positions(a@), positions(b@)),
{
    let ghost pa = positions(a@);
    let ghost pb = positions(b@);
    let mut i: usize = 0;
    assert(pa.subrange(0, pa.len() as int) =~= pa);
    assert(pb.subrange(0, pb.len() as int) =~= pb);
    while i < a.len() && i < b.len()
        invariant
            i <= a@.len(),
            i <= b@.len(),
            pa == positions(a@),
            pb == positions(b@),
            lex_lt(pa, pb) == lex_lt(
                pa.subrange(i as int, pa.len() as int),
                pb.subrange(i as int, pb.len() as int),
            ),
        decreases a.len() - i,
    {
        let ghost sa = pa.subrange(i as int, pa.len() as int);
        let ghost sb = pb.subrange(i as int, pb.len() as int);
        assert(sa[0] == a@[i as int] as int);
        assert(sb[0] == b@[i as int] as int);
        if a[i] != b[i] {
            return a[i] < b[i];
        }
        assert(sa.drop_first() =~= pa.subrange(i + 1, pa.len() as int));
        assert(sb.drop_first() =~= pb.subrange(i + 1, pb.len() as int));
        i = i + 1;
    }
    i < b.len()
}

/// The first of `names` with the smallest complete score against `query`;
/// query and names are taken as already case-folded.
pub fn best_match(query: &str, names: &Vec<String>) -> (r: Option<usize>)
    ensures
        is_best_match(query@, string_views(names@), r),
{
    let ghost nv = string_views(names@);
    let q = chars_of(query);
    let mut best: Option<usize> = None;
    let mut best_score: Vec<usize> = Vec::new();
    let mut i: usize = 0;
    while i < names.len()
        invariant
            i <= names@.len(),
            nv == string_views(names@),
            q@ == query@,
            best.is_none() <==> forall|j: int| 0 <= j < i ==> match_score(query@, #[trigger] nv[j]).is_none(),
            best matches Some(b) ==> {
                &&& b < i
                &&& match_score(query@, nv[b as int]) == Some(positions(best_score@))
                &&& forall|j: int| 0 <= j < i && match_score(query@, #[trigger] nv[j]).is_some()
                    ==> !lex_lt(match_score(query@, nv[j]).unwrap(), positions(best_score@))
                &&& forall|j: int| 0 <= j < b && match_score(query@, #[trigger] nv[j]).is_some()
                    ==> lex_lt(positions(best_score@), match_score(query@, nv[j]).unwrap())
            },
        decreases names.len() - i,
    {
        let name = chars_of(names[i].as_str());
        assert(name@ == nv[i as int]);
        match match_positions(&q, &name) {
            None => {},
            Some(s) => {
                let ghost si = positions(s@);
                match best {
                    None => {
                        proof {
                            lemma_lex_irreflexive(si);
                        }
                        best = Some(i);
                        best_score = s;
                    },
                    Some(b) => {
                        if positions_less(&s, &best_score) {
                            let ghost sb = positions(best_score@);
                            proof {
                                lemma_lex_irreflexive(si);
                                assert forall|j: int|
                                    0 <= j < i && match_score(query@, #[trigger] nv[j]).is_some()
                                    implies !lex_lt(match_score(query@, nv[j]).unwrap(), si)
                                    && lex_lt(si, match_score(query@, nv[j]).unwrap()) by {
                                    let sj = match_score(query@, nv[j]).unwrap();
                                    if lex_lt(sj, si) {
                                        lemma_lex_transitive(sj, si, sb);
                                    }
                                    if sj != sb {
                                        lemma_lex_total(sj, sb);
                                        lemma_lex_transitive(si, sb, sj);
                                    }
                                }
                            }
                            best = Some(i);
                            best_score = s;
                        }
                    },
                }
            },
        }
        i = i + 1;
    }
    best
}

/// The entry whose case-folded name best matches the case-folded query
/// under the greedy scoring.
pub fn fuzzy_find(query: &str, names: &Vec<String>) -> (r: Option<usize>)
    ensures
        is_best_match(lower_of(query@), lower_each(string_views(names@)), r),
{
    let q = lowercase(query);
    let lowered = lower_all(names);
    best_match(q.as_str(), &lowered)
}

fn lower_all(names: &Vec<String>) -> (r: Vec<String>)
    ensures
        string_views(r@) == lower_each(string_views(names@)),
{
    let mut r: Vec<String> = Vec::new();
    let mut i: usize = 0;
    while i < names.len()
        invariant
            i <= names@.len(),
            r@.len() == i,
            forall|k: int| 0 <= k < i ==> r@[k]@ == lower_of(names@[k]@),
        decreases names.len() - i,
    {
        r.push(lowercase(names[i].as_str()));
        i = i + 1;
    }
    assert(string_views(r@) =~= lower_each(string_views(names@)));
    r
}

/// Whether `s` begins with `p`.
pub fn has_prefix(s: &Vec<char>, p: &Vec<char>) -> (r: bool)
    ensures
        r == starts_with(s@, p@),
{
    if p.len() > s.len() {
        return false;
    }
    let mut i: usize = 0;
    while i < p.len()
        invariant
            p@.len() <= s@.len(),
            i <= p@.len(),
            forall|k: int| 0 <= k < i ==> s@[k] == p@[k],
        decreases p.len() - i,
    {
        if s[i] != p[i] {
            assert(s@.subrange(0, p@.len() as int)[i as int] != p@[i as int]);
            return false;
        }
        i = i + 1;
    }
    assert(s@.subrange(0, p@.len() as int) =~= p@);
    true
}

/// The first of `names` that begins with `prefix`, all taken as already case-folded.
pub fn first_prefixed(prefix: &str, names: &Vec<String>) -> (r: Option<usize>)
    ensures
        is_first_prefixed(prefix@, string_views(names@), r),
{
    let ghost nv = string_views(names@);
    let p = chars_of(prefix);
    let mut i: usize = 0;
    while i < names.len()
        invariant
            i <= names@.len(),
            nv == string_views(names@),
            p@ == prefix@,
            forall|k: int| 0 <= k < i ==> !starts_with(#[trigger] nv[k], prefix@),
        decreases names.len() - i,
    {
        let name = chars_of(names[i].as_str());
        if has_prefix(&name, &p) {
            return Some(i);
        }
        i = i + 1;
    }
    None
}

/// Case-insensitive prefix search: the first name that begins with `prefix`
/// once both are case-folded.
pub fn prefix_find(prefix: &str, names: &Vec<String>) -> (r: Option<usize>)
    ensures
        is_first_prefixed(lower_of(prefix@), lower_each(string_views(names@)), r),
{
    let p = lowercase(prefix);
    let lowered = lower_all(names);
    first_prefixed(p.as_str(), &lowered)
}

} // verus!
