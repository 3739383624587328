//! Stable sorting by keys of several parts, each part ascending or
//! descending, and the collection of distinct texts in first-seen order.

use vstd::prelude::*;
use crate::text::{string_of, chars_eq, chars_lt, lemma_text_lt_irreflexive, lemma_text_lt_total, lemma_text_lt_transitive, text_lt};

verus! {

/// One part of a sort key: nothing, a number, or a text.
#[derive(Debug)]
pub enum KeyPart {
    Missing,
    Number(i128),
    Text(Vec<char>),
}

/// A key part with its text as a character sequence.
pub enum KeyPartView {
    Missing,
    Number(int),
    Text(Seq<char>),
}

impl View for KeyPart {
    type V = KeyPartView;

    open spec fn view(&self) -> KeyPartView {
        match *self {
            KeyPart::Missing => KeyPartView::Missing,
            KeyPart::Number(n) => KeyPartView::Number(n as int),
            KeyPart::Text(t) => KeyPartView::Text(t@),
        }
    }
}

/// The views of the parts of one key.
pub open spec fn key_view(key: Seq<KeyPart>) -> Seq<KeyPartView> {
    Seq::new(key.len(), |i: int| key[i]@)
}

/// The views of a run of keys.
pub open spec fn keys_view(keys: Seq<Vec<KeyPart>>) -> Seq<Seq<KeyPartView>> {
    Seq::new(keys.len(), |i: int| key_view(keys[i]@))
}

/// The order of key parts: a missing part comes first, then numbers by
/// value, then texts in lexicographic order.
pub open spec fn part_lt(a: KeyPartView, b: KeyPartView) -> bool {
    match (a, b) {
        (KeyPartView::Missing, KeyPartView::Missing) => false,
        (KeyPartView::Missing, _) => true,
        (KeyPartView::Number(_), KeyPartView::Missing) => false,
        (KeyPartView::Number(x), KeyPartView::Number(y)) => x < y,
        (KeyPartView::Number(_), KeyPartView::Text(_)) => true,
        (KeyPartView::Text(s), KeyPartView::Text(t)) => text_lt(s, t),
        (KeyPartView::Text(_), _) => false,
    }
}

/// Whether part `a` goes before part `b` in the given direction.
pub open spec fn part_before(a: KeyPartView, b: KeyPartView, descending: bool) -> bool {
    if descending {
        part_lt(b, a)
    } else {
        part_lt(a, b)
    }
}

/// Whether key `a` goes before key `b`: the first part in which they differ
/// decides, in the direction given for that part.
pub open spec fn key_lt(a: Seq<KeyPartView>, b: Seq<KeyPartView>, descending: Seq<bool>) -> bool
    decreases a.len(),
{
    if a.len() == 0 || b.len() == 0 || descending.len() == 0 {
        false
    } else if a[0] != b[0] {
        part_before(a[0], b[0], descending[0])
    } else {
        key_lt(a.drop_first(), b.drop_first(), descending.drop_first())
    }
}

/// Whether the row at `x` goes before the row at `y`: by key, and by position
/// among rows of equal keys.
pub open spec fn row_before(
    keys: Seq<Seq<KeyPartView>>,
    descending: Seq<bool>,
    x: int,
    y: int,
) -> bool {
    key_lt(keys[x], keys[y], descending) || (keys[x] == keys[y] && x < y)
}

/// `order` lists every row position once, each row before the rows that it
/// goes before: the stable sorted order of the keys.
pub open spec fn is_stable_order(
    keys: Seq<Seq<KeyPartView>>,
    descending: Seq<bool>,
    order: Seq<usize>,
) -> bool {
    &&& order.len() == keys.len()
    &&& forall|i: int| 0 <= i < order.len() ==> (#[trigger] order[i]) < keys.len()
    &&& forall|k: int| 0 <= k < keys.len() ==> #[trigger] order.contains(k as usize)
    &&& forall|i: int, j: int|
        0 <= i < j < order.len() ==> row_before(
            keys,
            descending,
            #[trigger] order[i] as int,
            #[trigger] order[j] as int,
        )
}

/// The order of parts is strict and total.
pub proof fn lemma_part_lt_total(a: KeyPartView, b: KeyPartView)
    ensures
        a == b || part_lt(a, b) || part_lt(b, a),
        !(part_lt(a, b) && part_lt(b, a)),
        !part_lt(a, a),
{
    match (a, b) {
        (KeyPartView::Text(s), KeyPartView::Text(t)) => {
            lemma_text_lt_total(s, t);
        },
        _ => {},
    }
    match a {
        KeyPartView::Text(s) => {
            lemma_text_lt_irreflexive(s);
        },
        _ => {},
    }
}

/// The order of parts is transitive.
pub proof fn lemma_part_lt_transitive(a: KeyPartView, b: KeyPartView, c: KeyPartView)
    requires
        part_lt(a, b),
        part_lt(b, c),
    ensures
        part_lt(a, c),
{
    match (a, b, c) {
        (KeyPartView::Text(s), KeyPartView::Text(t), KeyPartView::Text(u)) => {
            lemma_text_lt_transitive(s, t, u);
        },
        _ => {},
    }
}

/// Of two different keys of full length exactly one goes before the other.
pub proof fn lemma_key_lt_total(a: Seq<KeyPartView>, b: Seq<KeyPartView>, descending: Seq<bool>)
    requires
        a.len() == descending.len(),
        b.len() == descending.len(),
    ensures
        a == b || key_lt(a, b, descending) || key_lt(b, a, descending),
        !(key_lt(a, b, descending) && key_lt(b, a, descending)),
        !key_lt(a, a, descending),
    decreases a.len(),
{
    if a.len() == 0 {
        assert(a =~= b);
    } else if a[0] != b[0] {
        lemma_part_lt_total(a[0], b[0]);
        lemma_key_lt_total(a.drop_first(), a.drop_first(), descending.drop_first());
    } else {
        lemma_key_lt_total(a.drop_first(), b.drop_first(), descending.drop_first());
        lemma_key_lt_total(a.drop_first(), a.drop_first(), descending.drop_first());
        if a.drop_first() == b.drop_first() {
            assert forall|i: int| 0 <= i < a.len() implies a[i] == b[i] by {
                if i > 0 {
                    assert(a[i] == a.drop_first()[i - 1]);
                    assert(b[i] == b.drop_first()[i - 1]);
                }
            }
            assert(a =~= b);
        }
    }
}

/// The order of keys is transitive.
pub proof fn lemma_key_lt_transitive(
    a: Seq<KeyPartView>,
    b: Seq<KeyPartView>,
    c: Seq<KeyPartView>,
    descending: Seq<bool>,
)
    requires
        a.len() == descending.len(),
        b.len() == descending.len(),
        c.len() == descending.len(),
        key_lt(a, b, descending),
        key_lt(b, c, descending),
    ensures
        key_lt(a, c, descending),
    decreases a.len(),
{
    if a.len() == 0 {
    } else if a[0] != b[0] {
        if b[0] != c[0] {
            if descending[0] {
                lemma_part_lt_transitive(c[0], b[0], a[0]);
            } else {
                lemma_part_lt_transitive(a[0], b[0], c[0]);
            }
            lemma_part_lt_total(a[0], c[0]);
        }
    } else if b[0] != c[0] {
    } else {
        lemma_key_lt_transitive(
            a.drop_first(),
            b.drop_first(),
            c.drop_first(),
            descending.drop_first(),
        );
    }
}

/// Of two different rows exactly one goes before the other.
pub proof fn lemma_row_before_total(
    keys: Seq<Seq<KeyPartView>>,
    descending: Seq<bool>,
    x: int,
    y: int,
)
    requires
        0 <= x < keys.len(),
        0 <= y < keys.len(),
        keys[x].len() == descending.len(),
        keys[y].len() == descending.len(),
    ensures
        x == y || row_before(keys, descending, x, y) || row_before(keys, descending, y, x),
        !(row_before(keys, descending, x, y) && row_before(keys, descending, y, x)),
{
    lemma_key_lt_total(keys[x], keys[y], descending);
    lemma_key_lt_total(keys[x], keys[x], descending);
}

/// The order of rows is transitive.
pub proof fn lemma_row_before_transitive(
    keys: Seq<Seq<KeyPartView>>,
    descending: Seq<bool>,
    x: int,
    y: int,
    z: int,
)
    requires
        0 <= x < keys.len(),
        0 <= y < keys.len(),
        0 <= z < keys.len(),
        keys[x].len() == descending.len(),
        keys[y].len() == descending.len(),
        keys[z].len() == descending.len(),
        row_before(keys, descending, x, y),
        row_before(keys, descending, y, z),
    ensures
        row_before(keys, descending, x, z),
{
    if key_lt(keys[x], keys[y], descending) && key_lt(keys[y], keys[z], descending) {
        lemma_key_lt_transitive(keys[x], keys[y], keys[z], descending);
    }
}

/// Whether two parts are the same.
pub fn parts_equal(a: &KeyPart, b: &KeyPart) -> (r: bool)
    ensures
        r == (a@ == b@),
{
    match (a, b) {
        (KeyPart::Missing, KeyPart::Missing) => true,
        (KeyPart::Number(x), KeyPart::Number(y)) => *x == *y,
        (KeyPart::Text(s), KeyPart::Text(t)) => chars_eq(s, t),
        _ => false,
    }
}

/// Whether part `a` comes before part `b` in ascending order.
pub fn part_less(a: &KeyPart, b: &KeyPart) -> (r: bool)
    ensures
        r == part_lt(a@, b@),
{
    match (a, b) {
        (KeyPart::Missing, KeyPart::Missing) => false,
        (KeyPart::Missing, _) => true,
        (KeyPart::Number(_), KeyPart::Missing) => false,
        (KeyPart::Number(x), KeyPart::Number(y)) => *x < *y,
        (KeyPart::Number(_), KeyPart::Text(_)) => true,
        (KeyPart::Text(s), KeyPart::Text(t)) => chars_lt(s, t),
        (KeyPart::Text(_), _) => false,
    }
}

/// Whether key `a` goes before key `b`; the second result tells whether the
/// two keys are the same.
pub fn key_less(a: &Vec<KeyPart>, b: &Vec<KeyPart>, descending: &Vec<bool>) -> (r: (bool, bool))
    requires
        a@.len() == descending@.len(),
        b@.len() == descending@.len(),
    ensures
        r.0 == key_lt(key_view(a@), key_view(b@), descending@),
        r.1 == (key_view(a@) == key_view(b@)),
{
    let n: usize = descending.len();
    let mut i: usize = 0;
    let ghost va = key_view(a@);
    let ghost vb = key_view(b@);
    assert(va.skip(0) =~= va);
    assert(vb.skip(0) =~= vb);
    assert(descending@.skip(0) =~= descending@);
    while i < n
        invariant
            n == descending@.len(),
            a@.len() == n,
            b@.len() == n,
            va == key_view(a@),
            vb == key_view(b@),
            i <= n,
            key_lt(va, vb, descending@) == key_lt(
                va.skip(i as int),
                vb.skip(i as int),
                descending@.skip(i as int),
            ),
            forall|k: int| 0 <= k < i ==> va[k] == vb[k],
        decreases n - i,
    {
        assert(va.skip(i as int)[0] == a@[i as int]@);
        assert(vb.skip(i as int)[0] == b@[i as int]@);
        if !parts_equal(&a[i], &b[i]) {
            let less: bool = if descending[i] {
                part_less(&b[i], &a[i])
            } else {
                part_less(&a[i], &b[i])
            };
            assert(va[i as int] != vb[i as int]);
            return (less, false);
        }
        assert(va.skip(i as int).drop_first() =~= va.skip(i + 1));
        assert(vb.skip(i as int).drop_first() =~= vb.skip(i + 1));
        assert(descending@.skip(i as int).drop_first() =~= descending@.skip(i + 1));
        i += 1;
    }
    assert(va =~= vb);
    (false, true)
}

/// Whether the row at `x` goes before the row at `y`.
pub fn row_less(keys: &Vec<Vec<KeyPart>>, descending: &Vec<bool>, x: usize, y: usize) -> (r: bool)
    requires
        x < keys@.len(),
        y < keys@.len(),
        keys@[x as int]@.len() == descending@.len(),
        keys@[y as int]@.len() == descending@.len(),
    ensures
        r == row_before(keys_view(keys@), descending@, x as int, y as int),
{
    let r: (bool, bool) = key_less(&keys[x], &keys[y], descending);
    r.0 || (r.1 && x < y)
}

/// The stable sorted order of the rows: the positions of the rows, each row
/// before every row whose key goes after its own, rows of equal keys in
/// their first order.
pub fn stable_order(keys: &Vec<Vec<KeyPart>>, descending: &Vec<bool>) -> (order: Vec<usize>)
    requires
        forall|i: int| 0 <= i < keys@.len() ==> (#[trigger] keys@[i])@.len() == descending@.len(),
    ensures
        is_stable_order(keys_view(keys@), descending@, order@),
{
    let n: usize = keys.len();
    let ghost kv = keys_view(keys@);
    let mut order: Vec<usize> = Vec::new();
    let mut x: usize = 0;
    while x < n
        invariant
            n == keys@.len(),
            kv == keys_view(keys@),
            x <= n,
            order@.len() == x,
            forall|i: int| 0 <= i < keys@.len() ==> (#[trigger] keys@[i])@.len() == descending@.len(),
            forall|i: int| 0 <= i < order@.len() ==> (#[trigger] order@[i]) < x,
            forall|k: int| 0 <= k < x ==> #[trigger] order@.contains(k as usize),
            forall|i: int, j: int|
                0 <= i < j < order@.len() ==> row_before(
                    kv,
                    descending@,
                    #[trigger] order@[i] as int,
                    #[trigger] order@[j] as int,
                ),
        decreases n - x,
    {
        let mut p: usize = 0;
        while p < order.len() && row_less(keys, descending, order[p], x)
            invariant
                n == keys@.len(),
                kv == keys_view(keys@),
                x < n,
                p <= order@.len(),
                forall|i: int|
                    0 <= i < keys@.len() ==> (#[trigger] keys@[i])@.len() == descending@.len(),
                forall|i: int| 0 <= i < order@.len() ==> (#[trigger] order@[i]) < x,
                forall|i: int|
                    0 <= i < p ==> row_before(kv, descending@, #[trigger] order@[i] as int, x as int),
            decreases order@.len() - p,
        {
            p += 1;
        }
        let ghost before = order@;
        order.insert(p, x);
        proof {
            assert forall|k: int| 0 <= k < x + 1 implies #[trigger] order@.contains(k as usize) by {
                if k == x {
                    assert(order@[p as int] == x);
                } else {
                    assert(before.contains(k as usize));
                    let at = choose|at: int| 0 <= at < before.len() && before[at] == k as usize;
                    if at < p {
                        assert(order@[at] == k as usize);
                    } else {
                        assert(order@[at + 1] == k as usize);
                    }
                }
            }
            assert forall|i: int, j: int| 0 <= i < j < order@.len() implies row_before(
                kv,
                descending@,
                #[trigger] order@[i] as int,
                #[trigger] order@[j] as int,
            ) by {
                if j < p {
                    assert(order@[i] == before[i] && order@[j] == before[j]);
                } else if j == p {
                    assert(order@[i] == before[i]);
                } else if i < p {
                    assert(order@[i] == before[i] && order@[j] == before[j - 1]);
                } else if i == p {
                    let first = before[p as int] as int;
                    let later = before[j - 1] as int;
                    assert(kv[first].len() == descending@.len());
                    assert(kv[later].len() == descending@.len());
                    assert(kv[x as int].len() == descending@.len());
                    lemma_row_before_total(kv, descending@, x as int, first);
                    if j - 1 > p {
                        assert(row_before(kv, descending@, first, later));
                        lemma_row_before_transitive(kv, descending@, x as int, first, later);
                    }
                } else {
                    assert(order@[i] == before[i - 1] && order@[j] == before[j - 1]);
                }
            }
        }
        x += 1;
    }
    order
}


/// The views of a run of texts.
pub open spec fn texts_view(texts: Seq<Vec<char>>) -> Seq<Seq<char>> {
    Seq::new(texts.len(), |i: int| texts[i]@)
}

/// The different texts of a run, each at the place where it is first seen.
pub open spec fn distinct_of(s: Seq<Seq<char>>) -> Seq<Seq<char>>
    decreases s.len(),
{
    if s.len() == 0 {
        Seq::empty()
    } else if distinct_of(s.drop_last()).contains(s.last()) {
        distinct_of(s.drop_last())
    } else {
        distinct_of(s.drop_last()).push(s.last())
    }
}

/// `distinct_of` holds exactly the texts of the run, each once.
pub proof fn lemma_distinct_of(s: Seq<Seq<char>>)
    ensures
        forall|x: Seq<char>| distinct_of(s).contains(x) <==> s.contains(x),
        forall|i: int, j: int|
            0 <= i < j < distinct_of(s).len() ==> distinct_of(s)[i] != distinct_of(s)[j],
        distinct_of(s).len() <= s.len(),
    decreases s.len(),
{
    if s.len() > 0 {
        let rest = s.drop_last();
        let d = distinct_of(rest);
        lemma_distinct_of(rest);
        assert forall|x: Seq<char>| distinct_of(s).contains(x) <==> s.contains(x) by {
            if s.contains(x) {
                let at = choose|at: int| 0 <= at < s.len() && s[at] == x;
                if at < s.len() - 1 {
                    assert(rest[at] == x);
                    assert(rest.contains(x));
                    assert(d.contains(x));
                    let w = choose|w: int| 0 <= w < d.len() && d[w] == x;
                    assert(distinct_of(s)[w] == x);
                } else if !d.contains(x) {
                    assert(distinct_of(s)[d.len() as int] == x);
                }
            }
            if distinct_of(s).contains(x) {
                let w = choose|w: int| 0 <= w < distinct_of(s).len() && distinct_of(s)[w] == x;
                if w < d.len() {
                    assert(d[w] == x);
                    assert(d.contains(x));
                    assert(rest.contains(x));
                    let at = choose|at: int| 0 <= at < rest.len() && rest[at] == x;
                    assert(s[at] == x);
                } else {
                    assert(s[s.len() - 1] == x);
                }
            }
        }
        assert forall|i: int, j: int| 0 <= i < j < distinct_of(s).len() implies distinct_of(s)[i]
            != distinct_of(s)[j] by {
            if j == d.len() {
                assert(d[i] == distinct_of(s)[i]);
                assert(d.contains(d[i]));
            }
        }
    }
}

/// Whether `texts` holds `item`.
pub fn holds_text(texts: &Vec<Vec<char>>, item: &Vec<char>) -> (r: bool)
    ensures
        r == texts_view(texts@).contains(item@),
{
    let mut i: usize = 0;
    while i < texts.len()
        invariant
            i <= texts.len(),
            forall|k: int| 0 <= k < i ==> texts_view(texts@)[k] != item@,
        decreases texts.len() - i,
    {
        if chars_eq(&texts[i], item) {
            assert(texts_view(texts@)[i as int] == item@);
            return true;
        }
        i += 1;
    }
    false
}

/// The position of `item` in `texts`: the first place at which it stands.
pub fn position_of_text(texts: &Vec<Vec<char>>, item: &Vec<char>) -> (r: Option<usize>)
    ensures
        match r {
            Some(at) => at < texts@.len() && texts@[at as int]@ == item@ && forall|k: int|
                0 <= k < at ==> texts_view(texts@)[k] != item@,
            None => !texts_view(texts@).contains(item@),
        },
{
    let mut i: usize = 0;
    while i < texts.len()
        invariant
            i <= texts.len(),
            forall|k: int| 0 <= k < i ==> texts_view(texts@)[k] != item@,
        decreases texts.len() - i,
    {
        if chars_eq(&texts[i], item) {
            return Some(i);
        }
        assert(texts_view(texts@)[i as int] != item@);
        i += 1;
    }
    None
}

/// The different texts of a run, each at the place where it is first seen.
pub fn distinct_texts(texts: &Vec<Vec<char>>) -> (r: Vec<Vec<char>>)
    ensures
        texts_view(r@) == distinct_of(texts_view(texts@)),
{
    let ghost all = texts_view(texts@);
    let mut r: Vec<Vec<char>> = Vec::new();
    let mut i: usize = 0;
    assert(texts_view(r@) =~= distinct_of(all.take(0)));
    while i < texts.len()
        invariant
            i <= texts.len(),
            all == texts_view(texts@),
            texts_view(r@) == distinct_of(all.take(i as int)),
        decreases texts.len() - i,
    {
        let ghost prefix = all.take(i + 1);
        assert(prefix.drop_last() =~= all.take(i as int));
        assert(prefix.last() == texts@[i as int]@);
        if !holds_text(&r, &texts[i]) {
            let ghost old_view = texts_view(r@);
            r.push(texts[i].clone());
            assert(texts_view(r@) =~= old_view.push(texts@[i as int]@));
        }
        i += 1;
    }
    assert(all.take(texts.len() as int) =~= all);
    r
}

/// `sorted` holds exactly the texts of `source`, each once, in ascending
/// lexicographic order.
pub open spec fn is_sorted_texts_of(sorted: Seq<Seq<char>>, source: Seq<Seq<char>>) -> bool {
    &&& forall|i: int, j: int|
        0 <= i < j < sorted.len() ==> text_lt(#[trigger] sorted[i], #[trigger] sorted[j])
    &&& forall|x: Seq<char>| sorted.contains(x) <==> source.contains(x)
}

/// The different texts of a run in ascending lexicographic order.
pub fn sorted_distinct_texts(texts: &Vec<Vec<char>>) -> (r: Vec<Vec<char>>)
    ensures
        is_sorted_texts_of(texts_view(r@), texts_view(texts@)),
        r@.len() <= texts@.len(),
{
    let ghost all = texts_view(texts@);
    let mut r: Vec<Vec<char>> = Vec::new();
    let mut i: usize = 0;
    while i < texts.len()
        invariant
            i <= texts.len(),
            all == texts_view(texts@),
            r@.len() <= i,
            is_sorted_texts_of(texts_view(r@), all.take(i as int)),
        decreases texts.len() - i,
    {
        let item: &Vec<char> = &texts[i];
        let mut p: usize = 0;
        while p < r.len() && chars_lt(&r[p], item)
            invariant
                p <= r@.len(),
                forall|k: int| 0 <= k < p ==> text_lt(texts_view(r@)[k], item@),
            decreases r@.len() - p,
        {
            assert(texts_view(r@)[p as int] == r@[p as int]@);
            p += 1;
        }
        let ghost old_view = texts_view(r@);
        let ghost prefix = all.take(i as int);
        let ghost next = all.take(i + 1);
        let found: bool = p < r.len() && chars_eq(&r[p], item);
        if !found {
            r.insert(p, item.clone());
        }
        proof {
            let new_view = texts_view(r@);
            assert(next.drop_last() =~= prefix);
            assert(next.last() == item@);
            if found {
                assert(old_view[p as int] == item@);
                assert forall|x: Seq<char>| new_view.contains(x) <==> next.contains(x) by {
                    if next.contains(x) {
                        let at = choose|at: int| 0 <= at < next.len() && next[at] == x;
                        if at < i {
                            assert(prefix[at] == x);
                            assert(prefix.contains(x));
                        } else {
                            assert(old_view.contains(x));
                        }
                    }
                    if new_view.contains(x) {
                        assert(prefix.contains(x));
                        let at = choose|at: int| 0 <= at < prefix.len() && prefix[at] == x;
                        assert(next[at] == x);
                    }
                }
            } else {
                assert(new_view =~= old_view.insert(p as int, item@));
                assert forall|a: int, b: int| 0 <= a < b < new_view.len() implies text_lt(
                    #[trigger] new_view[a],
                    #[trigger] new_view[b],
                ) by {
                    if b < p {
                        assert(new_view[a] == old_view[a] && new_view[b] == old_view[b]);
                    } else if b == p {
                        assert(new_view[a] == old_view[a]);
                    } else if a < p {
                        assert(new_view[a] == old_view[a] && new_view[b] == old_view[b - 1]);
                    } else if a == p {
                        let first = old_view[p as int];
                        lemma_text_lt_total(first, item@);
                        if b - 1 > p {
                            assert(text_lt(first, old_view[b - 1]));
                            lemma_text_lt_transitive(item@, first, old_view[b - 1]);
                        }
                    } else {
                        assert(new_view[a] == old_view[a - 1] && new_view[b] == old_view[b - 1]);
                    }
                }
                assert forall|x: Seq<char>| new_view.contains(x) <==> next.contains(x) by {
                    if next.contains(x) {
                        let at = choose|at: int| 0 <= at < next.len() && next[at] == x;
                        if at < i {
                            assert(prefix[at] == x);
                            assert(prefix.contains(x));
                            assert(old_view.contains(x));
                            let w = choose|w: int| 0 <= w < old_view.len() && old_view[w] == x;
                            if w < p {
                                assert(new_view[w] == x);
                            } else {
                                assert(new_view[w + 1] == x);
                            }
                        } else {
                            assert(new_view[p as int] == x);
                        }
                    }
                    if new_view.contains(x) {
                        let w = choose|w: int| 0 <= w < new_view.len() && new_view[w] == x;
                        if w == p {
                            assert(next[i as int] == x);
                        } else {
                            if w < p {
                                assert(old_view[w] == x);
                            } else {
                                assert(old_view[w - 1] == x);
                            }
                            assert(old_view.contains(x));
                            assert(prefix.contains(x));
                            let at = choose|at: int| 0 <= at < prefix.len() && prefix[at] == x;
                            assert(next[at] == x);
                        }
                    }
                }
            }
        }
        i += 1;
    }
    assert(all.take(texts.len() as int) =~= all);
    r
}

/// `sorted` holds exactly the numbers of `source`, each once, ascending.
pub open spec fn is_sorted_numbers_of(sorted: Seq<i128>, source: Seq<i128>) -> bool {
    &&& forall|i: int, j: int|
        0 <= i < j < sorted.len() ==> (#[trigger] sorted[i]) < (#[trigger] sorted[j])
    &&& forall|x: i128| sorted.contains(x) <==> source.contains(x)
}

/// The different numbers of a run in ascending order.
pub fn sorted_distinct_numbers(numbers: &Vec<i128>) -> (r: Vec<i128>)
    ensures
        is_sorted_numbers_of(r@, numbers@),
        r@.len() <= numbers@.len(),
{
    let mut r: Vec<i128> = Vec::new();
    let mut i: usize = 0;
    while i < numbers.len()
        invariant
            i <= numbers.len(),
            r@.len() <= i,
            is_sorted_numbers_of(r@, numbers@.take(i as int)),
        decreases numbers.len() - i,
    {
        let item: i128 = numbers[i];
        let mut p: usize = 0;
        while p < r.len() && r[p] < item
            invariant
                p <= r@.len(),
                forall|k: int| 0 <= k < p ==> r@[k] < item,
            decreases r@.len() - p,
        {
            p += 1;
        }
        let ghost old_view = r@;
        let ghost prefix = numbers@.take(i as int);
        let ghost next = numbers@.take(i + 1);
        let found: bool = p < r.len() && r[p] == item;
        if !found {
            r.insert(p, item);
        }
        proof {
            let new_view = r@;
            assert(next.drop_last() =~= prefix);
            assert(next.last() == item);
            if found {
                assert forall|x: i128| new_view.contains(x) <==> next.contains(x) by {
                    if next.contains(x) {
                        let at = choose|at: int| 0 <= at < next.len() && next[at] == x;
                        if at < i {
                            assert(prefix[at] == x);
                            assert(prefix.contains(x));
                        } else {
                            assert(old_view[p as int] == x);
                            assert(old_view.contains(x));
                        }
                    }
                    if new_view.contains(x) {
                        assert(prefix.contains(x));
                        let at = choose|at: int| 0 <= at < prefix.len() && prefix[at] == x;
                        assert(next[at] == x);
                    }
                }
            } else {
                assert forall|a: int, b: int| 0 <= a < b < new_view.len() implies (
                #[trigger] new_view[a]) < (#[trigger] new_view[b]) by {
                    if b < p {
                        assert(new_view[a] == old_view[a] && new_view[b] == old_view[b]);
                    } else if b == p {
                        assert(new_view[a] == old_view[a]);
                    } else if a < p {
                        assert(new_view[a] == old_view[a] && new_view[b] == old_view[b - 1]);
                    } else if a == p {
                        if b - 1 > p {
                            assert(old_view[p as int] < old_view[b - 1]);
                        }
                    } else {
                        assert(new_view[a] == old_view[a - 1] && new_view[b] == old_view[b - 1]);
                    }
                }
                assert forall|x: i128| new_view.contains(x) <==> next.contains(x) by {
                    if next.contains(x) {
                        let at = choose|at: int| 0 <= at < next.len() && next[at] == x;
                        if at < i {
                            assert(prefix[at] == x);
                            assert(prefix.contains(x));
                            assert(old_view.contains(x));
                            let w = choose|w: int| 0 <= w < old_view.len() && old_view[w] == x;
                            if w < p {
                                assert(new_view[w] == x);
                            } else {
                                assert(new_view[w + 1] == x);
                            }
                        } else {
                            assert(new_view[p as int] == x);
                        }
                    }
                    if new_view.contains(x) {
                        let w = choose|w: int| 0 <= w < new_view.len() && new_view[w] == x;
                        if w == p {
                            assert(next[i as int] == x);
                        } else {
                            if w < p {
                                assert(old_view[w] == x);
                            } else {
                                assert(old_view[w - 1] == x);
                            }
                            assert(old_view.contains(x));
                            assert(prefix.contains(x));
                            let at = choose|at: int| 0 <= at < prefix.len() && prefix[at] == x;
                            assert(next[at] == x);
                        }
                    }
                }
            }
        }
        i += 1;
    }
    assert(numbers@.take(numbers.len() as int) =~= numbers@);
    r
}


/// The texts of a run of strings.
pub open spec fn strings_view(strings: Seq<String>) -> Seq<Seq<char>> {
    Seq::new(strings.len(), |i: int| strings[i]@)
}

/// The strings of a run of texts.
pub fn strings_of(texts: &Vec<Vec<char>>) -> (strings: Vec<String>)
    ensures
        strings_view(strings@) == texts_view(texts@),
        strings@.len() == texts@.len(),
        forall|k: int| 0 <= k < strings@.len() ==> (#[trigger] strings@[k])@ == texts@[k]@,
{
    let mut strings: Vec<String> = Vec::new();
    let mut i: usize = 0;
    while i < texts.len()
        invariant
            i <= texts.len(),
            strings@.len() == i,
            forall|k: int| 0 <= k < i ==> (#[trigger] strings@[k])@ == texts@[k]@,
        decreases texts.len() - i,
    {
        strings.push(string_of(&texts[i]));
        i += 1;
    }
    assert(strings_view(strings@) =~= texts_view(texts@));
    strings
}



/// Whether every key has one part for each direction.
pub open spec fn keys_fit(keys: Seq<Seq<KeyPartView>>, descending: Seq<bool>) -> bool {
    forall|i: int| 0 <= i < keys.len() ==> (#[trigger] keys[i]).len() == descending.len()
}

/// Two stable sorted orders of the same keys agree up to every position.
proof fn lemma_orders_agree(
    keys: Seq<Seq<KeyPartView>>,
    descending: Seq<bool>,
    a: Seq<usize>,
    b: Seq<usize>,
    i: int,
)
    requires
        keys_fit(keys, descending),
        is_stable_order(keys, descending, a),
        is_stable_order(keys, descending, b),
        0 <= i < keys.len(),
    ensures
        forall|j: int| 0 <= j <= i ==> a[j] == b[j],
    decreases i,
{
    if i > 0 {
        lemma_orders_agree(keys, descending, a, b, i - 1);
    }
    let x = a[i];
    let y = b[i];
    if x != y {
        assert(b.contains(x as int as usize));
        let p = choose|p: int| 0 <= p < b.len() && b[p] == x;
        assert(a.contains(y as int as usize));
        let q = choose|q: int| 0 <= q < a.len() && a[q] == y;
        lemma_row_before_total(keys, descending, x as int, y as int);
        lemma_row_before_total(keys, descending, x as int, x as int);
        lemma_row_before_total(keys, descending, y as int, y as int);
        if p < i {
            assert(a[p] == b[p]);
            assert(row_before(keys, descending, a[p] as int, a[i] as int));
        } else {
            assert(row_before(keys, descending, b[i] as int, b[p] as int));
        }
        if q < i {
            assert(a[q] == b[q]);
            assert(row_before(keys, descending, b[q] as int, b[i] as int));
        } else {
            assert(row_before(keys, descending, a[i] as int, a[q] as int));
        }
    }
}

/// The keys have one stable sorted order only.
pub proof fn lemma_stable_order_unique(
    keys: Seq<Seq<KeyPartView>>,
    descending: Seq<bool>,
    a: Seq<usize>,
    b: Seq<usize>,
)
    requires
        keys_fit(keys, descending),
        is_stable_order(keys, descending, a),
        is_stable_order(keys, descending, b),
    ensures
        a == b,
{
    if keys.len() > 0 {
        lemma_orders_agree(keys, descending, a, b, keys.len() - 1);
    }
    assert(a =~= b);
}

/// A place for row `x` in an order: every row ahead of the place goes before
/// `x`, and the row at the place, where there is one, does not.
proof fn lemma_place_of_row(
    keys: Seq<Seq<KeyPartView>>,
    descending: Seq<bool>,
    order: Seq<usize>,
    x: int,
    from: int,
) -> (p: int)
    requires
        0 <= from <= order.len(),
        forall|i: int| 0 <= i < from ==> row_before(keys, descending, #[trigger] order[i] as int, x),
    ensures
        from <= p <= order.len(),
        forall|i: int| 0 <= i < p ==> row_before(keys, descending, #[trigger] order[i] as int, x),
        p < order.len() ==> !row_before(keys, descending, order[p] as int, x),
    decreases order.len() - from,
{
    if from < order.len() && row_before(keys, descending, order[from] as int, x) {
        lemma_place_of_row(keys, descending, order, x, from + 1)
    } else {
        from
    }
}

/// A stable sorted order of the keys, built by putting each row in its
/// place among the rows ahead of it.
proof fn lemma_stable_order_exists(keys: Seq<Seq<KeyPartView>>, descending: Seq<bool>) -> (order:
    Seq<usize>)
    requires
        keys_fit(keys, descending),
        keys.len() <= usize::MAX,
    ensures
        is_stable_order(keys, descending, order),
    decreases keys.len(),
{
    if keys.len() == 0 {
        Seq::empty()
    } else {
        let fewer = keys.drop_last();
        let x: int = keys.len() - 1;
        assert forall|i: int| 0 <= i < fewer.len() implies (#[trigger] fewer[i]).len()
            == descending.len() by {
            assert(fewer[i] == keys[i]);
        }
        let before = lemma_stable_order_exists(fewer, descending);
        assert forall|i: int, j: int| 0 <= i < j < before.len() implies row_before(
            keys,
            descending,
            #[trigger] before[i] as int,
            #[trigger] before[j] as int,
        ) by {
            assert(row_before(fewer, descending, before[i] as int, before[j] as int));
            assert(fewer[before[i] as int] == keys[before[i] as int]);
            assert(fewer[before[j] as int] == keys[before[j] as int]);
        }
        let p = lemma_place_of_row(keys, descending, before, x, 0);
        let order = before.insert(p, x as usize);
        assert forall|i: int| 0 <= i < order.len() implies (#[trigger] order[i]) < keys.len() by {
            if i < p {
                assert(order[i] == before[i]);
            } else if i > p {
                assert(order[i] == before[i - 1]);
            }
        }
        assert forall|k: int| 0 <= k < keys.len() implies #[trigger] order.contains(
            k as usize,
        ) by {
            if k == x {
                assert(order[p] == x as usize);
            } else {
                assert(before.contains(k as usize));
                let at = choose|at: int| 0 <= at < before.len() && before[at] == k as usize;
                if at < p {
                    assert(order[at] == k as usize);
                } else {
                    assert(order[at + 1] == k as usize);
                }
            }
        }
        assert forall|i: int, j: int| 0 <= i < j < order.len() implies row_before(
            keys,
            descending,
            #[trigger] order[i] as int,
            #[trigger] order[j] as int,
        ) by {
            if j < p {
                assert(order[i] == before[i] && order[j] == before[j]);
            } else if j == p {
                assert(order[i] == before[i]);
            } else if i < p {
                assert(order[i] == before[i] && order[j] == before[j - 1]);
            } else if i == p {
                let first = before[p] as int;
                let later = before[j - 1] as int;
                assert(order[j] == before[j - 1]);
                assert(first < x && later < x);
                lemma_row_before_total(keys, descending, x, first);
                if j - 1 > p {
                    assert(row_before(keys, descending, first, later));
                    lemma_row_before_transitive(keys, descending, x, first, later);
                }
            } else {
                assert(order[i] == before[i - 1] && order[j] == before[j - 1]);
            }
        }
        order
    }
}

/// The stable sorted order of the keys: the positions of the rows, each row
/// before every row whose key goes after its own, rows of equal keys in
/// their first order.
pub open spec fn stable_order_of(keys: Seq<Seq<KeyPartView>>, descending: Seq<bool>) -> Seq<usize> {
    choose|order: Seq<usize>| is_stable_order(keys, descending, order)
}

/// Keys that have one part for each direction, no more of them than a table
/// has rows, have a stable sorted order, and `stable_order_of` is that
/// order: it lists every row once, each row before the rows that it goes
/// before.
pub proof fn law_stable_order_exists(keys: Seq<Seq<KeyPartView>>, descending: Seq<bool>)
    requires
        keys_fit(keys, descending),
        keys.len() <= usize::MAX,
    ensures
        is_stable_order(keys, descending, stable_order_of(keys, descending)),
{
    let order = lemma_stable_order_exists(keys, descending);
    assert(is_stable_order(keys, descending, order));
}

/// The stable sorted order of the rows, as `stable_order_of` names it.
pub fn sorted_order(keys: &Vec<Vec<KeyPart>>, descending: &Vec<bool>) -> (order: Vec<usize>)
    requires
        forall|i: int| 0 <= i < keys@.len() ==> (#[trigger] keys@[i])@.len() == descending@.len(),
    ensures
        order@ == stable_order_of(keys_view(keys@), descending@),
        is_stable_order(keys_view(keys@), descending@, order@),
{
    let order: Vec<usize> = stable_order(keys, descending);
    proof {
        let kv = keys_view(keys@);
        assert(keys_fit(kv, descending@)) by {
            assert forall|i: int| 0 <= i < kv.len() implies (#[trigger] kv[i]).len()
                == descending@.len() by {
                assert(keys@[i]@.len() == descending@.len());
            }
        }
        lemma_stable_order_unique(kv, descending@, order@, stable_order_of(kv, descending@));
    }
    order
}


/// Two ascending runs of different texts that hold the same texts agree up
/// to every position.
proof fn lemma_sorted_texts_agree(a: Seq<Seq<char>>, b: Seq<Seq<char>>, source: Seq<Seq<char>>, i: int)
    requires
        is_sorted_texts_of(a, source),
        is_sorted_texts_of(b, source),
        0 <= i < a.len(),
        0 <= i < b.len(),
    ensures
        forall|j: int| 0 <= j <= i ==> a[j] == b[j],
    decreases i,
{
    if i > 0 {
        lemma_sorted_texts_agree(a, b, source, i - 1);
    }
    let x = a[i];
    let y = b[i];
    if x != y {
        assert(a.contains(x));
        assert(b.contains(x));
        let p = choose|p: int| 0 <= p < b.len() && b[p] == x;
        assert(b.contains(y));
        assert(a.contains(y));
        let q = choose|q: int| 0 <= q < a.len() && a[q] == y;
        lemma_text_lt_total(x, y);
        lemma_text_lt_irreflexive(x);
        lemma_text_lt_irreflexive(y);
        if p < i {
            assert(a[p] == b[p]);
            assert(text_lt(a[p], a[i]));
        } else {
            assert(text_lt(b[i], b[p]));
        }
        if q < i {
            assert(a[q] == b[q]);
            assert(text_lt(b[q], b[i]));
        } else {
            assert(text_lt(a[i], a[q]));
        }
    }
}

/// There is one ascending run of the different texts of a source only.
pub proof fn lemma_sorted_texts_unique(a: Seq<Seq<char>>, b: Seq<Seq<char>>, source: Seq<Seq<char>>)
    requires
        is_sorted_texts_of(a, source),
        is_sorted_texts_of(b, source),
    ensures
        a == b,
{
    if a.len() > 0 && b.len() > 0 {
        let m = if a.len() <= b.len() {
            a.len() - 1
        } else {
            b.len() - 1
        };
        lemma_sorted_texts_agree(a, b, source, m);
        if a.len() < b.len() {
            let extra = b[a.len() as int];
            assert(b.contains(extra));
            assert(a.contains(extra));
            let q = choose|q: int| 0 <= q < a.len() && a[q] == extra;
            assert(b[q] == a[q]);
            assert(text_lt(b[q], b[a.len() as int]));
            lemma_text_lt_irreflexive(extra);
        }
        if b.len() < a.len() {
            let extra = a[b.len() as int];
            assert(a.contains(extra));
            assert(b.contains(extra));
            let q = choose|q: int| 0 <= q < b.len() && b[q] == extra;
            assert(b[q] == a[q]);
            assert(text_lt(a[q], a[b.len() as int]));
            lemma_text_lt_irreflexive(extra);
        }
    } else if a.len() > 0 {
        assert(a.contains(a[0]));
        assert(b.contains(a[0]));
    } else if b.len() > 0 {
        assert(b.contains(b[0]));
        assert(a.contains(b[0]));
    }
    assert(a =~= b);
}

/// A place for a text in an ascending run: every text ahead of the place
/// comes before it, and the text at the place, where there is one, does not.
proof fn lemma_place_of_text(sorted: Seq<Seq<char>>, x: Seq<char>, from: int) -> (p: int)
    requires
        0 <= from <= sorted.len(),
        forall|i: int| 0 <= i < from ==> text_lt(#[trigger] sorted[i], x),
    ensures
        from <= p <= sorted.len(),
        forall|i: int| 0 <= i < p ==> text_lt(#[trigger] sorted[i], x),
        p < sorted.len() ==> !text_lt(sorted[p], x),
    decreases sorted.len() - from,
{
    if from < sorted.len() && text_lt(sorted[from], x) {
        lemma_place_of_text(sorted, x, from + 1)
    } else {
        from
    }
}

/// An ascending run of the different texts of a source, built by putting
/// each text that is new in its place among those ahead of it.
proof fn lemma_sorted_texts_exist(source: Seq<Seq<char>>) -> (sorted: Seq<Seq<char>>)
    ensures
        is_sorted_texts_of(sorted, source),
    decreases source.len(),
{
    if source.len() == 0 {
        let sorted = Seq::<Seq<char>>::empty();
        assert forall|y: Seq<char>| sorted.contains(y) <==> source.contains(y) by {}
        sorted
    } else {
        let fewer = source.drop_last();
        let x = source.last();
        let before = lemma_sorted_texts_exist(fewer);
        assert forall|y: Seq<char>| source.contains(y) <==> (fewer.contains(y) || y == x) by {
            if source.contains(y) {
                let at = choose|at: int| 0 <= at < source.len() && source[at] == y;
                if at < fewer.len() {
                    assert(fewer[at] == y);
                }
            }
            if fewer.contains(y) {
                let at = choose|at: int| 0 <= at < fewer.len() && fewer[at] == y;
                assert(source[at] == y);
            }
            if y == x {
                assert(source[source.len() - 1] == y);
            }
        }
        if before.contains(x) {
            before
        } else {
            let p = lemma_place_of_text(before, x, 0);
            let sorted = before.insert(p, x);
            assert forall|y: Seq<char>| sorted.contains(y) <==> (before.contains(y) || y == x) by {
                if sorted.contains(y) {
                    let at = choose|at: int| 0 <= at < sorted.len() && sorted[at] == y;
                    if at < p {
                        assert(before[at] == y);
                    } else if at > p {
                        assert(before[at - 1] == y);
                    }
                }
                if before.contains(y) {
                    let at = choose|at: int| 0 <= at < before.len() && before[at] == y;
                    if at < p {
                        assert(sorted[at] == y);
                    } else {
                        assert(sorted[at + 1] == y);
                    }
                }
                if y == x {
                    assert(sorted[p] == y);
                }
            }
            assert forall|i: int, j: int| 0 <= i < j < sorted.len() implies text_lt(
                #[trigger] sorted[i],
                #[trigger] sorted[j],
            ) by {
                if j < p {
                    assert(sorted[i] == before[i] && sorted[j] == before[j]);
                } else if j == p {
                    assert(sorted[i] == before[i]);
                } else if i < p {
                    assert(sorted[i] == before[i] && sorted[j] == before[j - 1]);
                } else if i == p {
                    let first = before[p];
                    let later = before[j - 1];
                    assert(sorted[j] == later);
                    assert(before.contains(first));
                    lemma_text_lt_total(x, first);
                    if j - 1 > p {
                        assert(text_lt(first, later));
                        lemma_text_lt_transitive(x, first, later);
                    }
                } else {
                    assert(sorted[i] == before[i - 1] && sorted[j] == before[j - 1]);
                }
            }
            sorted
        }
    }
}

/// The different texts of a source in ascending lexicographic order.
pub open spec fn sorted_texts(source: Seq<Seq<char>>) -> Seq<Seq<char>> {
    choose|sorted: Seq<Seq<char>>| is_sorted_texts_of(sorted, source)
}

/// Every source has an ascending run of its different texts, and
/// `sorted_texts` is that run: it holds exactly the texts of the source,
/// each once, in ascending lexicographic order.
pub proof fn law_sorted_texts_exist(source: Seq<Seq<char>>)
    ensures
        is_sorted_texts_of(sorted_texts(source), source),
{
    let sorted = lemma_sorted_texts_exist(source);
    assert(is_sorted_texts_of(sorted, source));
}

/// The different texts of a run in ascending lexicographic order, as
/// `sorted_texts` names them.
pub fn sort_texts(texts: &Vec<Vec<char>>) -> (r: Vec<Vec<char>>)
    ensures
        texts_view(r@) == sorted_texts(texts_view(texts@)),
        is_sorted_texts_of(texts_view(r@), texts_view(texts@)),
        r@.len() <= texts@.len(),
{
    let r: Vec<Vec<char>> = sorted_distinct_texts(texts);
    proof {
        lemma_sorted_texts_unique(
            texts_view(r@),
            sorted_texts(texts_view(texts@)),
            texts_view(texts@),
        );
    }
    r
}

/// Two ascending runs of different numbers that hold the same numbers agree
/// up to every position.
proof fn lemma_sorted_numbers_agree(a: Seq<i128>, b: Seq<i128>, source: Seq<i128>, i: int)
    requires
        is_sorted_numbers_of(a, source),
        is_sorted_numbers_of(b, source),
        0 <= i < a.len(),
        0 <= i < b.len(),
    ensures
        forall|j: int| 0 <= j <= i ==> a[j] == b[j],
    decreases i,
{
    if i > 0 {
        lemma_sorted_numbers_agree(a, b, source, i - 1);
    }
    let x = a[i];
    let y = b[i];
    if x != y {
        assert(a.contains(x));
        assert(b.contains(x));
        let p = choose|p: int| 0 <= p < b.len() && b[p] == x;
        assert(b.contains(y));
        assert(a.contains(y));
        let q = choose|q: int| 0 <= q < a.len() && a[q] == y;
        if p < i {
            assert(a[p] == b[p]);
            assert(a[p] < a[i]);
        } else {
            assert(b[i] < b[p]);
        }
        if q < i {
            assert(a[q] == b[q]);
            assert(b[q] < b[i]);
        } else {
            assert(a[i] < a[q]);
        }
    }
}

/// There is one ascending run of the different numbers of a source only.
pub proof fn lemma_sorted_numbers_unique(a: Seq<i128>, b: Seq<i128>, source: Seq<i128>)
    requires
        is_sorted_numbers_of(a, source),
        is_sorted_numbers_of(b, source),
    ensures
        a == b,
{
    if a.len() > 0 && b.len() > 0 {
        let m = if a.len() <= b.len() {
            a.len() - 1
        } else {
            b.len() - 1
        };
        lemma_sorted_numbers_agree(a, b, source, m);
        if a.len() < b.len() {
            let extra = b[a.len() as int];
            assert(b.contains(extra));
            assert(a.contains(extra));
            let q = choose|q: int| 0 <= q < a.len() && a[q] == extra;
            assert(b[q] == a[q]);
            assert(b[q] < b[a.len() as int]);
        }
        if b.len() < a.len() {
            let extra = a[b.len() as int];
            assert(a.contains(extra));
            assert(b.contains(extra));
            let q = choose|q: int| 0 <= q < b.len() && b[q] == extra;
            assert(b[q] == a[q]);
            assert(a[q] < a[b.len() as int]);
        }
    } else if a.len() > 0 {
        assert(a.contains(a[0]));
        assert(b.contains(a[0]));
    } else if b.len() > 0 {
        assert(b.contains(b[0]));
        assert(a.contains(b[0]));
    }
    assert(a =~= b);
}

/// A place for a number in an ascending run: every number ahead of the place
/// is smaller, and the number at the place, where there is one, is not.
proof fn lemma_place_of_number(sorted: Seq<i128>, x: i128, from: int) -> (p: int)
    requires
        0 <= from <= sorted.len(),
        forall|i: int| 0 <= i < from ==> (#[trigger] sorted[i]) < x,
    ensures
        from <= p <= sorted.len(),
        forall|i: int| 0 <= i < p ==> (#[trigger] sorted[i]) < x,
        p < sorted.len() ==> sorted[p] >= x,
    decreases sorted.len() - from,
{
    if from < sorted.len() && sorted[from] < x {
        lemma_place_of_number(sorted, x, from + 1)
    } else {
        from
    }
}

/// An ascending run of the different numbers of a source, built by putting
/// each number that is new in its place among those ahead of it.
proof fn lemma_sorted_numbers_exist(source: Seq<i128>) -> (sorted: Seq<i128>)
    ensures
        is_sorted_numbers_of(sorted, source),
    decreases source.len(),
{
    if source.len() == 0 {
        let sorted = Seq::<i128>::empty();
        assert forall|y: i128| sorted.contains(y) <==> source.contains(y) by {}
        sorted
    } else {
        let fewer = source.drop_last();
        let x = source.last();
        let before = lemma_sorted_numbers_exist(fewer);
        assert forall|y: i128| source.contains(y) <==> (fewer.contains(y) || y == x) by {
            if source.contains(y) {
                let at = choose|at: int| 0 <= at < source.len() && source[at] == y;
                if at < fewer.len() {
                    assert(fewer[at] == y);
                }
            }
            if fewer.contains(y) {
                let at = choose|at: int| 0 <= at < fewer.len() && fewer[at] == y;
                assert(source[at] == y);
            }
            if y == x {
                assert(source[source.len() - 1] == y);
            }
        }
        if before.contains(x) {
            before
        } else {
            let p = lemma_place_of_number(before, x, 0);
            let sorted = before.insert(p, x);
            assert forall|y: i128| sorted.contains(y) <==> (before.contains(y) || y == x) by {
                if sorted.contains(y) {
                    let at = choose|at: int| 0 <= at < sorted.len() && sorted[at] == y;
                    if at < p {
                        assert(before[at] == y);
                    } else if at > p {
                        assert(before[at - 1] == y);
                    }
                }
                if before.contains(y) {
                    let at = choose|at: int| 0 <= at < before.len() && before[at] == y;
                    if at < p {
                        assert(sorted[at] == y);
                    } else {
                        assert(sorted[at + 1] == y);
                    }
                }
                if y == x {
                    assert(sorted[p] == y);
                }
            }
            assert forall|i: int, j: int| 0 <= i < j < sorted.len() implies (#[trigger] sorted[i])
                < (#[trigger] sorted[j]) by {
                if j < p {
                    assert(sorted[i] == before[i] && sorted[j] == before[j]);
                } else if j == p {
                    assert(sorted[i] == before[i]);
                } else if i < p {
                    assert(sorted[i] == before[i] && sorted[j] == before[j - 1]);
                } else if i == p {
                    let first = before[p];
                    let later = before[j - 1];
                    assert(sorted[j] == later);
                    assert(before.contains(first));
                    if j - 1 > p {
                        assert(first < later);
                    }
                } else {
                    assert(sorted[i] == before[i - 1] && sorted[j] == before[j - 1]);
                }
            }
            sorted
        }
    }
}

/// The different numbers of a source in ascending order.
pub open spec fn sorted_numbers(source: Seq<i128>) -> Seq<i128> {
    choose|sorted: Seq<i128>| is_sorted_numbers_of(sorted, source)
}

/// Every source has an ascending run of its different numbers, and
/// `sorted_numbers` is that run: it holds exactly the numbers of the source,
/// each once, in ascending order.
pub proof fn law_sorted_numbers_exist(source: Seq<i128>)
    ensures
        is_sorted_numbers_of(sorted_numbers(source), source),
{
    let sorted = lemma_sorted_numbers_exist(source);
    assert(is_sorted_numbers_of(sorted, source));
}

/// The different numbers of a run in ascending order, as `sorted_numbers`
/// names them.
pub fn sort_numbers(numbers: &Vec<i128>) -> (r: Vec<i128>)
    ensures
        r@ == sorted_numbers(numbers@),
        is_sorted_numbers_of(r@, numbers@),
        r@.len() <= numbers@.len(),
{
    let r: Vec<i128> = sorted_distinct_numbers(numbers);
    proof {
        lemma_sorted_numbers_unique(r@, sorted_numbers(numbers@), numbers@);
    }
    r
}

} // verus!
