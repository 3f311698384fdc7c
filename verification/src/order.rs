//! The order in which the log shows events: by a column, ascending or
//! descending, with events that tie keeping their order in the log.
use vstd::prelude::*;
use crate::event::FocusEvent;
use crate::text::{
    chars_before, chars_less, lemma_chars_before_irreflexive, lemma_chars_before_total,
    lemma_chars_before_transitive,
};

verus! {

/// The column the log is sorted by.
#[derive(Clone, Copy, Debug, PartialEq, Eq, Structural)]
pub enum SortKey {
    Time,
    App,
    Title,
    Prev,
}

/// The text of a text column of an event.
pub open spec fn text_key(key: SortKey, e: FocusEvent) -> Seq<char> {
    match key {
        SortKey::App => e.app_name@,
        SortKey::Title => e.window_title@,
        _ => e.previous_app@,
    }
}

/// `a` comes before `b` in the column `key`, ascending: times in
/// chronological order, texts in lexicographic order.
pub open spec fn key_before(key: SortKey, a: FocusEvent, b: FocusEvent) -> bool {
    match key {
        SortKey::Time => a.ts.earlier(b.ts),
        _ => chars_before(text_key(key, a), text_key(key, b)),
    }
}

/// `a` and `b` hold the same value in the column `key`.
pub open spec fn same_key(key: SortKey, a: FocusEvent, b: FocusEvent) -> bool {
    match key {
        SortKey::Time => a.ts == b.ts,
        _ => text_key(key, a) == text_key(key, b),
    }
}

/// The event at `i` is shown above the event at `j`: the order of the log
/// where there is no sort; else the order of the column (reversed where
/// descending), with ties in the order of the log.
pub open spec fn shown_before(
    events: Seq<FocusEvent>,
    sort: Option<(SortKey, bool)>,
    i: int,
    j: int,
) -> bool {
    match sort {
        None => i < j,
        Some((key, asc)) => {
            ||| (if asc {
                key_before(key, events[i], events[j])
            } else {
                key_before(key, events[j], events[i])
            })
            ||| (same_key(key, events[i], events[j]) && i < j)
        },
    }
}

/// Each index in `order` is shown above every later one.
pub open spec fn in_shown_order(
    events: Seq<FocusEvent>,
    sort: Option<(SortKey, bool)>,
    order: Seq<usize>,
) -> bool {
    forall|a: int, b: int|
        #![trigger order[a], order[b]]
        0 <= a < b < order.len() ==> shown_before(events, sort, order[a] as int, order[b] as int)
}

/// Facts of the column order: it is a strict order, and two events either
/// hold the same value or one comes first.
pub proof fn lemma_key_order(key: SortKey, a: FocusEvent, b: FocusEvent, c: FocusEvent)
    ensures
        !key_before(key, a, a),
        same_key(key, a, a),
        key_before(key, a, b) && key_before(key, b, c) ==> key_before(key, a, c),
        key_before(key, a, b) || key_before(key, b, a) || same_key(key, a, b),
        same_key(key, a, b) ==> !key_before(key, a, b) && same_key(key, b, a),
        same_key(key, a, b) && same_key(key, b, c) ==> same_key(key, a, c),
        same_key(key, a, b) ==> (key_before(key, a, c) == key_before(key, b, c)),
        same_key(key, a, b) ==> (key_before(key, c, a) == key_before(key, c, b)),
{
    match key {
        SortKey::Time => {},
        _ => {
            let (ta, tb, tc) = (text_key(key, a), text_key(key, b), text_key(key, c));
            lemma_chars_before_irreflexive(ta);
            lemma_chars_before_total(ta, tb);
            if chars_before(ta, tb) && chars_before(tb, tc) {
                lemma_chars_before_transitive(ta, tb, tc);
            }
        },
    }
}

/// Nothing is shown above itself.
pub proof fn lemma_shown_irreflexive(events: Seq<FocusEvent>, sort: Option<(SortKey, bool)>, i: int)
    ensures
        !shown_before(events, sort, i, i),
{
    if let Some((key, asc)) = sort {
        lemma_key_order(key, events[i], events[i], events[i]);
    }
}

/// Being shown above is transitive.
pub proof fn lemma_shown_transitive(
    events: Seq<FocusEvent>,
    sort: Option<(SortKey, bool)>,
    i: int,
    j: int,
    k: int,
)
    requires
        shown_before(events, sort, i, j),
        shown_before(events, sort, j, k),
    ensures
        shown_before(events, sort, i, k),
{
    if let Some((key, asc)) = sort {
        let (a, b, c) = (events[i], events[j], events[k]);
        lemma_key_order(key, a, b, c);
        lemma_key_order(key, c, b, a);
        lemma_key_order(key, b, a, c);
        lemma_key_order(key, b, c, a);
        lemma_key_order(key, a, c, b);
        lemma_key_order(key, c, a, b);
    }
}

/// Of two different indices, one is shown above the other.
pub proof fn lemma_shown_total(
    events: Seq<FocusEvent>,
    sort: Option<(SortKey, bool)>,
    i: int,
    j: int,
)
    requires
        i != j,
    ensures
        shown_before(events, sort, i, j) || shown_before(events, sort, j, i),
{
    if let Some((key, asc)) = sort {
        lemma_key_order(key, events[i], events[j], events[i]);
    }
}

/// Two sequences in shown order that hold the same indices are equal: the
/// shown order leaves no choice.
pub proof fn lemma_shown_order_unique(
    events: Seq<FocusEvent>,
    sort: Option<(SortKey, bool)>,
    a: Seq<usize>,
    b: Seq<usize>,
)
    requires
        in_shown_order(events, sort, a),
        in_shown_order(events, sort, b),
        forall|x: usize| a.contains(x) <==> b.contains(x),
    ensures
        a == b,
    decreases a.len(),
{
    if a.len() == 0 {
        if b.len() > 0 {
            assert(b.contains(b[0]));
        }
        assert(a =~= b);
    } else if b.len() == 0 {
        assert(a.contains(a[0]));
    } else {
        let x = a[0];
        let y = b[0];
        assert(a.contains(x));
        assert(b.contains(y));
        if x != y {
            let j = choose|j: int| 0 <= j < b.len() && b[j] == x;
            let i = choose|i: int| 0 <= i < a.len() && a[i] == y;
            assert(shown_before(events, sort, y as int, x as int)) by {
                assert(b[0] == y && b[j] == x);
            }
            assert(shown_before(events, sort, x as int, y as int)) by {
                assert(a[0] == x && a[i] == y);
            }
            lemma_shown_transitive(events, sort, x as int, y as int, x as int);
            lemma_shown_irreflexive(events, sort, x as int);
        }
        let a2 = a.drop_first();
        let b2 = b.drop_first();
        assert(in_shown_order(events, sort, a2)) by {
            assert forall|p: int, q: int| 0 <= p < q < a2.len() implies shown_before(
                events,
                sort,
                a2[p] as int,
                a2[q] as int,
            ) by {
                assert(a2[p] == a[p + 1] && a2[q] == a[q + 1]);
            }
        }
        assert(in_shown_order(events, sort, b2)) by {
            assert forall|p: int, q: int| 0 <= p < q < b2.len() implies shown_before(
                events,
                sort,
                b2[p] as int,
                b2[q] as int,
            ) by {
                assert(b2[p] == b[p + 1] && b2[q] == b[q + 1]);
            }
        }
        assert forall|z: usize| a2.contains(z) <==> b2.contains(z) by {
            lemma_drop_first_contains(events, sort, a, z);
            lemma_drop_first_contains(events, sort, b, z);
        }
        lemma_shown_order_unique(events, sort, a2, b2);
        assert(a =~= seq![x] + a2);
        assert(b =~= seq![y] + b2);
    }
}

/// The rest of a sequence in shown order holds exactly its elements other
/// than the first.
proof fn lemma_drop_first_contains(
    events: Seq<FocusEvent>,
    sort: Option<(SortKey, bool)>,
    a: Seq<usize>,
    z: usize,
)
    requires
        a.len() > 0,
        in_shown_order(events, sort, a),
    ensures
        a.drop_first().contains(z) <==> (a.contains(z) && z != a[0]),
{
    if a.drop_first().contains(z) {
        let k = choose|k: int| 0 <= k < a.drop_first().len() && a.drop_first()[k] == z;
        assert(a[k + 1] == z);
        assert(shown_before(events, sort, a[0] as int, a[k + 1] as int));
        lemma_shown_irreflexive(events, sort, z as int);
    }
    if a.contains(z) && z != a[0] {
        let k = choose|k: int| 0 <= k < a.len() && a[k] == z;
        assert(k != 0);
        assert(a.drop_first()[k - 1] == z);
    }
}

/// `keys` holds, for a text column, the text of each event in that column.
pub open spec fn keys_for(events: Seq<FocusEvent>, key: SortKey, keys: Seq<Vec<char>>) -> bool {
    key != SortKey::Time ==> {
        &&& keys.len() == events.len()
        &&& forall|i: int| 0 <= i < events.len() ==> (#[trigger] keys[i])@ == text_key(key, events[i])
    }
}

/// The text of each event in the column `key` (nothing for the time column).
fn text_keys(events: &Vec<FocusEvent>, key: SortKey) -> (res: Vec<Vec<char>>)
    ensures
        keys_for(events@, key, res@),
{
    let mut keys: Vec<Vec<char>> = Vec::new();
    if key == SortKey::Time {
        return keys;
    }
    let n = events.len();
    for i in 0..n
        invariant
            n == events.len(),
            key != SortKey::Time,
            keys.len() == i,
            forall|k: int| 0 <= k < i ==> (#[trigger] keys@[k])@ == text_key(key, events@[k]),
    {
        let e = &events[i];
        let t = match key {
            SortKey::App => crate::text::chars_of(e.app_name.as_str()),
            SortKey::Title => crate::text::chars_of(e.window_title.as_str()),
            _ => crate::text::chars_of(e.previous_app.as_str()),
        };
        keys.push(t);
    }
    keys
}

/// Whether the event at `i` comes before the one at `j` in the column `key`.
fn key_less(events: &Vec<FocusEvent>, keys: &Vec<Vec<char>>, key: SortKey, i: usize, j: usize) -> (res:
    bool)
    requires
        keys_for(events@, key, keys@),
        i < events.len(),
        j < events.len(),
    ensures
        res == key_before(key, events@[i as int], events@[j as int]),
{
    if key == SortKey::Time {
        events[i].ts.is_earlier(&events[j].ts)
    } else {
        chars_less(&keys[i], &keys[j])
    }
}

/// Whether the event at `i` is shown above the one at `j`.
fn shown_first(
    events: &Vec<FocusEvent>,
    keys: &Vec<Vec<char>>,
    key: SortKey,
    asc: bool,
    i: usize,
    j: usize,
) -> (res: bool)
    requires
        keys_for(events@, key, keys@),
        i < events.len(),
        j < events.len(),
    ensures
        res == shown_before(events@, Some((key, asc)), i as int, j as int),
{
    let lt_ij = key_less(events, keys, key, i, j);
    let lt_ji = key_less(events, keys, key, j, i);
    proof {
        lemma_key_order(key, events@[i as int], events@[j as int], events@[i as int]);
    }
    let before = if asc {
        lt_ij
    } else {
        lt_ji
    };
    before || (!lt_ij && !lt_ji && i < j)
}

/// The indices in `s` are all below `n`.
pub open spec fn indices_below(s: Seq<usize>, n: int) -> bool {
    forall|k: int| 0 <= k < s.len() ==> (#[trigger] s[k]) < n
}

/// Merges two sequences in shown order with no index in common.
fn merge(
    events: &Vec<FocusEvent>,
    keys: &Vec<Vec<char>>,
    key: SortKey,
    asc: bool,
    l: &Vec<usize>,
    r: &Vec<usize>,
) -> (res: Vec<usize>)
    requires
        keys_for(events@, key, keys@),
        indices_below(l@, events.len() as int),
        indices_below(r@, events.len() as int),
        in_shown_order(events@, Some((key, asc)), l@),
        in_shown_order(events@, Some((key, asc)), r@),
        forall|p: int, q: int| 0 <= p < l.len() && 0 <= q < r.len() ==> l@[p] != r@[q],
    ensures
        in_shown_order(events@, Some((key, asc)), res@),
        indices_below(res@, events.len() as int),
        forall|x: usize| res@.contains(x) <==> (l@.contains(x) || r@.contains(x)),
{
    let ghost sort = Some((key, asc));
    let mut out: Vec<usize> = Vec::new();
    let mut i: usize = 0;
    let mut j: usize = 0;
    while i < l.len() || j < r.len()
        invariant
            keys_for(events@, key, keys@),
            indices_below(l@, events.len() as int),
            indices_below(r@, events.len() as int),
            in_shown_order(events@, sort, l@),
            in_shown_order(events@, sort, r@),
            forall|p: int, q: int| 0 <= p < l.len() && 0 <= q < r.len() ==> l@[p] != r@[q],
            sort == Some((key, asc)),
            i <= l.len(),
            j <= r.len(),
            in_shown_order(events@, sort, out@),
            indices_below(out@, events.len() as int),
            forall|x: usize|
                out@.contains(x) <==> (l@.take(i as int).contains(x) || r@.take(j as int).contains(
                    x,
                )),
            out.len() > 0 && i < l.len() ==> shown_before(
                events@,
                sort,
                out@.last() as int,
                l@[i as int] as int,
            ),
            out.len() > 0 && j < r.len() ==> shown_before(
                events@,
                sort,
                out@.last() as int,
                r@[j as int] as int,
            ),
        decreases l.len() + r.len() - i - j,
    {
        let take_left = if i == l.len() {
            false
        } else if j == r.len() {
            true
        } else {
            shown_first(events, keys, key, asc, l[i], r[j])
        };
        let ghost old_out = out@;
        let x = if take_left {
            l[i]
        } else {
            r[j]
        };
        proof {
            if !take_left && i < l.len() {
                assert(l@[i as int] != r@[j as int]);
                lemma_shown_total(events@, sort, l@[i as int] as int, r@[j as int] as int);
            }
            assert forall|p: int, q: int|
                #![trigger old_out.push(x)[p], old_out.push(x)[q]]
                0 <= p < q < old_out.len() + 1 implies shown_before(
                events@,
                sort,
                old_out.push(x)[p] as int,
                old_out.push(x)[q] as int,
            ) by {
                if q == old_out.len() {
                    if p < old_out.len() - 1 {
                        assert(shown_before(
                            events@,
                            sort,
                            old_out[p] as int,
                            old_out[old_out.len() - 1] as int,
                        ));
                        lemma_shown_transitive(
                            events@,
                            sort,
                            old_out[p] as int,
                            old_out.last() as int,
                            x as int,
                        );
                    }
                } else {
                    assert(old_out.push(x)[p] == old_out[p] && old_out.push(x)[q] == old_out[q]);
                }
            }
        }
        out.push(x);
        if take_left {
            proof {
                assert(l@.take(i + 1) =~= l@.take(i as int).push(x));
                if i + 1 < l.len() {
                    assert(shown_before(events@, sort, l@[i as int] as int, l@[i + 1] as int));
                }
            }
            i = i + 1;
        } else {
            proof {
                assert(r@.take(j + 1) =~= r@.take(j as int).push(x));
                if j + 1 < r.len() {
                    assert(shown_before(events@, sort, r@[j as int] as int, r@[j + 1] as int));
                }
            }
            j = j + 1;
        }
        proof {
            assert forall|z: usize|
                out@.contains(z) <==> (l@.take(i as int).contains(z) || r@.take(
                    j as int,
                ).contains(z)) by {
                lemma_push_contains(old_out, x, z);
                if take_left {
                    lemma_push_contains(l@.take(i - 1), x, z);
                } else {
                    lemma_push_contains(r@.take(j - 1), x, z);
                }
            }
            assert forall|k: int| 0 <= k < out@.len() implies (#[trigger] out@[k]) < events.len() by {
                if k < old_out.len() {
                    assert(out@[k] == old_out[k]);
                }
            }
        }
    }
    proof {
        assert(l@.take(l.len() as int) =~= l@);
        assert(r@.take(r.len() as int) =~= r@);
    }
    out
}

/// The indices `v[lo..hi]`, in shown order.
fn sort_range(
    events: &Vec<FocusEvent>,
    keys: &Vec<Vec<char>>,
    key: SortKey,
    asc: bool,
    v: &Vec<usize>,
    lo: usize,
    hi: usize,
) -> (res: Vec<usize>)
    requires
        keys_for(events@, key, keys@),
        lo <= hi <= v.len(),
        indices_below(v@, events.len() as int),
        forall|p: int, q: int| 0 <= p < q < v.len() ==> v@[p] != v@[q],
    ensures
        in_shown_order(events@, Some((key, asc)), res@),
        indices_below(res@, events.len() as int),
        forall|x: usize| res@.contains(x) <==> v@.subrange(lo as int, hi as int).contains(x),
    decreases hi - lo,
{
    if hi - lo <= 1 {
        let mut out: Vec<usize> = Vec::new();
        if hi > lo {
            out.push(v[lo]);
            proof {
                assert(v@.subrange(lo as int, hi as int) =~= out@);
            }
        } else {
            proof {
                assert(v@.subrange(lo as int, hi as int) =~= out@);
            }
        }
        return out;
    }
    let mid = lo + (hi - lo) / 2;
    let left = sort_range(events, keys, key, asc, v, lo, mid);
    let right = sort_range(events, keys, key, asc, v, mid, hi);
    proof {
        assert forall|p: int, q: int|
            0 <= p < left.len() && 0 <= q < right.len() implies left@[p] != right@[q] by {
            assert(left@.contains(left@[p]));
            assert(right@.contains(right@[q]));
            let a = choose|a: int|
                0 <= a < v@.subrange(lo as int, mid as int).len() && v@.subrange(
                    lo as int,
                    mid as int,
                )[a] == left@[p];
            let b = choose|b: int|
                0 <= b < v@.subrange(mid as int, hi as int).len() && v@.subrange(
                    mid as int,
                    hi as int,
                )[b] == right@[q];
            assert(v@[lo + a] == left@[p]);
            assert(v@[mid + b] == right@[q]);
        }
    }
    let out = merge(events, keys, key, asc, &left, &right);
    proof {
        assert forall|x: usize|
            out@.contains(x) <==> v@.subrange(lo as int, hi as int).contains(x) by {
            let whole = v@.subrange(lo as int, hi as int);
            let lhalf = v@.subrange(lo as int, mid as int);
            let rhalf = v@.subrange(mid as int, hi as int);
            assert(whole =~= lhalf + rhalf);
            if whole.contains(x) {
                let k = choose|k: int| 0 <= k < whole.len() && whole[k] == x;
                if k < lhalf.len() {
                    assert(lhalf[k] == x);
                } else {
                    assert(rhalf[k - lhalf.len()] == x);
                }
            }
            if lhalf.contains(x) {
                let k = choose|k: int| 0 <= k < lhalf.len() && lhalf[k] == x;
                assert(whole[k] == x);
            }
            if rhalf.contains(x) {
                let k = choose|k: int| 0 <= k < rhalf.len() && rhalf[k] == x;
                assert(whole[k + lhalf.len()] == x);
            }
        }
    }
    out
}

/// The indices of `v`, all different and all indices of `events`, in the
/// order that sorting by `key` (ascending where `asc`) shows them.
pub fn sort_shown(events: &Vec<FocusEvent>, key: SortKey, asc: bool, v: &Vec<usize>) -> (res: Vec<
    usize,
>)
    requires
        indices_below(v@, events.len() as int),
        forall|p: int, q: int| 0 <= p < q < v.len() ==> v@[p] != v@[q],
    ensures
        in_shown_order(events@, Some((key, asc)), res@),
        forall|x: usize| res@.contains(x) <==> v@.contains(x),
{
    let keys = text_keys(events, key);
    let res = sort_range(events, &keys, key, asc, v, 0, v.len());
    proof {
        assert(v@.subrange(0, v.len() as int) =~= v@);
    }
    res
}

/// What a sequence with one more element holds.
proof fn lemma_push_contains(s: Seq<usize>, x: usize, z: usize)
    ensures
        s.push(x).contains(z) <==> (s.contains(z) || z == x),
{
    if s.push(x).contains(z) && z != x {
        let k = choose|k: int| 0 <= k < s.push(x).len() && s.push(x)[k] == z;
        assert(s[k] == z);
    }
    if s.contains(z) {
        let k = choose|k: int| 0 <= k < s.len() && s[k] == z;
        assert(s.push(x)[k] == z);
    }
    assert(s.push(x)[s.len() as int] == x);
}

} // verus!
