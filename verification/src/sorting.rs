//! Stable ordering of list rows by a sort key, ascending or descending.

use crate::text::{
    chars_of, lemma_lex_lt_irreflexive, lemma_lex_lt_total, lemma_lex_lt_transitive, lex_less,
    lex_lt,
};
use vstd::prelude::*;

verus! {

/// The value a row is sorted by: a text, compared character by character,
/// or an optional number, where no number comes first.
pub enum SortKey {
    Text(String),
    Number(Option<u64>),
}

/// The content of a sort key.
pub enum SortKeyView {
    Text(Seq<char>),
    Number(Option<u64>),
}

impl View for SortKey {
    type V = SortKeyView;

    open spec fn view(&self) -> SortKeyView {
        match self {
            SortKey::Text(s) => SortKeyView::Text(s@),
            SortKey::Number(n) => SortKeyView::Number(*n),
        }
    }
}

/// The contents of a list of sort keys.
pub open spec fn keys_view(keys: Seq<SortKey>) -> Seq<SortKeyView> {
    keys.map_values(|k: SortKey| k@)
}

/// `a` sorts strictly before `b` in ascending order. Keys of different kinds
/// are not ordered.
pub open spec fn key_lt(a: SortKeyView, b: SortKeyView) -> bool {
    match (a, b) {
        (SortKeyView::Text(x), SortKeyView::Text(y)) => lex_lt(x, y),
        (SortKeyView::Number(x), SortKeyView::Number(y)) => match (x, y) {
            (None, Some(_)) => true,
            (Some(p), Some(q)) => p < q,
            _ => false,
        },
        _ => false,
    }
}

/// All keys are of the same kind.
pub open spec fn same_kind(keys: Seq<SortKeyView>) -> bool {
    (forall|i: int| 0 <= i < keys.len() ==> #[trigger] keys[i] is Text) || (forall|i: int|
        0 <= i < keys.len() ==> #[trigger] keys[i] is Number)
}

/// Row `i` comes strictly before row `j` in the requested direction.
pub open spec fn comes_before(keys: Seq<SortKeyView>, descending: bool, i: int, j: int) -> bool {
    if descending {
        key_lt(keys[j], keys[i])
    } else {
        key_lt(keys[i], keys[j])
    }
}

/// `order` lists every row index once, sorted by key in the requested
/// direction, with rows of equal keys in their original order.
pub open spec fn is_stable_order(keys: Seq<SortKeyView>, descending: bool, order: Seq<int>) -> bool {
    &&& order.len() == keys.len()
    &&& forall|k: int| 0 <= k < order.len() ==> 0 <= #[trigger] order[k] < keys.len()
    &&& forall|a: int, b: int| 0 <= a < b < order.len() ==> order[a] != order[b]
    &&& forall|a: int, b: int|
        0 <= a < b < order.len() ==> !comes_before(keys, descending, order[b], order[a])
    &&& forall|a: int, b: int|
        0 <= a < b < order.len() && !comes_before(keys, descending, order[a], order[b])
            ==> order[a] < order[b]
}

/// `rows` is `items` in a stable order of the keys in the given direction.
pub open spec fn sorted_rows<T>(items: Seq<T>, keys: Seq<SortKeyView>, descending: bool, rows: Seq<T>) -> bool {
    exists|order: Seq<int>| #[trigger] rows_in_order(items, keys, descending, rows, order)
}

/// `rows` lists `items` at the positions `order` gives, and `order` is a
/// stable order of the keys.
pub open spec fn rows_in_order<T>(
    items: Seq<T>,
    keys: Seq<SortKeyView>,
    descending: bool,
    rows: Seq<T>,
    order: Seq<int>,
) -> bool {
    &&& is_stable_order(keys, descending, order)
    &&& rows.len() == items.len()
    &&& forall|k: int| 0 <= k < rows.len() ==> rows[k] == items[order[k]]
}

proof fn lemma_key_lt_irreflexive(a: SortKeyView)
    ensures
        !key_lt(a, a),
{
    if let SortKeyView::Text(x) = a {
        lemma_lex_lt_irreflexive(x);
    }
}

proof fn lemma_key_lt_transitive(a: SortKeyView, b: SortKeyView, c: SortKeyView)
    requires
        key_lt(a, b),
        key_lt(b, c),
    ensures
        key_lt(a, c),
{
    if let (SortKeyView::Text(x), SortKeyView::Text(y), SortKeyView::Text(z)) = (a, b, c) {
        lemma_lex_lt_transitive(x, y, z);
    }
}

/// Keys of one kind are totally preordered: of two, one is before the other
/// or they are equal.
proof fn lemma_key_lt_total(a: SortKeyView, b: SortKeyView)
    requires
        (a is Text && b is Text) || (a is Number && b is Number),
    ensures
        a == b || key_lt(a, b) || key_lt(b, a),
{
    if let (SortKeyView::Text(x), SortKeyView::Text(y)) = (a, b) {
        lemma_lex_lt_total(x, y);
    }
}

proof fn lemma_before_facts(keys: Seq<SortKeyView>, descending: bool, i: int, j: int, k: int)
    requires
        same_kind(keys),
        0 <= i < keys.len(),
        0 <= j < keys.len(),
        0 <= k < keys.len(),
    ensures
        !comes_before(keys, descending, i, i),
        comes_before(keys, descending, i, j) && comes_before(keys, descending, j, k) ==> comes_before(
            keys,
            descending,
            i,
            k,
        ),
        comes_before(keys, descending, i, j) && !comes_before(keys, descending, k, j)
            ==> comes_before(keys, descending, i, k),
        !comes_before(keys, descending, i, j) ==> keys[i] == keys[j] || comes_before(
            keys,
            descending,
            j,
            i,
        ),
{
    lemma_key_lt_irreflexive(keys[i]);
    assert((keys[i] is Text && keys[j] is Text) || (keys[i] is Number && keys[j] is Number));
    assert((keys[j] is Text && keys[k] is Text) || (keys[j] is Number && keys[k] is Number));
    lemma_key_lt_total(keys[i], keys[j]);
    lemma_key_lt_total(keys[j], keys[k]);
    if descending {
        if key_lt(keys[j], keys[i]) && key_lt(keys[k], keys[j]) {
            lemma_key_lt_transitive(keys[k], keys[j], keys[i]);
        }
        if key_lt(keys[j], keys[i]) && !key_lt(keys[j], keys[k]) {
            if keys[j] != keys[k] {
                lemma_key_lt_transitive(keys[k], keys[j], keys[i]);
            }
        }
    } else {
        if key_lt(keys[i], keys[j]) && key_lt(keys[j], keys[k]) {
            lemma_key_lt_transitive(keys[i], keys[j], keys[k]);
        }
        if key_lt(keys[i], keys[j]) && !key_lt(keys[k], keys[j]) {
            if keys[j] != keys[k] {
                lemma_key_lt_transitive(keys[i], keys[j], keys[k]);
            }
        }
    }
}

/// `keys[i]` sorts strictly before `keys[j]` in the requested direction.
fn key_before(keys: &[SortKey], descending: bool, i: usize, j: usize) -> (r: bool)
    requires
        i < keys@.len(),
        j < keys@.len(),
    ensures
        r == comes_before(keys_view(keys@), descending, i as int, j as int),
{
    let (a, b) = if descending {
        (&keys[j], &keys[i])
    } else {
        (&keys[i], &keys[j])
    };
    match (a, b) {
        (SortKey::Text(x), SortKey::Text(y)) => {
            let xc = chars_of(x.as_str());
            let yc = chars_of(y.as_str());
            lex_less(xc.as_slice(), yc.as_slice())
        },
        (SortKey::Number(x), SortKey::Number(y)) => match (x, y) {
            (None, Some(_)) => true,
            (Some(p), Some(q)) => *p < *q,
            _ => false,
        },
        _ => false,
    }
}

/// The row indices in a stable sorted order: by key in the requested
/// direction, rows with equal keys in their original order.
pub fn stable_order(keys: &[SortKey], descending: bool) -> (r: Vec<usize>)
    requires
        same_kind(keys_view(keys@)),
    ensures
        is_stable_order(keys_view(keys@), descending, r@.map_values(|i: usize| i as int)),
{
    let ghost kv = keys_view(keys@);
    let n = keys.len();
    let mut out: Vec<usize> = Vec::new();
    let mut m: usize = 0;
    while m < n
        invariant
            n == keys@.len(),
            kv == keys_view(keys@),
            kv.len() == n,
            same_kind(kv),
            m <= n,
            out@.len() == m,
            forall|k: int| 0 <= k < out@.len() ==> #[trigger] out@[k] < m,
            forall|a: int, b: int| 0 <= a < b < out@.len() ==> out@[a] != out@[b],
            forall|a: int, b: int|
                0 <= a < b < out@.len() ==> !comes_before(
                    kv,
                    descending,
                    out@[b] as int,
                    out@[a] as int,
                ),
            forall|a: int, b: int|
                0 <= a < b < out@.len() && !comes_before(
                    kv,
                    descending,
                    out@[a] as int,
                    out@[b] as int,
                ) ==> out@[a] < out@[b],
        decreases n - m,
    {
        let mut j: usize = 0;
        while j < out.len()
            invariant
                n == keys@.len(),
                kv == keys_view(keys@),
                m < n,
                j <= out@.len(),
                forall|k: int| 0 <= k < out@.len() ==> #[trigger] out@[k] < m,
                forall|k: int|
                    0 <= k < j ==> !comes_before(kv, descending, m as int, #[trigger] out@[k] as int),
            ensures
                j <= out@.len(),
                forall|k: int|
                    0 <= k < j ==> !comes_before(kv, descending, m as int, #[trigger] out@[k] as int),
                j < out@.len() ==> comes_before(kv, descending, m as int, out@[j as int] as int),
            decreases out@.len() - j,
        {
            if key_before(keys, descending, m, out[j]) {
                break;
            }
            j = j + 1;
        }
        let ghost old_out = out@;
        out.insert(j, m);
        proof {
            assert(out@ =~= old_out.insert(j as int, m));
            assert forall|k: int| 0 <= k < out@.len() implies #[trigger] out@[k] < m + 1 by {
                if k < j {
                    assert(out@[k] == old_out[k]);
                } else if k > j {
                    assert(out@[k] == old_out[k - 1]);
                }
            }
            assert forall|a: int, b: int| 0 <= a < b < out@.len() implies out@[a] != out@[b] by {
                if a == j {
                    assert(out@[b] == old_out[b - 1]);
                } else if b == j {
                    assert(out@[a] == old_out[a]);
                } else if a < j && b < j {
                    assert(out@[a] == old_out[a] && out@[b] == old_out[b]);
                } else if a < j {
                    assert(out@[a] == old_out[a] && out@[b] == old_out[b - 1]);
                } else {
                    assert(out@[a] == old_out[a - 1] && out@[b] == old_out[b - 1]);
                }
            }
            assert forall|a: int, b: int| 0 <= a < b < out@.len() implies !comes_before(
                kv,
                descending,
                out@[b] as int,
                out@[a] as int,
            ) && (!comes_before(kv, descending, out@[a] as int, out@[b] as int) ==> out@[a]
                < out@[b]) by {
                let x = m as int;
                if a == j {
                    // the new row against a later one, which it comes before
                    let ob = old_out[b - 1] as int;
                    assert(out@[b] == old_out[b - 1]);
                    let oj = old_out[j as int] as int;
                    assert(comes_before(kv, descending, x, oj));
                    if b - 1 > j {
                        assert(!comes_before(kv, descending, ob, oj));
                    }
                    lemma_before_facts(kv, descending, x, oj, ob);
                    lemma_before_facts(kv, descending, ob, x, oj);
                    lemma_before_facts(kv, descending, x, ob, x);
                } else if b == j {
                    // an earlier row against the new one
                    let oa = old_out[a] as int;
                    assert(out@[a] == old_out[a]);
                    assert(!comes_before(kv, descending, x, oa));
                    lemma_before_facts(kv, descending, x, oa, x);
                } else if a < j && b < j {
                    assert(out@[a] == old_out[a] && out@[b] == old_out[b]);
                } else if a < j {
                    assert(out@[a] == old_out[a] && out@[b] == old_out[b - 1]);
                } else {
                    assert(out@[a] == old_out[a - 1] && out@[b] == old_out[b - 1]);
                }
            }
        }
        m = m + 1;
    }
    proof {
        let o = out@.map_values(|i: usize| i as int);
        assert forall|k: int| 0 <= k < o.len() implies 0 <= #[trigger] o[k] < kv.len() by {
            assert(o[k] == out@[k] as int);
        }
        assert forall|a: int, b: int| 0 <= a < b < o.len() implies o[a] != o[b] by {
            assert(o[a] == out@[a] as int && o[b] == out@[b] as int);
        }
        assert forall|a: int, b: int|
            0 <= a < b < o.len() implies !comes_before(kv, descending, o[b], o[a]) by {
            assert(o[a] == out@[a] as int && o[b] == out@[b] as int);
        }
        assert forall|a: int, b: int|
            0 <= a < b < o.len() && !comes_before(kv, descending, o[a], o[b]) implies o[a]
            < o[b] by {
            assert(o[a] == out@[a] as int && o[b] == out@[b] as int);
        }
    }
    out
}

} // verus!
