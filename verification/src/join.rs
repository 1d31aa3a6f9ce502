//! The join engine: equi-joins of two tables on one optional integer key
//! column each. A missing key matches nothing.

use vstd::prelude::*;

verus! {

/// Whether row `i` of the left table and row `j` of the right table carry the
/// same key.
pub open spec fn keys_match(
    left: Seq<Option<i64>>,
    right: Seq<Option<i64>>,
    i: int,
    j: int,
) -> bool {
    0 <= i < left.len() && 0 <= j < right.len() && left[i] is Some && left[i] == right[j]
}

/// Whether row `i` of the left table has a partner among the first `m` rows of
/// the right table.
pub open spec fn has_match_below(
    left: Seq<Option<i64>>,
    right: Seq<Option<i64>>,
    i: int,
    m: int,
) -> bool {
    exists|j: int| j < m && keys_match(left, right, i, j)
}

/// Whether row `i` of the left table has a partner in the right table.
pub open spec fn has_match(left: Seq<Option<i64>>, right: Seq<Option<i64>>, i: int) -> bool {
    has_match_below(left, right, i, right.len() as int)
}

/// The partners of left row `i` among the first `m` rows of the right table, as
/// pairs of row numbers, in the right table's order.
pub open spec fn row_pairs(
    left: Seq<Option<i64>>,
    right: Seq<Option<i64>>,
    i: int,
    m: int,
) -> Seq<(int, int)>
    decreases m,
{
    if m <= 0 {
        Seq::empty()
    } else if keys_match(left, right, i, m - 1) {
        row_pairs(left, right, i, m - 1).push((i, m - 1))
    } else {
        row_pairs(left, right, i, m - 1)
    }
}

/// The matching pairs of row numbers whose left row is among the first `n`.
pub open spec fn pairs_below(left: Seq<Option<i64>>, right: Seq<Option<i64>>, n: int) -> Seq<
    (int, int),
>
    decreases n,
{
    if n <= 0 {
        Seq::empty()
    } else {
        pairs_below(left, right, n - 1) + row_pairs(left, right, n - 1, right.len() as int)
    }
}

/// The inner join: every pair of a left and a right row with the same key, the
/// left table's order first, then the right table's. A key that occurs on `k`
/// left rows and `m` right rows gives `k * m` pairs.
pub open spec fn inner_join(left: Seq<Option<i64>>, right: Seq<Option<i64>>) -> Seq<(int, int)> {
    pairs_below(left, right, left.len() as int)
}

/// The rows among the first `n` of the left table that have no partner.
pub open spec fn unmatched_below(left: Seq<Option<i64>>, right: Seq<Option<i64>>, n: int) -> Seq<
    int,
>
    decreases n,
{
    if n <= 0 {
        Seq::empty()
    } else if has_match(left, right, n - 1) {
        unmatched_below(left, right, n - 1)
    } else {
        unmatched_below(left, right, n - 1).push(n - 1)
    }
}

/// The anti join: the left rows without a partner in the right table, in
/// order.
pub open spec fn anti_join(left: Seq<Option<i64>>, right: Seq<Option<i64>>) -> Seq<int> {
    unmatched_below(left, right, left.len() as int)
}

/// The row numbers that a list of machine integers holds.
pub open spec fn row_numbers(rows: Seq<usize>) -> Seq<int> {
    Seq::new(rows.len(), |k: int| rows[k] as int)
}

/// The pairs of row numbers that a list of pairs of machine integers holds.
pub open spec fn row_number_pairs(pairs: Seq<(usize, usize)>) -> Seq<(int, int)> {
    Seq::new(pairs.len(), |k: int| (pairs[k].0 as int, pairs[k].1 as int))
}

/// What `row_pairs` holds: exactly the matching pairs of the row, each once.
pub proof fn lemma_row_pairs(left: Seq<Option<i64>>, right: Seq<Option<i64>>, i: int, m: int)
    ensures
        forall|k: int|
            0 <= k < row_pairs(left, right, i, m).len() ==> {
                let p = #[trigger] row_pairs(left, right, i, m)[k];
                p.0 == i && p.1 < m && keys_match(left, right, i, p.1)
            },
        forall|j: int|
            j < m && keys_match(left, right, i, j) ==> row_pairs(left, right, i, m).contains(
                (i, j),
            ),
        row_pairs(left, right, i, m).len() == 0 <==> !has_match_below(left, right, i, m),
    decreases m,
{
    if m <= 0 {
    } else {
        lemma_row_pairs(left, right, i, m - 1);
        let before = row_pairs(left, right, i, m - 1);
        let all = row_pairs(left, right, i, m);
        assert forall|j: int| j < m && keys_match(left, right, i, j) implies all.contains(
            (i, j),
        ) by {
            if j == m - 1 {
                assert(all[all.len() - 1] == (i, j));
            } else {
                let k = choose|k: int| 0 <= k < before.len() && before[k] == (i, j);
                assert(all[k] == (i, j));
            }
        }
        if all.len() == 0 {
            assert(!keys_match(left, right, i, m - 1));
        } else if before.len() == 0 {
            assert(keys_match(left, right, i, m - 1));
        } else {
            let j = choose|j: int| j < m - 1 && keys_match(left, right, i, j);
            assert(j < m && keys_match(left, right, i, j));
        }
    }
}

/// Every pair of the inner join is a pair of rows with the same key.
pub proof fn lemma_inner_join_sound(left: Seq<Option<i64>>, right: Seq<Option<i64>>, k: int)
    requires
        0 <= k < inner_join(left, right).len(),
    ensures
        keys_match(left, right, inner_join(left, right)[k].0, inner_join(left, right)[k].1),
{
    lemma_pairs_below_sound(left, right, left.len() as int, k);
}

proof fn lemma_pairs_below_sound(left: Seq<Option<i64>>, right: Seq<Option<i64>>, n: int, k: int)
    requires
        0 <= k < pairs_below(left, right, n).len(),
    ensures
        pairs_below(left, right, n)[k].0 < n,
        keys_match(left, right, pairs_below(left, right, n)[k].0, pairs_below(left, right, n)[k].1),
    decreases n,
{
    if n <= 0 {
    } else {
        let before = pairs_below(left, right, n - 1);
        if k < before.len() {
            lemma_pairs_below_sound(left, right, n - 1, k);
        } else {
            lemma_row_pairs(left, right, n - 1, right.len() as int);
            let row = row_pairs(left, right, n - 1, right.len() as int);
            assert(pairs_below(left, right, n)[k] == row[k - before.len()]);
        }
    }
}

/// Every pair of rows with the same key is in the inner join.
pub proof fn lemma_inner_join_complete(left: Seq<Option<i64>>, right: Seq<Option<i64>>, i: int, j: int)
    requires
        keys_match(left, right, i, j),
    ensures
        inner_join(left, right).contains((i, j)),
{
    lemma_pairs_below_complete(left, right, left.len() as int, i, j);
}

proof fn lemma_pairs_below_complete(
    left: Seq<Option<i64>>,
    right: Seq<Option<i64>>,
    n: int,
    i: int,
    j: int,
)
    requires
        keys_match(left, right, i, j),
        i < n,
    ensures
        pairs_below(left, right, n).contains((i, j)),
    decreases n,
{
    let before = pairs_below(left, right, n - 1);
    let row = row_pairs(left, right, n - 1, right.len() as int);
    let all = pairs_below(left, right, n);
    if i == n - 1 {
        lemma_row_pairs(left, right, n - 1, right.len() as int);
        let k = choose|k: int| 0 <= k < row.len() && row[k] == (i, j);
        assert(all[before.len() + k] == (i, j));
    } else {
        lemma_pairs_below_complete(left, right, n - 1, i, j);
        let k = choose|k: int| 0 <= k < before.len() && before[k] == (i, j);
        assert(all[k] == (i, j));
    }
}

/// Whether one pair of row numbers comes before another: by the left row, then
/// by the right row.
pub open spec fn pair_before(a: (int, int), b: (int, int)) -> bool {
    a.0 < b.0 || (a.0 == b.0 && a.1 < b.1)
}

/// The partners of a row are listed in the right table's order, each once.
proof fn lemma_row_pairs_ordered(
    left: Seq<Option<i64>>,
    right: Seq<Option<i64>>,
    i: int,
    m: int,
    a: int,
    b: int,
)
    requires
        0 <= a < b < row_pairs(left, right, i, m).len(),
    ensures
        row_pairs(left, right, i, m)[a].1 < row_pairs(left, right, i, m)[b].1,
    decreases m,
{
    if m > 0 {
        let before = row_pairs(left, right, i, m - 1);
        lemma_row_pairs(left, right, i, m - 1);
        if b < before.len() {
            lemma_row_pairs_ordered(left, right, i, m - 1, a, b);
        } else {
            assert(before[a].1 < m - 1);
        }
    }
}

proof fn lemma_pairs_below_ordered(
    left: Seq<Option<i64>>,
    right: Seq<Option<i64>>,
    n: int,
    a: int,
    b: int,
)
    requires
        0 <= a < b < pairs_below(left, right, n).len(),
    ensures
        pair_before(pairs_below(left, right, n)[a], pairs_below(left, right, n)[b]),
    decreases n,
{
    if n > 0 {
        let before = pairs_below(left, right, n - 1);
        let row = row_pairs(left, right, n - 1, right.len() as int);
        let all = pairs_below(left, right, n);
        lemma_row_pairs(left, right, n - 1, right.len() as int);
        if b < before.len() {
            lemma_pairs_below_ordered(left, right, n - 1, a, b);
        } else if a < before.len() {
            lemma_pairs_below_sound(left, right, n - 1, a);
            assert(all[b] == row[b - before.len()]);
        } else {
            assert(all[a] == row[a - before.len()]);
            assert(all[b] == row[b - before.len()]);
            lemma_row_pairs_ordered(
                left,
                right,
                n - 1,
                right.len() as int,
                a - before.len(),
                b - before.len(),
            );
        }
    }
}

/// The inner join lists its pairs in order, by the left row and then by the
/// right row. So no pair occurs twice, and a key on `k` left rows and `m` right
/// rows gives `k * m` pairs.
pub proof fn lemma_inner_join_ordered(left: Seq<Option<i64>>, right: Seq<Option<i64>>, a: int, b: int)
    requires
        0 <= a < b < inner_join(left, right).len(),
    ensures
        pair_before(inner_join(left, right)[a], inner_join(left, right)[b]),
{
    lemma_pairs_below_ordered(left, right, left.len() as int, a, b);
}

/// Where no left row has a partner, the inner join is empty.
pub proof fn lemma_inner_join_of_disjoint(left: Seq<Option<i64>>, right: Seq<Option<i64>>)
    requires
        forall|i: int, j: int| !keys_match(left, right, i, j),
    ensures
        inner_join(left, right) == Seq::<(int, int)>::empty(),
{
    if inner_join(left, right).len() > 0 {
        lemma_inner_join_sound(left, right, 0);
    }
    assert(inner_join(left, right) =~= Seq::<(int, int)>::empty());
}

/// The anti join holds a row exactly when the row has no partner, and lists
/// the rows in ascending order.
pub proof fn lemma_unmatched_below(left: Seq<Option<i64>>, right: Seq<Option<i64>>, n: int)
    requires
        n <= left.len(),
    ensures
        forall|k: int|
            0 <= k < unmatched_below(left, right, n).len() ==> {
                let i = #[trigger] unmatched_below(left, right, n)[k];
                0 <= i < n && !has_match(left, right, i)
            },
        forall|i: int|
            0 <= i < n && !has_match(left, right, i) ==> unmatched_below(left, right, n).contains(
                i,
            ),
        forall|a: int, b: int|
            0 <= a < b < unmatched_below(left, right, n).len() ==> unmatched_below(
                left,
                right,
                n,
            )[a] < unmatched_below(left, right, n)[b],
    decreases n,
{
    if n <= 0 {
    } else {
        lemma_unmatched_below(left, right, n - 1);
        let before = unmatched_below(left, right, n - 1);
        let all = unmatched_below(left, right, n);
        assert forall|i: int| 0 <= i < n && !has_match(left, right, i) implies all.contains(i) by {
            if i == n - 1 {
                assert(all[all.len() - 1] == i);
            } else {
                let k = choose|k: int| 0 <= k < before.len() && before[k] == i;
                assert(all[k] == i);
            }
        }
    }
}

/// Where no left row has a partner, the anti join is the whole left table.
pub proof fn lemma_anti_join_of_disjoint(left: Seq<Option<i64>>, right: Seq<Option<i64>>)
    requires
        forall|i: int, j: int| !keys_match(left, right, i, j),
    ensures
        anti_join(left, right) == Seq::new(left.len(), |i: int| i),
{
    lemma_unmatched_all(left, right, left.len() as int);
}

proof fn lemma_unmatched_all(left: Seq<Option<i64>>, right: Seq<Option<i64>>, n: int)
    requires
        forall|i: int, j: int| !keys_match(left, right, i, j),
        0 <= n,
    ensures
        unmatched_below(left, right, n) == Seq::new(n as nat, |i: int| i),
    decreases n,
{
    if n > 0 {
        lemma_unmatched_all(left, right, n - 1);
        assert(!has_match(left, right, n - 1));
    }
    assert(unmatched_below(left, right, n) =~= Seq::new(n as nat, |i: int| i));
}

/// Whether a left row has a partner in the right table.
pub fn find_match(left: &Vec<Option<i64>>, right: &Vec<Option<i64>>, i: usize) -> (found: bool)
    ensures
        found == has_match(left@, right@, i as int),
{
    if i >= left.len() {
        return false;
    }
    let key = match left[i] {
        Some(key) => key,
        None => {
            return false;
        },
    };
    let mut j: usize = 0;
    while j < right.len()
        invariant
            j <= right.len(),
            i < left.len(),
            left@[i as int] == Some(key),
            !has_match_below(left@, right@, i as int, j as int),
        decreases right.len() - j,
    {
        match right[j] {
            Some(other) => {
                if other == key {
                    assert(keys_match(left@, right@, i as int, j as int));
                    return true;
                }
            },
            None => {},
        }
        j += 1;
    }
    false
}

/// The anti join of two key columns: the numbers of the left rows whose key is
/// missing or occurs in no right row.
pub fn anti_join_rows(left: &Vec<Option<i64>>, right: &Vec<Option<i64>>) -> (rows: Vec<usize>)
    ensures
        row_numbers(rows@) == anti_join(left@, right@),
{
    let mut rows: Vec<usize> = Vec::new();
    let mut i: usize = 0;
    proof {
        assert(row_numbers(rows@) =~= unmatched_below(left@, right@, 0));
    }
    while i < left.len()
        invariant
            i <= left.len(),
            row_numbers(rows@) == unmatched_below(left@, right@, i as int),
        decreases left.len() - i,
    {
        let ghost before = row_numbers(rows@);
        if !find_match(left, right, i) {
            rows.push(i);
            proof {
                assert(row_numbers(rows@) =~= before.push(i as int));
            }
        }
        i += 1;
    }
    rows
}

/// The inner join of two key columns, as pairs of a left and a right row
/// number.
pub fn inner_join_rows(left: &Vec<Option<i64>>, right: &Vec<Option<i64>>) -> (pairs: Vec<
    (usize, usize),
>)
    ensures
        row_number_pairs(pairs@) == inner_join(left@, right@),
{
    let mut pairs: Vec<(usize, usize)> = Vec::new();
    let mut i: usize = 0;
    proof {
        assert(row_number_pairs(pairs@) =~= pairs_below(left@, right@, 0));
    }
    while i < left.len()
        invariant
            i <= left.len(),
            row_number_pairs(pairs@) == pairs_below(left@, right@, i as int),
        decreases left.len() - i,
    {
        let ghost done = row_number_pairs(pairs@);
        let mut j: usize = 0;
        proof {
            assert(row_number_pairs(pairs@) =~= done + row_pairs(left@, right@, i as int, 0));
        }
        while j < right.len()
            invariant
                j <= right.len(),
                i < left.len(),
                done == pairs_below(left@, right@, i as int),
                row_number_pairs(pairs@) == done + row_pairs(left@, right@, i as int, j as int),
            decreases right.len() - j,
        {
            let ghost before = row_number_pairs(pairs@);
            let same = match (left[i], right[j]) {
                (Some(a), Some(b)) => a == b,
                _ => false,
            };
            assert(same == keys_match(left@, right@, i as int, j as int));
            if same {
                pairs.push((i, j));
                proof {
                    assert(row_number_pairs(pairs@) =~= before.push((i as int, j as int)));
                    assert(before.push((i as int, j as int)) =~= done + row_pairs(
                        left@,
                        right@,
                        i as int,
                        j as int,
                    ).push((i as int, j as int)));
                }
            }
            j += 1;
        }
        i += 1;
    }
    pairs
}

} // verus!
