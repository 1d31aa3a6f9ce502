//! Columns of optional texts: what they hold, and the operations that the
//! readers need on them.

use vstd::prelude::*;

verus! {

/// The text held by an optional string, `None` for a missing value.
pub open spec fn opt_text(value: Option<String>) -> Option<Seq<char>> {
    match value {
        Some(s) => Some(s@),
        None => None,
    }
}

/// The texts held by a column of optional strings.
pub open spec fn texts(cells: Seq<Option<String>>) -> Seq<Option<Seq<char>>> {
    Seq::new(cells.len(), |i: int| opt_text(cells[i]))
}

/// The texts that a list of strings holds.
pub open spec fn string_views(strings: Seq<String>) -> Seq<Seq<char>> {
    Seq::new(strings.len(), |i: int| strings[i]@)
}

/// The values of a column that are present, in order.
pub open spec fn present(cells: Seq<Option<Seq<char>>>) -> Seq<Seq<char>>
    decreases cells.len(),
{
    if cells.len() == 0 {
        Seq::empty()
    } else {
        match cells.last() {
            Some(text) => present(cells.drop_last()).push(text),
            None => present(cells.drop_last()),
        }
    }
}

/// The values of a column that are present, in order.
pub fn present_texts(cells: &Vec<Option<String>>) -> (kept: Vec<String>)
    ensures
        string_views(kept@) == present(texts(cells@)),
{
    let mut kept: Vec<String> = Vec::new();
    let mut i: usize = 0;
    let ghost all = texts(cells@);
    proof {
        assert(all.take(0) =~= Seq::<Option<Seq<char>>>::empty());
        assert(string_views(kept@) =~= present(all.take(0)));
    }
    while i < cells.len()
        invariant
            i <= cells.len(),
            all == texts(cells@),
            string_views(kept@) == present(all.take(i as int)),
        decreases cells.len() - i,
    {
        let ghost before = string_views(kept@);
        proof {
            assert(all.take(i + 1).drop_last() =~= all.take(i as int));
            assert(all.take(i + 1).last() == opt_text(cells@[i as int]));
        }
        match &cells[i] {
            Some(text) => {
                kept.push(text.clone());
                proof {
                    assert(string_views(kept@) =~= before.push(text@));
                }
            },
            None => {},
        }
        i += 1;
    }
    proof {
        assert(all.take(cells.len() as int) =~= all);
    }
    kept
}

/// A column cut or filled with missing values to a given length.
pub open spec fn resized(cells: Seq<Option<Seq<char>>>, height: nat) -> Seq<Option<Seq<char>>> {
    Seq::new(
        height,
        |i: int|
            if i < cells.len() {
                cells[i]
            } else {
                None
            },
    )
}

/// Cuts a column to a given length, or fills it up to that length with missing
/// values.
pub fn resize_cells(cells: &mut Vec<Option<String>>, height: usize)
    ensures
        texts(final(cells)@) == resized(texts(old(cells)@), height as nat),
{
    let ghost before = texts(cells@);
    if cells.len() > height {
        cells.truncate(height);
    }
    proof {
        assert(texts(cells@) =~= resized(before, cells.len() as nat));
    }
    while cells.len() < height
        invariant
            cells.len() <= height,
            before == texts(old(cells)@),
            before.len() <= height ==> cells.len() >= before.len(),
            before.len() > height ==> cells.len() == height,
            texts(cells@) == resized(before, cells.len() as nat),
        decreases height - cells.len(),
    {
        let ghost filled = texts(cells@);
        cells.push(None);
        proof {
            assert(texts(cells@) =~= filled.push(None));
            assert(filled.push(None) =~= resized(before, cells.len() as nat));
        }
    }
}

/// A copy of an optional text.
pub fn clone_cell(cell: &Option<String>) -> (copy: Option<String>)
    ensures
        opt_text(copy) == opt_text(*cell),
{
    match cell {
        Some(text) => Some(text.clone()),
        None => None,
    }
}

/// A copy of a column of optional texts.
pub fn clone_cells(cells: &Vec<Option<String>>) -> (copy: Vec<Option<String>>)
    ensures
        texts(copy@) == texts(cells@),
{
    let mut copy: Vec<Option<String>> = Vec::new();
    let mut i: usize = 0;
    while i < cells.len()
        invariant
            i <= cells.len(),
            copy.len() == i,
            forall|k: int| 0 <= k < i ==> opt_text(copy@[k]) == opt_text(cells@[k]),
        decreases cells.len() - i,
    {
        copy.push(clone_cell(&cells[i]));
        i += 1;
    }
    proof {
        assert(texts(copy@) =~= texts(cells@));
    }
    copy
}

} // verus!
