//! A table of named text columns, as the spreadsheet reader produces it.

use crate::cells::{clone_cells, texts};
use crate::text::same_text;
use vstd::prelude::*;

verus! {

/// A named column of optional texts.
#[derive(Clone, Debug, PartialEq, Eq)]
pub struct Column {
    pub name: String,
    pub cells: Vec<Option<String>>,
}

/// What a `Column` holds.
pub struct ColumnView {
    pub name: Seq<char>,
    pub cells: Seq<Option<Seq<char>>>,
}

impl View for Column {
    type V = ColumnView;

    open spec fn view(&self) -> ColumnView {
        ColumnView { name: self.name@, cells: texts(self.cells@) }
    }
}

/// What a list of columns holds.
pub open spec fn column_views(columns: Seq<Column>) -> Seq<ColumnView> {
    Seq::new(columns.len(), |i: int| columns[i]@)
}

/// Whether all columns have one length.
pub open spec fn same_height(columns: Seq<ColumnView>) -> bool {
    forall|i: int| 0 <= i < columns.len() ==> (#[trigger] columns[i]).cells.len() == columns[0].cells.len()
}

/// Whether no two columns have the same name.
pub open spec fn distinct_names(columns: Seq<ColumnView>) -> bool {
    forall|i: int, j: int|
        0 <= i < j < columns.len() ==> (#[trigger] columns[i]).name != (#[trigger] columns[j]).name
}

/// Whether a list of columns is a table: the columns have one length, and no
/// two of them have the same name.
pub open spec fn is_table(columns: Seq<ColumnView>) -> bool {
    same_height(columns) && distinct_names(columns)
}

/// The cells of the first column called `name`, `None` where there is none.
pub open spec fn find_column(columns: Seq<ColumnView>, name: Seq<char>) -> Option<
    Seq<Option<Seq<char>>>,
>
    decreases columns.len(),
{
    if columns.len() == 0 {
        None
    } else if columns[0].name == name {
        Some(columns[0].cells)
    } else {
        find_column(columns.drop_first(), name)
    }
}

/// A table: named columns of one length, in order. Row `i` of each column
/// belongs to one record.
#[derive(Debug)]
pub struct Table {
    columns: Vec<Column>,
}

impl View for Table {
    type V = Seq<ColumnView>;

    closed spec fn view(&self) -> Seq<ColumnView> {
        column_views(self.columns@)
    }
}

impl Table {
    #[verifier::type_invariant]
    spec fn well_formed(&self) -> bool {
        is_table(column_views(self.columns@))
    }

    /// Makes a table of the given columns. `None` where the columns differ in
    /// length or two of them have the same name.
    pub fn new(columns: Vec<Column>) -> (table: Option<Table>)
        ensures
            table is Some <==> is_table(column_views(columns@)),
            table matches Some(t) ==> t@ == column_views(columns@),
    {
        let ghost views = column_views(columns@);
        let mut i: usize = 0;
        while i < columns.len()
            invariant
                i <= columns.len(),
                views == column_views(columns@),
                forall|k: int|
                    0 <= k < i ==> (#[trigger] views[k]).cells.len() == views[0].cells.len(),
                forall|a: int, b: int|
                    0 <= a < b < i ==> (#[trigger] views[a]).name != (#[trigger] views[b]).name,
            decreases columns.len() - i,
        {
            if columns[i].cells.len() != columns[0].cells.len() {
                proof {
                    assert(views[i as int].cells.len() != views[0].cells.len());
                }
                return None;
            }
            let mut j: usize = 0;
            while j < i
                invariant
                    j <= i < columns.len(),
                    views == column_views(columns@),
                    forall|a: int| 0 <= a < j ==> (#[trigger] views[a]).name != views[i as int].name,
                decreases i - j,
            {
                if same_text(columns[j].name.as_str(), columns[i].name.as_str()) {
                    proof {
                        assert(views[j as int].name == views[i as int].name);
                    }
                    return None;
                }
                j += 1;
            }
            i += 1;
        }
        Some(Table { columns })
    }

    /// The number of columns.
    pub fn width(&self) -> (n: usize)
        ensures
            n == self@.len(),
            is_table(self@),
    {
        proof {
            use_type_invariant(self);
        }
        self.columns.len()
    }

    /// The number of records: the length of every column, and zero for a table
    /// without columns.
    pub fn height(&self) -> (n: usize)
        ensures
            is_table(self@),
            self@.len() == 0 ==> n == 0,
            forall|i: int| 0 <= i < self@.len() ==> (#[trigger] self@[i]).cells.len() == n,
    {
        proof {
            use_type_invariant(self);
        }
        if self.columns.len() == 0 {
            0
        } else {
            self.columns[0].cells.len()
        }
    }

    /// The names of the columns, in order.
    pub fn names(&self) -> (names: Vec<String>)
        ensures
            names.len() == self@.len(),
            forall|i: int| 0 <= i < self@.len() ==> (#[trigger] names@[i])@ == self@[i].name,
    {
        let mut names: Vec<String> = Vec::new();
        let mut i: usize = 0;
        while i < self.columns.len()
            invariant
                i <= self.columns.len(),
                names.len() == i,
                forall|k: int| 0 <= k < i ==> (#[trigger] names@[k])@ == self.columns@[k].name@,
            decreases self.columns.len() - i,
        {
            names.push(self.columns[i].name.clone());
            i += 1;
        }
        names
    }

    /// The cells of the column called `name`, `None` where the table has no
    /// such column.
    pub fn cells(&self, name: &str) -> (cells: Option<Vec<Option<String>>>)
        ensures
            is_table(self@),
            match cells {
                Some(cells) => find_column(self@, name@) == Some(texts(cells@)) && self@.len() > 0
                    && cells.len() == self@[0].cells.len(),
                None => find_column(self@, name@) is None,
            },
    {
        proof {
            use_type_invariant(self);
        }
        let ghost views = self@;
        let mut i: usize = 0;
        proof {
            assert(views.skip(0) =~= views);
        }
        while i < self.columns.len()
            invariant
                i <= self.columns.len(),
                views == column_views(self.columns@),
                is_table(views),
                find_column(views, name@) == find_column(views.skip(i as int), name@),
            decreases self.columns.len() - i,
        {
            proof {
                assert(views.skip(i as int)[0] == views[i as int]);
                assert(views.skip(i as int).drop_first() =~= views.skip(i + 1));
            }
            if same_text(self.columns[i].name.as_str(), name) {
                return Some(clone_cells(&self.columns[i].cells));
            }
            i += 1;
        }
        None
    }
}

} // verus!
