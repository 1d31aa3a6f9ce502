//! The two rosters as typed rows, and the sheet of named text columns that the
//! spreadsheet reader produces.

use crate::cells::{clone_cell, opt_text, texts};
use vstd::prelude::*;

verus! {

/// One record of the Extranet export.
#[derive(Clone, Debug, PartialEq, Eq)]
pub struct ExtranetRow {
    /// `RegID`, the key.
    pub reg_id: Option<i64>,
    /// `FullName`.
    pub full_name: Option<String>,
    /// `ClassID`.
    pub class_id: Option<String>,
    /// `Primary Contact Firstname`.
    pub contact_first_name: Option<String>,
    /// `Primary Contact Surname`.
    pub contact_surname: Option<String>,
    /// `Primary Contact Email`.
    pub contact_email: Option<String>,
    /// `Primary Contact Mobile`, as text.
    pub contact_mobile: Option<String>,
    /// `DOB`.
    pub dob: Option<String>,
}

/// What an `ExtranetRow` holds.
pub struct ExtranetEntry {
    pub reg_id: Option<i64>,
    pub full_name: Option<Seq<char>>,
    pub class_id: Option<Seq<char>>,
    pub contact_first_name: Option<Seq<char>>,
    pub contact_surname: Option<Seq<char>>,
    pub contact_email: Option<Seq<char>>,
    pub contact_mobile: Option<Seq<char>>,
    pub dob: Option<Seq<char>>,
}

impl View for ExtranetRow {
    type V = ExtranetEntry;

    open spec fn view(&self) -> ExtranetEntry {
        ExtranetEntry {
            reg_id: self.reg_id,
            full_name: opt_text(self.full_name),
            class_id: opt_text(self.class_id),
            contact_first_name: opt_text(self.contact_first_name),
            contact_surname: opt_text(self.contact_surname),
            contact_email: opt_text(self.contact_email),
            contact_mobile: opt_text(self.contact_mobile),
            dob: opt_text(self.dob),
        }
    }
}

/// One record of the Operoo export.
#[derive(Clone, Debug, PartialEq, Eq)]
pub struct OperooRow {
    /// `Profile Id`, the key.
    pub profile_id: Option<i64>,
    /// `Person Name`.
    pub person_name: Option<String>,
    /// `Profile Owner's Name `.
    pub owner_name: Option<String>,
    /// `Profile Owner's Email`.
    pub owner_email: Option<String>,
    /// `Profile Owner's Mobile Phone`.
    pub owner_mobile: Option<String>,
    /// `Person Birth Date`.
    pub birth_date: Option<String>,
}

/// What an `OperooRow` holds.
pub struct OperooEntry {
    pub profile_id: Option<i64>,
    pub person_name: Option<Seq<char>>,
    pub owner_name: Option<Seq<char>>,
    pub owner_email: Option<Seq<char>>,
    pub owner_mobile: Option<Seq<char>>,
    pub birth_date: Option<Seq<char>>,
}

impl View for OperooRow {
    type V = OperooEntry;

    open spec fn view(&self) -> OperooEntry {
        OperooEntry {
            profile_id: self.profile_id,
            person_name: opt_text(self.person_name),
            owner_name: opt_text(self.owner_name),
            owner_email: opt_text(self.owner_email),
            owner_mobile: opt_text(self.owner_mobile),
            birth_date: opt_text(self.birth_date),
        }
    }
}

/// The Extranet roster: its records in file order.
#[derive(Debug)]
pub struct ExtranetTable {
    pub rows: Vec<ExtranetRow>,
}

/// The Operoo roster: its records in file order.
#[derive(Debug)]
pub struct OperooTable {
    pub rows: Vec<OperooRow>,
}

impl View for ExtranetTable {
    type V = Seq<ExtranetEntry>;

    open spec fn view(&self) -> Seq<ExtranetEntry> {
        Seq::new(self.rows@.len(), |i: int| self.rows@[i]@)
    }
}

impl View for OperooTable {
    type V = Seq<OperooEntry>;

    open spec fn view(&self) -> Seq<OperooEntry> {
        Seq::new(self.rows@.len(), |i: int| self.rows@[i]@)
    }
}

/// The detail of the failure to make a roster from columns that are not all of
/// one length.
pub const COLUMNS_DIFFER: &'static str = "The columns differ in length";

/// The key column of an Extranet roster.
pub open spec fn extranet_keys(rows: Seq<ExtranetEntry>) -> Seq<Option<i64>> {
    Seq::new(rows.len(), |i: int| rows[i].reg_id)
}

/// The key column of an Operoo roster.
pub open spec fn operoo_keys(rows: Seq<OperooEntry>) -> Seq<Option<i64>> {
    Seq::new(rows.len(), |i: int| rows[i].profile_id)
}

/// The Extranet roster whose record `i` is made of cell `i` of each column.
pub open spec fn extranet_rows(
    reg_id: Seq<Option<i64>>,
    full_name: Seq<Option<Seq<char>>>,
    class_id: Seq<Option<Seq<char>>>,
    contact_first_name: Seq<Option<Seq<char>>>,
    contact_surname: Seq<Option<Seq<char>>>,
    contact_email: Seq<Option<Seq<char>>>,
    contact_mobile: Seq<Option<Seq<char>>>,
    dob: Seq<Option<Seq<char>>>,
) -> Seq<ExtranetEntry> {
    Seq::new(
        reg_id.len(),
        |i: int|
            ExtranetEntry {
                reg_id: reg_id[i],
                full_name: full_name[i],
                class_id: class_id[i],
                contact_first_name: contact_first_name[i],
                contact_surname: contact_surname[i],
                contact_email: contact_email[i],
                contact_mobile: contact_mobile[i],
                dob: dob[i],
            },
    )
}

/// The Operoo roster whose record `i` is made of cell `i` of each column.
pub open spec fn operoo_rows(
    profile_id: Seq<Option<i64>>,
    person_name: Seq<Option<Seq<char>>>,
    owner_name: Seq<Option<Seq<char>>>,
    owner_email: Seq<Option<Seq<char>>>,
    owner_mobile: Seq<Option<Seq<char>>>,
    birth_date: Seq<Option<Seq<char>>>,
) -> Seq<OperooEntry> {
    Seq::new(
        profile_id.len(),
        |i: int|
            OperooEntry {
                profile_id: profile_id[i],
                person_name: person_name[i],
                owner_name: owner_name[i],
                owner_email: owner_email[i],
                owner_mobile: owner_mobile[i],
                birth_date: birth_date[i],
            },
    )
}

impl ExtranetTable {
    /// A roster without records.
    pub fn new() -> (table: ExtranetTable)
        ensures
            table@ == Seq::<ExtranetEntry>::empty(),
    {
        let table = ExtranetTable { rows: Vec::new() };
        proof {
            assert(table@ =~= Seq::<ExtranetEntry>::empty());
        }
        table
    }

    /// Adds a record at the end.
    pub fn push(&mut self, row: ExtranetRow)
        ensures
            final(self)@ == old(self)@.push(row@),
    {
        self.rows.push(row);
        proof {
            assert(self@ =~= old(self)@.push(row@));
        }
    }

    /// The number of records.
    pub fn len(&self) -> (n: usize)
        ensures
            n == self@.len(),
    {
        self.rows.len()
    }

    /// The key column, `RegID`.
    pub fn keys(&self) -> (keys: Vec<Option<i64>>)
        ensures
            keys@ == extranet_keys(self@),
    {
        let mut keys: Vec<Option<i64>> = Vec::new();
        let mut i: usize = 0;
        while i < self.rows.len()
            invariant
                i <= self.rows.len(),
                keys.len() == i,
                forall|k: int| 0 <= k < i ==> keys@[k] == self.rows@[k].reg_id,
            decreases self.rows.len() - i,
        {
            keys.push(self.rows[i].reg_id);
            i += 1;
        }
        proof {
            assert(keys@ =~= extranet_keys(self@));
        }
        keys
    }

    /// Makes the roster from its eight columns. `None` where the columns are
    /// not all of one length.
    pub fn from_columns(
        reg_id: &Vec<Option<i64>>,
        full_name: &Vec<Option<String>>,
        class_id: &Vec<Option<String>>,
        contact_first_name: &Vec<Option<String>>,
        contact_surname: &Vec<Option<String>>,
        contact_email: &Vec<Option<String>>,
        contact_mobile: &Vec<Option<String>>,
        dob: &Vec<Option<String>>,
    ) -> (table: Option<ExtranetTable>)
        ensures
            table is Some <==> {
                &&& full_name.len() == reg_id.len()
                &&& class_id.len() == reg_id.len()
                &&& contact_first_name.len() == reg_id.len()
                &&& contact_surname.len() == reg_id.len()
                &&& contact_email.len() == reg_id.len()
                &&& contact_mobile.len() == reg_id.len()
                &&& dob.len() == reg_id.len()
            },
            table matches Some(t) ==> t@ == extranet_rows(
                reg_id@,
                texts(full_name@),
                texts(class_id@),
                texts(contact_first_name@),
                texts(contact_surname@),
                texts(contact_email@),
                texts(contact_mobile@),
                texts(dob@),
            ),
    {
        let n = reg_id.len();
        if full_name.len() != n || class_id.len() != n || contact_first_name.len() != n
            || contact_surname.len() != n || contact_email.len() != n || contact_mobile.len() != n
            || dob.len() != n {
            return None;
        }
        let mut rows: Vec<ExtranetRow> = Vec::new();
        let mut i: usize = 0;
        while i < n
            invariant
                i <= n,
                n == reg_id.len(),
                full_name.len() == n,
                class_id.len() == n,
                contact_first_name.len() == n,
                contact_surname.len() == n,
                contact_email.len() == n,
                contact_mobile.len() == n,
                dob.len() == n,
                rows.len() == i,
                forall|k: int|
                    0 <= k < i ==> (#[trigger] rows@[k])@ == extranet_rows(
                        reg_id@,
                        texts(full_name@),
                        texts(class_id@),
                        texts(contact_first_name@),
                        texts(contact_surname@),
                        texts(contact_email@),
                        texts(contact_mobile@),
                        texts(dob@),
                    )[k],
            decreases n - i,
        {
            let row = ExtranetRow {
                reg_id: reg_id[i],
                full_name: clone_cell(&full_name[i]),
                class_id: clone_cell(&class_id[i]),
                contact_first_name: clone_cell(&contact_first_name[i]),
                contact_surname: clone_cell(&contact_surname[i]),
                contact_email: clone_cell(&contact_email[i]),
                contact_mobile: clone_cell(&contact_mobile[i]),
                dob: clone_cell(&dob[i]),
            };
            rows.push(row);
            i += 1;
        }
        let table = ExtranetTable { rows };
        proof {
            assert(table@ =~= extranet_rows(
                reg_id@,
                texts(full_name@),
                texts(class_id@),
                texts(contact_first_name@),
                texts(contact_surname@),
                texts(contact_email@),
                texts(contact_mobile@),
                texts(dob@),
            ));
        }
        Some(table)
    }
}

impl OperooTable {
    /// A roster without records.
    pub fn new() -> (table: OperooTable)
        ensures
            table@ == Seq::<OperooEntry>::empty(),
    {
        let table = OperooTable { rows: Vec::new() };
        proof {
            assert(table@ =~= Seq::<OperooEntry>::empty());
        }
        table
    }

    /// Adds a record at the end.
    pub fn push(&mut self, row: OperooRow)
        ensures
            final(self)@ == old(self)@.push(row@),
    {
        self.rows.push(row);
        proof {
            assert(self@ =~= old(self)@.push(row@));
        }
    }

    /// The number of records.
    pub fn len(&self) -> (n: usize)
        ensures
            n == self@.len(),
    {
        self.rows.len()
    }

    /// The key column, `Profile Id`.
    pub fn keys(&self) -> (keys: Vec<Option<i64>>)
        ensures
            keys@ == operoo_keys(self@),
    {
        let mut keys: Vec<Option<i64>> = Vec::new();
        let mut i: usize = 0;
        while i < self.rows.len()
            invariant
                i <= self.rows.len(),
                keys.len() == i,
                forall|k: int| 0 <= k < i ==> keys@[k] == self.rows@[k].profile_id,
            decreases self.rows.len() - i,
        {
            keys.push(self.rows[i].profile_id);
            i += 1;
        }
        proof {
            assert(keys@ =~= operoo_keys(self@));
        }
        keys
    }

    /// Makes the roster from its six columns. `None` where the columns are not
    /// all of one length.
    pub fn from_columns(
        profile_id: &Vec<Option<i64>>,
        person_name: &Vec<Option<String>>,
        owner_name: &Vec<Option<String>>,
        owner_email: &Vec<Option<String>>,
        owner_mobile: &Vec<Option<String>>,
        birth_date: &Vec<Option<String>>,
    ) -> (table: Option<OperooTable>)
        ensures
            table is Some <==> {
                &&& person_name.len() == profile_id.len()
                &&& owner_name.len() == profile_id.len()
                &&& owner_email.len() == profile_id.len()
                &&& owner_mobile.len() == profile_id.len()
                &&& birth_date.len() == profile_id.len()
            },
            table matches Some(t) ==> t@ == operoo_rows(
                profile_id@,
                texts(person_name@),
                texts(owner_name@),
                texts(owner_email@),
                texts(owner_mobile@),
                texts(birth_date@),
            ),
    {
        let n = profile_id.len();
        if person_name.len() != n || owner_name.len() != n || owner_email.len() != n
            || owner_mobile.len() != n || birth_date.len() != n {
            return None;
        }
        let mut rows: Vec<OperooRow> = Vec::new();
        let mut i: usize = 0;
        while i < n
            invariant
                i <= n,
                n == profile_id.len(),
                person_name.len() == n,
                owner_name.len() == n,
                owner_email.len() == n,
                owner_mobile.len() == n,
                birth_date.len() == n,
                rows.len() == i,
                forall|k: int|
                    0 <= k < i ==> (#[trigger] rows@[k])@ == operoo_rows(
                        profile_id@,
                        texts(person_name@),
                        texts(owner_name@),
                        texts(owner_email@),
                        texts(owner_mobile@),
                        texts(birth_date@),
                    )[k],
            decreases n - i,
        {
            let row = OperooRow {
                profile_id: profile_id[i],
                person_name: clone_cell(&person_name[i]),
                owner_name: clone_cell(&owner_name[i]),
                owner_email: clone_cell(&owner_email[i]),
                owner_mobile: clone_cell(&owner_mobile[i]),
                birth_date: clone_cell(&birth_date[i]),
            };
            rows.push(row);
            i += 1;
        }
        let table = OperooTable { rows };
        proof {
            assert(table@ =~= operoo_rows(
                profile_id@,
                texts(person_name@),
                texts(owner_name@),
                texts(owner_email@),
                texts(owner_mobile@),
                texts(birth_date@),
            ));
        }
        Some(table)
    }
}

} // verus!
