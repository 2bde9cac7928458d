use vstd::prelude::*;

verus! {

/// User-supplied bookmark data: url, title and notes, with no identity.
/// Empty strings are allowed everywhere.
#[derive(Clone, Debug)]
pub struct Entry {
    pub url: String,
    pub title: String,
    pub notes: String,
}

/// Mathematical content of an `Entry`.
pub ghost struct EntryView {
    pub url: Seq<char>,
    pub title: Seq<char>,
    pub notes: Seq<char>,
}

impl View for Entry {
    type V = EntryView;

    open spec fn view(&self) -> EntryView {
        EntryView { url: self.url@, title: self.title@, notes: self.notes@ }
    }
}

/// A persisted entry: a server-assigned id, the user data, and the two
/// timestamps (microseconds since the Unix epoch, UTC).
#[derive(Clone, Debug)]
pub struct DbEntry {
    pub id: u32,
    pub url: String,
    pub title: String,
    pub notes: String,
    pub created_at: i64,
    pub updated_at: i64,
}

/// Mathematical content of a `DbEntry`.
pub ghost struct DbEntryView {
    pub id: u32,
    pub url: Seq<char>,
    pub title: Seq<char>,
    pub notes: Seq<char>,
    pub created_at: i64,
    pub updated_at: i64,
}

impl View for DbEntry {
    type V = DbEntryView;

    open spec fn view(&self) -> DbEntryView {
        DbEntryView {
            id: self.id,
            url: self.url@,
            title: self.title@,
            notes: self.notes@,
            created_at: self.created_at,
            updated_at: self.updated_at,
        }
    }
}

/// The kinds of data-access failure. The routing layer maps each kind to an
/// HTTP status; the mapping is a pure function of the kind alone.
#[derive(Clone, Copy, PartialEq, Eq, Structural, Debug)]
pub enum DbError {
    /// The store cannot be reached or initialized.
    Connectivity,
    /// A query matched no row.
    NotFound,
    /// A write violated a column constraint.
    ConstraintViolation,
    /// The input to a write was malformed or of the wrong shape.
    InvalidInput,
    /// A stored row did not match the expected shape.
    Decode,
    /// A write touched more than one row although ids are unique.
    Invariant,
}

} // verus!
