//! The store: the ordered collection of committed records.

use vstd::prelude::*;

use crate::record::{Record, RecordV};

verus! {

/// Why loading the store file failed: the file could not be read, or
/// its content is not JSON of the store's schema.
#[derive(Clone, Copy, PartialEq, Eq, Structural, Debug)]
pub enum LoadError {
    FileError,
    FormatError,
}

/// Why saving the store file failed, by stage: creating the directory,
/// creating the file, writing it, or rendering the text.
#[derive(Clone, Copy, PartialEq, Eq, Structural, Debug)]
pub enum SaveError {
    DirectoryError,
    FileError,
    WriteError,
    FormatError,
}

/// What a save failure means, in words.
pub open spec fn spec_save_error_text(e: SaveError) -> Seq<char> {
    match e {
        SaveError::DirectoryError => "the data directory could not be created"@,
        SaveError::FileError => "the file could not be created"@,
        SaveError::WriteError => "the file could not be written"@,
        SaveError::FormatError => "the records could not be rendered"@,
    }
}

impl SaveError {
    /// What this failure means, in words.
    pub fn message(&self) -> (r: String)
        ensures
            r@ == spec_save_error_text(*self),
    {
        match self {
            SaveError::DirectoryError => String::from_str("the data directory could not be created"),
            SaveError::FileError => String::from_str("the file could not be created"),
            SaveError::WriteError => String::from_str("the file could not be written"),
            SaveError::FormatError => String::from_str("the records could not be rendered"),
        }
    }
}

/// The in-memory store: records in commit order, oldest first.
#[derive(Debug)]
pub struct AppData {
    pub records: Vec<Record>,
}

impl View for AppData {
    type V = Seq<RecordV>;

    open spec fn view(&self) -> Seq<RecordV> {
        Seq::new(self.records@.len(), |i: int| self.records@[i]@)
    }
}

/// Every timestamp in the store lies in calendar range.
pub open spec fn store_valid(v: Seq<RecordV>) -> bool {
    forall|i: int| 0 <= i < v.len() ==> (#[trigger] v[i]).valid()
}

impl AppData {
    /// An empty store.
    pub fn new() -> (r: AppData)
        ensures
            r@ == Seq::<RecordV>::empty(),
    {
        let r = AppData { records: Vec::new() };
        proof {
            assert(r@ =~= Seq::<RecordV>::empty());
        }
        r
    }

    /// How many records the store holds.
    pub fn len(&self) -> (n: usize)
        ensures
            n == self@.len(),
    {
        self.records.len()
    }

    /// Appends one committed record at the end, keeping all others.
    pub fn push_record(&mut self, r: Record)
        ensures
            final(self)@ == old(self)@.push(r@),
    {
        self.records.push(r);
        proof {
            assert(self@ =~= old(self)@.push(r@));
        }
    }

    /// Removes every record.
    pub fn clear(&mut self)
        ensures
            final(self)@ == Seq::<RecordV>::empty(),
    {
        *self = AppData { records: Vec::new() };
        proof {
            assert(self@ =~= Seq::<RecordV>::empty());
        }
    }
}

/// What one commit does to the store's contents: the new record goes at
/// the end, everything else stays.
pub open spec fn spec_commit(store: Seq<RecordV>, r: RecordV) -> Seq<RecordV> {
    store.push(r)
}

/// The store after committing `rs`, first element first, onto `store`.
pub open spec fn spec_commit_all(store: Seq<RecordV>, rs: Seq<RecordV>) -> Seq<RecordV>
    decreases rs.len(),
{
    if rs.len() == 0 {
        store
    } else {
        spec_commit_all(spec_commit(store, rs[0]), rs.drop_first())
    }
}

/// Committing a sequence of records appends exactly those records, in
/// commit order: from an empty store, N commits yield a store of length
/// N holding the records in the order they were committed.
pub proof fn lemma_append_only(store: Seq<RecordV>, rs: Seq<RecordV>)
    ensures
        spec_commit_all(store, rs) == store + rs,
        spec_commit_all(Seq::empty(), rs) == rs,
        spec_commit_all(Seq::empty(), rs).len() == rs.len(),
    decreases rs.len(),
{
    if rs.len() == 0 {
        assert(store + rs =~= store);
        assert(Seq::<RecordV>::empty() + rs =~= rs);
    } else {
        lemma_append_only(store.push(rs[0]), rs.drop_first());
        lemma_append_only(Seq::empty().push(rs[0]), rs.drop_first());
        assert(store.push(rs[0]) + rs.drop_first() =~= store + rs);
        assert(Seq::<RecordV>::empty().push(rs[0]) + rs.drop_first() =~= rs);
        assert(Seq::<RecordV>::empty() + rs =~= rs);
    }
}

} // verus!
