//! The set of files that the listing knows, each identifier at most once.

use crate::drive_file::{DriveFile, DriveFileView};
use vstd::prelude::*;

verus! {

/// Whether some record of `files` carries the identifier `id`.
pub open spec fn has_id(files: Seq<DriveFileView>, id: Seq<char>) -> bool {
    exists|i: int| 0 <= i < files.len() && (#[trigger] files[i]).id == id
}

/// Whether no two records of `files` carry the same identifier.
pub open spec fn ids_unique(files: Seq<DriveFileView>) -> bool {
    forall|i: int, j: int|
        0 <= i < j < files.len() ==> (#[trigger] files[i]).id != (#[trigger] files[j]).id
}

/// The identifiers that occur in `files`.
pub open spec fn ids(files: Seq<DriveFileView>) -> Set<Seq<char>> {
    Set::new(|id: Seq<char>| has_id(files, id))
}

/// `files` with `record` in place of every record that carries its identifier.
pub open spec fn replaced(files: Seq<DriveFileView>, record: DriveFileView) -> Seq<DriveFileView> {
    Seq::new(
        files.len(),
        |i: int|
            if files[i].id == record.id {
                record
            } else {
                files[i]
            },
    )
}

/// `files` after `record` is merged into it: `record` takes the place of the
/// record with its identifier, or goes to the end where there is none.
pub open spec fn merged(files: Seq<DriveFileView>, record: DriveFileView) -> Seq<DriveFileView> {
    if has_id(files, record.id) {
        replaced(files, record)
    } else {
        files.push(record)
    }
}

/// `files` after each of `records` is merged into it, the first one first.
pub open spec fn merged_all(files: Seq<DriveFileView>, records: Seq<DriveFileView>) -> Seq<
    DriveFileView,
>
    decreases records.len(),
{
    if records.len() == 0 {
        files
    } else {
        merged(merged_all(files, records.drop_last()), records.last())
    }
}

/// The record of `files` that carries the identifier `id`, if there is one.
pub open spec fn record_with(files: Seq<DriveFileView>, id: Seq<char>) -> Option<DriveFileView> {
    if has_id(files, id) {
        Some(files[choose|i: int| 0 <= i < files.len() && (#[trigger] files[i]).id == id])
    } else {
        None
    }
}

/// Whether `record` is in `files`, and is the only record there with its
/// identifier.
pub open spec fn holds_once(files: Seq<DriveFileView>, record: DriveFileView) -> bool {
    exists|i: int|
        0 <= i < files.len() && #[trigger] files[i] == record && forall|j: int|
            0 <= j < files.len() && (#[trigger] files[j]).id == record.id ==> j == i
}

/// The files that the listing knows. No identifier occurs twice: merging a
/// record whose identifier is known replaces the record that was there.
#[derive(Debug)]
pub struct DriveFiles {
    files: Vec<DriveFile>,
}

impl View for DriveFiles {
    type V = Seq<DriveFileView>;

    closed spec fn view(&self) -> Seq<DriveFileView> {
        self.files.deep_view()
    }
}

impl DriveFiles {
    #[verifier::type_invariant]
    spec fn well_formed(self) -> bool {
        ids_unique(self.files.deep_view())
    }

    /// The empty set.
    pub fn new() -> (files: DriveFiles)
        ensures
            files@ == Seq::<DriveFileView>::empty(),
    {
        let files = DriveFiles { files: Vec::new() };
        assert(files.files.deep_view() =~= Seq::<DriveFileView>::empty());
        files
    }

    /// The number of files, which is the number of identifiers.
    pub fn len(&self) -> (n: usize)
        ensures
            n == self@.len(),
            n == ids(self@).len(),
            ids_unique(self@),
    {
        proof {
            use_type_invariant(self);
            lemma_unique_ids_count(self@);
        }
        self.files.len()
    }

    /// The records, in the order in which their identifiers first came.
    pub fn files(&self) -> (files: &Vec<DriveFile>)
        ensures
            files.deep_view() == self@,
            ids_unique(self@),
    {
        proof {
            use_type_invariant(self);
        }
        &self.files
    }

    /// Gives up the set for its records, in the order in which their
    /// identifiers first came.
    pub fn into_files(self) -> (files: Vec<DriveFile>)
        ensures
            files.deep_view() == self@,
            ids_unique(self@),
    {
        proof {
            use_type_invariant(&self);
        }
        self.files
    }

    /// Where the record with the identifier of `file` stands, if there is one.
    pub fn position(&self, file: &DriveFile) -> (at: Option<usize>)
        ensures
            at is Some <==> has_id(self@, file@.id),
            at matches Some(i) ==> i < self@.len() && self@[i as int].id == file@.id,
    {
        let n: usize = self.files.len();
        let mut i: usize = 0;
        while i < n
            invariant
                n == self.files.len(),
                i <= n,
                forall|k: int| 0 <= k < i ==> (#[trigger] self@[k]).id != file@.id,
            decreases n - i,
        {
            if self.files[i].same_file(file) {
                assert(self@[i as int].id == file@.id);
                return Some(i);
            }
            i += 1;
        }
        None
    }

    /// Whether a file with the identifier of `file` is in the set.
    pub fn contains(&self, file: &DriveFile) -> (found: bool)
        ensures
            found == has_id(self@, file@.id),
    {
        self.position(file).is_some()
    }

    /// Merges `file` into the set: it takes the place of the record with its
    /// identifier, whatever that record held, or is added at the end where
    /// the identifier is new.
    pub fn merge(&mut self, file: DriveFile)
        ensures
            final(self)@ == merged(old(self)@, file@),
    {
        proof {
            use_type_invariant(&*self);
        }
        let at = self.position(&file);
        let ghost before = self@;
        let mut files: Vec<DriveFile> = Vec::new();
        std::mem::swap(&mut files, &mut self.files);
        assert(files.deep_view() == before);
        match at {
            Some(i) => {
                files.set(i, file);
                proof {
                    lemma_replaced_is_update(before, i as int, file@);
                    assert(files.deep_view() =~= before.update(i as int, file@));
                }
            },
            None => {
                files.push(file);
                assert(files.deep_view() =~= before.push(file@));
            },
        }
        proof {
            lemma_merged_unique(before, file@);
        }
        self.files = files;
    }

    /// Merges each of `records` into the set, the first one first.
    pub fn merge_all(&mut self, records: Vec<DriveFile>)
        ensures
            final(self)@ == merged_all(old(self)@, records.deep_view()),
    {
        let ghost all = records.deep_view();
        let ghost before = self@;
        for record in it: records.into_iter()
            invariant
                it.seq().len() == all.len(),
                forall|k: int| 0 <= k < all.len() ==> (#[trigger] it.seq()[k])@ == all[k],
                self@ == merged_all(before, all.take(it.index() as int)),
        {
            proof {
                let done = it.index() as int;
                assert(all.take(done + 1).drop_last() =~= all.take(done));
                assert(all.take(done + 1).last() == all[done]);
            }
            self.merge(record);
        }
        assert(all.take(all.len() as int) =~= all);
    }

    /// The set of `records`: each merged into the empty set, the first one
    /// first, so that of two records with one identifier the later one stays.
    pub fn from_records(records: Vec<DriveFile>) -> (files: DriveFiles)
        ensures
            files@ == merged_all(Seq::<DriveFileView>::empty(), records.deep_view()),
    {
        let mut files = DriveFiles::new();
        files.merge_all(records);
        files
    }
}

/// Replacing within a set of unique identifiers changes one record only.
proof fn lemma_replaced_is_update(files: Seq<DriveFileView>, i: int, record: DriveFileView)
    requires
        ids_unique(files),
        0 <= i < files.len(),
        files[i].id == record.id,
    ensures
        replaced(files, record) == files.update(i, record),
        has_id(files, record.id),
{
    assert(replaced(files, record) =~= files.update(i, record));
}

/// Merging a record leaves the identifiers unique.
pub proof fn lemma_merged_unique(files: Seq<DriveFileView>, record: DriveFileView)
    requires
        ids_unique(files),
    ensures
        ids_unique(merged(files, record)),
{
    let after = merged(files, record);
    assert forall|i: int, j: int| 0 <= i < j < after.len() implies (#[trigger] after[i]).id != (
    #[trigger] after[j]).id by {
        if has_id(files, record.id) {
            assert(files[i].id != files[j].id);
        } else {
            if j < files.len() {
                assert(files[i].id != files[j].id);
            } else {
                assert(files[i].id != record.id);
            }
        }
    }
}

/// Merging a record puts it into the set, once, and leaves every record with
/// another identifier where it was. The set grows by one where the identifier
/// is new, and not at all where it is known.
pub proof fn lemma_merged(files: Seq<DriveFileView>, record: DriveFileView)
    requires
        ids_unique(files),
    ensures
        ids_unique(merged(files, record)),
        holds_once(merged(files, record), record),
        merged(files, record).len() == files.len() + (if has_id(files, record.id) {
            0int
        } else {
            1int
        }),
        forall|i: int|
            0 <= i < files.len() && (#[trigger] files[i]).id != record.id ==> merged(
                files,
                record,
            )[i] == files[i],
        ids(merged(files, record)) == ids(files).insert(record.id),
{
    let after = merged(files, record);
    lemma_merged_unique(files, record);
    if has_id(files, record.id) {
        let i = choose|i: int| 0 <= i < files.len() && (#[trigger] files[i]).id == record.id;
        lemma_replaced_is_update(files, i, record);
        assert(after[i] == record);
        assert forall|j: int| 0 <= j < after.len() && (#[trigger] after[j]).id
            == record.id implies j == i by {
            if j != i {
                assert(files[j].id != files[i].id);
            }
        }
    } else {
        let i = files.len() as int;
        assert(after[i] == record);
        assert forall|j: int| 0 <= j < after.len() && (#[trigger] after[j]).id
            == record.id implies j == i by {
            if j != i {
                assert(files[j].id != record.id);
            }
        }
    }
    assert forall|id: Seq<char>| ids(after).contains(id) == ids(files).insert(record.id).contains(
        id,
    ) by {
        if has_id(after, id) {
            let k = choose|k: int| 0 <= k < after.len() && (#[trigger] after[k]).id == id;
            if id != record.id {
                assert(files[k].id == id);
            }
        }
        if has_id(files, id) {
            let k = choose|k: int| 0 <= k < files.len() && (#[trigger] files[k]).id == id;
            assert(after[k].id == id);
        }
        if id == record.id {
            assert(has_id(after, id));
        }
    }
    assert(ids(after) =~= ids(files).insert(record.id));
}

/// Looked up by identifier, a set after a merge holds the merged record
/// under its identifier, and under every other identifier what it held
/// before.
pub proof fn lemma_merged_lookup(files: Seq<DriveFileView>, record: DriveFileView, id: Seq<char>)
    requires
        ids_unique(files),
    ensures
        record_with(merged(files, record), id) == if id == record.id {
            Some(record)
        } else {
            record_with(files, id)
        },
{
    let after = merged(files, record);
    lemma_merged(files, record);
    assert(ids(after).contains(id) == ids(files).insert(record.id).contains(id));
    if has_id(after, id) {
        let k = choose|k: int| 0 <= k < after.len() && (#[trigger] after[k]).id == id;
        if id == record.id {
            let i = choose|i: int|
                0 <= i < after.len() && #[trigger] after[i] == record && forall|j: int|
                    0 <= j < after.len() && (#[trigger] after[j]).id == record.id ==> j == i;
            assert(k == i);
        } else {
            assert(has_id(files, id));
            let m = choose|m: int| 0 <= m < files.len() && (#[trigger] files[m]).id == id;
            assert(k < files.len());
            assert(after[k] == files[k]);
            if k != m {
                assert(files[k].id != files[m].id);
            }
        }
    }
}

/// Merging a file that is already there, as it is, changes nothing.
pub proof fn lemma_merge_again(files: Seq<DriveFileView>, record: DriveFileView)
    requires
        ids_unique(files),
    ensures
        merged(merged(files, record), record) == merged(files, record),
{
    lemma_merge_twice(files, record, record);
}

/// Merging two versions of one file, one after the other, leaves one record
/// with their identifier: the later version. The set is what merging the
/// later version alone would have made.
pub proof fn lemma_merge_twice(
    files: Seq<DriveFileView>,
    first: DriveFileView,
    second: DriveFileView,
)
    requires
        ids_unique(files),
        first.id == second.id,
    ensures
        merged(merged(files, first), second) == merged(files, second),
        holds_once(merged(merged(files, first), second), second),
        merged(merged(files, first), second).len() == merged(files, first).len(),
{
    let once = merged(files, first);
    lemma_merged(files, first);
    lemma_merged(once, second);
    lemma_merged(files, second);
    assert(has_id(once, second.id));
    assert(merged(once, second) =~= merged(files, second)) by {
        assert forall|k: int| 0 <= k < once.len() implies merged(once, second)[k] == merged(
            files,
            second,
        )[k] by {
            if k < files.len() {
                if files[k].id == second.id {
                    assert(has_id(files, second.id));
                }
            }
        }
    }
}

/// Merging records one after the other makes the set of all identifiers
/// involved, each once: the set holds as many records as there are
/// identifiers in the set before and in the records together.
pub proof fn lemma_merged_all_ids(files: Seq<DriveFileView>, records: Seq<DriveFileView>)
    requires
        ids_unique(files),
    ensures
        ids_unique(merged_all(files, records)),
        ids(merged_all(files, records)) == ids(files).union(ids(records)),
        merged_all(files, records).len() == ids(files).union(ids(records)).len(),
    decreases records.len(),
{
    if records.len() == 0 {
        assert(ids(records) =~= Set::<Seq<char>>::empty());
        assert(ids(files).union(ids(records)) =~= ids(files));
    } else {
        let rest = records.drop_last();
        let last = records.last();
        lemma_merged_all_ids(files, rest);
        lemma_merged(merged_all(files, rest), last);
        assert(ids(records) =~= ids(rest).insert(last.id)) by {
            assert forall|id: Seq<char>| ids(records).contains(id) == ids(rest).insert(
                last.id,
            ).contains(id) by {
                if has_id(records, id) {
                    let i = choose|i: int|
                        0 <= i < records.len() && (#[trigger] records[i]).id == id;
                    if i < rest.len() {
                        assert(rest[i].id == id);
                    }
                }
                if has_id(rest, id) {
                    let i = choose|i: int| 0 <= i < rest.len() && (#[trigger] rest[i]).id == id;
                    assert(records[i].id == id);
                }
                if id == last.id {
                    assert(records[records.len() - 1].id == id);
                }
            }
        }
        assert(ids(files).union(ids(rest)).insert(last.id) =~= ids(files).union(ids(records)));
    }
    lemma_unique_ids_count(merged_all(files, records));
}

/// Merging records never makes the set smaller, and makes it larger by the
/// number of the records at most.
pub proof fn lemma_merged_all_len(files: Seq<DriveFileView>, records: Seq<DriveFileView>)
    requires
        ids_unique(files),
    ensures
        files.len() <= merged_all(files, records).len() <= files.len() + records.len(),
    decreases records.len(),
{
    if records.len() > 0 {
        lemma_merged_all_len(files, records.drop_last());
        lemma_merged_all_ids(files, records.drop_last());
        lemma_merged(merged_all(files, records.drop_last()), records.last());
    }
}

/// Merging records none of which is known, and no two of which are the same
/// file, appends them: the set grows by their number.
pub proof fn lemma_merged_all_new(files: Seq<DriveFileView>, records: Seq<DriveFileView>)
    requires
        ids_unique(files + records),
    ensures
        merged_all(files, records) == files + records,
        merged_all(files, records).len() == files.len() + records.len(),
    decreases records.len(),
{
    let all = files + records;
    if records.len() == 0 {
        assert(files + records =~= files);
    } else {
        let rest = records.drop_last();
        let last = records.last();
        assert(files + rest =~= all.drop_last());
        assert(ids_unique(files + rest)) by {
            assert forall|i: int, j: int| 0 <= i < j < (files + rest).len() implies (
            #[trigger] (files + rest)[i]).id != (#[trigger] (files + rest)[j]).id by {
                assert(all[i].id != all[j].id);
            }
        }
        lemma_merged_all_new(files, rest);
        assert(!has_id(files + rest, last.id)) by {
            if has_id(files + rest, last.id) {
                let i = choose|i: int|
                    0 <= i < (files + rest).len() && (#[trigger] (files + rest)[i]).id == last.id;
                assert(all[i].id != all[all.len() - 1].id);
            }
        }
        assert((files + rest).push(last) =~= all);
    }
}

/// Merging one run of records and then another is merging the two runs as one.
pub proof fn lemma_merged_all_concat(
    files: Seq<DriveFileView>,
    first: Seq<DriveFileView>,
    second: Seq<DriveFileView>,
)
    ensures
        merged_all(merged_all(files, first), second) == merged_all(files, first + second),
    decreases second.len(),
{
    if second.len() == 0 {
        assert(first + second =~= first);
    } else {
        lemma_merged_all_concat(files, first, second.drop_last());
        assert((first + second).drop_last() =~= first + second.drop_last());
        assert((first + second).last() == second.last());
    }
}

/// Among unique identifiers there are as many identifiers as records.
pub proof fn lemma_unique_ids_count(files: Seq<DriveFileView>)
    requires
        ids_unique(files),
    ensures
        ids(files).finite(),
        ids(files).len() == files.len(),
    decreases files.len(),
{
    if files.len() == 0 {
        assert(ids(files) =~= Set::<Seq<char>>::empty());
    } else {
        let rest = files.drop_last();
        let last = files.last();
        assert(ids_unique(rest)) by {
            assert forall|i: int, j: int| 0 <= i < j < rest.len() implies (#[trigger] rest[i]).id
                != (#[trigger] rest[j]).id by {
                assert(files[i].id != files[j].id);
            }
        }
        lemma_unique_ids_count(rest);
        assert(!has_id(rest, last.id)) by {
            if has_id(rest, last.id) {
                let i = choose|i: int| 0 <= i < rest.len() && (#[trigger] rest[i]).id == last.id;
                assert(files[i].id != files[files.len() - 1].id);
            }
        }
        assert(ids(files) =~= ids(rest).insert(last.id)) by {
            assert forall|id: Seq<char>| ids(files).contains(id) == ids(rest).insert(
                last.id,
            ).contains(id) by {
                if has_id(files, id) {
                    let i = choose|i: int| 0 <= i < files.len() && (#[trigger] files[i]).id == id;
                    if i < rest.len() {
                        assert(rest[i].id == id);
                    }
                }
                if has_id(rest, id) {
                    let i = choose|i: int| 0 <= i < rest.len() && (#[trigger] rest[i]).id == id;
                    assert(files[i].id == id);
                }
                if id == last.id {
                    assert(files[files.len() - 1].id == id);
                }
            }
        }
    }
}

} // verus!
