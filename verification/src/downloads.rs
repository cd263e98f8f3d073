//! The registry of files found in the watched folder.
//!
//! Every file is registered once, under its path. A conversion job refers
//! to its download by id only.

use crate::jobs::StoreFull;
use crate::text::str_eq;
use vstd::prelude::*;

verus! {

/// A file size in hundredths of a mebibyte, rounded to the nearest.
pub open spec fn centi_mb_of(bytes: nat) -> nat {
    (bytes * 100 + 524288) / 1048576
}

/// Converts a size in bytes to hundredths of a mebibyte, rounding halves
/// up.
pub fn size_centi_mb(bytes: u64) -> (r: u64)
    ensures
        r == centi_mb_of(bytes as nat),
{
    let wide: u128 = (bytes as u128) * 100 + 524288;
    (wide / 1048576) as u64
}

/// One registered file as it is stored.
#[derive(Clone, Debug, PartialEq, Eq)]
pub struct Download {
    /// Identity, given by the registry when the file is registered.
    pub id: i64,
    /// The file's name without its directory.
    pub filename: String,
    /// Where the file is now.
    pub filepath: String,
    /// The file's extension, in lower case.
    pub extension: String,
    /// The file's size in hundredths of a mebibyte.
    pub size_centi_mb: u64,
    /// When the file was registered.
    pub detected_at: u64,
}

/// The mathematical content of a [`Download`].
pub struct DownloadView {
    pub id: i64,
    pub filename: Seq<char>,
    pub filepath: Seq<char>,
    pub extension: Seq<char>,
    pub size_centi_mb: u64,
    pub detected_at: u64,
}

impl View for Download {
    type V = DownloadView;

    open spec fn view(&self) -> DownloadView {
        DownloadView {
            id: self.id,
            filename: self.filename@,
            filepath: self.filepath@,
            extension: self.extension@,
            size_centi_mb: self.size_centi_mb,
            detected_at: self.detected_at,
        }
    }
}

/// The contents of a list of downloads.
pub open spec fn download_views(rows: Seq<Download>) -> Seq<DownloadView> {
    Seq::new(rows.len(), |i: int| rows[i]@)
}

/// Ids grow strictly along the rows.
pub open spec fn ids_increase(rows: Seq<DownloadView>) -> bool {
    forall|i: int, j: int|
        0 <= i < j < rows.len() ==> (#[trigger] rows[i]).id < (#[trigger] rows[j]).id
}

/// The rows with every path `from` replaced by `to`.
pub open spec fn renamed_rows(rows: Seq<DownloadView>, from: Seq<char>, to: Seq<char>) -> Seq<
    DownloadView,
> {
    Seq::new(
        rows.len(),
        |i: int|
            if rows[i].filepath == from {
                DownloadView { filepath: to, ..rows[i] }
            } else {
                rows[i]
            },
    )
}

/// How many rows have the path `path`.
pub open spec fn count_path(rows: Seq<DownloadView>, path: Seq<char>) -> nat
    decreases rows.len(),
{
    if rows.len() == 0 {
        0
    } else {
        count_path(rows.drop_last(), path) + if rows.last().filepath == path {
            1nat
        } else {
            0nat
        }
    }
}

/// The mathematical content of a [`DownloadRegistry`]: its rows in the
/// order of registration and the id the next row will get.
pub struct DownloadTable {
    pub rows: Seq<DownloadView>,
    pub next_id: i64,
}

impl DownloadTable {
    /// Ids grow along the rows and stay below the next id to hand out.
    pub open spec fn wf(self) -> bool {
        &&& forall|i: int, j: int|
            0 <= i < j < self.rows.len() ==> (#[trigger] self.rows[i]).id < (
            #[trigger] self.rows[j]).id
        &&& forall|i: int| 0 <= i < self.rows.len() ==> (#[trigger] self.rows[i]).id < self.next_id
    }

    /// Whether a file is registered under `path`.
    pub open spec fn knows(self, path: Seq<char>) -> bool {
        exists|i: int| 0 <= i < self.rows.len() && (#[trigger] self.rows[i]).filepath == path
    }

    /// Whether a row with this id exists.
    pub open spec fn has(self, id: i64) -> bool {
        exists|i: int| 0 <= i < self.rows.len() && (#[trigger] self.rows[i]).id == id
    }

    /// The position of the row with this id.
    pub open spec fn position(self, id: i64) -> int {
        choose|i: int| 0 <= i < self.rows.len() && (#[trigger] self.rows[i]).id == id
    }

    /// No two rows have the same path.
    pub open spec fn paths_unique(self) -> bool {
        forall|i: int, j: int|
            0 <= i < j < self.rows.len() ==> (#[trigger] self.rows[i]).filepath != (
            #[trigger] self.rows[j]).filepath
    }

    /// The table with one more row, which gets the next id.
    pub open spec fn with_new(self, row: DownloadView) -> DownloadTable {
        DownloadTable { rows: self.rows.push(row), next_id: (self.next_id + 1) as i64 }
    }

    /// The table after the file at `from` moved to `to`.
    pub open spec fn after_rename(self, from: Seq<char>, to: Seq<char>) -> DownloadTable {
        DownloadTable { rows: renamed_rows(self.rows, from, to), ..self }
    }

    /// The table without the row at `at`.
    pub open spec fn without(self, at: int) -> DownloadTable {
        DownloadTable { rows: self.rows.remove(at), ..self }
    }
}

/// In a well-formed table a row is found at one position only.
pub proof fn lemma_download_position(table: DownloadTable, id: i64, at: int)
    requires
        table.wf(),
        0 <= at < table.rows.len(),
        table.rows[at].id == id,
    ensures
        table.has(id),
        table.position(id) == at,
{
    let p = table.position(id);
    assert(0 <= p < table.rows.len() && table.rows[p].id == id);
    if p < at {
        assert(table.rows[p].id < table.rows[at].id);
    } else if at < p {
        assert(table.rows[at].id < table.rows[p].id);
    }
}

/// The registry of downloads.
#[derive(Debug)]
pub struct DownloadRegistry {
    rows: Vec<Download>,
    next_id: i64,
}

impl View for DownloadRegistry {
    type V = DownloadTable;

    closed spec fn view(&self) -> DownloadTable {
        DownloadTable {
            rows: Seq::new(self.rows.len() as nat, |i: int| self.rows[i]@),
            next_id: self.next_id,
        }
    }
}

impl DownloadRegistry {
    /// The registry's lasting invariant.
    pub open spec fn wf(&self) -> bool {
        self@.wf()
    }

    /// An empty registry whose first row will get id 1.
    pub fn new() -> (s: DownloadRegistry)
        ensures
            s.wf(),
            s@.rows.len() == 0,
            s@.next_id == 1,
    {
        DownloadRegistry { rows: Vec::new(), next_id: 1 }
    }

    /// The number of rows.
    pub fn len(&self) -> (n: usize)
        ensures
            n == self@.rows.len(),
    {
        self.rows.len()
    }

    /// The row at position `at`, in the order of registration.
    pub fn at(&self, at: usize) -> (row: &Download)
        requires
            at < self@.rows.len(),
        ensures
            row@ == self@.rows[at as int],
    {
        &self.rows[at]
    }

    fn locate(&self, id: i64) -> (r: Option<usize>)
        requires
            self.wf(),
        ensures
            r is Some == self@.has(id),
            r matches Some(at) ==> at == self@.position(id) && at < self@.rows.len()
                && self@.rows[at as int].id == id,
    {
        let mut i: usize = 0;
        while i < self.rows.len()
            invariant
                self.wf(),
                i <= self.rows.len(),
                forall|k: int| 0 <= k < i ==> (#[trigger] self@.rows[k]).id != id,
            decreases self.rows.len() - i,
        {
            if self.rows[i].id == id {
                proof {
                    lemma_download_position(self@, id, i as int);
                }
                return Some(i);
            }
            i = i + 1;
        }
        None
    }

    /// The row with this id, if there is one.
    pub fn get(&self, id: i64) -> (r: Option<&Download>)
        requires
            self.wf(),
        ensures
            r is Some == self@.has(id),
            r matches Some(row) ==> row@ == self@.rows[self@.position(id)],
    {
        match self.locate(id) {
            Some(at) => Some(&self.rows[at]),
            None => None,
        }
    }

    /// Whether a file is registered under `path`.
    pub fn contains_path(&self, path: &str) -> (r: bool)
        ensures
            r == self@.knows(path@),
    {
        let mut i: usize = 0;
        while i < self.rows.len()
            invariant
                i <= self.rows.len(),
                forall|k: int| 0 <= k < i ==> (#[trigger] self@.rows[k]).filepath != path@,
            decreases self.rows.len() - i,
        {
            if str_eq(self.rows[i].filepath.as_str(), path) {
                assert(self@.rows[i as int].filepath == path@);
                return true;
            }
            i = i + 1;
        }
        false
    }

    /// Registers a file unless its path is registered already.
    ///
    /// `Ok(None)`: the path is known and nothing changed. `Ok(Some(id))`:
    /// a row was added under the next id. `Err`: the path is new but the ids
    /// are used up; nothing changed.
    pub fn register(
        &mut self,
        filename: &str,
        filepath: &str,
        extension: &str,
        size_centi_mb: u64,
        now: u64,
    ) -> (r: Result<Option<i64>, StoreFull>)
        requires
            old(self).wf(),
        ensures
            final(self).wf(),
            match r {
                Ok(None) => old(self)@.knows(filepath@) && final(self)@ == old(self)@,
                Ok(Some(id)) => !old(self)@.knows(filepath@) && id == old(self)@.next_id && id
                    < i64::MAX && final(self)@ == old(self)@.with_new(
                    DownloadView {
                        id,
                        filename: filename@,
                        filepath: filepath@,
                        extension: extension@,
                        size_centi_mb,
                        detected_at: now,
                    },
                ),
                Err(_) => !old(self)@.knows(filepath@) && old(self)@.next_id == i64::MAX
                    && final(self)@ == old(self)@,
            },
            old(self)@.paths_unique() ==> final(self)@.paths_unique(),
    {
        if self.contains_path(filepath) {
            return Ok(None);
        }
        if self.next_id == i64::MAX {
            return Err(StoreFull);
        }
        let id = self.next_id;
        self.rows.push(
            Download {
                id,
                filename: filename.to_owned(),
                filepath: filepath.to_owned(),
                extension: extension.to_owned(),
                size_centi_mb,
                detected_at: now,
            },
        );
        self.next_id = id + 1;
        proof {
            assert(final(self)@.rows =~= old(self)@.rows.push(
                DownloadView {
                    id,
                    filename: filename@,
                    filepath: filepath@,
                    extension: extension@,
                    size_centi_mb,
                    detected_at: now,
                },
            ));
            let before = old(self)@.rows;
            let after = final(self)@.rows;
            if old(self)@.paths_unique() {
                assert forall|i: int, j: int| 0 <= i < j < after.len() implies (#[trigger] after[i]).filepath
                    != (#[trigger] after[j]).filepath by {
                    if j == before.len() {
                        assert(before[i].filepath != filepath@);
                    } else {
                        assert(before[i].filepath != before[j].filepath);
                    }
                }
            }
        }
        Ok(Some(id))
    }

    /// Records that the file at `from` now lies at `to`. Returns how many
    /// rows had that path.
    pub fn rename_path(&mut self, from: &str, to: &str) -> (changed: usize)
        requires
            old(self).wf(),
        ensures
            final(self).wf(),
            final(self)@ == old(self)@.after_rename(from@, to@),
            changed == count_path(old(self)@.rows, from@),
    {
        let n = self.rows.len();
        let mut changed: usize = 0;
        let mut i: usize = 0;
        proof {
            assert(old(self)@.rows.take(0) =~= Seq::empty());
        }
        while i < n
            invariant
                i <= n,
                changed <= i,
                n == old(self)@.rows.len(),
                self@.rows.len() == n,
                self@.next_id == old(self)@.next_id,
                forall|k: int|
                    0 <= k < i ==> #[trigger] self@.rows[k] == renamed_rows(
                        old(self)@.rows,
                        from@,
                        to@,
                    )[k],
                forall|k: int| i <= k < n ==> #[trigger] self@.rows[k] == old(self)@.rows[k],
                changed == count_path(old(self)@.rows.take(i as int), from@),
            decreases n - i,
        {
            let ghost before = self@;
            let ghost orig = old(self)@.rows;
            proof {
                assert(before.rows[i as int] == orig[i as int]);
                assert(orig.take(i + 1).drop_last() =~= orig.take(i as int));
                assert(orig.take(i + 1).last() == orig[i as int]);
            }
            if str_eq(self.rows[i].filepath.as_str(), from) {
                self.rows[i].filepath = to.to_owned();
                changed = changed + 1;
                proof {
                    assert(self@.rows =~= before.rows.update(
                        i as int,
                        DownloadView { filepath: to@, ..orig[i as int] },
                    ));
                }
            }
            i = i + 1;
        }
        proof {
            assert(old(self)@.rows.take(n as int) =~= old(self)@.rows);
            assert(self@.rows =~= renamed_rows(old(self)@.rows, from@, to@));
        }
        changed
    }

    /// Removes the row with this id. Returns whether there was one.
    pub fn remove(&mut self, id: i64) -> (removed: bool)
        requires
            old(self).wf(),
        ensures
            final(self).wf(),
            removed == old(self)@.has(id),
            removed ==> final(self)@ == old(self)@.without(old(self)@.position(id)),
            !removed ==> final(self)@ == old(self)@,
    {
        match self.locate(id) {
            Some(at) => {
                self.rows.remove(at);
                proof {
                    assert(final(self)@.rows =~= old(self)@.rows.remove(at as int));
                }
                true
            },
            None => false,
        }
    }
    /// Takes over rows read from storage. The rows are accepted if their ids
    /// grow strictly and leave room for one more; the next id is then one
    /// above the last row's, or 1 for an empty registry.
    pub fn restore(rows: Vec<Download>) -> (r: Option<DownloadRegistry>)
        ensures
            r is Some <==> ids_increase(download_views(rows@)) && (rows@.len() > 0
                ==> rows@.last().id < i64::MAX),
            r matches Some(s) ==> s.wf() && s@.rows == download_views(rows@) && s@.next_id == (
            if rows@.len() == 0 {
                1
            } else {
                rows@.last().id + 1
            }),
    {
        let n = rows.len();
        if n == 0 {
            let s = DownloadRegistry { rows, next_id: 1 };
            proof {
                assert(s@.rows =~= download_views(rows@));
            }
            return Some(s);
        }
        let ghost views = download_views(rows@);
        let mut i: usize = 1;
        while i < n
            invariant
                1 <= i <= n,
                n == rows.len(),
                views == download_views(rows@),
                forall|a: int, b: int|
                    0 <= a < b < i ==> (#[trigger] views[a]).id < (#[trigger] views[b]).id,
            decreases n - i,
        {
            if rows[i - 1].id >= rows[i].id {
                proof {
                    assert(views[i - 1].id >= views[i as int].id);
                }
                return None;
            }
            proof {
                assert forall|a: int, b: int| 0 <= a < b < i + 1 implies (#[trigger] views[a]).id < (
                #[trigger] views[b]).id by {
                    if b == i {
                        if a < i - 1 {
                            assert(views[a].id < views[i - 1].id);
                        }
                    }
                }
            }
            i = i + 1;
        }
        let last = rows[n - 1].id;
        if last == i64::MAX {
            return None;
        }
        let s = DownloadRegistry { rows, next_id: last + 1 };
        proof {
            assert(s@.rows =~= views);
            assert forall|k: int| 0 <= k < s@.rows.len() implies (#[trigger] s@.rows[k]).id
                < s@.next_id by {
                if k < n - 1 {
                    assert(views[k].id < views[n - 1].id);
                }
            }
        }
        Some(s)
    }
}

/// Where every file is registered once, a move keeps it so, provided
/// nothing is registered under the new path yet.
pub proof fn lemma_rename_keeps_paths_unique(table: DownloadTable, from: Seq<char>, to: Seq<char>)
    requires
        table.paths_unique(),
        !table.knows(to),
    ensures
        table.after_rename(from, to).paths_unique(),
{
    let after = table.after_rename(from, to).rows;
    assert forall|i: int, j: int| 0 <= i < j < after.len() implies (#[trigger] after[i]).filepath != (
    #[trigger] after[j]).filepath by {
        assert(table.rows[i].filepath != table.rows[j].filepath);
        assert(table.rows[i].filepath != to);
        assert(table.rows[j].filepath != to);
    }
}

} // verus!
