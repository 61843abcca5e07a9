//! In-memory model of the task table: the columns the scheduler
//! touches, the unique composite index that carries deduplication, and
//! the updates the scheduler issues.
//!
//! The table is well formed when row ids are unique, the composite key
//! `(source image, parameter tuple, worker revision)` is unique, and a
//! row carries a translation mask exactly when it is done. Every update
//! preserves well-formedness, so at most one row ever exists per
//! deduplication key.

use vstd::prelude::*;

use crate::params::TaskState;
use crate::task::DBTaskParam;

verus! {

/// One row of the task table, joined with the blob key of its source
/// image.
#[derive(Debug, Clone, PartialEq, Eq)]
pub struct DbTask {
    pub id: String,
    pub source_image_id: String,
    pub source_image_file: String,
    pub param: DBTaskParam,
    pub worker_revision: i32,
    pub state: TaskState,
    pub last_attempted_at: Option<i64>,
    pub failed_count: i32,
    pub translation_mask: Option<String>,
}

/// Whether a row matches a deduplication key.
pub open spec fn row_matches_key(
    row: DbTask,
    source_image_id: Seq<char>,
    param: DBTaskParam,
    revision: i32,
) -> bool {
    row.source_image_id@ == source_image_id && row.param == param && row.worker_revision
        == revision
}

impl DbTask {
    /// A copy of this row.
    pub fn duplicate(&self) -> (r: DbTask)
        ensures
            r == *self,
    {
        DbTask {
            id: self.id.clone(),
            source_image_id: self.source_image_id.clone(),
            source_image_file: self.source_image_file.clone(),
            param: self.param,
            worker_revision: self.worker_revision,
            state: self.state,
            last_attempted_at: self.last_attempted_at,
            failed_count: self.failed_count,
            translation_mask: match &self.translation_mask {
                Some(mask) => Some(mask.clone()),
                None => None,
            },
        }
    }
}

/// The task table.
#[derive(Debug)]
pub struct TaskTable {
    pub rows: Vec<DbTask>,
}

impl TaskTable {
    /// Well-formedness: unique ids, unique deduplication keys, and a
    /// translation mask exactly on done rows.
    pub open spec fn wf(&self) -> bool {
        &&& forall|i: int, j: int|
            0 <= i < j < self.rows@.len() ==> (#[trigger] self.rows@[i]).id@ != (
            #[trigger] self.rows@[j]).id@
        &&& forall|i: int, j: int|
            0 <= i < j < self.rows@.len() ==> !row_matches_key(
                #[trigger] self.rows@[i],
                (#[trigger] self.rows@[j]).source_image_id@,
                self.rows@[j].param,
                self.rows@[j].worker_revision,
            )
        &&& forall|i: int|
            0 <= i < self.rows@.len() ==> ((#[trigger] self.rows@[i]).translation_mask is Some
                <==> self.rows@[i].state == TaskState::Done)
    }

    /// Whether some row carries this id.
    pub open spec fn spec_has_id(&self, id: Seq<char>) -> bool {
        exists|i: int| 0 <= i < self.rows@.len() && (#[trigger] self.rows@[i]).id@ == id
    }

    /// An empty table.
    pub fn new() -> (r: TaskTable)
        ensures
            r.wf(),
            r.rows@.len() == 0,
    {
        TaskTable { rows: Vec::new() }
    }

    /// The number of rows.
    pub fn len(&self) -> (r: usize)
        ensures
            r == self.rows@.len(),
    {
        self.rows.len()
    }

    /// The row at an index.
    pub fn row_at(&self, i: usize) -> (r: &DbTask)
        requires
            i < self.rows@.len(),
        ensures
            *r == self.rows@[i as int],
    {
        &self.rows[i]
    }

    /// The index of the row with this id, if any.
    pub fn find_by_id(&self, id: &str) -> (r: Option<usize>)
        ensures
            match r {
                Some(i) => i < self.rows@.len() && self.rows@[i as int].id@ == id@,
                None => !self.spec_has_id(id@),
            },
    {
        let n = self.rows.len();
        for i in 0..n
            invariant
                n == self.rows@.len(),
                forall|k: int| 0 <= k < i ==> (#[trigger] self.rows@[k]).id@ != id@,
        {
            if crate::params::str_eq(self.rows[i].id.as_str(), id) {
                return Some(i);
            }
        }
        None
    }

    /// The index of the row with this deduplication key, if any.
    pub fn find_by_key(&self, source_image_id: &str, param: &DBTaskParam, revision: i32) -> (r:
        Option<usize>)
        ensures
            match r {
                Some(i) => i < self.rows@.len() && row_matches_key(
                    self.rows@[i as int],
                    source_image_id@,
                    *param,
                    revision,
                ),
                None => forall|k: int|
                    0 <= k < self.rows@.len() ==> !row_matches_key(
                        #[trigger] self.rows@[k],
                        source_image_id@,
                        *param,
                        revision,
                    ),
            },
    {
        let n = self.rows.len();
        for i in 0..n
            invariant
                n == self.rows@.len(),
                forall|k: int|
                    0 <= k < i ==> !row_matches_key(
                        #[trigger] self.rows@[k],
                        source_image_id@,
                        *param,
                        revision,
                    ),
        {
            let row = &self.rows[i];
            if crate::params::str_eq(row.source_image_id.as_str(), source_image_id)
                && row.param.target_language == param.target_language && row.param.detector
                == param.detector && row.param.direction == param.direction && row.param.translator
                == param.translator && row.param.size == param.size && row.worker_revision
                == revision {
                assert(row.param == *param);
                return Some(i);
            }
        }
        None
    }

    /// Upsert on the unique composite index: if a row with the key
    /// exists, a retrying upsert resets it to pending and clears its
    /// mask while a plain upsert leaves it untouched; otherwise a fresh
    /// pending row is created under the given new id. Returns the index
    /// of the row the key now names.
    pub fn upsert_task(
        &mut self,
        source_image_id: &str,
        param: &DBTaskParam,
        retry: bool,
        source_image_file: &str,
        new_id: &str,
        revision: i32,
    ) -> (idx: usize)
        requires
            old(self).wf(),
            !old(self).spec_has_id(new_id@),
        ensures
            final(self).wf(),
            idx < final(self).rows@.len(),
            row_matches_key(final(self).rows@[idx as int], source_image_id@, *param, revision),
            forall|i: int|
                0 <= i < old(self).rows@.len() && row_matches_key(
                    #[trigger] old(self).rows@[i],
                    source_image_id@,
                    *param,
                    revision,
                ) ==> {
                    &&& idx == i
                    &&& final(self).rows@.len() == old(self).rows@.len()
                    &&& (if retry {
                        final(self).rows@[i] == (DbTask {
                            state: TaskState::Pending,
                            translation_mask: None,
                            ..old(self).rows@[i]
                        })
                    } else {
                        final(self).rows@[i] == old(self).rows@[i]
                    })
                    &&& forall|k: int|
                        0 <= k < old(self).rows@.len() && k != i ==> final(self).rows@[k] == old(
                            self,
                        ).rows@[k]
                },
            (forall|i: int|
                0 <= i < old(self).rows@.len() ==> !row_matches_key(
                    #[trigger] old(self).rows@[i],
                    source_image_id@,
                    *param,
                    revision,
                )) ==> {
                &&& final(self).rows@.len() == old(self).rows@.len() + 1
                &&& idx == old(self).rows@.len()
                &&& forall|k: int|
                    0 <= k < old(self).rows@.len() ==> final(self).rows@[k] == old(self).rows@[k]
                &&& final(self).rows@[idx as int].id@ == new_id@
                &&& final(self).rows@[idx as int].source_image_id@ == source_image_id@
                &&& final(self).rows@[idx as int].source_image_file@ == source_image_file@
                &&& final(self).rows@[idx as int].param == *param
                &&& final(self).rows@[idx as int].worker_revision == revision
                &&& final(self).rows@[idx as int].state == TaskState::Pending
                &&& final(self).rows@[idx as int].last_attempted_at is None
                &&& final(self).rows@[idx as int].failed_count == 0
                &&& final(self).rows@[idx as int].translation_mask is None
            },
    {
        match self.find_by_key(source_image_id, param, revision) {
            Some(i) => {
                if retry {
                    let row = self.rows.remove(i);
                    let updated = DbTask {
                        state: TaskState::Pending,
                        translation_mask: None,
                        ..row
                    };
                    self.rows.insert(i, updated);
                    assert(final(self).rows@ =~= old(self).rows@.update(
                        i as int,
                        final(self).rows@[i as int],
                    ));
                }
                i
            },
            None => {
                let row = DbTask {
                    id: new_id.to_owned(),
                    source_image_id: source_image_id.to_owned(),
                    source_image_file: source_image_file.to_owned(),
                    param: *param,
                    worker_revision: revision,
                    state: TaskState::Pending,
                    last_attempted_at: None,
                    failed_count: 0,
                    translation_mask: None,
                };
                self.rows.push(row);
                self.rows.len() - 1
            },
        }
    }

    /// Marks the row running and stamps the attempt time.
    pub fn set_running(&mut self, id: &str, now: i64) -> (found: bool)
        requires
            old(self).wf(),
            forall|i: int|
                0 <= i < old(self).rows@.len() && (#[trigger] old(self).rows@[i]).id@ == id@ ==> old(
                    self,
                ).rows@[i].state != TaskState::Done,
        ensures
            final(self).wf(),
            found == old(self).spec_has_id(id@),
            final(self).rows@.len() == old(self).rows@.len(),
            forall|i: int|
                0 <= i < old(self).rows@.len() && (#[trigger] old(self).rows@[i]).id@ != id@
                    ==> final(self).rows@[i] == old(self).rows@[i],
            forall|i: int|
                0 <= i < old(self).rows@.len() && (#[trigger] old(self).rows@[i]).id@ == id@
                    ==> final(self).rows@[i] == (DbTask {
                    state: TaskState::Running,
                    last_attempted_at: Some(now),
                    ..old(self).rows@[i]
                }),
    {
        match self.find_by_id(id) {
            Some(i) => {
                let row = self.rows.remove(i);
                let updated = DbTask {
                    state: TaskState::Running,
                    last_attempted_at: Some(now),
                    ..row
                };
                self.rows.insert(i, updated);
                assert(final(self).rows@ =~= old(self).rows@.update(
                    i as int,
                    final(self).rows@[i as int],
                ));
                true
            },
            None => false,
        }
    }

    /// Marks the row done and stores its translation mask key.
    pub fn set_finished(&mut self, id: &str, mask: &str) -> (found: bool)
        requires
            old(self).wf(),
        ensures
            final(self).wf(),
            found == old(self).spec_has_id(id@),
            final(self).rows@.len() == old(self).rows@.len(),
            forall|i: int|
                0 <= i < old(self).rows@.len() && (#[trigger] old(self).rows@[i]).id@ != id@
                    ==> final(self).rows@[i] == old(self).rows@[i],
            forall|i: int|
                0 <= i < old(self).rows@.len() && (#[trigger] old(self).rows@[i]).id@ == id@ ==> {
                    &&& final(self).rows@[i].state == TaskState::Done
                    &&& final(self).rows@[i].translation_mask == Some(
                        final(self).rows@[i].translation_mask->Some_0,
                    )
                    &&& final(self).rows@[i].translation_mask->Some_0@ == mask@
                    &&& final(self).rows@[i].id == old(self).rows@[i].id
                    &&& final(self).rows@[i].source_image_id == old(self).rows@[i].source_image_id
                    &&& final(self).rows@[i].source_image_file == old(
                        self,
                    ).rows@[i].source_image_file
                    &&& final(self).rows@[i].param == old(self).rows@[i].param
                    &&& final(self).rows@[i].worker_revision == old(self).rows@[i].worker_revision
                    &&& final(self).rows@[i].last_attempted_at == old(
                        self,
                    ).rows@[i].last_attempted_at
                    &&& final(self).rows@[i].failed_count == old(self).rows@[i].failed_count
                },
    {
        match self.find_by_id(id) {
            Some(i) => {
                let row = self.rows.remove(i);
                let updated = DbTask {
                    state: TaskState::Done,
                    translation_mask: Some(mask.to_owned()),
                    ..row
                };
                self.rows.insert(i, updated);
                assert(final(self).rows@ =~= old(self).rows@.update(
                    i as int,
                    final(self).rows@[i as int],
                ));
                true
            },
            None => false,
        }
    }

    /// Marks the row failed and counts the attempt: the state becomes
    /// error and the failure count rises by one.
    pub fn record_failure(&mut self, id: &str) -> (found: bool)
        requires
            old(self).wf(),
            forall|i: int|
                0 <= i < old(self).rows@.len() && (#[trigger] old(self).rows@[i]).id@ == id@ ==> old(
                    self,
                ).rows@[i].state != TaskState::Done && old(self).rows@[i].failed_count
                    < i32::MAX,
        ensures
            final(self).wf(),
            found == old(self).spec_has_id(id@),
            final(self).rows@.len() == old(self).rows@.len(),
            forall|i: int|
                0 <= i < old(self).rows@.len() && (#[trigger] old(self).rows@[i]).id@ != id@
                    ==> final(self).rows@[i] == old(self).rows@[i],
            forall|i: int|
                0 <= i < old(self).rows@.len() && (#[trigger] old(self).rows@[i]).id@ == id@
                    ==> final(self).rows@[i] == (DbTask {
                    state: TaskState::Error,
                    failed_count: (old(self).rows@[i].failed_count + 1) as i32,
                    ..old(self).rows@[i]
                }),
    {
        match self.find_by_id(id) {
            Some(i) => {
                let row = self.rows.remove(i);
                let count = row.failed_count;
                let updated = DbTask {
                    state: TaskState::Error,
                    failed_count: count + 1,
                    ..row
                };
                self.rows.insert(i, updated);
                assert(final(self).rows@ =~= old(self).rows@.update(
                    i as int,
                    final(self).rows@[i as int],
                ));
                true
            },
            None => false,
        }
    }

    /// Marks the row failed without counting an attempt, as when its
    /// source image cannot be loaded.
    pub fn set_error(&mut self, id: &str) -> (found: bool)
        requires
            old(self).wf(),
            forall|i: int|
                0 <= i < old(self).rows@.len() && (#[trigger] old(self).rows@[i]).id@ == id@ ==> old(
                    self,
                ).rows@[i].state != TaskState::Done,
        ensures
            final(self).wf(),
            found == old(self).spec_has_id(id@),
            final(self).rows@.len() == old(self).rows@.len(),
            forall|i: int|
                0 <= i < old(self).rows@.len() && (#[trigger] old(self).rows@[i]).id@ != id@
                    ==> final(self).rows@[i] == old(self).rows@[i],
            forall|i: int|
                0 <= i < old(self).rows@.len() && (#[trigger] old(self).rows@[i]).id@ == id@
                    ==> final(self).rows@[i] == (DbTask {
                    state: TaskState::Error,
                    ..old(self).rows@[i]
                }),
    {
        match self.find_by_id(id) {
            Some(i) => {
                let row = self.rows.remove(i);
                let updated = DbTask { state: TaskState::Error, ..row };
                self.rows.insert(i, updated);
                assert(final(self).rows@ =~= old(self).rows@.update(
                    i as int,
                    final(self).rows@[i as int],
                ));
                true
            },
            None => false,
        }
    }
}

} // verus!
