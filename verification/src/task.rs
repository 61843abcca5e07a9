//! The task model: one translation job for one source image under one
//! parameter tuple, plus its parameter records.

use vstd::prelude::*;

use crate::params::{
    db_direction_of, direction_into_db, DbDirection, Detector, Direction, Language, Size,
    TaskState, Translator,
};

verus! {

/// Parameter tuple of a task as submitted, before the reading
/// direction is resolved.
#[derive(Debug, Clone, Copy, PartialEq, Eq, Structural)]
pub struct TaskParam {
    pub target_language: Language,
    pub detector: Detector,
    pub direction: Direction,
    pub translator: Translator,
    pub size: Size,
}

/// Parameter tuple of a task as stored: the direction is resolved, so
/// together with the source image and worker revision this record is
/// the deduplication key.
#[derive(Debug, Clone, Copy, PartialEq, Eq, Structural)]
pub struct DBTaskParam {
    pub target_language: Language,
    pub detector: Detector,
    pub direction: DbDirection,
    pub translator: Translator,
    pub size: Size,
}

impl TaskParam {
    /// The storage form of this tuple: the direction is resolved per
    /// target language, every other field is kept.
    pub fn into_db(self) -> (r: DBTaskParam)
        ensures
            r.target_language == self.target_language,
            r.detector == self.detector,
            r.direction == direction_into_db(self.direction, self.target_language),
            r.translator == self.translator,
            r.size == self.size,
    {
        DBTaskParam {
            target_language: self.target_language,
            detector: self.detector,
            direction: self.direction.into_db(self.target_language),
            translator: self.translator,
            size: self.size,
        }
    }
}

/// The submitted form a stored tuple denotes.
pub open spec fn param_of_db(p: DBTaskParam) -> TaskParam {
    TaskParam {
        target_language: p.target_language,
        detector: p.detector,
        direction: db_direction_of(p.direction),
        translator: p.translator,
        size: p.size,
    }
}

impl DBTaskParam {
    /// The submitted form this stored tuple denotes.
    pub fn to_param(self) -> (r: TaskParam)
        ensures
            r == param_of_db(self),
    {
        TaskParam {
            target_language: self.target_language,
            detector: self.detector,
            direction: self.direction.to_direction(),
            translator: self.translator,
            size: self.size,
        }
    }
}

/// Result of a finished task: the blob key of its translation mask.
#[derive(Debug, Clone, PartialEq, Eq)]
pub struct TaskResult {
    pub translation_mask: String,
}

/// One translation job: immutable identity and parameters, the source
/// image payload, and the mutable execution state.
#[derive(Debug)]
pub struct Task {
    pub id: String,
    pub param: TaskParam,
    pub source_image: Vec<u8>,
    pub state: TaskState,
    pub last_attempted_at: Option<i64>,
    pub failed_count: i32,
    pub result: Option<TaskResult>,
}

impl Task {
    /// Assembles a task from its parts.
    pub fn new(
        id: String,
        param: TaskParam,
        source_image: Vec<u8>,
        state: TaskState,
        last_attempted_at: Option<i64>,
        failed_count: i32,
        result: Option<TaskResult>,
    ) -> (r: Task)
        ensures
            r.id@ == id@,
            r.param == param,
            r.source_image@ == source_image@,
            r.state == state,
            r.last_attempted_at == last_attempted_at,
            r.failed_count == failed_count,
            r.result == result,
    {
        Task { id, param, source_image, state, last_attempted_at, failed_count, result }
    }

    /// The task's identity.
    pub fn id(&self) -> (r: &str)
        ensures
            r@ == self.id@,
    {
        self.id.as_str()
    }

    /// The task's parameter tuple.
    pub fn param(&self) -> (r: &TaskParam)
        ensures
            *r == self.param,
    {
        &self.param
    }

    /// The task's source image payload.
    pub fn source_image(&self) -> (r: &Vec<u8>)
        ensures
            r@ == self.source_image@,
    {
        &self.source_image
    }
}

} // verus!
