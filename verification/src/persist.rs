//! The steps of persisting an object, one decision after each access to the
//! file system.

use crate::error::StoreError;
use vstd::prelude::*;

verus! {

/// A step of persisting an object. All but the last two are accesses to the
/// file system, which the caller makes and whose outcome it reports.
#[derive(Clone, Copy, Debug, PartialEq, Eq, Structural)]
pub enum PersistStep {
    /// Look for the file of the object. Succeeds where it exists.
    ProbeFile,
    /// Create the directory of the object unless it is there. Succeeds where a
    /// directory stands at its path afterwards.
    CreateDirectory,
    /// Remove what occupies the path of the directory. Succeeds where nothing
    /// is left there.
    PruneDirectory,
    /// Create the directory again, after pruning. Succeeds where a directory
    /// stands at its path afterwards.
    RecreateDirectory,
    /// Write the compressed object to its file. Succeeds where all of it was
    /// written.
    WriteFile,
    /// The object is in the store.
    Done,
    /// Persisting failed.
    Failed(StoreError),
}

/// The step that follows `last`, which succeeded or not.
///
/// An object whose file exists is left as it is. Otherwise its directory is
/// created, and where that fails, what occupies the path is pruned and the
/// directory created once more; a second failure leaves a corrupt store. Then
/// the file is written. Any other failure is one of the file system.
pub open spec fn step_after(last: PersistStep, succeeded: bool) -> PersistStep {
    match last {
        PersistStep::ProbeFile => if succeeded {
            PersistStep::Done
        } else {
            PersistStep::CreateDirectory
        },
        PersistStep::CreateDirectory => if succeeded {
            PersistStep::WriteFile
        } else {
            PersistStep::PruneDirectory
        },
        PersistStep::PruneDirectory => if succeeded {
            PersistStep::RecreateDirectory
        } else {
            PersistStep::Failed(StoreError::IoError)
        },
        PersistStep::RecreateDirectory => if succeeded {
            PersistStep::WriteFile
        } else {
            PersistStep::Failed(StoreError::CorruptStore)
        },
        PersistStep::WriteFile => if succeeded {
            PersistStep::Done
        } else {
            PersistStep::Failed(StoreError::IoError)
        },
        PersistStep::Done => PersistStep::Done,
        PersistStep::Failed(error) => PersistStep::Failed(error),
    }
}

/// Whether `step` ends persisting.
pub open spec fn is_final(step: PersistStep) -> bool {
    step is Done || step is Failed
}

/// The number of accesses to the file system that may still follow `step`,
/// itself included.
pub open spec fn steps_left(step: PersistStep) -> nat {
    match step {
        PersistStep::ProbeFile => 5,
        PersistStep::CreateDirectory => 4,
        PersistStep::PruneDirectory => 3,
        PersistStep::RecreateDirectory => 2,
        PersistStep::WriteFile => 1,
        PersistStep::Done => 0,
        PersistStep::Failed(_) => 0,
    }
}

/// The step at which persisting ends, when it goes on from `step` and each
/// access to the file system has the outcome that `answers` gives for it.
pub open spec fn last_step(step: PersistStep, answers: spec_fn(PersistStep) -> bool) -> PersistStep
    decreases steps_left(step),
{
    if is_final(step) {
        step
    } else {
        last_step(step_after(step, answers(step)), answers)
    }
}

/// How persisting ends, by the outcomes of the accesses to the file system.
pub open spec fn persist_outcome(answers: spec_fn(PersistStep) -> bool) -> PersistStep {
    if answers(PersistStep::ProbeFile) {
        PersistStep::Done
    } else if !answers(PersistStep::CreateDirectory) && !answers(PersistStep::PruneDirectory) {
        PersistStep::Failed(StoreError::IoError)
    } else if !answers(PersistStep::CreateDirectory) && !answers(PersistStep::RecreateDirectory) {
        PersistStep::Failed(StoreError::CorruptStore)
    } else if answers(PersistStep::WriteFile) {
        PersistStep::Done
    } else {
        PersistStep::Failed(StoreError::IoError)
    }
}

/// Persisting always ends, and ends as `persist_outcome` says: well where the
/// file exists or is written; with `IoError` where pruning or writing fails;
/// with `CorruptStore` where the directory cannot be created even after pruning.
pub proof fn lemma_persist_outcome(answers: spec_fn(PersistStep) -> bool)
    ensures
        is_final(last_step(PersistStep::ProbeFile, answers)),
        last_step(PersistStep::ProbeFile, answers) == persist_outcome(answers),
{
    reveal_with_fuel(last_step, 6);
}

/// Persisting an object that is in the store changes nothing: where the file
/// exists, persisting ends well after that one look, and no other access to
/// the file system is made.
pub proof fn lemma_existing_object_is_left(answers: spec_fn(PersistStep) -> bool)
    requires
        answers(PersistStep::ProbeFile),
    ensures
        step_after(PersistStep::ProbeFile, answers(PersistStep::ProbeFile)) == PersistStep::Done,
        last_step(PersistStep::ProbeFile, answers) == PersistStep::Done,
{
    reveal_with_fuel(last_step, 2);
}

/// What occupies the path of the directory is pruned at most once: after the
/// directory was created again, no step leads back to pruning.
pub proof fn lemma_pruned_at_most_once(step: PersistStep, succeeded: bool)
    requires
        steps_left(step) <= steps_left(PersistStep::RecreateDirectory),
    ensures
        step_after(step, succeeded) != PersistStep::PruneDirectory,
        step_after(step, succeeded) != PersistStep::RecreateDirectory,
        steps_left(step_after(step, succeeded)) <= steps_left(PersistStep::RecreateDirectory),
{
}

impl PersistStep {
    /// The step with which persisting an object starts.
    pub fn first() -> (r: PersistStep)
        ensures
            r == PersistStep::ProbeFile,
    {
        PersistStep::ProbeFile
    }

    /// Whether this step ends persisting, with nothing left to do.
    pub fn is_final(&self) -> (r: bool)
        ensures
            r == is_final(*self),
    {
        match self {
            PersistStep::Done => true,
            PersistStep::Failed(_) => true,
            _ => false,
        }
    }

    /// The outcome of persisting, once it has ended; `None` before.
    pub fn outcome(&self) -> (r: Option<Result<(), StoreError>>)
        ensures
            r == match *self {
                PersistStep::Done => Some(Ok::<(), StoreError>(())),
                PersistStep::Failed(error) => Some(Err::<(), StoreError>(error)),
                _ => None,
            },
    {
        match self {
            PersistStep::Done => Some(Ok(())),
            PersistStep::Failed(error) => Some(Err(*error)),
            _ => None,
        }
    }

    /// The step that follows this one, which succeeded or not.
    pub fn next(&self, succeeded: bool) -> (r: PersistStep)
        ensures
            r == step_after(*self, succeeded),
            !is_final(*self) ==> steps_left(r) < steps_left(*self),
    {
        match self {
            PersistStep::ProbeFile => if succeeded {
                PersistStep::Done
            } else {
                PersistStep::CreateDirectory
            },
            PersistStep::CreateDirectory => if succeeded {
                PersistStep::WriteFile
            } else {
                PersistStep::PruneDirectory
            },
            PersistStep::PruneDirectory => if succeeded {
                PersistStep::RecreateDirectory
            } else {
                PersistStep::Failed(StoreError::IoError)
            },
            PersistStep::RecreateDirectory => if succeeded {
                PersistStep::WriteFile
            } else {
                PersistStep::Failed(StoreError::CorruptStore)
            },
            PersistStep::WriteFile => if succeeded {
                PersistStep::Done
            } else {
                PersistStep::Failed(StoreError::IoError)
            },
            PersistStep::Done => PersistStep::Done,
            PersistStep::Failed(error) => PersistStep::Failed(*error),
        }
    }
}

} // verus!
