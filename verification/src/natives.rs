//! Unpacking native libraries: what to do next, and how the pass ends.
//!
//! The caller owns the file system. It reports what happened, and
//! `extract_native_libraries` answers with the next step: first the natives
//! directory is made sure of, then every native archive is unpacked into it,
//! all at once and in no order, then the outcomes are summed up. The pass
//! fails with the failure of the first archive, in the order of the request,
//! that did not unpack; what other archives left in the directory stays.

use crate::collector::{get_native_library_paths, native_paths};
use crate::error::InstanceError;
use crate::manifest::{ClientView, McClientInfo};
use crate::rules::{PlatformContext, PlatformView};
use crate::text::texts;
use vstd::prelude::*;

verus! {

/// What happened outside since the last step.
#[derive(Debug, PartialEq, Eq)]
pub enum ExtractionEvent {
    /// The pass begins; the caller has looked for the natives directory.
    Started { natives_dir_exists: bool },
    /// The caller has tried to create the natives directory.
    DirectoryCreated { created: bool },
    /// Every archive has been dealt with. The outcomes stand in the order in
    /// which the archives were asked for; a failure carries its report.
    Unpacked { outcomes: Vec<Result<(), String>> },
}

/// What the caller has to do next.
#[derive(Debug, PartialEq, Eq)]
pub enum ExtractionStep {
    /// Create the natives directory and report `DirectoryCreated`.
    CreateDirectory,
    /// Unpack each of these archives, given relative to the library root,
    /// into the natives directory; wait for all of them and report `Unpacked`.
    Unpack { archives: Vec<String> },
    /// The pass is over.
    Done { result: Result<(), InstanceError> },
}

/// Whether the outcome at place `k` is the first failure of `outcomes`.
pub open spec fn is_first_failure(outcomes: Seq<Result<(), String>>, k: int) -> bool {
    &&& 0 <= k < outcomes.len()
    &&& outcomes[k] is Err
    &&& forall|j: int| 0 <= j < k ==> (#[trigger] outcomes[j]) is Ok
}

/// Whether `step` is the step that unpacks the native libraries of `client` on
/// `platform`, or the end of the pass if the name of one of them does not
/// resolve.
pub open spec fn begins_unpacking(
    client: ClientView,
    platform: PlatformView,
    step: ExtractionStep,
) -> bool {
    match native_paths(client.libraries, platform) {
        Some(paths) => step matches ExtractionStep::Unpack { archives } && texts(archives@)
            == paths,
        None => step == (ExtractionStep::Done {
            result: Err(InstanceError::CoordinateParseError),
        }),
    }
}

/// Whether `step` ends the pass with an extraction failure that carries `report`.
pub open spec fn ends_with_failure(step: ExtractionStep, report: Seq<char>) -> bool {
    step matches ExtractionStep::Done { result: Err(InstanceError::ExtractionError(carried)) }
        && carried@ == report
}

/// Whether `step` ends the pass as `outcomes` demand: well if every archive
/// unpacked, and else with the failure of the first that did not.
pub open spec fn sums_up(outcomes: Seq<Result<(), String>>, step: ExtractionStep) -> bool {
    &&& (forall|i: int| 0 <= i < outcomes.len() ==> (#[trigger] outcomes[i]) is Ok) ==> step == (
    ExtractionStep::Done { result: Ok(()) })
    &&& forall|k: int| #[trigger]
        is_first_failure(outcomes, k) ==> ends_with_failure(step, outcomes[k]->Err_0@)
}

/// Whether `step` is the answer to `event`.
pub open spec fn follows(
    client: ClientView,
    platform: PlatformView,
    event: ExtractionEvent,
    step: ExtractionStep,
) -> bool {
    match event {
        ExtractionEvent::Started { natives_dir_exists } => if natives_dir_exists {
            begins_unpacking(client, platform, step)
        } else {
            step == ExtractionStep::CreateDirectory
        },
        ExtractionEvent::DirectoryCreated { created } => if created {
            begins_unpacking(client, platform, step)
        } else {
            step == (ExtractionStep::Done { result: Err(InstanceError::FolderCreationFailed) })
        },
        ExtractionEvent::Unpacked { outcomes } => sums_up(outcomes@, step),
    }
}

/// Among outcomes that are not all good, one is the first failure.
pub proof fn lemma_first_failure_exists(outcomes: Seq<Result<(), String>>)
    requires
        exists|i: int| 0 <= i < outcomes.len() && outcomes[i] is Err,
    ensures
        exists|k: int| is_first_failure(outcomes, k),
    decreases outcomes.len(),
{
    let i = choose|i: int| 0 <= i < outcomes.len() && outcomes[i] is Err;
    let front = outcomes.take(i);
    if exists|j: int| 0 <= j < front.len() && front[j] is Err {
        lemma_first_failure_exists(front);
        let k = choose|k: int| is_first_failure(front, k);
        assert forall|j: int| 0 <= j < k implies (#[trigger] outcomes[j]) is Ok by {
            assert(front[j] is Ok);
        }
        assert(is_first_failure(outcomes, k));
    } else {
        assert forall|j: int| 0 <= j < i implies (#[trigger] outcomes[j]) is Ok by {
            assert(front[j] == outcomes[j]);
        }
        assert(is_first_failure(outcomes, i));
    }
}

/// Sums up the outcomes of unpacking: the failure of the first archive that
/// did not unpack, or success if every archive did.
pub fn aggregate_outcomes(outcomes: &Vec<Result<(), String>>) -> (result: Result<
    (),
    InstanceError,
>)
    ensures
        sums_up(outcomes@, ExtractionStep::Done { result }),
{
    let mut i: usize = 0;
    while i < outcomes.len()
        invariant
            i <= outcomes.len(),
            forall|j: int| 0 <= j < i ==> (#[trigger] outcomes@[j]) is Ok,
        decreases outcomes.len() - i,
    {
        match &outcomes[i] {
            Ok(_) => {},
            Err(report) => {
                let result = Err(InstanceError::ExtractionError(report.clone()));
                proof {
                    assert forall|k: int| #[trigger]
                        is_first_failure(outcomes@, k) implies k == i by {
                        if k < i {
                            assert(outcomes@[k] is Ok);
                        } else if k > i {
                            assert(outcomes@[i as int] is Ok);
                        }
                    }
                }
                return result;
            },
        }
        i += 1;
    }
    Ok(())
}

/// Answers `event` with the next step of unpacking the native libraries that
/// `client_info` asks for on `platform`.
pub fn extract_native_libraries(
    client_info: &McClientInfo,
    platform: &PlatformContext,
    event: ExtractionEvent,
) -> (step: ExtractionStep)
    ensures
        follows(client_info@, platform@, event, step),
{
    let ready = match &event {
        ExtractionEvent::Started { natives_dir_exists } => *natives_dir_exists,
        ExtractionEvent::DirectoryCreated { created } => {
            if !*created {
                return ExtractionStep::Done { result: Err(InstanceError::FolderCreationFailed) };
            }
            true
        },
        ExtractionEvent::Unpacked { outcomes } => {
            return ExtractionStep::Done { result: aggregate_outcomes(outcomes) };
        },
    };
    if !ready {
        return ExtractionStep::CreateDirectory;
    }
    match get_native_library_paths(client_info, platform) {
        Ok(archives) => ExtractionStep::Unpack { archives },
        Err(e) => ExtractionStep::Done { result: Err(e) },
    }
}

} // verus!
