//! The update of one component, from its backup to its end, with the way back where it fails.

use vstd::prelude::*;
use vstd::string::*;

use crate::error::{Error, ErrorView};
use crate::metadata::{
    desktop_patch, json_patch, keeps_patched_texts, patch_desktop_file, patch_json_file, patch_view,
    FilePatch, FilePatchView,
};
use crate::text::lowercased;
use crate::tree::{is_single_file, is_single_file_component};
use crate::types::{package_structure, AvailableUpdate, ComponentType};

verus! {

/// Where an update stands, with errors of type `E` to come back to.
#[derive(Debug)]
pub enum Stage<E> {
    BackingUp,
    ReportingBackup,
    Downloading,
    ReportingDownload { single_file: bool },
    ReportingFile,
    InstallingFile,
    DroppingFile(Result<(), E>),
    ClearingExtractDir,
    Extracting,
    DroppingBadArchive(E),
    DroppingArchive,
    ReportingExtract,
    Installing,
    DroppingExtractDir(Result<(), E>),
    FindingMetadata,
    PatchingJson,
    PatchingDesktop,
    UpdatingRegistry,
    Restoring(E),
    Finished(Result<(), E>),
}

/// What came of the last action of an update.
#[derive(Debug)]
pub enum UpdateEvent {
    Done,
    Failed(Error),
    /// The download is there, under this name. A name that is not valid Unicode is `None`.
    Downloaded { file_name: Option<String> },
    /// Which metadata files the installed component has.
    Found { json: bool, desktop: bool },
    RestoreFailed { cause: String },
}

/// What to do next for an update.
#[derive(Debug, Clone, Copy, PartialEq, Eq, Structural)]
pub enum UpdateAction {
    Backup,
    /// Tell that the stage of this number is reached: 1 when the backup is made and the download
    /// starts, 2 when the download is there, 3 when the installation starts.
    Report(u8),
    Download,
    InstallFile,
    RemoveDownload,
    /// Remove the directory to unpack in, if it exists.
    ClearExtractDir,
    Extract,
    /// Install by `kpackagetool6`.
    InstallPackage,
    InstallDirect,
    RemoveExtractDir,
    FindMetadata,
    PatchJson,
    PatchDesktop,
    UpdateRegistry,
    Restore,
    Finish,
}

pub open spec fn outcome_view(r: Result<(), Error>) -> Result<(), ErrorView> {
    match r {
        Ok(_) => Ok(()),
        Err(e) => Err(e@),
    }
}

impl View for Stage<Error> {
    type V = Stage<ErrorView>;

    open spec fn view(&self) -> Stage<ErrorView> {
        match *self {
            Stage::BackingUp => Stage::BackingUp,
            Stage::ReportingBackup => Stage::ReportingBackup,
            Stage::Downloading => Stage::Downloading,
            Stage::ReportingDownload { single_file } => Stage::ReportingDownload { single_file },
            Stage::ReportingFile => Stage::ReportingFile,
            Stage::InstallingFile => Stage::InstallingFile,
            Stage::DroppingFile(r) => Stage::DroppingFile(outcome_view(r)),
            Stage::ClearingExtractDir => Stage::ClearingExtractDir,
            Stage::Extracting => Stage::Extracting,
            Stage::DroppingBadArchive(e) => Stage::DroppingBadArchive(e@),
            Stage::DroppingArchive => Stage::DroppingArchive,
            Stage::ReportingExtract => Stage::ReportingExtract,
            Stage::Installing => Stage::Installing,
            Stage::DroppingExtractDir(r) => Stage::DroppingExtractDir(outcome_view(r)),
            Stage::FindingMetadata => Stage::FindingMetadata,
            Stage::PatchingJson => Stage::PatchingJson,
            Stage::PatchingDesktop => Stage::PatchingDesktop,
            Stage::UpdatingRegistry => Stage::UpdatingRegistry,
            Stage::Restoring(e) => Stage::Restoring(e@),
            Stage::Finished(r) => Stage::Finished(outcome_view(r)),
        }
    }
}

/// What is done at a stage.
pub open spec fn action_at<E>(stage: Stage<E>, component_type: ComponentType) -> UpdateAction {
    match stage {
        Stage::BackingUp => UpdateAction::Backup,
        Stage::ReportingBackup => UpdateAction::Report(1),
        Stage::Downloading => UpdateAction::Download,
        Stage::ReportingDownload { .. } => UpdateAction::Report(2),
        Stage::ReportingFile => UpdateAction::Report(3),
        Stage::InstallingFile => UpdateAction::InstallFile,
        Stage::DroppingFile(_) => UpdateAction::RemoveDownload,
        Stage::ClearingExtractDir => UpdateAction::ClearExtractDir,
        Stage::Extracting => UpdateAction::Extract,
        Stage::DroppingBadArchive(_) => UpdateAction::RemoveDownload,
        Stage::DroppingArchive => UpdateAction::RemoveDownload,
        Stage::ReportingExtract => UpdateAction::Report(3),
        Stage::Installing => if package_structure(component_type) is Some {
            UpdateAction::InstallPackage
        } else {
            UpdateAction::InstallDirect
        },
        Stage::DroppingExtractDir(_) => UpdateAction::RemoveExtractDir,
        Stage::FindingMetadata => UpdateAction::FindMetadata,
        Stage::PatchingJson => UpdateAction::PatchJson,
        Stage::PatchingDesktop => UpdateAction::PatchDesktop,
        Stage::UpdatingRegistry => UpdateAction::UpdateRegistry,
        Stage::Restoring(_) => UpdateAction::Restore,
        Stage::Finished(_) => UpdateAction::Finish,
    }
}

/// What a stage does with a metadata file that holds this: a file that is patched is brought to the
/// version that the component is updated to.
pub open spec fn patch_at<E>(
    stage: Stage<E>,
    component_type: ComponentType,
    version: Seq<char>,
    content: Seq<char>,
) -> Option<FilePatchView> {
    match stage {
        Stage::PatchingJson => json_patch(content, package_structure(component_type), version),
        Stage::PatchingDesktop => Some(desktop_patch(content, version)),
        _ => Some(FilePatchView::Keep),
    }
}

/// Whether an event can come of what is done at a stage.
pub open spec fn answers<E>(stage: Stage<E>, event: UpdateEvent) -> bool {
    match stage {
        Stage::Downloading => event is Downloaded || event is Failed,
        Stage::FindingMetadata => event is Found,
        Stage::Restoring(_) => event is Done || event is RestoreFailed,
        Stage::ReportingBackup => event is Done,
        Stage::ReportingDownload { .. } => event is Done,
        Stage::ReportingFile => event is Done,
        Stage::ReportingExtract => event is Done,
        Stage::Finished(_) => false,
        _ => event is Done || event is Failed,
    }
}

/// The outcome of what was done.
pub open spec fn outcome_of(event: UpdateEvent) -> Result<(), ErrorView> {
    match event {
        UpdateEvent::Failed(e) => Err(e@),
        _ => Ok(()),
    }
}

/// Where an installation leads: on to the tasks after it, or back to what was there before.
pub open spec fn concluded(outcome: Result<(), ErrorView>) -> Stage<ErrorView> {
    match outcome {
        Ok(_) => Stage::FindingMetadata,
        Err(e) => Stage::Restoring(e),
    }
}

/// The error of an update that failed with this one, by what came of the attempt to restore the
/// component.
pub open spec fn failure_told(error: ErrorView, event: UpdateEvent) -> ErrorView {
    match event {
        UpdateEvent::RestoreFailed { cause } => ErrorView::Other(
            "installation failed and restore failed: "@ + cause@,
        ),
        _ => error,
    }
}

/// The stage that follows. What is tidied up, patched or noted in the registry may fail without
/// effect on the update.
pub open spec fn next_stage(
    stage: Stage<ErrorView>,
    event: UpdateEvent,
    component_type: ComponentType,
) -> Stage<ErrorView> {
    match stage {
        Stage::BackingUp => match outcome_of(event) {
            Ok(_) => Stage::ReportingBackup,
            Err(e) => Stage::Finished(Err(e)),
        },
        Stage::ReportingBackup => Stage::Downloading,
        Stage::Downloading => match event {
            UpdateEvent::Downloaded { file_name } => Stage::ReportingDownload {
                single_file: match file_name {
                    Some(name) => is_single_file(lowercased(name@), component_type),
                    None => false,
                },
            },
            UpdateEvent::Failed(e) => Stage::Restoring(e@),
            _ => stage,
        },
        Stage::ReportingDownload { single_file } => if single_file {
            Stage::ReportingFile
        } else {
            Stage::ClearingExtractDir
        },
        Stage::ReportingFile => Stage::InstallingFile,
        Stage::InstallingFile => Stage::DroppingFile(outcome_of(event)),
        Stage::DroppingFile(r) => concluded(r),
        Stage::ClearingExtractDir => match outcome_of(event) {
            Ok(_) => Stage::Extracting,
            Err(e) => Stage::Restoring(e),
        },
        Stage::Extracting => match outcome_of(event) {
            Ok(_) => Stage::DroppingArchive,
            Err(e) => Stage::DroppingBadArchive(e),
        },
        Stage::DroppingBadArchive(e) => Stage::Restoring(e),
        Stage::DroppingArchive => Stage::ReportingExtract,
        Stage::ReportingExtract => Stage::Installing,
        Stage::Installing => Stage::DroppingExtractDir(outcome_of(event)),
        Stage::DroppingExtractDir(r) => concluded(r),
        Stage::FindingMetadata => match event {
            UpdateEvent::Found { json, desktop } => if json {
                Stage::PatchingJson
            } else if desktop {
                Stage::PatchingDesktop
            } else {
                Stage::UpdatingRegistry
            },
            _ => stage,
        },
        Stage::PatchingJson => Stage::UpdatingRegistry,
        Stage::PatchingDesktop => Stage::UpdatingRegistry,
        Stage::UpdatingRegistry => Stage::Finished(Ok(())),
        Stage::Restoring(e) => Stage::Finished(Err(failure_told(e, event))),
        Stage::Finished(r) => Stage::Finished(r),
    }
}

/// The update of one component.
#[derive(Debug)]
pub struct UpdateRun {
    pub component_type: ComponentType,
    /// The version that the component is updated to.
    pub latest_version: String,
    pub stage: Stage<Error>,
}

fn outcome(event: UpdateEvent) -> (r: Result<(), Error>)
    ensures
        outcome_view(r) == outcome_of(event),
{
    match event {
        UpdateEvent::Failed(e) => Err(e),
        _ => Ok(()),
    }
}

fn conclude(r: Result<(), Error>) -> (stage: Stage<Error>)
    ensures
        stage@ == concluded(outcome_view(r)),
{
    match r {
        Ok(_) => Stage::FindingMetadata,
        Err(e) => Stage::Restoring(e),
    }
}

/// Begins the update of a component.
pub fn update_component(update: &AvailableUpdate) -> (run: UpdateRun)
    ensures
        run.component_type == update.installed.component_type,
        run.latest_version@ == update.latest_version@,
        run.stage@ == Stage::<ErrorView>::BackingUp,
{
    UpdateRun {
        component_type: update.installed.component_type,
        latest_version: update.latest_version.clone(),
        stage: Stage::BackingUp,
    }
}

/// How a download is installed: as it is, or unpacked first.
fn execute_installation(single_file: bool) -> (stage: Stage<Error>)
    ensures
        stage@ == if single_file {
            Stage::<ErrorView>::ReportingFile
        } else {
            Stage::ClearingExtractDir
        },
{
    if single_file {
        Stage::ReportingFile
    } else {
        Stage::ClearingExtractDir
    }
}

/// What is patched after an installation: `metadata.json`, or else `metadata.desktop`, or nothing.
fn post_install_tasks(json: bool, desktop: bool) -> (stage: Stage<Error>)
    ensures
        stage@ == if json {
            Stage::<ErrorView>::PatchingJson
        } else if desktop {
            Stage::PatchingDesktop
        } else {
            Stage::UpdatingRegistry
        },
{
    if json {
        Stage::PatchingJson
    } else if desktop {
        Stage::PatchingDesktop
    } else {
        Stage::UpdatingRegistry
    }
}

/// What a failed update tells, by what came of the attempt to restore the component.
fn handle_installation_failure(error: Error, event: UpdateEvent) -> (told: Error)
    ensures
        told@ == failure_told(error@, event),
{
    match event {
        UpdateEvent::RestoreFailed { cause } => Error::other(
            "installation failed and restore failed: ".to_owned().concat(cause.as_str()),
        ),
        _ => error,
    }
}

impl UpdateRun {
    /// What to do now.
    pub fn action(&self) -> (a: UpdateAction)
        ensures
            a == action_at(self.stage@, self.component_type),
    {
        match &self.stage {
            Stage::BackingUp => UpdateAction::Backup,
            Stage::ReportingBackup => UpdateAction::Report(1),
            Stage::Downloading => UpdateAction::Download,
            Stage::ReportingDownload { .. } => UpdateAction::Report(2),
            Stage::ReportingFile => UpdateAction::Report(3),
            Stage::InstallingFile => UpdateAction::InstallFile,
            Stage::DroppingFile(_) => UpdateAction::RemoveDownload,
            Stage::ClearingExtractDir => UpdateAction::ClearExtractDir,
            Stage::Extracting => UpdateAction::Extract,
            Stage::DroppingBadArchive(_) => UpdateAction::RemoveDownload,
            Stage::DroppingArchive => UpdateAction::RemoveDownload,
            Stage::ReportingExtract => UpdateAction::Report(3),
            Stage::Installing => {
                if self.component_type.kpackage_type().is_some() {
                    UpdateAction::InstallPackage
                } else {
                    UpdateAction::InstallDirect
                }
            },
            Stage::DroppingExtractDir(_) => UpdateAction::RemoveExtractDir,
            Stage::FindingMetadata => UpdateAction::FindMetadata,
            Stage::PatchingJson => UpdateAction::PatchJson,
            Stage::PatchingDesktop => UpdateAction::PatchDesktop,
            Stage::UpdatingRegistry => UpdateAction::UpdateRegistry,
            Stage::Restoring(_) => UpdateAction::Restore,
            Stage::Finished(_) => UpdateAction::Finish,
        }
    }

    /// Goes on with what came of the last action.
    pub fn step(self, event: UpdateEvent) -> (run: UpdateRun)
        requires
            answers(self.stage@, event),
        ensures
            run.component_type == self.component_type,
            run.latest_version == self.latest_version,
            run.stage@ == next_stage(self.stage@, event, self.component_type),
    {
        let component_type = self.component_type;
        let stage: Stage<Error> = match self.stage {
            Stage::BackingUp => match outcome(event) {
                Ok(_) => Stage::ReportingBackup,
                Err(e) => Stage::Finished(Err(e)),
            },
            Stage::ReportingBackup => Stage::Downloading,
            Stage::Downloading => match event {
                UpdateEvent::Downloaded { file_name } => {
                    let single_file = match &file_name {
                        Some(name) => is_single_file_component(Some(name.as_str()), component_type),
                        None => is_single_file_component(None, component_type),
                    };
                    Stage::ReportingDownload { single_file }
                },
                UpdateEvent::Failed(e) => Stage::Restoring(e),
                _ => Stage::Downloading,
            },
            Stage::ReportingDownload { single_file } => execute_installation(single_file),
            Stage::ReportingFile => Stage::InstallingFile,
            Stage::InstallingFile => Stage::DroppingFile(outcome(event)),
            Stage::DroppingFile(r) => conclude(r),
            Stage::ClearingExtractDir => match outcome(event) {
                Ok(_) => Stage::Extracting,
                Err(e) => Stage::Restoring(e),
            },
            Stage::Extracting => match outcome(event) {
                Ok(_) => Stage::DroppingArchive,
                Err(e) => Stage::DroppingBadArchive(e),
            },
            Stage::DroppingBadArchive(e) => Stage::Restoring(e),
            Stage::DroppingArchive => Stage::ReportingExtract,
            Stage::ReportingExtract => Stage::Installing,
            Stage::Installing => Stage::DroppingExtractDir(outcome(event)),
            Stage::DroppingExtractDir(r) => conclude(r),
            Stage::FindingMetadata => match event {
                UpdateEvent::Found { json, desktop } => post_install_tasks(json, desktop),
                _ => Stage::FindingMetadata,
            },
            Stage::PatchingJson => Stage::UpdatingRegistry,
            Stage::PatchingDesktop => Stage::UpdatingRegistry,
            Stage::UpdatingRegistry => Stage::Finished(Ok(())),
            Stage::Restoring(e) => Stage::Finished(Err(handle_installation_failure(e, event))),
            Stage::Finished(r) => Stage::Finished(r),
        };
        UpdateRun { component_type, latest_version: self.latest_version, stage }
    }

    /// What to do with the installed metadata file that is to be patched now, which holds this.
    /// `None` where the text is JSON in which the members to patch cannot be set.
    pub fn patch(&self, content: &str) -> (r: Option<FilePatch>)
        ensures
            patch_view(r) == patch_at(
                self.stage@,
                self.component_type,
                self.latest_version@,
                content@,
            ),
            self.stage is PatchingJson ==> (r matches Some(FilePatch::Write(text))
                ==> keeps_patched_texts(
                text@,
                content@,
                package_structure(self.component_type),
                self.latest_version@,
            )),
    {
        match &self.stage {
            Stage::PatchingJson => patch_json_file(
                content,
                self.component_type,
                self.latest_version.as_str(),
            ),
            Stage::PatchingDesktop => Some(
                patch_desktop_file(content, self.latest_version.as_str()),
            ),
            _ => Some(FilePatch::Keep),
        }
    }

    /// What the update came to, once there is nothing more to do.
    pub fn result(self) -> (r: Option<Result<(), Error>>)
        ensures
            match self.stage {
                Stage::Finished(outcome) => r == Some(outcome),
                _ => r is None,
            },
    {
        match self.stage {
            Stage::Finished(outcome) => Some(outcome),
            _ => None,
        }
    }
}

// --- What holds of every update ---

/// Whether an update of a component of this kind can go through these stages, each event being
/// what came of the stage before it.
pub open spec fn goes_through(
    component_type: ComponentType,
    stages: Seq<Stage<ErrorView>>,
    events: Seq<UpdateEvent>,
) -> bool {
    &&& stages.len() == events.len() + 1
    &&& stages[0] == Stage::<ErrorView>::BackingUp
    &&& forall|i: int|
        0 <= i < events.len() ==> {
            &&& answers(stages[i], #[trigger] events[i])
            &&& stages[i + 1] == next_stage(stages[i], events[i], component_type)
        }
}

/// How many stages are left at most.
pub open spec fn stages_left<E>(stage: Stage<E>) -> nat {
    match stage {
        Stage::BackingUp => 13,
        Stage::ReportingBackup => 12,
        Stage::Downloading => 11,
        Stage::ReportingDownload { .. } => 10,
        Stage::ReportingFile => 9,
        Stage::InstallingFile => 8,
        Stage::DroppingFile(_) => 7,
        Stage::ClearingExtractDir => 9,
        Stage::Extracting => 8,
        Stage::DroppingBadArchive(_) => 7,
        Stage::DroppingArchive => 7,
        Stage::ReportingExtract => 6,
        Stage::Installing => 5,
        Stage::DroppingExtractDir(_) => 4,
        Stage::FindingMetadata => 3,
        Stage::PatchingJson => 2,
        Stage::PatchingDesktop => 2,
        Stage::UpdatingRegistry => 1,
        Stage::Restoring(_) => 1,
        Stage::Finished(_) => 0,
    }
}

/// Every update comes to its end: after at most thirteen steps there is nothing left to do.
pub proof fn law_update_ends(
    component_type: ComponentType,
    stages: Seq<Stage<ErrorView>>,
    events: Seq<UpdateEvent>,
)
    requires
        goes_through(component_type, stages, events),
    ensures
        events.len() + stages_left(stages.last()) <= 13,
    decreases events.len(),
{
    if events.len() > 0 {
        lemma_goes_through_before(component_type, stages, events);
        law_update_ends(component_type, stages.drop_last(), events.drop_last());
    }
}

proof fn lemma_goes_through_before(
    component_type: ComponentType,
    stages: Seq<Stage<ErrorView>>,
    events: Seq<UpdateEvent>,
)
    requires
        goes_through(component_type, stages, events),
        events.len() > 0,
    ensures
        goes_through(component_type, stages.drop_last(), events.drop_last()),
        answers(stages.drop_last().last(), events.last()),
        stages.last() == next_stage(stages.drop_last().last(), events.last(), component_type),
{
    let last = events.len() - 1;
    assert(stages[last + 1] == next_stage(stages[last], events[last], component_type));
    assert forall|i: int| 0 <= i < events.drop_last().len() implies {
        &&& answers(stages.drop_last()[i], #[trigger] events.drop_last()[i])
        &&& stages.drop_last()[i + 1] == next_stage(
            stages.drop_last()[i],
            events.drop_last()[i],
            component_type,
        )
    } by {
        assert(answers(stages[i], events[i]));
    }
}

/// Nothing is done to a component before its backup was made.
pub proof fn law_backup_comes_first(
    component_type: ComponentType,
    stages: Seq<Stage<ErrorView>>,
    events: Seq<UpdateEvent>,
    at: int,
)
    requires
        goes_through(component_type, stages, events),
        0 < at < stages.len(),
        !(stages[at] is Finished),
    ensures
        stages[0] is BackingUp,
        events[0] is Done,
    decreases at,
{
    assert(answers(stages[at - 1], events[at - 1]));
    assert(stages[at - 1 + 1] == next_stage(stages[at - 1], events[at - 1], component_type));
    if at > 1 {
        law_backup_comes_first(component_type, stages, events, at - 1);
    }
}

/// After an installation that succeeded, the `metadata.json` is patched if it is there, else the
/// `metadata.desktop` if that is there, else nothing; then the registry is updated, once, and the
/// update has succeeded, whatever came of the patch and of the registry.
pub proof fn law_tasks_after_the_installation(
    component_type: ComponentType,
    stages: Seq<Stage<ErrorView>>,
    events: Seq<UpdateEvent>,
    at: int,
)
    requires
        goes_through(component_type, stages, events),
        0 <= at < stages.len(),
        stages[at] is FindingMetadata,
        stages.last() is Finished,
    ensures
        stages.last() == Stage::<ErrorView>::Finished(Ok(())),
        events[at] matches UpdateEvent::Found { json, desktop } && ({
            let rest = stages.skip(at + 1);
            let end = seq![Stage::<ErrorView>::UpdatingRegistry, Stage::Finished(Ok(()))];
            if json {
                rest == seq![Stage::PatchingJson] + end
            } else if desktop {
                rest == seq![Stage::PatchingDesktop] + end
            } else {
                rest == end
            }
        }),
{
    let n = events.len();
    assert(answers(stages[at], events[at]));
    assert(answers(stages[at + 1], events[at + 1]));
    if !(stages[at + 1] is UpdatingRegistry) {
        assert(answers(stages[at + 2], events[at + 2]));
        if at + 3 < n {
            assert(answers(stages[at + 3], events[at + 3]));
        }
    } else if at + 2 < n {
        assert(answers(stages[at + 2], events[at + 2]));
    }
}

/// Whether an update tried to restore what was there before it.
pub open spec fn was_rolled_back(stages: Seq<Stage<ErrorView>>) -> bool {
    exists|i: int| 0 <= i < stages.len() && #[trigger] stages[i] is Restoring
}

/// An update that fails after its backup is rolled back. One that succeeds is not.
pub proof fn law_only_failed_updates_are_rolled_back(
    component_type: ComponentType,
    stages: Seq<Stage<ErrorView>>,
    events: Seq<UpdateEvent>,
)
    requires
        goes_through(component_type, stages, events),
        stages.last() is Finished,
    ensures
        stages.last()->Finished_0 is Ok ==> !was_rolled_back(stages),
        stages.last()->Finished_0 is Err && !(events[0] is Failed) ==> was_rolled_back(stages),
{
    lemma_rolled_back(component_type, stages, events);
}

proof fn lemma_rolled_back(
    component_type: ComponentType,
    stages: Seq<Stage<ErrorView>>,
    events: Seq<UpdateEvent>,
)
    requires
        goes_through(component_type, stages, events),
    ensures
        match stages.last() {
            Stage::Restoring(_) => was_rolled_back(stages),
            Stage::Finished(Err(_)) => was_rolled_back(stages) || (events.len() == 1
                && events[0] is Failed),
            _ => !was_rolled_back(stages),
        },
    decreases events.len(),
{
    let last = stages.len() - 1;
    if events.len() > 0 {
        lemma_goes_through_before(component_type, stages, events);
        let before = stages.drop_last();
        lemma_rolled_back(component_type, before, events.drop_last());
        if was_rolled_back(before) {
            let i = choose|i: int| 0 <= i < before.len() && #[trigger] before[i] is Restoring;
            assert(stages[i] is Restoring);
        } else {
            assert forall|i: int| 0 <= i < stages.len() && #[trigger] stages[i] is Restoring implies
                i == last by {
                if i < last {
                    assert(before[i] is Restoring);
                }
            }
        }
        if before.last() is BackingUp {
            lemma_begins_once(component_type, before, events.drop_last());
        }
    }
    assert(stages[last] == stages.last());
}

/// The backup is made first, and once.
proof fn lemma_begins_once(
    component_type: ComponentType,
    stages: Seq<Stage<ErrorView>>,
    events: Seq<UpdateEvent>,
)
    requires
        goes_through(component_type, stages, events),
        stages.last() is BackingUp,
    ensures
        events.len() == 0,
{
    if events.len() > 0 {
        lemma_goes_through_before(component_type, stages, events);
    }
}

/// A failed update gives the error that it failed with, unless the component could not be
/// restored: that is told then.
pub proof fn law_failure_is_told(
    component_type: ComponentType,
    stages: Seq<Stage<ErrorView>>,
    events: Seq<UpdateEvent>,
    at: int,
)
    requires
        goes_through(component_type, stages, events),
        0 <= at < stages.len() - 1,
        stages[at] is Restoring,
    ensures
        at == stages.len() - 2,
        stages.last() == Stage::Finished(
            Err(failure_told(stages[at]->Restoring_0, events[at])),
        ),
{
    assert(answers(stages[at], events[at]));
    if at + 1 < events.len() {
        assert(answers(stages[at + 1], events[at + 1]));
    }
}

/// The numbers of the stages that an update has reported before the last one of these.
pub open spec fn reports<E>(stages: Seq<Stage<E>>, component_type: ComponentType) -> Seq<u8>
    decreases stages.len(),
{
    if stages.len() <= 1 {
        Seq::empty()
    } else {
        let before = reports(stages.drop_last(), component_type);
        match action_at(stages[stages.len() - 2], component_type) {
            UpdateAction::Report(n) => before.push(n),
            _ => before,
        }
    }
}

/// The stages are reported in order, each once. An update that succeeds has reported all three.
pub proof fn law_stages_are_reported_in_order(
    component_type: ComponentType,
    stages: Seq<Stage<ErrorView>>,
    events: Seq<UpdateEvent>,
)
    requires
        goes_through(component_type, stages, events),
    ensures
        reports(stages, component_type).is_prefix_of(seq![1u8, 2u8, 3u8]),
        stages.last() matches Stage::Finished(Ok(_)) ==> reports(stages, component_type) == seq![
            1u8,
            2u8,
            3u8,
        ],
{
    lemma_reports(component_type, stages, events);
}

/// How many stages have been reported before what is done at this one.
spec fn reported<E>(stage: Stage<E>) -> int {
    match stage {
        Stage::BackingUp => 0,
        Stage::ReportingBackup => 0,
        Stage::Downloading => 1,
        Stage::ReportingDownload { .. } => 1,
        Stage::ReportingFile => 2,
        Stage::ClearingExtractDir => 2,
        Stage::Extracting => 2,
        Stage::DroppingBadArchive(_) => 2,
        Stage::DroppingArchive => 2,
        Stage::ReportingExtract => 2,
        _ => 3,
    }
}

proof fn lemma_reports(
    component_type: ComponentType,
    stages: Seq<Stage<ErrorView>>,
    events: Seq<UpdateEvent>,
)
    requires
        goes_through(component_type, stages, events),
    ensures
        match stages.last() {
            Stage::Restoring(_) | Stage::Finished(Err(_)) => reports(
                stages,
                component_type,
            ).is_prefix_of(seq![1u8, 2u8, 3u8]),
            stage => reports(stages, component_type) == seq![1u8, 2u8, 3u8].take(reported(stage)),
        },
    decreases events.len(),
{
    if events.len() > 0 {
        lemma_goes_through_before(component_type, stages, events);
        lemma_reports(component_type, stages.drop_last(), events.drop_last());
        assert(stages.drop_last().last() == stages[stages.len() - 2]);
        let all = seq![1u8, 2u8, 3u8];
        assert(all.take(0).push(1u8) == all.take(1));
        assert(all.take(1).push(2u8) == all.take(2));
        assert(all.take(2).push(3u8) == all.take(3));
        assert(all.take(3) == all);
    } else {
        assert(reports(stages, component_type) == seq![1u8, 2u8, 3u8].take(0));
    }
}

/// The directory that a download was unpacked in is removed right after the installation from it,
/// whatever that came to.
pub proof fn law_extract_dir_is_removed(
    component_type: ComponentType,
    stages: Seq<Stage<ErrorView>>,
    events: Seq<UpdateEvent>,
    at: int,
)
    requires
        goes_through(component_type, stages, events),
        0 <= at < events.len(),
        stages[at] is Installing,
    ensures
        action_at(stages[at + 1], component_type) == UpdateAction::RemoveExtractDir,
{
    assert(answers(stages[at], events[at]));
}

/// Whether an action installs something at the component's place.
pub open spec fn is_installation(action: UpdateAction) -> bool {
    action is InstallFile || action is InstallPackage || action is InstallDirect
}

/// The third stage is reported before anything is installed: a file as it is, a package or a
/// directory.
pub proof fn law_third_report_precedes_installation(
    component_type: ComponentType,
    stages: Seq<Stage<ErrorView>>,
    events: Seq<UpdateEvent>,
    at: int,
)
    requires
        goes_through(component_type, stages, events),
        0 <= at < stages.len(),
        is_installation(action_at(stages[at], component_type)),
    ensures
        at > 0,
        action_at(stages[at - 1], component_type) == UpdateAction::Report(3),
{
    if at > 0 {
        assert(answers(stages[at - 1], events[at - 1]));
        assert(stages[at - 1 + 1] == next_stage(stages[at - 1], events[at - 1], component_type));
    }
}

// --- What stands at the component's place ---

/// What stands at the place of a component, and what its backup holds.
pub struct Place<C> {
    pub content: C,
    pub backup: Option<C>,
}

/// Whether an action can lead from one state of the place to another, given what came of it. A
/// backup takes what is there, a restore puts the backup back, and only installations and patches
/// may change what is there.
pub open spec fn can_lead<C>(
    action: UpdateAction,
    event: UpdateEvent,
    before: Place<C>,
    after: Place<C>,
) -> bool {
    match action {
        UpdateAction::Backup => {
            &&& after.content == before.content
            &&& event is Done ==> after.backup == Some(before.content)
        },
        UpdateAction::InstallFile => after.backup == before.backup,
        UpdateAction::InstallPackage => after.backup == before.backup,
        UpdateAction::InstallDirect => after.backup == before.backup,
        UpdateAction::PatchJson => after.backup == before.backup,
        UpdateAction::PatchDesktop => after.backup == before.backup,
        UpdateAction::Restore => event is Done ==> Some(after.content) == before.backup,
        _ => after == before,
    }
}

/// Whether the place of a component can go through these states in the course of an update.
pub open spec fn place_goes_through<C>(
    component_type: ComponentType,
    stages: Seq<Stage<ErrorView>>,
    events: Seq<UpdateEvent>,
    places: Seq<Place<C>>,
) -> bool {
    &&& places.len() == stages.len()
    &&& forall|i: int|
        0 <= i < events.len() ==> can_lead(
            action_at(stages[i], component_type),
            #[trigger] events[i],
            places[i],
            places[i + 1],
        )
}

/// A failed update leaves the component as it was, unless the backup could not be restored.
pub proof fn law_failed_update_leaves_the_component<C>(
    component_type: ComponentType,
    stages: Seq<Stage<ErrorView>>,
    events: Seq<UpdateEvent>,
    places: Seq<Place<C>>,
)
    requires
        goes_through(component_type, stages, events),
        place_goes_through(component_type, stages, events, places),
        stages.last() is Finished,
        stages.last()->Finished_0 is Err,
        !(events.last() is RestoreFailed),
    ensures
        places.last().content == places[0].content,
{
    let last = events.len() - 1;
    lemma_goes_through_before(component_type, stages, events);
    assert(answers(stages[last], events[last]));
    assert(can_lead(
        action_at(stages[last], component_type),
        events[last],
        places[last],
        places[last + 1],
    ));
    if stages[last] is BackingUp {
        lemma_begins_once(component_type, stages.drop_last(), events.drop_last());
    } else {
        lemma_backup_is_kept(component_type, stages, events, places, last);
    }
}

/// From the backup to the attempt to restore it, it holds what was there at first.
proof fn lemma_backup_is_kept<C>(
    component_type: ComponentType,
    stages: Seq<Stage<ErrorView>>,
    events: Seq<UpdateEvent>,
    places: Seq<Place<C>>,
    at: int,
)
    requires
        goes_through(component_type, stages, events),
        place_goes_through(component_type, stages, events, places),
        0 < at < stages.len(),
        !(stages[at] is Finished),
    ensures
        places[at].backup == Some(places[0].content),
    decreases at,
{
    law_backup_comes_first(component_type, stages, events, at);
    let before = at - 1;
    assert(answers(stages[before], events[before]));
    assert(stages[before + 1] == next_stage(stages[before], events[before], component_type));
    assert(can_lead(
        action_at(stages[before], component_type),
        events[before],
        places[before],
        places[before + 1],
    ));
    if before > 0 {
        assert(answers(stages[before - 1], events[before - 1]));
        lemma_backup_is_kept(component_type, stages, events, places, before);
    }
}

/// Whether the downloaded file was removed before the last of these stages.
pub open spec fn download_was_removed(
    stages: Seq<Stage<ErrorView>>,
    component_type: ComponentType,
) -> bool {
    exists|i: int|
        0 <= i < stages.len() - 1 && #[trigger] action_at(stages[i], component_type)
            == UpdateAction::RemoveDownload
}

/// Whether the directory to unpack in could not be cleared.
pub open spec fn clearing_failed(
    stages: Seq<Stage<ErrorView>>,
    events: Seq<UpdateEvent>,
) -> bool {
    exists|i: int|
        0 <= i < events.len() && stages[i] is ClearingExtractDir && #[trigger] events[i] is Failed
}

/// A file that was downloaded is gone when the update ends, however it ends, unless the directory
/// to unpack it in could not be cleared.
pub proof fn law_download_is_removed(
    component_type: ComponentType,
    stages: Seq<Stage<ErrorView>>,
    events: Seq<UpdateEvent>,
    at: int,
)
    requires
        goes_through(component_type, stages, events),
        stages.last() is Finished,
        0 <= at < events.len(),
        events[at] is Downloaded,
    ensures
        download_was_removed(stages, component_type) || clearing_failed(stages, events),
{
    assert(answers(stages[at], events[at]));
    lemma_download_is_removed(component_type, stages, events, at);
}

proof fn lemma_download_is_removed(
    component_type: ComponentType,
    stages: Seq<Stage<ErrorView>>,
    events: Seq<UpdateEvent>,
    at: int,
)
    requires
        goes_through(component_type, stages, events),
        0 <= at < events.len(),
        events[at] is Downloaded,
    ensures
        match stages.last() {
            Stage::ReportingDownload { .. }
            | Stage::ReportingFile
            | Stage::InstallingFile
            | Stage::DroppingFile(_)
            | Stage::ClearingExtractDir
            | Stage::Extracting
            | Stage::DroppingBadArchive(_)
            | Stage::DroppingArchive => true,
            Stage::BackingUp | Stage::ReportingBackup | Stage::Downloading => false,
            _ => download_was_removed(stages, component_type) || clearing_failed(stages, events),
        },
    decreases events.len(),
{
    lemma_goes_through_before(component_type, stages, events);
    assert(answers(stages[at], events[at]));
    let before = stages.drop_last();
    let last = events.len() - 1;
    assert(before.last() == stages[last]);
    if at < last {
        lemma_download_is_removed(component_type, before, events.drop_last(), at);
        if download_was_removed(before, component_type) {
            let i = choose|i: int|
                0 <= i < before.len() - 1 && #[trigger] action_at(before[i], component_type)
                    == UpdateAction::RemoveDownload;
            assert(action_at(stages[i], component_type) == UpdateAction::RemoveDownload);
        }
        if clearing_failed(before, events.drop_last()) {
            let i = choose|i: int|
                0 <= i < events.drop_last().len() && before[i] is ClearingExtractDir
                    && #[trigger] events.drop_last()[i] is Failed;
            assert(stages[i] is ClearingExtractDir && events[i] is Failed);
        }
        if action_at(stages[last], component_type) == UpdateAction::RemoveDownload {
            assert(download_was_removed(stages, component_type));
        }
        if stages[last] is ClearingExtractDir && events[last] is Failed {
            assert(clearing_failed(stages, events));
        }
    }
}

// --- What comes of each step ---

/// Whether an update cannot go on if this fails.
pub open spec fn is_needed(action: UpdateAction) -> bool {
    ||| action is Backup
    ||| action is Download
    ||| action is ClearExtractDir
    ||| action is Extract
    ||| is_installation(action)
}

/// In an update that came to its end, each stage but the last is followed by another.
proof fn lemma_goes_on(
    component_type: ComponentType,
    stages: Seq<Stage<ErrorView>>,
    events: Seq<UpdateEvent>,
    at: int,
)
    requires
        goes_through(component_type, stages, events),
        stages.last() is Finished,
        0 <= at < stages.len(),
    ensures
        stages[at] is Finished <==> at == events.len(),
        at < events.len() ==> {
            &&& answers(stages[at], events[at])
            &&& stages[at + 1] == next_stage(stages[at], events[at], component_type)
        },
{
    if at < events.len() {
        assert(answers(stages[at], events[at]));
    }
}

/// An update that comes to restore the component ends with the error that it failed with, or with
/// the one that the component could not be restored.
proof fn lemma_restoring_fails(
    component_type: ComponentType,
    stages: Seq<Stage<ErrorView>>,
    events: Seq<UpdateEvent>,
    at: int,
)
    requires
        goes_through(component_type, stages, events),
        stages.last() is Finished,
        0 <= at < stages.len(),
        stages[at] is Restoring,
    ensures
        at == stages.len() - 2,
        stages.last()->Finished_0 is Err,
        match events.last() {
            UpdateEvent::RestoreFailed { cause } => stages.last()->Finished_0->Err_0
                == ErrorView::Other("installation failed and restore failed: "@ + cause@),
            _ => stages.last()->Finished_0->Err_0 == stages[at]->Restoring_0,
        },
{
    lemma_goes_on(component_type, stages, events, at);
    lemma_goes_on(component_type, stages, events, at + 1);
}

/// A step that an update needs and that fails makes the update fail: with its error, or with the
/// one that the component could not be restored. Where the backup was made, the component is
/// restored first. So for every kind of component: a failed installation of a file, a package or a
/// directory never ends in success.
pub proof fn law_failed_step_fails_the_update(
    component_type: ComponentType,
    stages: Seq<Stage<ErrorView>>,
    events: Seq<UpdateEvent>,
    at: int,
)
    requires
        goes_through(component_type, stages, events),
        stages.last() is Finished,
        0 <= at < events.len(),
        is_needed(action_at(stages[at], component_type)),
        events[at] is Failed,
    ensures
        stages.last()->Finished_0 is Err,
        match events.last() {
            UpdateEvent::RestoreFailed { cause } => stages.last()->Finished_0->Err_0
                == ErrorView::Other("installation failed and restore failed: "@ + cause@),
            _ => stages.last()->Finished_0->Err_0 == events[at]->Failed_0@,
        },
        !(action_at(stages[at], component_type) is Backup) ==> {
            &&& stages.len() >= at + 3
            &&& action_at(stages[stages.len() - 2], component_type) is Restore
            &&& stages[stages.len() - 2] == Stage::Restoring(events[at]->Failed_0@)
        },
        action_at(stages[at], component_type) is Backup ==> stages.len() == at + 2,
{
    lemma_goes_on(component_type, stages, events, at);
    lemma_goes_on(component_type, stages, events, at + 1);
    if stages[at + 1] is Restoring {
        lemma_restoring_fails(component_type, stages, events, at + 1);
    } else if !(stages[at] is BackingUp) {
        lemma_restoring_fails(component_type, stages, events, at + 2);
    }
}

proof fn lemma_no_failure_so_far(
    component_type: ComponentType,
    stages: Seq<Stage<ErrorView>>,
    events: Seq<UpdateEvent>,
    at: int,
)
    requires
        goes_through(component_type, stages, events),
        0 <= at < stages.len(),
        forall|i: int|
            0 <= i < events.len() ==> !(#[trigger] events[i] is Failed && is_needed(
                action_at(stages[i], component_type),
            )),
    ensures
        match stages[at] {
            Stage::DroppingFile(r) => r is Ok,
            Stage::DroppingExtractDir(r) => r is Ok,
            Stage::Finished(r) => r is Ok,
            Stage::DroppingBadArchive(_) => false,
            Stage::Restoring(_) => false,
            _ => true,
        },
    decreases at,
{
    if at > 0 {
        lemma_no_failure_so_far(component_type, stages, events, at - 1);
        assert(answers(stages[at - 1], events[at - 1]));
        assert(stages[at - 1 + 1] == next_stage(stages[at - 1], events[at - 1], component_type));
    }
}

/// An update fails only if a step failed that it needs. That a file could not be tidied up or
/// patched, or the registry not be updated, is no reason.
pub proof fn law_update_fails_only_for_a_needed_step(
    component_type: ComponentType,
    stages: Seq<Stage<ErrorView>>,
    events: Seq<UpdateEvent>,
)
    requires
        goes_through(component_type, stages, events),
        stages.last() is Finished,
        stages.last()->Finished_0 is Err,
    ensures
        exists|i: int|
            0 <= i < events.len() && #[trigger] events[i] is Failed && is_needed(
                action_at(stages[i], component_type),
            ),
{
    if forall|i: int|
        0 <= i < events.len() ==> !(#[trigger] events[i] is Failed && is_needed(
            action_at(stages[i], component_type),
        )) {
        lemma_no_failure_so_far(component_type, stages, events, stages.len() - 1);
    }
}

/// What is done at each of these stages.
pub open spec fn actions_of(
    stages: Seq<Stage<ErrorView>>,
    component_type: ComponentType,
) -> Seq<UpdateAction> {
    stages.map_values(|stage: Stage<ErrorView>| action_at(stage, component_type))
}

/// What an update that succeeds has done, from its backup to the registry: it made a backup,
/// downloaded the file and installed it, as it is or unpacked, by the tool or directly as the kind
/// of component asks, and each of these succeeded. It reported the three stages as it reached them,
/// removed what it had downloaded and unpacked, and patched the metadata file that it found.
pub proof fn law_course_of_a_successful_update(
    component_type: ComponentType,
    stages: Seq<Stage<ErrorView>>,
    events: Seq<UpdateEvent>,
)
    requires
        goes_through(component_type, stages, events),
        stages.last() == Stage::<ErrorView>::Finished(Ok(())),
    ensures
        events.len() > 2,
        events[0] is Done,
        events[2] matches UpdateEvent::Downloaded { file_name } && ({
            let single = file_name matches Some(name) && is_single_file(
                lowercased(name@),
                component_type,
            );
            let began = seq![
                UpdateAction::Backup,
                UpdateAction::Report(1),
                UpdateAction::Download,
                UpdateAction::Report(2),
            ];
            let installed = if single {
                seq![UpdateAction::Report(3), UpdateAction::InstallFile, UpdateAction::RemoveDownload]
            } else {
                seq![
                    UpdateAction::ClearExtractDir,
                    UpdateAction::Extract,
                    UpdateAction::RemoveDownload,
                    UpdateAction::Report(3),
                    if package_structure(component_type) is Some {
                        UpdateAction::InstallPackage
                    } else {
                        UpdateAction::InstallDirect
                    },
                    UpdateAction::RemoveExtractDir,
                ]
            };
            &&& events.len() > 4 + installed.len()
            &&& if single {
                events[5] is Done
            } else {
                events[4] is Done && events[5] is Done && events[8] is Done
            }
            &&& events[4 + installed.len() as int] matches UpdateEvent::Found { json, desktop }
            &&& actions_of(stages, component_type) == began + installed + seq![
                UpdateAction::FindMetadata,
            ] + (if json {
                seq![UpdateAction::PatchJson]
            } else if desktop {
                seq![UpdateAction::PatchDesktop]
            } else {
                Seq::empty()
            }) + seq![UpdateAction::UpdateRegistry, UpdateAction::Finish]
        }),
{
    lemma_goes_on(component_type, stages, events, 0);
    lemma_goes_on(component_type, stages, events, 1);
    lemma_goes_on(component_type, stages, events, 2);
    if stages[3] is Restoring {
        lemma_restoring_fails(component_type, stages, events, 3);
    }
    lemma_goes_on(component_type, stages, events, 3);
    lemma_goes_on(component_type, stages, events, 4);
    if stages[5] is Restoring {
        lemma_restoring_fails(component_type, stages, events, 5);
    }
    lemma_goes_on(component_type, stages, events, 5);
    lemma_goes_on(component_type, stages, events, 6);
    if stages[7] is Restoring {
        lemma_restoring_fails(component_type, stages, events, 7);
    }
    lemma_goes_on(component_type, stages, events, 7);
    lemma_goes_on(component_type, stages, events, 8);
    if stages[4] is ReportingFile {
        lemma_goes_on(component_type, stages, events, 9);
        if stages.len() > 10 {
            lemma_goes_on(component_type, stages, events, 10);
        }
    } else {
        lemma_goes_on(component_type, stages, events, 9);
        if stages[10] is Restoring {
            lemma_restoring_fails(component_type, stages, events, 10);
        }
        lemma_goes_on(component_type, stages, events, 10);
        lemma_goes_on(component_type, stages, events, 11);
        lemma_goes_on(component_type, stages, events, 12);
        if stages.len() > 13 {
            lemma_goes_on(component_type, stages, events, 13);
        }
    }
}

/// The patch of an installed metadata file is that of a `metadata.json` for the kind of component,
/// or that of a `metadata.desktop`, to the version that the component is updated to; no other step
/// touches a metadata file.
pub proof fn law_patch_is_made_to_the_latest_version(
    stage: Stage<ErrorView>,
    component_type: ComponentType,
    version: Seq<char>,
    content: Seq<char>,
)
    ensures
        match action_at(stage, component_type) {
            UpdateAction::PatchJson => patch_at(stage, component_type, version, content)
                == json_patch(content, package_structure(component_type), version),
            UpdateAction::PatchDesktop => patch_at(stage, component_type, version, content) == Some(
                desktop_patch(content, version),
            ),
            _ => patch_at(stage, component_type, version, content) == Some(FilePatchView::Keep),
        },
{
}

/// What an update came to is told as it is: a success as a success, and an error with what it holds.
pub proof fn law_outcome_is_told(result: Result<(), Error>, e: Error)
    ensures
        outcome_view(result) is Ok <==> result is Ok,
        result is Err ==> outcome_view(result)->Err_0 == result->Err_0@,
        Stage::<Error>::Finished(result)@ == Stage::Finished(outcome_view(result)),
        Stage::<Error>::DroppingFile(result)@ == Stage::DroppingFile(outcome_view(result)),
        Stage::<Error>::DroppingExtractDir(result)@ == Stage::DroppingExtractDir(
            outcome_view(result),
        ),
        Stage::<Error>::Restoring(e)@ == Stage::Restoring(e@),
        Stage::<Error>::DroppingBadArchive(e)@ == Stage::DroppingBadArchive(e@),
{
}

} // verus!
