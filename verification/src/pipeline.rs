//! The course of a check, an update and a repair: what is done after what, and what it comes to.

use vstd::prelude::*;

use crate::config::Config;
use crate::error::{shown, Error, ErrorView};
use crate::installer::repair::{
    patched_names, repair_errors, repair_kpackage_structures, RepairOutcome,
};
use crate::installer::update::{update_component, Stage, UpdateRun};
use crate::results::{
    nothing_attempted, CheckResult, RepairResult, UpdateResult, UpdateResultView,
};
use crate::text::{pair_view, pairs_view, same_text, texts};
use crate::types::{AvailableUpdate, InstalledComponent, UpdateCheckResult};

verus! {

// --- The machine ---

/// What was found out about the machine.
#[derive(Debug, Clone, Copy, PartialEq, Eq, Structural)]
pub struct Platform {
    pub is_linux: bool,
    pub has_plasma: bool,
}

/// Why nothing can be done on a machine, if so.
pub open spec fn platform_error(platform: Platform, skip_plasma_detection: bool) -> Option<Error> {
    if !platform.is_linux {
        Some(Error::UnsupportedOS)
    } else if !platform.has_plasma && !skip_plasma_detection {
        Some(Error::NotKDE)
    } else {
        None
    }
}

/// Whether the machine is one to work on: Linux, with Plasma unless its detection is skipped.
pub fn validate_environment(platform: Platform, skip_plasma_detection: bool) -> (r: Result<
    (),
    Error,
>)
    ensures
        r == match platform_error(platform, skip_plasma_detection) {
            Some(e) => Err::<(), Error>(e),
            None => Ok(()),
        },
{
    if !platform.is_linux {
        Err(Error::UnsupportedOS)
    } else if !platform.has_plasma && !skip_plasma_detection {
        Err(Error::NotKDE)
    } else {
        Ok(())
    }
}

// --- Check ---

/// Where a check stands.
#[derive(Debug)]
pub enum CheckStage {
    /// The installed components are to be looked up in the store.
    Fetching,
    Finished(Result<CheckResult, Error>),
}

/// Begins a check for available updates.
pub fn check(config: &Config, platform: Platform) -> (stage: CheckStage)
    ensures
        stage == match platform_error(platform, config.skip_plasma_detection) {
            Some(e) => CheckStage::Finished(Err(e)),
            None => CheckStage::Fetching,
        },
{
    match validate_environment(platform, config.skip_plasma_detection) {
        Err(e) => CheckStage::Finished(Err(e)),
        Ok(_) => CheckStage::Fetching,
    }
}

/// Ends a check with what the store gave. That there is no update is no error.
pub fn check_fetched(fetched: Result<UpdateCheckResult, Error>) -> (stage: CheckStage)
    ensures
        match fetched {
            Ok(found) => {
                &&& stage matches CheckStage::Finished(Ok(result))
                &&& result.available_updates == found.updates
                &&& result.diagnostics@ == found.unresolved@ + found.check_failures@
            },
            Err(e) => stage == CheckStage::Finished(Err(e)),
        },
{
    match fetched {
        Ok(found) => CheckStage::Finished(Ok(CheckResult::from_internal(found))),
        Err(e) => CheckStage::Finished(Err(e)),
    }
}

// --- Update ---

/// Whether a component is among the excluded ones, which are given by their directory names.
pub open spec fn is_excluded(update: AvailableUpdate, excluded: Seq<Seq<char>>) -> bool {
    excluded.contains(update.installed.directory_name@)
}

/// The updates of components that are not excluded.
pub open spec fn not_excluded(updates: Seq<AvailableUpdate>, excluded: Seq<Seq<char>>) -> Seq<
    AvailableUpdate,
>
    decreases updates.len(),
{
    if updates.len() == 0 {
        Seq::empty()
    } else if is_excluded(updates.last(), excluded) {
        not_excluded(updates.drop_last(), excluded)
    } else {
        not_excluded(updates.drop_last(), excluded).push(updates.last())
    }
}

fn names_excluded(directory_name: &str, excluded: &Vec<String>) -> (b: bool)
    ensures
        b == texts(excluded@).contains(directory_name@),
{
    let mut i: usize = 0;
    while i < excluded.len()
        invariant
            i <= excluded@.len(),
            forall|j: int| 0 <= j < i ==> #[trigger] excluded@[j]@ != directory_name@,
        decreases excluded@.len() - i,
    {
        if same_text(excluded[i].as_str(), directory_name) {
            assert(texts(excluded@)[i as int] == directory_name@);
            return true;
        }
        i = i + 1;
    }
    assert forall|j: int| 0 <= j < texts(excluded@).len() implies texts(excluded@)[j]
        != directory_name@ by {
        assert(excluded@[j]@ != directory_name@);
    }
    false
}

/// Drops the updates of excluded components.
pub fn without_excluded(updates: Vec<AvailableUpdate>, excluded: &Vec<String>) -> (kept: Vec<
    AvailableUpdate,
>)
    ensures
        kept@ == not_excluded(updates@, texts(excluded@)),
{
    let mut kept: Vec<AvailableUpdate> = Vec::new();
    let ghost all = updates@;
    for update in it: updates
        invariant
            it.seq() == all,
            kept@ == not_excluded(all.take(it.index()), texts(excluded@)),
    {
        assert(all.take(it.index() + 1).drop_last() == all.take(it.index()));
        if !names_excluded(update.installed.directory_name.as_str(), excluded) {
            kept.push(update);
        }
    }
    assert(all.take(all.len() as int) == all);
    kept
}

/// Excluded components are dropped, and every other update is kept.
pub proof fn law_excluded_are_dropped(
    updates: Seq<AvailableUpdate>,
    excluded: Seq<Seq<char>>,
    update: AvailableUpdate,
)
    ensures
        not_excluded(updates, excluded).contains(update) <==> updates.contains(update)
            && !is_excluded(update, excluded),
    decreases updates.len(),
{
    if updates.len() > 0 {
        let fewer = updates.drop_last();
        let kept = not_excluded(fewer, excluded);
        law_excluded_are_dropped(fewer, excluded, update);
        assert(updates == fewer.push(updates.last()));
        lemma_push_contains(fewer, updates.last(), update);
        lemma_push_contains(kept, updates.last(), update);
    }
}

proof fn lemma_push_contains<T>(s: Seq<T>, last: T, item: T)
    ensures
        s.push(last).contains(item) <==> s.contains(item) || item == last,
{
    if s.contains(item) {
        let i = choose|i: int| 0 <= i < s.len() && s[i] == item;
        assert(s.push(last)[i] == item);
    }
    assert(s.push(last)[s.len() as int] == last);
}

/// What a choice by numbers picks of so many updates: each number that there is, once.
pub open spec fn picked(chosen: Seq<usize>, count: nat) -> Seq<usize>
    decreases chosen.len(),
{
    if chosen.len() == 0 {
        Seq::empty()
    } else {
        let before = picked(chosen.drop_last(), count);
        if chosen.last() < count && !before.contains(chosen.last()) {
            before.push(chosen.last())
        } else {
            before
        }
    }
}

/// The numbers of so many updates.
pub open spec fn all_of(count: nat) -> Seq<usize> {
    Seq::new(count, |i: int| i as usize)
}

fn has_number(numbers: &Vec<usize>, number: usize) -> (b: bool)
    ensures
        b == numbers@.contains(number),
{
    let mut i: usize = 0;
    while i < numbers.len()
        invariant
            i <= numbers@.len(),
            forall|j: int| 0 <= j < i ==> #[trigger] numbers@[j] != number,
        decreases numbers@.len() - i,
    {
        if numbers[i] == number {
            return true;
        }
        i = i + 1;
    }
    false
}

fn pick(chosen: &Vec<usize>, count: usize) -> (selected: Vec<usize>)
    ensures
        selected@ == picked(chosen@, count as nat),
{
    let mut selected: Vec<usize> = Vec::new();
    let mut i: usize = 0;
    while i < chosen.len()
        invariant
            i <= chosen@.len(),
            selected@ == picked(chosen@.take(i as int), count as nat),
        decreases chosen@.len() - i,
    {
        assert(chosen@.take(i + 1).drop_last() == chosen@.take(i as int));
        let number: usize = chosen[i];
        if number < count && !has_number(&selected, number) {
            selected.push(number);
        }
        i = i + 1;
    }
    assert(chosen@.take(chosen@.len() as int) == chosen@);
    selected
}

fn pick_all(count: usize) -> (selected: Vec<usize>)
    ensures
        selected@ == all_of(count as nat),
{
    let mut selected: Vec<usize> = Vec::new();
    let mut i: usize = 0;
    while i < count
        invariant
            i <= count,
            selected@ == all_of(i as nat),
        decreases count - i,
    {
        selected.push(i);
        i = i + 1;
        assert(selected@ == all_of(i as nat));
    }
    selected
}

proof fn lemma_picked(chosen: Seq<usize>, count: nat)
    ensures
        forall|i: int|
            0 <= i < picked(chosen, count).len() ==> #[trigger] picked(chosen, count)[i] < count,
        picked(chosen, count).no_duplicates(),
    decreases chosen.len(),
{
    if chosen.len() > 0 {
        lemma_picked(chosen.drop_last(), count);
    }
}

/// What the installation of the selected updates came to, by the outcome of each: one that has no
/// outcome was skipped.
pub open spec fn summed_up(
    updates: Seq<AvailableUpdate>,
    selected: Seq<usize>,
    outcomes: Seq<Result<(), Error>>,
) -> UpdateResultView
    decreases selected.len(),
{
    if selected.len() == 0 {
        UpdateResultView { succeeded: Seq::empty(), failed: Seq::empty(), skipped: Seq::empty() }
    } else {
        let before = summed_up(updates, selected.drop_last(), outcomes);
        let name = updates[selected.last() as int].installed.name@;
        if outcomes.len() < selected.len() {
            UpdateResultView { skipped: before.skipped.push(name), ..before }
        } else {
            match outcomes[selected.len() - 1] {
                Ok(_) => UpdateResultView { succeeded: before.succeeded.push(name), ..before },
                Err(e) => UpdateResultView {
                    failed: before.failed.push((name, shown(e@))),
                    ..before
                },
            }
        }
    }
}

fn sum_up(
    updates: &Vec<AvailableUpdate>,
    selected: &Vec<usize>,
    outcomes: &Vec<Result<(), Error>>,
) -> (result: UpdateResult)
    requires
        forall|i: int| 0 <= i < selected@.len() ==> #[trigger] selected@[i] < updates@.len(),
    ensures
        result@ == summed_up(updates@, selected@, outcomes@),
{
    let mut result = UpdateResult::default();
    let mut i: usize = 0;
    assert(result@ =~~= summed_up(updates@, selected@.take(0), outcomes@));
    while i < selected.len()
        invariant
            i <= selected@.len(),
            forall|j: int| 0 <= j < selected@.len() ==> #[trigger] selected@[j] < updates@.len(),
            result@ == summed_up(updates@, selected@.take(i as int), outcomes@),
        decreases selected@.len() - i,
    {
        let ghost before = result@;
        let ghost succeeded = result.succeeded@;
        let ghost failed = result.failed@;
        let ghost skipped = result.skipped@;
        assert(selected@.take(i + 1).drop_last() == selected@.take(i as int));
        assert(selected@.take(i + 1).last() == selected@[i as int]);
        let name = updates[selected[i]].installed.name.clone();
        if i >= outcomes.len() {
            result.skipped.push(name);
            assert(texts(result.skipped@) =~= texts(skipped).push(name@));
        } else {
            match &outcomes[i] {
                Ok(_) => {
                    result.succeeded.push(name);
                    assert(texts(result.succeeded@) =~= texts(succeeded).push(name@));
                },
                Err(e) => {
                    result.failed.push((name, e.text()));
                    assert(pairs_view(result.failed@) =~= pairs_view(failed).push(
                        pair_view(result.failed@.last()),
                    ));
                },
            }
        }
        i = i + 1;
    }
    assert(selected@.take(selected@.len() as int) == selected@);
    result
}

/// Where the update of all components stands.
#[derive(Debug)]
pub enum UpdateStage {
    /// The installed components are to be looked up in the store.
    Fetching { excluded: Vec<String>, auto_confirm: bool },
    /// Updates were found: the user is to pick those that are wanted, by their numbers.
    Selecting { updates: Vec<AvailableUpdate> },
    /// The selected updates are to be installed. They are given by their numbers.
    Installing { updates: Vec<AvailableUpdate>, selected: Vec<usize> },
    /// The desktop shell is to be restarted as configured.
    Restarting { updates: Vec<AvailableUpdate>, result: UpdateResult },
    UpToDate,
    NothingSelected,
    Failed(Error),
    Finished(UpdateResult),
}

/// Where the update of all components stands, with what its lists and texts hold.
pub enum UpdateStageView {
    Fetching { excluded: Seq<Seq<char>>, auto_confirm: bool },
    Selecting { updates: Seq<AvailableUpdate> },
    Installing { updates: Seq<AvailableUpdate>, selected: Seq<usize> },
    Restarting { updates: Seq<AvailableUpdate>, result: UpdateResultView },
    UpToDate,
    NothingSelected,
    Failed(ErrorView),
    Finished(UpdateResultView),
}

impl View for UpdateStage {
    type V = UpdateStageView;

    open spec fn view(&self) -> UpdateStageView {
        match self {
            UpdateStage::Fetching { excluded, auto_confirm } => UpdateStageView::Fetching {
                excluded: texts(excluded@),
                auto_confirm: *auto_confirm,
            },
            UpdateStage::Selecting { updates } => UpdateStageView::Selecting { updates: updates@ },
            UpdateStage::Installing { updates, selected } => UpdateStageView::Installing {
                updates: updates@,
                selected: selected@,
            },
            UpdateStage::Restarting { updates, result } => UpdateStageView::Restarting {
                updates: updates@,
                result: result@,
            },
            UpdateStage::UpToDate => UpdateStageView::UpToDate,
            UpdateStage::NothingSelected => UpdateStageView::NothingSelected,
            UpdateStage::Failed(e) => UpdateStageView::Failed(e@),
            UpdateStage::Finished(result) => UpdateStageView::Finished(result@),
        }
    }
}

/// What came of the last stage.
#[derive(Debug)]
pub enum UpdateProgress {
    Fetched(Result<UpdateCheckResult, Error>),
    /// The numbers that the user picked.
    Selected(Result<Vec<usize>, Error>),
    /// The outcome of each selected update, in order.
    Installed(Result<Vec<Result<(), Error>>, Error>),
    RestartHandled,
}

/// The stage that follows. Excluded components are dropped from what the store gave. Of the rest
/// all are installed where that is configured, else those that the user picks. A stage that awaits
/// something else stays.
pub open spec fn next_update_stage(
    stage: UpdateStageView,
    progress: UpdateProgress,
) -> UpdateStageView {
    match (stage, progress) {
        (
            UpdateStageView::Fetching { .. },
            UpdateProgress::Fetched(Err(e)),
        ) => UpdateStageView::Failed(e@),
        (
            UpdateStageView::Fetching { excluded, auto_confirm },
            UpdateProgress::Fetched(Ok(found)),
        ) => {
            let updates = not_excluded(found.updates@, excluded);
            if updates.len() == 0 {
                UpdateStageView::UpToDate
            } else if auto_confirm {
                UpdateStageView::Installing { updates, selected: all_of(updates.len()) }
            } else {
                UpdateStageView::Selecting { updates }
            }
        },
        (
            UpdateStageView::Selecting { .. },
            UpdateProgress::Selected(Err(e)),
        ) => UpdateStageView::Failed(e@),
        (UpdateStageView::Selecting { updates }, UpdateProgress::Selected(Ok(chosen))) => {
            let selected = picked(chosen@, updates.len());
            if selected.len() == 0 {
                UpdateStageView::NothingSelected
            } else {
                UpdateStageView::Installing { updates, selected }
            }
        },
        (
            UpdateStageView::Installing { .. },
            UpdateProgress::Installed(Err(e)),
        ) => UpdateStageView::Failed(e@),
        (
            UpdateStageView::Installing { updates, selected },
            UpdateProgress::Installed(Ok(outcomes)),
        ) => UpdateStageView::Restarting {
            updates,
            result: summed_up(updates, selected, outcomes@),
        },
        (
            UpdateStageView::Restarting { result, .. },
            UpdateProgress::RestartHandled,
        ) => UpdateStageView::Finished(result),
        (stage, _) => stage,
    }
}

fn copy_of(names: &Vec<String>) -> (copy: Vec<String>)
    ensures
        texts(copy@) == texts(names@),
{
    let mut copy: Vec<String> = Vec::new();
    let mut i: usize = 0;
    assert(texts(copy@) =~= texts(names@).take(0));
    while i < names.len()
        invariant
            i <= names@.len(),
            texts(copy@) == texts(names@).take(i as int),
        decreases names@.len() - i,
    {
        let ghost before = copy@;
        copy.push(names[i].clone());
        assert(texts(copy@) =~= texts(before).push(names@[i as int]@));
        assert(texts(names@).take(i + 1) =~= texts(names@).take(i as int).push(
            texts(names@)[i as int],
        ));
        i = i + 1;
    }
    assert(texts(names@).take(names@.len() as int) =~= texts(names@));
    copy
}

/// Where an update with this configuration starts.
pub open spec fn update_start(config: Config) -> UpdateStageView {
    UpdateStageView::Fetching {
        excluded: texts(config.excluded_packages@),
        auto_confirm: config.auto_confirm,
    }
}

/// Begins the update of all components that have one.
pub fn update(config: &Config, platform: Platform) -> (stage: UpdateStage)
    ensures
        stage.well_formed(),
        stage@ == match platform_error(platform, config.skip_plasma_detection) {
            Some(e) => UpdateStageView::Failed(e@),
            None => update_start(*config),
        },
        stage matches UpdateStage::Fetching { excluded, auto_confirm } ==> {
            &&& texts(excluded@) == texts(config.excluded_packages@)
            &&& auto_confirm == config.auto_confirm
        },
{
    match validate_environment(platform, config.skip_plasma_detection) {
        Err(e) => UpdateStage::Failed(e),
        Ok(_) => UpdateStage::Fetching {
            excluded: copy_of(&config.excluded_packages),
            auto_confirm: config.auto_confirm,
        },
    }
}

impl UpdateStage {
    /// The numbers of the selected updates are those of updates that there are.
    pub open spec fn well_formed(self) -> bool {
        self matches UpdateStage::Installing { updates, selected } ==> forall|i: int|
            0 <= i < selected@.len() ==> #[trigger] selected@[i] < updates@.len()
    }

    /// Goes on with what came of this stage.
    pub fn step(self, progress: UpdateProgress) -> (next: UpdateStage)
        requires
            self.well_formed(),
        ensures
            next.well_formed(),
            next@ == next_update_stage(self@, progress),
    {
        match self {
            UpdateStage::Fetching { excluded, auto_confirm } => match progress {
                UpdateProgress::Fetched(Err(e)) => UpdateStage::Failed(e),
                UpdateProgress::Fetched(Ok(found)) => {
                    let updates = without_excluded(found.updates, &excluded);
                    if updates.len() == 0 {
                        UpdateStage::UpToDate
                    } else if auto_confirm {
                        let selected = pick_all(updates.len());
                        UpdateStage::Installing { updates, selected }
                    } else {
                        UpdateStage::Selecting { updates }
                    }
                },
                _ => UpdateStage::Fetching { excluded, auto_confirm },
            },
            UpdateStage::Selecting { updates } => match progress {
                UpdateProgress::Selected(Err(e)) => UpdateStage::Failed(e),
                UpdateProgress::Selected(Ok(chosen)) => {
                    let selected = pick(&chosen, updates.len());
                    proof {
                        lemma_picked(chosen@, updates@.len());
                    }
                    if selected.len() == 0 {
                        UpdateStage::NothingSelected
                    } else {
                        UpdateStage::Installing { updates, selected }
                    }
                },
                _ => UpdateStage::Selecting { updates },
            },
            UpdateStage::Installing { updates, selected } => match progress {
                UpdateProgress::Installed(Err(e)) => UpdateStage::Failed(e),
                UpdateProgress::Installed(Ok(outcomes)) => {
                    let result = sum_up(&updates, &selected, &outcomes);
                    UpdateStage::Restarting { updates, result }
                },
                _ => UpdateStage::Installing { updates, selected },
            },
            UpdateStage::Restarting { updates, result } => match progress {
                UpdateProgress::RestartHandled => UpdateStage::Finished(result),
                _ => UpdateStage::Restarting { updates, result },
            },
            stage => stage,
        }
    }

    /// What is told when there is nothing to install.
    pub fn notice(&self) -> (text: Option<&'static str>)
        ensures
            match *self {
                UpdateStage::UpToDate => text is Some && text->0@ == "no updates available"@,
                UpdateStage::NothingSelected => text is Some && text->0@ == "nothing to update"@,
                _ => text is None,
            },
    {
        match self {
            UpdateStage::UpToDate => Some("no updates available"),
            UpdateStage::NothingSelected => Some("nothing to update"),
            _ => None,
        }
    }

    /// What the update came to, once it is at its end.
    pub fn result(self) -> (r: Option<Result<UpdateResult, Error>>)
        ensures
            match self {
                UpdateStage::UpToDate | UpdateStage::NothingSelected => {
                    &&& r matches Some(Ok(result))
                    &&& nothing_attempted(result)
                },
                UpdateStage::Failed(e) => r == Some(Err::<UpdateResult, Error>(e)),
                UpdateStage::Finished(result) => r == Some(Ok::<UpdateResult, Error>(result)),
                _ => r is None,
            },
    {
        match self {
            UpdateStage::UpToDate => Some(Ok(UpdateResult::default())),
            UpdateStage::NothingSelected => Some(Ok(UpdateResult::default())),
            UpdateStage::Failed(e) => Some(Err(e)),
            UpdateStage::Finished(result) => Some(Ok(result)),
            _ => None,
        }
    }
}

// --- What holds of every update of all components ---

/// The stage after all of this.
pub open spec fn update_stage_after(
    start: UpdateStageView,
    progress: Seq<UpdateProgress>,
) -> UpdateStageView
    decreases progress.len(),
{
    if progress.len() == 0 {
        start
    } else {
        next_update_stage(update_stage_after(start, progress.drop_last()), progress.last())
    }
}

/// Whether these are the updates that the store gave, without the excluded ones.
pub open spec fn were_kept(
    updates: Seq<AvailableUpdate>,
    excluded: Seq<Seq<char>>,
    progress: Seq<UpdateProgress>,
) -> bool {
    exists|found: UpdateCheckResult|
        updates == not_excluded(found.updates@, excluded) && #[trigger] progress.contains(
            UpdateProgress::Fetched(Ok(found)),
        )
}

/// Whether these numbers select some of the updates, each once.
pub open spec fn selects(selected: Seq<usize>, updates: Seq<AvailableUpdate>) -> bool {
    &&& selected.len() > 0
    &&& selected.no_duplicates()
    &&& forall|i: int| 0 <= i < selected.len() ==> #[trigger] selected[i] < updates.len()
}

/// Whether this is what an installation of some of the updates came to.
pub open spec fn was_installed(
    updates: Seq<AvailableUpdate>,
    result: UpdateResultView,
    progress: Seq<UpdateProgress>,
) -> bool {
    exists|selected: Seq<usize>, outcomes: Vec<Result<(), Error>>|
        {
            &&& #[trigger] selects(selected, updates)
            &&& #[trigger] progress.contains(UpdateProgress::Installed(Ok(outcomes)))
            &&& result == summed_up(updates, selected, outcomes@)
        }
}

/// What a stage has behind it, in an update that these components are excluded from.
pub open spec fn has_behind_it(
    stage: UpdateStageView,
    excluded: Seq<Seq<char>>,
    auto_confirm: bool,
    progress: Seq<UpdateProgress>,
) -> bool {
    match stage {
        UpdateStageView::Fetching { excluded: e, auto_confirm: a } => e == excluded && a
            == auto_confirm,
        UpdateStageView::Selecting { updates } => {
            &&& !auto_confirm
            &&& updates.len() > 0
            &&& were_kept(updates, excluded, progress)
        },
        UpdateStageView::Installing { updates, selected } => {
            &&& were_kept(updates, excluded, progress)
            &&& selects(selected, updates)
            &&& auto_confirm ==> selected == all_of(updates.len())
        },
        UpdateStageView::Restarting { updates, result } => {
            &&& were_kept(updates, excluded, progress)
            &&& was_installed(updates, result, progress)
        },
        UpdateStageView::Finished(result) => {
            &&& progress.contains(UpdateProgress::RestartHandled)
            &&& exists|updates: Seq<AvailableUpdate>|
                #[trigger] were_kept(updates, excluded, progress) && was_installed(
                    updates,
                    result,
                    progress,
                )
        },
        _ => true,
    }
}

/// The course of every update: what is selected from and what is installed is what the store gave
/// without the excluded components, all of it where that is configured; the shell is restarted and
/// a result given only after an installation, in view of what that came to.
pub proof fn law_update_takes_its_course(
    excluded: Seq<Seq<char>>,
    auto_confirm: bool,
    progress: Seq<UpdateProgress>,
)
    ensures
        has_behind_it(
            update_stage_after(UpdateStageView::Fetching { excluded, auto_confirm }, progress),
            excluded,
            auto_confirm,
            progress,
        ),
    decreases progress.len(),
{
    if progress.len() > 0 {
        let start = UpdateStageView::Fetching { excluded, auto_confirm };
        let before = progress.drop_last();
        let last = progress.last();
        let stage = update_stage_after(start, before);
        law_update_takes_its_course(excluded, auto_confirm, before);
        assert(progress == before.push(last));
        assert forall|item: UpdateProgress| progress.contains(item) <==> before.contains(item)
            || item == last by {
            lemma_push_contains(before, last, item);
        }
        assert forall|updates: Seq<AvailableUpdate>| #[trigger]
            were_kept(updates, excluded, before) implies were_kept(
            updates,
            excluded,
            progress,
        ) by {
            let found = choose|found: UpdateCheckResult|
                updates == not_excluded(found.updates@, excluded) && #[trigger] before.contains(
                    UpdateProgress::Fetched(Ok(found)),
                );
            assert(progress.contains(UpdateProgress::Fetched(Ok(found))));
        }
        assert forall|updates: Seq<AvailableUpdate>, result: UpdateResultView| #[trigger]
            was_installed(updates, result, before) implies was_installed(
            updates,
            result,
            progress,
        ) by {
            let (selected, outcomes) = choose|
                selected: Seq<usize>,
                outcomes: Vec<Result<(), Error>>,
            |
                {
                    &&& #[trigger] selects(selected, updates)
                    &&& #[trigger] before.contains(UpdateProgress::Installed(Ok(outcomes)))
                    &&& result == summed_up(updates, selected, outcomes@)
                };
            assert(progress.contains(UpdateProgress::Installed(Ok(outcomes))));
        }
        match (stage, last) {
            (UpdateStageView::Fetching { .. }, UpdateProgress::Fetched(Ok(found))) => {
                let updates = not_excluded(found.updates@, excluded);
                assert(found.updates.len() == found.updates@.len());
                assert(progress.contains(UpdateProgress::Fetched(Ok(found))));
                assert(were_kept(updates, excluded, progress));
                lemma_kept_len(found.updates@, excluded);
                assert(updates.len() > 0 ==> selects(all_of(updates.len()), updates));
            },
            (UpdateStageView::Selecting { updates }, UpdateProgress::Selected(Ok(chosen))) => {
                lemma_picked(chosen@, updates.len());
            },
            (
                UpdateStageView::Installing { updates, selected },
                UpdateProgress::Installed(Ok(outcomes)),
            ) => {
                assert(selects(selected, updates));
                assert(progress.contains(UpdateProgress::Installed(Ok(outcomes))));
            },
            _ => {},
        }
    }
}

/// Excluded components are always skipped: whatever is installed was found in the store and is of a
/// component that is not excluded.
pub proof fn law_excluded_are_never_installed(
    excluded: Seq<Seq<char>>,
    auto_confirm: bool,
    progress: Seq<UpdateProgress>,
    at: int,
)
    requires
        update_stage_after(
            UpdateStageView::Fetching { excluded, auto_confirm },
            progress,
        ) matches UpdateStageView::Installing { selected, .. } && 0 <= at < selected.len(),
    ensures
        update_stage_after(
            UpdateStageView::Fetching { excluded, auto_confirm },
            progress,
        ) matches UpdateStageView::Installing { updates, selected } && was_offered(
            updates[selected[at] as int],
            excluded,
            progress,
        ),
{
    law_update_takes_its_course(excluded, auto_confirm, progress);
    let start = UpdateStageView::Fetching { excluded, auto_confirm };
    if let UpdateStageView::Installing { updates, selected } = update_stage_after(start, progress) {
        assert(selected[at] < updates.len());
        lemma_kept_was_offered(updates, excluded, progress, selected[at] as int);
    }
}

/// Whether the store gave this update, and its component is not excluded.
pub open spec fn was_offered(
    update: AvailableUpdate,
    excluded: Seq<Seq<char>>,
    progress: Seq<UpdateProgress>,
) -> bool {
    &&& !is_excluded(update, excluded)
    &&& exists|found: UpdateCheckResult|
        found.updates@.contains(update) && #[trigger] progress.contains(
            UpdateProgress::Fetched(Ok(found)),
        )
}

proof fn lemma_kept_was_offered(
    updates: Seq<AvailableUpdate>,
    excluded: Seq<Seq<char>>,
    progress: Seq<UpdateProgress>,
    at: int,
)
    requires
        were_kept(updates, excluded, progress),
        0 <= at < updates.len(),
    ensures
        was_offered(updates[at], excluded, progress),
{
    let found = choose|found: UpdateCheckResult|
        updates == not_excluded(found.updates@, excluded) && #[trigger] progress.contains(
            UpdateProgress::Fetched(Ok(found)),
        );
    assert(updates.contains(updates[at]));
    law_excluded_are_dropped(found.updates@, excluded, updates[at]);
    assert(progress.contains(UpdateProgress::Fetched(Ok(found))));
}

/// Whether a result counts a component by this name.
pub open spec fn counts(result: UpdateResultView, name: Seq<char>) -> bool {
    ||| result.succeeded.contains(name)
    ||| exists|i: int| 0 <= i < result.failed.len() && (#[trigger] result.failed[i]).0 == name
    ||| result.skipped.contains(name)
}

proof fn lemma_counted(
    updates: Seq<AvailableUpdate>,
    selected: Seq<usize>,
    outcomes: Seq<Result<(), Error>>,
    name: Seq<char>,
)
    requires
        forall|i: int| 0 <= i < selected.len() ==> #[trigger] selected[i] < updates.len(),
        counts(summed_up(updates, selected, outcomes), name),
    ensures
        exists|i: int|
            0 <= i < updates.len() && (#[trigger] updates[i]).installed.name@ == name,
    decreases selected.len(),
{
    if selected.len() > 0 {
        let fewer = selected.drop_last();
        let before = summed_up(updates, fewer, outcomes);
        let result = summed_up(updates, selected, outcomes);
        let last = updates[selected.last() as int];
        assert(selected[selected.len() - 1] < updates.len());
        assert forall|i: int| 0 <= i < fewer.len() implies #[trigger] fewer[i] < updates.len() by {
            assert(selected[i] < updates.len());
        }
        if last.installed.name@ != name {
            lemma_push_contains(before.succeeded, last.installed.name@, name);
            lemma_push_contains(before.skipped, last.installed.name@, name);
            if exists|i: int| 0 <= i < result.failed.len() && (#[trigger] result.failed[i]).0 == name {
                let i = choose|i: int|
                    0 <= i < result.failed.len() && (#[trigger] result.failed[i]).0 == name;
                assert(i < before.failed.len());
                assert(before.failed[i].0 == name);
            }
            lemma_counted(updates, fewer, outcomes, name);
        }
    }
}

/// The result of an update counts only components that the store gave an update for and that are
/// not excluded.
pub proof fn law_excluded_are_not_counted(
    excluded: Seq<Seq<char>>,
    auto_confirm: bool,
    progress: Seq<UpdateProgress>,
    name: Seq<char>,
)
    requires
        update_stage_after(
            UpdateStageView::Fetching { excluded, auto_confirm },
            progress,
        ) matches UpdateStageView::Finished(result) && counts(result, name),
    ensures
        exists|update: AvailableUpdate|
            update.installed.name@ == name && #[trigger] was_offered(update, excluded, progress),
{
    law_update_takes_its_course(excluded, auto_confirm, progress);
    let start = UpdateStageView::Fetching { excluded, auto_confirm };
    if let UpdateStageView::Finished(result) = update_stage_after(start, progress) {
        let updates = choose|updates: Seq<AvailableUpdate>|
            #[trigger] were_kept(updates, excluded, progress) && was_installed(
                updates,
                result,
                progress,
            );
        let (selected, outcomes) = choose|
            selected: Seq<usize>,
            outcomes: Vec<Result<(), Error>>,
        |
            {
                &&& #[trigger] selects(selected, updates)
                &&& #[trigger] progress.contains(UpdateProgress::Installed(Ok(outcomes)))
                &&& result == summed_up(updates, selected, outcomes@)
            };
        lemma_counted(updates, selected, outcomes@, name);
        let i = choose|i: int|
            0 <= i < updates.len() && (#[trigger] updates[i]).installed.name@ == name;
        lemma_kept_was_offered(updates, excluded, progress, i);
        assert(was_offered(updates[i], excluded, progress));
    }
}

proof fn lemma_kept_len(updates: Seq<AvailableUpdate>, excluded: Seq<Seq<char>>)
    ensures
        not_excluded(updates, excluded).len() <= updates.len(),
    decreases updates.len(),
{
    if updates.len() > 0 {
        lemma_kept_len(updates.drop_last(), excluded);
    }
}

/// Begins the update of a single component, whatever is configured.
pub fn install_update(update: &AvailableUpdate, config: &Config) -> (run: UpdateRun)
    ensures
        run.component_type == update.installed.component_type,
        run.latest_version@ == update.latest_version@,
        run.stage@ == Stage::<ErrorView>::BackingUp,
{
    let _ = config;
    update_component(update)
}

// --- Installed components ---

/// Which of the installed components are looked for.
#[derive(Debug, Clone, Copy, PartialEq, Eq, Structural)]
pub struct Search {
    /// Those of the whole system, not those of the user.
    pub system: bool,
}

/// The search for the installed components that are configured.
pub fn get_installed(config: &Config) -> (search: Search)
    ensures
        search == (Search { system: config.system }),
{
    Search { system: config.system }
}

// --- Repair ---

/// Where a repair stands.
#[derive(Debug)]
pub enum RepairStage {
    /// The installed components are to be found.
    Finding(Search),
    /// These components are to be repaired, one after the other.
    Repairing { components: Vec<InstalledComponent> },
    Finished(Result<RepairResult, Error>),
}

/// Begins the repair of the installed components.
pub fn repair_installed(config: &Config, platform: Platform) -> (stage: RepairStage)
    ensures
        stage == match platform_error(platform, config.skip_plasma_detection) {
            Some(e) => RepairStage::Finished(Err(e)),
            None => RepairStage::Finding(Search { system: config.system }),
        },
{
    match validate_environment(platform, config.skip_plasma_detection) {
        Err(e) => RepairStage::Finished(Err(e)),
        Ok(_) => RepairStage::Finding(get_installed(config)),
    }
}

/// Goes on with a repair when the installed components were looked for.
pub fn repair_found(found: Result<Vec<InstalledComponent>, Error>) -> (stage: RepairStage)
    ensures
        stage == match found {
            Ok(components) => RepairStage::Repairing { components },
            Err(e) => RepairStage::Finished(Err(e)),
        },
{
    match found {
        Ok(components) => RepairStage::Repairing { components },
        Err(e) => RepairStage::Finished(Err(e)),
    }
}

/// Ends a repair with what came of each component. Components that could not be repaired are no
/// error of the repair.
pub fn repair_done(components: &Vec<InstalledComponent>, outcomes: &Vec<RepairOutcome>) -> (stage:
    RepairStage)
    requires
        outcomes@.len() == components@.len(),
    ensures
        stage matches RepairStage::Finished(Ok(result)) && {
            &&& texts(result.patched@) == patched_names(components@, outcomes@)
            &&& pairs_view(result.errors@) == repair_errors(components@, outcomes@)
        },
{
    let (patched, errors) = repair_kpackage_structures(components, outcomes);
    RepairStage::Finished(Ok(RepairResult { patched, errors }))
}

// --- Listing ---

/// What a listing of the installed components shows.
#[derive(Debug)]
pub enum Listing {
    /// A line that nothing is installed.
    Note(&'static str),
    Table(Vec<InstalledComponent>),
}

/// What to show of the installed components.
pub fn show_installed(found: Result<Vec<InstalledComponent>, Error>) -> (r: Result<Listing, Error>)
    ensures
        match found {
            Ok(components) => if components@.len() == 0 {
                r matches Ok(Listing::Note(line)) && line@ == "no components installed"@
            } else {
                r == Ok::<Listing, Error>(Listing::Table(components))
            },
            Err(e) => r == Err::<Listing, Error>(e),
        },
{
    match found {
        Ok(components) => {
            if components.len() == 0 {
                Ok(Listing::Note("no components installed"))
            } else {
                Ok(Listing::Table(components))
            }
        },
        Err(e) => Err(e),
    }
}

// --- What the parts of an update come to ---

/// Work is refused exactly on a machine that is not Linux, and on one without Plasma where its
/// detection is not skipped.
pub proof fn law_machine_is_refused(platform: Platform, skip_plasma_detection: bool)
    ensures
        match platform_error(platform, skip_plasma_detection) {
            None => platform.is_linux && (platform.has_plasma || skip_plasma_detection),
            Some(Error::UnsupportedOS) => !platform.is_linux,
            Some(Error::NotKDE) => platform.is_linux && !platform.has_plasma
                && !skip_plasma_detection,
            Some(_) => false,
        },
{
}

/// What is kept of the updates are those whose directory name is not excluded, each as often and in
/// the order in which it was found.
pub proof fn law_kept_updates_are_those_not_excluded(
    updates: Seq<AvailableUpdate>,
    excluded: Seq<Seq<char>>,
)
    ensures
        not_excluded(updates, excluded) == updates.filter(
            |update: AvailableUpdate| !excluded.contains(update.installed.directory_name@),
        ),
    decreases updates.len(),
{
    reveal(Seq::filter);
    if updates.len() > 0 {
        law_kept_updates_are_those_not_excluded(updates.drop_last(), excluded);
    }
}

/// What a choice picks are the numbers that there are and that were chosen, each once, in the order
/// in which they were first chosen.
pub proof fn law_choice_picks_what_was_chosen(chosen: Seq<usize>, count: nat)
    ensures
        picked(chosen, count).no_duplicates(),
        forall|number: usize| #[trigger]
            picked(chosen, count).contains(number) <==> chosen.contains(number) && number < count,
        forall|i: int, j: int|
            0 <= i < j < picked(chosen, count).len() ==> chosen.index_of_first(
                #[trigger] picked(chosen, count)[i],
            )->0 < chosen.index_of_first(#[trigger] picked(chosen, count)[j])->0,
    decreases chosen.len(),
{
    if chosen.len() > 0 {
        let fewer = chosen.drop_last();
        let last = chosen.last();
        let before = picked(fewer, count);
        law_choice_picks_what_was_chosen(fewer, count);
        assert(chosen == fewer.push(last));
        assert forall|number: usize| #[trigger]
            picked(chosen, count).contains(number) <==> chosen.contains(number) && number
                < count by {
            lemma_push_contains(fewer, last, number);
            lemma_push_contains(before, last, number);
        }
        assert forall|number: usize| fewer.contains(number) implies #[trigger] chosen.index_of_first(
            number,
        ) == fewer.index_of_first(number) && 0 <= fewer.index_of_first(number)->0 < fewer.len() by {
            lemma_first_index(fewer, number);
            lemma_first_index(chosen, number);
            lemma_push_contains(fewer, last, number);
        }
        assert forall|i: int, j: int| 0 <= i < j < picked(chosen, count).len() implies chosen.index_of_first(
            #[trigger] picked(chosen, count)[i],
        )->0 < chosen.index_of_first(#[trigger] picked(chosen, count)[j])->0 by {
            assert(before[i] == picked(chosen, count)[i]);
            assert(before.contains(before[i]));
            if j < before.len() {
                assert(before[j] == picked(chosen, count)[j]);
                assert(before.contains(before[j]));
            } else {
                assert(!fewer.contains(last));
                lemma_push_contains(fewer, last, last);
                lemma_first_index(chosen, last);
            }
        }
    }
}

proof fn lemma_first_index(s: Seq<usize>, number: usize)
    requires
        s.contains(number),
    ensures
        s.index_of_first(number) is Some,
        0 <= s.index_of_first(number)->0 < s.len(),
        s[s.index_of_first(number)->0] == number,
        forall|i: int| 0 <= i < s.index_of_first(number)->0 ==> s[i] != number,
{
    s.index_of_first_ensures(number);
}

/// Every selected update is reported once, where its outcome belongs: those whose outcome is good
/// as succeeded, those whose outcome is an error as failed with the text of the error, and those
/// without an outcome as skipped, each list in the order of the selection.
pub proof fn law_every_selected_update_is_reported_once(
    updates: Seq<AvailableUpdate>,
    selected: Seq<usize>,
    outcomes: Seq<Result<(), Error>>,
)
    ensures
        ({
            let result = summed_up(updates, selected, outcomes);
            let places = Seq::new(selected.len(), |k: int| k);
            let name = |k: int| updates[selected[k] as int].installed.name@;
            &&& result.succeeded.len() + result.failed.len() + result.skipped.len()
                == selected.len()
            &&& result.succeeded == places.filter(
                |k: int| k < outcomes.len() && outcomes[k] is Ok,
            ).map_values(name)
            &&& result.failed == places.filter(
                |k: int| k < outcomes.len() && outcomes[k] is Err,
            ).map_values(|k: int| (name(k), shown(outcomes[k]->Err_0@)))
            &&& result.skipped == places.filter(|k: int| k >= outcomes.len()).map_values(name)
        }),
    decreases selected.len(),
{
    reveal(Seq::filter);
    let places = Seq::new(selected.len(), |k: int| k);
    let good = |k: int| k < outcomes.len() && outcomes[k] is Ok;
    let bad = |k: int| k < outcomes.len() && outcomes[k] is Err;
    let none = |k: int| k >= outcomes.len();
    let name = |k: int| updates[selected[k] as int].installed.name@;
    let told = |k: int| (name(k), shown(outcomes[k]->Err_0@));
    let result = summed_up(updates, selected, outcomes);
    if selected.len() > 0 {
        let fewer = selected.drop_last();
        let fewer_places = Seq::new(fewer.len(), |k: int| k);
        let fewer_name = |k: int| updates[fewer[k] as int].installed.name@;
        let fewer_told = |k: int| (fewer_name(k), shown(outcomes[k]->Err_0@));
        law_every_selected_update_is_reported_once(updates, fewer, outcomes);
        assert(places.drop_last() =~= fewer_places);
        lemma_filtered_in_range(fewer_places, fewer.len() as int, good);
        lemma_filtered_in_range(fewer_places, fewer.len() as int, bad);
        lemma_filtered_in_range(fewer_places, fewer.len() as int, none);
        assert(fewer_places.filter(good).map_values(name) =~= fewer_places.filter(good).map_values(
            fewer_name,
        ));
        assert(fewer_places.filter(bad).map_values(told) =~= fewer_places.filter(bad).map_values(
            fewer_told,
        ));
        assert(fewer_places.filter(none).map_values(name) =~= fewer_places.filter(none).map_values(
            fewer_name,
        ));
        assert(result.succeeded =~= places.filter(good).map_values(name));
        assert(result.failed =~= places.filter(bad).map_values(told));
        assert(result.skipped =~= places.filter(none).map_values(name));
    } else {
        assert(result.succeeded =~= places.filter(good).map_values(name));
        assert(result.failed =~= places.filter(bad).map_values(told));
        assert(result.skipped =~= places.filter(none).map_values(name));
    }
}

proof fn lemma_filtered_in_range(places: Seq<int>, end: int, fits: spec_fn(int) -> bool)
    requires
        forall|i: int| 0 <= i < places.len() ==> 0 <= #[trigger] places[i] < end,
    ensures
        forall|i: int|
            0 <= i < places.filter(fits).len() ==> 0 <= #[trigger] places.filter(fits)[i] < end,
    decreases places.len(),
{
    reveal(Seq::filter);
    if places.len() > 0 {
        let fewer = places.drop_last();
        lemma_filtered_in_range(fewer, end, fits);
        assert(0 <= places[places.len() - 1] < end);
        assert forall|i: int| 0 <= i < places.filter(fits).len() implies 0
            <= #[trigger] places.filter(fits)[i] < end by {
            if i < fewer.filter(fits).len() {
                assert(places.filter(fits)[i] == fewer.filter(fits)[i]);
            }
        }
    }
}

/// When the store was asked, the update goes on with what was found and is not excluded: with all of
/// it where that is configured, else with the choice among it. It is at its end only if nothing is
/// left, or if the store could not be asked.
pub proof fn law_found_updates_are_gone_on_with(
    excluded: Seq<Seq<char>>,
    auto_confirm: bool,
    fetched: Result<UpdateCheckResult, Error>,
)
    ensures
        ({
            let next = next_update_stage(
                UpdateStageView::Fetching { excluded, auto_confirm },
                UpdateProgress::Fetched(fetched),
            );
            match fetched {
                Err(e) => next == UpdateStageView::Failed(e@),
                Ok(found) => {
                    let left = found.updates@.filter(
                        |update: AvailableUpdate|
                            !excluded.contains(update.installed.directory_name@),
                    );
                    match next {
                        UpdateStageView::UpToDate => left.len() == 0,
                        UpdateStageView::Installing { updates, selected } => {
                            &&& auto_confirm
                            &&& left.len() > 0
                            &&& updates == left
                            &&& selected.len() == left.len()
                            &&& forall|i: int|
                                0 <= i < selected.len() ==> #[trigger] selected[i] == i
                        },
                        UpdateStageView::Selecting { updates } => {
                            &&& !auto_confirm
                            &&& left.len() > 0
                            &&& updates == left
                        },
                        _ => false,
                    }
                },
            }
        }),
{
    if let Ok(found) = fetched {
        law_kept_updates_are_those_not_excluded(found.updates@, excluded);
        lemma_kept_len(found.updates@, excluded);
        assert(found.updates.len() == found.updates@.len());
    }
}

/// What the user picks is installed, if it is anything; what came of the installation is the result
/// of the update; and an error of either is the end.
pub proof fn law_choice_is_installed_and_reported(
    updates: Seq<AvailableUpdate>,
    selected: Seq<usize>,
    choice: Result<Vec<usize>, Error>,
    outcomes: Result<Vec<Result<(), Error>>, Error>,
    result: UpdateResultView,
)
    ensures
        match choice {
            Err(e) => next_update_stage(
                UpdateStageView::Selecting { updates },
                UpdateProgress::Selected(choice),
            ) == UpdateStageView::Failed(e@),
            Ok(chosen) => match next_update_stage(
                UpdateStageView::Selecting { updates },
                UpdateProgress::Selected(choice),
            ) {
                UpdateStageView::NothingSelected => forall|i: int|
                    0 <= i < chosen@.len() ==> #[trigger] chosen@[i] >= updates.len(),
                UpdateStageView::Installing { updates: offered, selected: taken } => {
                    &&& offered == updates
                    &&& taken.len() > 0
                    &&& taken.no_duplicates()
                    &&& forall|number: usize| #[trigger]
                        taken.contains(number) <==> chosen@.contains(number) && number
                            < updates.len()
                },
                _ => false,
            },
        },
        match outcomes {
            Err(e) => next_update_stage(
                UpdateStageView::Installing { updates, selected },
                UpdateProgress::Installed(outcomes),
            ) == UpdateStageView::Failed(e@),
            Ok(each) => match next_update_stage(
                UpdateStageView::Installing { updates, selected },
                UpdateProgress::Installed(outcomes),
            ) {
                UpdateStageView::Restarting { updates: all, result: came_to } => {
                    &&& all == updates
                    &&& came_to == summed_up(updates, selected, each@)
                },
                _ => false,
            },
        },
        next_update_stage(
            UpdateStageView::Restarting { updates, result },
            UpdateProgress::RestartHandled,
        ) == UpdateStageView::Finished(result),
{
    if let Ok(chosen) = choice {
        let taken = picked(chosen@, updates.len());
        law_choice_picks_what_was_chosen(chosen@, updates.len());
        if taken.len() == 0 {
            assert forall|i: int| 0 <= i < chosen@.len() implies #[trigger] chosen@[i]
                >= updates.len() by {
                if chosen@[i] < updates.len() {
                    assert(chosen@.contains(chosen@[i]));
                    assert(taken.contains(chosen@[i]));
                }
            }
        }
    }
}

} // verus!
