//! The repair of installed components that lack their package structure.

use vstd::prelude::*;
use vstd::string::*;

use crate::error::{shown, Error, ErrorView};
use crate::json::{parsed_json, pretty_json, takes_members, with_member, JsonTree};
use crate::metadata::{
    lacks_structure, law_what_lacks_a_structure, try_add_kpackage_structure,
};
use crate::text::{pair_view, pairs_view, texts};
use crate::types::{package_structure, InstalledComponent};

verus! {

/// What came of the attempt to repair one component.
#[derive(Debug)]
pub enum RepairOutcome {
    /// There was nothing to do.
    Unchanged,
    Patched,
    /// The file at `path` could not be read, understood or written.
    Failed { path: String, cause: String },
}

/// What came of the attempt to repair one component, with what its texts hold.
pub enum RepairOutcomeView {
    Unchanged,
    Patched,
    Failed { path: Seq<char>, cause: Seq<char> },
}

impl View for RepairOutcome {
    type V = RepairOutcomeView;

    open spec fn view(&self) -> RepairOutcomeView {
        match self {
            RepairOutcome::Unchanged => RepairOutcomeView::Unchanged,
            RepairOutcome::Patched => RepairOutcomeView::Patched,
            RepairOutcome::Failed { path, cause } => RepairOutcomeView::Failed {
                path: path@,
                cause: cause@,
            },
        }
    }
}

/// The names of the components that were patched. A component that `kpackagetool6` does not
/// install is never looked at.
pub open spec fn patched_names(
    components: Seq<InstalledComponent>,
    outcomes: Seq<RepairOutcome>,
) -> Seq<Seq<char>>
    decreases components.len(),
{
    if components.len() == 0 {
        Seq::empty()
    } else {
        let before = patched_names(components.drop_last(), outcomes);
        let component = components.last();
        if package_structure(component.component_type) is Some && outcomes[components.len() - 1]
            is Patched {
            before.push(component.name@)
        } else {
            before
        }
    }
}

/// The names of the components that could not be repaired, each with its message.
pub open spec fn repair_errors(
    components: Seq<InstalledComponent>,
    outcomes: Seq<RepairOutcome>,
) -> Seq<(Seq<char>, Seq<char>)>
    decreases components.len(),
{
    if components.len() == 0 {
        Seq::empty()
    } else {
        let before = repair_errors(components.drop_last(), outcomes);
        let component = components.last();
        match outcomes[components.len() - 1] {
            RepairOutcome::Failed { path, cause } if package_structure(
                component.component_type,
            ) is Some => before.push(
                (component.name@, "failed to patch "@ + path@ + ": "@ + cause@),
            ),
            _ => before,
        }
    }
}

/// What is known of a component's `metadata.json`.
#[derive(Debug)]
pub enum MetadataFile {
    Missing,
    Unreadable(Error),
    Text(String),
}

/// What is known of a component's `metadata.json`, with what its text holds.
pub enum MetadataFileView {
    Missing,
    Unreadable(ErrorView),
    Text(Seq<char>),
}

impl View for MetadataFile {
    type V = MetadataFileView;

    open spec fn view(&self) -> MetadataFileView {
        match self {
            MetadataFile::Missing => MetadataFileView::Missing,
            MetadataFile::Unreadable(e) => MetadataFileView::Unreadable(e@),
            MetadataFile::Text(text) => MetadataFileView::Text(text@),
        }
    }
}

/// What the repair of one component has to do.
#[derive(Debug)]
pub enum RepairStep {
    /// The component is none that `kpackagetool6` installs, or has no `metadata.json`.
    Skip,
    /// The package structure is there already.
    Keep,
    /// This is to be written in place of the file.
    Write(String),
    Fail(Error),
}

/// What the repair of one component has to do, with what the text to write holds.
pub enum RepairStepView {
    Skip,
    Keep,
    Write(Seq<char>),
    Fail(ErrorView),
}

impl View for RepairStep {
    type V = RepairStepView;

    open spec fn view(&self) -> RepairStepView {
        match self {
            RepairStep::Skip => RepairStepView::Skip,
            RepairStep::Keep => RepairStepView::Keep,
            RepairStep::Write(text) => RepairStepView::Write(text@),
            RepairStep::Fail(e) => RepairStepView::Fail(e@),
        }
    }
}

/// What to do with a `metadata.json` for a component that is to have this package structure, if
/// any. `None` where the file holds JSON that has no place for it: a number, a text, a truth value
/// or a list.
pub open spec fn step_for(structure: Option<Seq<char>>, file: MetadataFileView) -> Option<
    RepairStepView,
> {
    match structure {
        None => Some(RepairStepView::Skip),
        Some(structure) => match file {
            MetadataFileView::Missing => Some(RepairStepView::Skip),
            MetadataFileView::Unreadable(e) => Some(RepairStepView::Fail(e)),
            MetadataFileView::Text(content) => match parsed_json(content) {
                Ok(tree) => if !takes_members(tree) {
                    None
                } else if lacks_structure(tree) {
                    Some(
                        RepairStepView::Write(
                            pretty_json(
                                with_member(tree, "KPackageStructure"@, JsonTree::Text(structure)),
                            ),
                        ),
                    )
                } else {
                    Some(RepairStepView::Keep)
                },
                Err(message) => Some(RepairStepView::Fail(ErrorView::MetadataParse(message))),
            },
        },
    }
}

/// Whether this is the step for a component that is to have this package structure, if any, and
/// leaves nothing to do for the same component afterwards where it writes a file.
pub open spec fn is_step(
    structure: Option<Seq<char>>,
    file: MetadataFileView,
    step: RepairStepView,
) -> bool {
    &&& step_for(structure, file) == Some(step)
    &&& step matches RepairStepView::Write(text) ==> step_for(
        structure,
        MetadataFileView::Text(text),
    ) == Some(RepairStepView::Keep)
}

/// Whether the repair of a component needs a look at its `metadata.json`.
pub fn needs_metadata(component: &InstalledComponent) -> (b: bool)
    ensures
        b == (package_structure(component.component_type) is Some),
{
    component.component_type.kpackage_type().is_some()
}

/// What to do with the `metadata.json` of a component. A file with the text that is to be written
/// is kept by the next repair.
pub fn repair_component(component: &InstalledComponent, file: MetadataFile) -> (r: Option<
    RepairStep,
>)
    ensures
        match r {
            Some(step) => is_step(package_structure(component.component_type), file@, step@),
            None => step_for(package_structure(component.component_type), file@) is None,
        },
{
    proof {
        reveal_strlit("Plasma/Applet");
        reveal_strlit("Plasma/Wallpaper");
        reveal_strlit("KWin/Effect");
        reveal_strlit("KWin/Script");
        reveal_strlit("KWin/WindowSwitcher");
    }
    match component.component_type.kpackage_type() {
        None => Some(RepairStep::Skip),
        Some(structure) => match file {
            MetadataFile::Missing => Some(RepairStep::Skip),
            MetadataFile::Unreadable(cause) => Some(RepairStep::Fail(cause)),
            MetadataFile::Text(content) => match try_add_kpackage_structure(
                content.as_str(),
                structure,
            ) {
                None => None,
                Some(Ok(Some(text))) => Some(RepairStep::Write(text)),
                Some(Ok(None)) => Some(RepairStep::Keep),
                Some(Err(e)) => Some(RepairStep::Fail(e)),
            },
        },
    }
}

/// What came of a step for the file at `path`, by what came of writing the file where that was to
/// be done.
pub open spec fn outcome_of_step(
    step: RepairStepView,
    written: Result<(), ErrorView>,
    path: Seq<char>,
) -> RepairOutcomeView {
    match step {
        RepairStepView::Skip => RepairOutcomeView::Unchanged,
        RepairStepView::Keep => RepairOutcomeView::Unchanged,
        RepairStepView::Write(_) => match written {
            Ok(_) => RepairOutcomeView::Patched,
            Err(e) => RepairOutcomeView::Failed { path, cause: shown(e) },
        },
        RepairStepView::Fail(e) => RepairOutcomeView::Failed { path, cause: shown(e) },
    }
}

/// What came of the attempt to repair one component. It is patched exactly if its file was to be
/// written and has been.
pub fn repair_outcome(step: RepairStep, written: Result<(), Error>, path: String) -> (outcome:
    RepairOutcome)
    ensures
        outcome@ == outcome_of_step(
            step@,
            match written {
                Ok(_) => Ok(()),
                Err(e) => Err(e@),
            },
            path@,
        ),
{
    match step {
        RepairStep::Skip => RepairOutcome::Unchanged,
        RepairStep::Keep => RepairOutcome::Unchanged,
        RepairStep::Write(_) => match written {
            Ok(_) => RepairOutcome::Patched,
            Err(e) => RepairOutcome::Failed { path, cause: e.text() },
        },
        RepairStep::Fail(e) => RepairOutcome::Failed { path, cause: e.text() },
    }
}

/// What the repair of these components comes to: the names of those that were patched, and the
/// names of those that could not be, with a message each.
pub fn repair_kpackage_structures(
    components: &Vec<InstalledComponent>,
    outcomes: &Vec<RepairOutcome>,
) -> (r: (Vec<String>, Vec<(String, String)>))
    requires
        outcomes@.len() == components@.len(),
    ensures
        texts(r.0@) == patched_names(components@, outcomes@),
        pairs_view(r.1@) == repair_errors(components@, outcomes@),
{
    let mut patched: Vec<String> = Vec::new();
    let mut errors: Vec<(String, String)> = Vec::new();
    let mut i: usize = 0;
    assert(texts(patched@) =~= patched_names(components@.take(0), outcomes@));
    assert(pairs_view(errors@) =~= repair_errors(components@.take(0), outcomes@));
    while i < components.len()
        invariant
            i <= components@.len(),
            outcomes@.len() == components@.len(),
            texts(patched@) == patched_names(components@.take(i as int), outcomes@),
            pairs_view(errors@) == repair_errors(components@.take(i as int), outcomes@),
        decreases components@.len() - i,
    {
        let component = &components[i];
        let ghost patched_before = patched@;
        let ghost errors_before = errors@;
        assert(components@.take(i + 1).drop_last() == components@.take(i as int));
        if needs_metadata(component) {
            match &outcomes[i] {
                RepairOutcome::Patched => {
                    patched.push(component.name.clone());
                    assert(texts(patched@) == texts(patched_before).push(
                        component.name@,
                    ));
                },
                RepairOutcome::Failed { path, cause } => {
                    let message = "failed to patch ".to_owned().concat(path.as_str()).concat(
                        ": ",
                    ).concat(cause.as_str());
                    errors.push((component.name.clone(), message));
                    assert(pairs_view(errors@) == pairs_view(errors_before).push(
                        pair_view(errors@.last()),
                    ));
                },
                _ => {},
            }
        }
        i = i + 1;
    }
    assert(components@.take(components@.len() as int) == components@);
    (patched, errors)
}

/// Only components that `kpackagetool6` installs are reported as patched, and only those whose
/// file was changed.
pub proof fn law_only_packages_are_patched(
    components: Seq<InstalledComponent>,
    outcomes: Seq<RepairOutcome>,
    at: int,
)
    requires
        components.len() <= outcomes.len(),
        0 <= at < patched_names(components, outcomes).len(),
    ensures
        exists|i: int|
            {
                &&& 0 <= i < components.len()
                &&& #[trigger] components[i].name@ == patched_names(components, outcomes)[at]
                &&& package_structure(components[i].component_type) is Some
                &&& outcomes[i] is Patched
            },
    decreases components.len(),
{
    let fewer = components.drop_last();
    if at < patched_names(fewer, outcomes).len() {
        law_only_packages_are_patched(fewer, outcomes, at);
        let i = choose|i: int|
            {
                &&& 0 <= i < fewer.len()
                &&& #[trigger] fewer[i].name@ == patched_names(fewer, outcomes)[at]
                &&& package_structure(fewer[i].component_type) is Some
                &&& outcomes[i] is Patched
            };
        assert(components[i].name@ == fewer[i].name@);
    } else {
        let i = components.len() - 1;
        assert(components[i].name@ == patched_names(components, outcomes)[at]);
    }
}

/// No component is reported twice.
pub proof fn law_each_component_is_reported_once(
    components: Seq<InstalledComponent>,
    outcomes: Seq<RepairOutcome>,
)
    ensures
        patched_names(components, outcomes).len() + repair_errors(components, outcomes).len()
            <= components.len(),
    decreases components.len(),
{
    if components.len() > 0 {
        law_each_component_is_reported_once(components.drop_last(), outcomes);
    }
}

/// What stands in a file after a step, by what came of writing it.
pub open spec fn file_after(
    file: MetadataFileView,
    step: RepairStepView,
    written: Result<(), ErrorView>,
) -> MetadataFileView {
    match step {
        RepairStepView::Write(text) if written is Ok => MetadataFileView::Text(text),
        _ => file,
    }
}

proof fn lemma_no_errors(
    components: Seq<InstalledComponent>,
    outcomes: Seq<RepairOutcome>,
    at: int,
)
    requires
        components.len() <= outcomes.len(),
        repair_errors(components, outcomes).len() == 0,
        0 <= at < components.len(),
        package_structure(components[at].component_type) is Some,
    ensures
        !(outcomes[at] is Failed),
    decreases components.len(),
{
    if at < components.len() - 1 {
        lemma_no_errors(components.drop_last(), outcomes, at);
    }
}

proof fn lemma_nothing_reported(
    components: Seq<InstalledComponent>,
    outcomes: Seq<RepairOutcome>,
)
    requires
        components.len() <= outcomes.len(),
        forall|i: int| 0 <= i < components.len() ==> #[trigger] outcomes[i] is Unchanged,
    ensures
        patched_names(components, outcomes).len() == 0,
        repair_errors(components, outcomes).len() == 0,
    decreases components.len(),
{
    if components.len() > 0 {
        lemma_nothing_reported(components.drop_last(), outcomes);
        assert(outcomes[components.len() - 1] is Unchanged);
    }
}

/// One round of repairs: what was known of each file, the step for it, what came of writing it, and
/// the outcome.
pub open spec fn is_round(
    components: Seq<InstalledComponent>,
    files: Seq<MetadataFileView>,
    steps: Seq<RepairStepView>,
    written: Seq<Result<(), ErrorView>>,
    paths: Seq<Seq<char>>,
    outcomes: Seq<RepairOutcome>,
) -> bool {
    &&& files.len() == components.len()
    &&& steps.len() == components.len()
    &&& written.len() == components.len()
    &&& paths.len() == components.len()
    &&& outcomes.len() == components.len()
    &&& forall|i: int|
        0 <= i < components.len() ==> {
            &&& is_step(package_structure(components[i].component_type), files[i], steps[i])
            &&& (#[trigger] outcomes[i])@ == outcome_of_step(steps[i], written[i], paths[i])
        }
}

/// A repair that had no errors leaves nothing to do for a second one, if no file was changed since:
/// no file is to be written, and nothing is reported.
pub proof fn law_second_repair_does_nothing(
    components: Seq<InstalledComponent>,
    files: Seq<MetadataFileView>,
    steps: Seq<RepairStepView>,
    written: Seq<Result<(), ErrorView>>,
    paths: Seq<Seq<char>>,
    outcomes: Seq<RepairOutcome>,
    files_again: Seq<MetadataFileView>,
    steps_again: Seq<RepairStepView>,
    written_again: Seq<Result<(), ErrorView>>,
    outcomes_again: Seq<RepairOutcome>,
)
    requires
        is_round(components, files, steps, written, paths, outcomes),
        repair_errors(components, outcomes).len() == 0,
        is_round(components, files_again, steps_again, written_again, paths, outcomes_again),
        forall|i: int|
            0 <= i < components.len() ==> #[trigger] files_again[i] == file_after(
                files[i],
                steps[i],
                written[i],
            ),
    ensures
        patched_names(components, outcomes_again).len() == 0,
        repair_errors(components, outcomes_again).len() == 0,
        forall|i: int|
            0 <= i < components.len() ==> !(#[trigger] steps_again[i] is Write),
{
    assert forall|i: int| 0 <= i < components.len() implies #[trigger] outcomes_again[i]
        is Unchanged && !(steps_again[i] is Write) by {
        assert(outcomes[i]@ == outcome_of_step(steps[i], written[i], paths[i]));
        assert(files_again[i] == file_after(files[i], steps[i], written[i]));
        if package_structure(components[i].component_type) is Some {
            lemma_no_errors(components, outcomes, i);
        }
    }
    assert forall|i: int| 0 <= i < components.len() implies !(#[trigger] steps_again[i]
        is Write) by {
        assert(outcomes_again[i] is Unchanged);
    }
    lemma_nothing_reported(components, outcomes_again);
}

// --- What a repair reports ---

/// The places of these components, in order.
pub open spec fn places(components: Seq<InstalledComponent>) -> Seq<int> {
    Seq::new(components.len(), |i: int| i)
}

proof fn lemma_patched_among_places(
    components: Seq<InstalledComponent>,
    outcomes: Seq<RepairOutcome>,
    all: Seq<InstalledComponent>,
)
    requires
        components.len() <= all.len(),
        components == all.take(components.len() as int),
    ensures
        patched_names(components, outcomes) == places(components).filter(
            |i: int| package_structure(all[i].component_type) is Some && outcomes[i] is Patched,
        ).map_values(|i: int| all[i].name@),
    decreases components.len(),
{
    reveal(Seq::filter);
    let kept = |i: int| package_structure(all[i].component_type) is Some && outcomes[i] is Patched;
    let named = |i: int| all[i].name@;
    if components.len() > 0 {
        let fewer = components.drop_last();
        assert(fewer =~= all.take(fewer.len() as int));
        lemma_patched_among_places(fewer, outcomes, all);
        assert(places(components).drop_last() =~= places(fewer));
        assert(components.last() == all[components.len() - 1]);
        assert(places(components).last() == components.len() - 1);
        let before = places(fewer).filter(kept);
        assert(before.push(places(components).last()).map_values(named) =~= before.map_values(
            named,
        ).push(components.last().name@));
    } else {
        assert(places(components).filter(kept).map_values(named) =~= Seq::empty());
    }
}

proof fn lemma_errors_among_places(
    components: Seq<InstalledComponent>,
    outcomes: Seq<RepairOutcome>,
    all: Seq<InstalledComponent>,
)
    requires
        components.len() <= all.len(),
        components == all.take(components.len() as int),
    ensures
        repair_errors(components, outcomes) == places(components).filter(
            |i: int| package_structure(all[i].component_type) is Some && outcomes[i] is Failed,
        ).map_values(
            |i: int|
                (
                    all[i].name@,
                    "failed to patch "@ + outcomes[i]->path@ + ": "@ + outcomes[i]->cause@,
                ),
        ),
    decreases components.len(),
{
    reveal(Seq::filter);
    let kept = |i: int| package_structure(all[i].component_type) is Some && outcomes[i] is Failed;
    let told = |i: int|
        (all[i].name@, "failed to patch "@ + outcomes[i]->path@ + ": "@ + outcomes[i]->cause@);
    if components.len() > 0 {
        let fewer = components.drop_last();
        assert(fewer =~= all.take(fewer.len() as int));
        lemma_errors_among_places(fewer, outcomes, all);
        assert(places(components).drop_last() =~= places(fewer));
        assert(components.last() == all[components.len() - 1]);
        let last = places(components).last();
        assert(last == components.len() - 1);
        let before = places(fewer).filter(kept);
        assert(before.push(last).map_values(told) =~= before.map_values(told).push(told(last)));
    } else {
        assert(places(components).filter(kept).map_values(told) =~= Seq::empty());
    }
}

/// Every package whose file was changed is named as patched, and every package that could not be
/// repaired is named with the file and the cause; each once, in the order of the components, and
/// nothing else is named.
pub proof fn law_repair_reports_every_package(
    components: Seq<InstalledComponent>,
    outcomes: Seq<RepairOutcome>,
)
    ensures
        patched_names(components, outcomes) == places(components).filter(
            |i: int|
                package_structure(components[i].component_type) is Some && outcomes[i] is Patched,
        ).map_values(|i: int| components[i].name@),
        repair_errors(components, outcomes) == places(components).filter(
            |i: int|
                package_structure(components[i].component_type) is Some && outcomes[i] is Failed,
        ).map_values(
            |i: int|
                (
                    components[i].name@,
                    "failed to patch "@ + outcomes[i]->path@ + ": "@ + outcomes[i]->cause@,
                ),
        ),
{
    assert(components == components.take(components.len() as int));
    lemma_patched_among_places(components, outcomes, components);
    lemma_errors_among_places(components, outcomes, components);
}

/// A file is written only for a package, only in place of a `metadata.json` that can be read and
/// lacks the structure, and then with that one member more. A file that cannot be read or
/// understood is an error; one that has the structure, whatever it says, is kept.
pub proof fn law_what_a_repair_writes(structure: Option<Seq<char>>, file: MetadataFileView)
    ensures
        structure is None ==> step_for(structure, file) == Some(RepairStepView::Skip),
        file is Missing ==> step_for(structure, file) == Some(RepairStepView::Skip),
        structure is Some && file is Unreadable ==> step_for(structure, file) == Some(
            RepairStepView::Fail(file->Unreadable_0),
        ),
        structure is Some && file is Text ==> match parsed_json(file->Text_0) {
            Err(message) => step_for(structure, file) == Some(
                RepairStepView::Fail(ErrorView::MetadataParse(message)),
            ),
            Ok(JsonTree::Object(m)) => {
                let lacking = m.contains_key("KPackageStructure"@) ==> (m["KPackageStructure"@]
                    is Null || m["KPackageStructure"@] == JsonTree::Text(Seq::empty()));
                &&& lacking ==> step_for(structure, file) == Some(
                    RepairStepView::Write(
                        pretty_json(
                            JsonTree::Object(
                                m.insert("KPackageStructure"@, JsonTree::Text(structure->0)),
                            ),
                        ),
                    ),
                )
                &&& !lacking ==> step_for(structure, file) == Some(RepairStepView::Keep)
            },
            Ok(JsonTree::Null) => step_for(structure, file) == Some(
                RepairStepView::Write(
                    pretty_json(
                        JsonTree::Object(
                            Map::empty().insert("KPackageStructure"@, JsonTree::Text(structure->0)),
                        ),
                    ),
                ),
            ),
            Ok(_) => step_for(structure, file) is None,
        },
{
    if file is Text {
        if let Ok(tree) = parsed_json(file->Text_0) {
            law_what_lacks_a_structure(tree);
        }
    }
}

/// A component is reported as patched exactly if its file was to be written and was; as failed, with
/// the path and what the error says, exactly if the step failed or the writing did; and else as
/// unchanged.
pub proof fn law_outcome_tells_what_was_done(
    step: RepairStepView,
    written: Result<(), ErrorView>,
    path: Seq<char>,
)
    ensures
        outcome_of_step(step, written, path) is Patched <==> step is Write && written is Ok,
        outcome_of_step(step, written, path) is Failed <==> step is Fail || (step is Write
            && written is Err),
        step is Fail ==> outcome_of_step(step, written, path) == (RepairOutcomeView::Failed {
            path,
            cause: shown(step->Fail_0),
        }),
        step is Write && written is Err ==> outcome_of_step(step, written, path) == (
        RepairOutcomeView::Failed { path, cause: shown(written->Err_0) }),
{
}

} // verus!
