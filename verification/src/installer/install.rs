//! What is done to install one component.

use vstd::prelude::*;
use vstd::string::*;

use crate::error::{Error, ErrorView};
use crate::metadata::{
    desktop_patch, json_patch, keeps_patched_texts, patch_desktop_file, patch_json_file, patch_view,
    FilePatch, FilePatchView,
};
use crate::text::{
    begins_with, contains, finishes_with, lines, lines_of, lossy_text, lossy_utf8, mentions,
    strip_prefix, texts, trim, trimmed, without_prefix,
};
use crate::tree::{
    component_root, dirs_of, files_of, find_component_root_in_archive, find_icon_theme_dir,
    find_package_dir, find_wallpaper_source, first_fit, has_entry, has_mark, holds, icon_theme_dir,
    is_color_scheme_file, is_first_holding, is_image, is_scheme, is_wallpaper_dir,
    law_color_scheme_is_found_by_its_extension, law_component_root_has_the_mark,
    law_icon_theme_is_found_by_its_index, law_package_is_found_by_its_metadata,
    law_wallpaper_is_a_directory_or_an_image, locate_color_scheme_file, nowhere_held, package_dir,
    wallpaper_source, DirEntry, DirNode, EntryKind, WallpaperSource,
};
use crate::types::{package_structure, type_label, AvailableUpdate, ComponentType};

verus! {

// --- File operations ---

/// One operation on the place where a component is installed. The operations of a plan are done
/// in order, and the first that fails ends them.
#[derive(Debug, Clone, Copy, PartialEq, Eq, Structural)]
pub enum FileOp {
    /// Remove the directory that stands at the destination, with all that is in it.
    RemoveDir,
    /// Remove the file that stands at the destination.
    RemoveFile,
    /// Create the directory in which the destination stands.
    CreateParent,
    /// Create the destination as a directory.
    CreateDir,
    /// Copy the file with this handle to the destination.
    CopyFile(usize),
    /// Copy the contents of the directory with this handle into the destination.
    CopyDir(usize),
}

/// What stands at the place where a component is installed.
#[derive(Debug, Clone, Copy, PartialEq, Eq, Structural)]
pub struct Destination {
    pub exists: bool,
    pub is_dir: bool,
    pub has_parent: bool,
}

/// The operations that make room at the destination.
pub open spec fn clearing(dest: Destination) -> Seq<FileOp> {
    (if !dest.exists {
        Seq::empty()
    } else if dest.is_dir {
        seq![FileOp::RemoveDir]
    } else {
        seq![FileOp::RemoveFile]
    }) + (if dest.has_parent {
        seq![FileOp::CreateParent]
    } else {
        Seq::empty()
    })
}

/// Makes room at the destination, then does what is to be done there.
pub fn replace_destination(dest: Destination, action: Vec<FileOp>) -> (ops: Vec<FileOp>)
    ensures
        ops@ == clearing(dest) + action@,
{
    let mut ops: Vec<FileOp> = Vec::new();
    if dest.exists {
        if dest.is_dir {
            ops.push(FileOp::RemoveDir);
        } else {
            ops.push(FileOp::RemoveFile);
        }
    }
    if dest.has_parent {
        ops.push(FileOp::CreateParent);
    }
    assert(ops@ == clearing(dest));
    let mut action = action;
    ops.append(&mut action);
    ops
}

/// The operations that install a file.
pub open spec fn file_plan(source: usize, dest: Destination) -> Seq<FileOp> {
    clearing(dest) + seq![FileOp::CopyFile(source)]
}

/// The operations that install a directory.
pub open spec fn dir_plan(source: usize, dest: Destination) -> Seq<FileOp> {
    clearing(dest) + seq![FileOp::CreateDir, FileOp::CopyDir(source)]
}

/// Installs a downloaded file as it is.
pub fn install_raw_file(downloaded: usize, dest: Destination) -> (ops: Vec<FileOp>)
    ensures
        ops@ == file_plan(downloaded, dest),
{
    replace_destination(dest, vec![FileOp::CopyFile(downloaded)])
}

fn install_dir(source: usize, dest: Destination) -> (ops: Vec<FileOp>)
    ensures
        ops@ == dir_plan(source, dest),
{
    replace_destination(dest, vec![FileOp::CreateDir, FileOp::CopyDir(source)])
}

// --- Direct installation ---

/// The operations of a plan, or the error that there is no plan.
pub open spec fn plan_view(r: Result<Vec<FileOp>, Error>) -> Result<Seq<FileOp>, ErrorView> {
    match r {
        Ok(ops) => Ok(ops@),
        Err(e) => Err(e@),
    }
}

pub open spec fn color_scheme_plan(root: DirNode, dest: Destination) -> Result<
    Seq<FileOp>,
    ErrorView,
> {
    match first_fit(files_of(root), |e: DirEntry| is_color_scheme_file(e)) {
        Some(e) => Ok(file_plan(e.kind->File_0, dest)),
        None => Err(ErrorView::InstallFailed("no color scheme file found in archive"@)),
    }
}

pub open spec fn icon_theme_plan(root: DirNode, dest: Destination) -> Result<
    Seq<FileOp>,
    ErrorView,
> {
    match icon_theme_dir(root) {
        Some(d) => Ok(dir_plan(d.handle, dest)),
        None => Err(ErrorView::InstallFailed("no icon theme (index.theme) found in archive"@)),
    }
}

pub open spec fn wallpaper_plan(root: DirNode, dest: Destination) -> Result<
    Seq<FileOp>,
    ErrorView,
> {
    match wallpaper_source(root) {
        Some(WallpaperSource::File(source)) => Ok(file_plan(source, dest)),
        Some(WallpaperSource::Dir(source)) => Ok(dir_plan(source, dest)),
        None => Err(ErrorView::InstallFailed("no wallpaper found in archive"@)),
    }
}

pub open spec fn theme_plan(
    root: DirNode,
    dest: Destination,
    component_type: ComponentType,
) -> Result<Seq<FileOp>, ErrorView> {
    match component_root(root, component_type) {
        Some(d) => Ok(dir_plan(d.handle, dest)),
        None => Err(
            ErrorView::InstallFailed(
                "no valid "@ + type_label(component_type) + " structure found in archive"@,
            ),
        ),
    }
}

/// How an unpacked component is installed that `kpackagetool6` does not install.
pub open spec fn direct_plan(
    root: DirNode,
    component_type: ComponentType,
    dest: Destination,
) -> Result<Seq<FileOp>, ErrorView> {
    match component_type {
        ComponentType::ColorScheme => color_scheme_plan(root, dest),
        ComponentType::IconTheme => icon_theme_plan(root, dest),
        ComponentType::Wallpaper => wallpaper_plan(root, dest),
        ComponentType::AuroraeDecoration => theme_plan(root, dest, component_type),
        ComponentType::GlobalTheme => theme_plan(root, dest, component_type),
        ComponentType::PlasmaStyle => theme_plan(root, dest, component_type),
        ComponentType::SplashScreen => theme_plan(root, dest, component_type),
        ComponentType::SddmTheme => theme_plan(root, dest, component_type),
        _ => Err(
            ErrorView::InstallFailed(type_label(component_type) + " should use kpackagetool"@),
        ),
    }
}

pub fn install_color_scheme(extract_dir: &DirNode, dest: Destination) -> (r: Result<
    Vec<FileOp>,
    Error,
>)
    ensures
        plan_view(r) == color_scheme_plan(*extract_dir, dest),
{
    match locate_color_scheme_file(extract_dir) {
        Some(source) => Ok(install_raw_file(source, dest)),
        None => Err(Error::install("no color scheme file found in archive".to_owned())),
    }
}

pub fn install_icon_theme(extract_dir: &DirNode, dest: Destination) -> (r: Result<
    Vec<FileOp>,
    Error,
>)
    ensures
        plan_view(r) == icon_theme_plan(*extract_dir, dest),
{
    match find_icon_theme_dir(extract_dir) {
        Some(source) => Ok(install_dir(source.handle, dest)),
        None => Err(Error::install("no icon theme (index.theme) found in archive".to_owned())),
    }
}

pub fn install_wallpaper(extract_dir: &DirNode, dest: Destination) -> (r: Result<
    Vec<FileOp>,
    Error,
>)
    ensures
        plan_view(r) == wallpaper_plan(*extract_dir, dest),
{
    match find_wallpaper_source(extract_dir) {
        Some(WallpaperSource::File(source)) => Ok(install_raw_file(source, dest)),
        Some(WallpaperSource::Dir(source)) => Ok(install_dir(source, dest)),
        None => Err(Error::install("no wallpaper found in archive".to_owned())),
    }
}

pub fn install_theme_dir(
    extract_dir: &DirNode,
    dest: Destination,
    component_type: ComponentType,
) -> (r: Result<Vec<FileOp>, Error>)
    ensures
        plan_view(r) == theme_plan(*extract_dir, dest, component_type),
{
    match find_component_root_in_archive(extract_dir, component_type) {
        Some(source) => Ok(install_dir(source.handle, dest)),
        None => Err(
            Error::install(
                "no valid ".to_owned().concat(component_type.label()).concat(
                    " structure found in archive",
                ),
            ),
        ),
    }
}

/// Installs an unpacked component by file operations.
pub fn install_direct(
    extract_dir: &DirNode,
    component_type: ComponentType,
    dest: Destination,
) -> (r: Result<Vec<FileOp>, Error>)
    ensures
        plan_view(r) == direct_plan(*extract_dir, component_type, dest),
{
    match component_type {
        ComponentType::ColorScheme => install_color_scheme(extract_dir, dest),
        ComponentType::IconTheme => install_icon_theme(extract_dir, dest),
        ComponentType::Wallpaper => install_wallpaper(extract_dir, dest),
        ComponentType::AuroraeDecoration
        | ComponentType::GlobalTheme
        | ComponentType::PlasmaStyle
        | ComponentType::SplashScreen
        | ComponentType::SddmTheme => install_theme_dir(extract_dir, dest, component_type),
        _ => Err(
            Error::install(component_type.label().to_owned().concat(" should use kpackagetool")),
        ),
    }
}

/// The operation puts something at the destination.
pub open spec fn is_copy(op: FileOp) -> bool {
    op is CopyFile || op is CopyDir
}

/// The operation takes something away from the destination.
pub open spec fn is_removal(op: FileOp) -> bool {
    op is RemoveDir || op is RemoveFile
}

/// Whatever is installed, what stood at the destination is removed first and nothing else is, and
/// the plan ends with its only copy.
pub proof fn law_plan_clears_then_copies(
    root: DirNode,
    component_type: ComponentType,
    dest: Destination,
)
    ensures
        direct_plan(root, component_type, dest) matches Ok(ops) ==> {
            &&& ops.len() > 0
            &&& is_copy(ops.last())
            &&& forall|i: int| 0 <= i < ops.len() - 1 ==> !is_copy(#[trigger] ops[i])
            &&& dest.exists ==> ops[0] == if dest.is_dir {
                FileOp::RemoveDir
            } else {
                FileOp::RemoveFile
            }
            &&& forall|i: int|
                0 <= i < ops.len() && is_removal(#[trigger] ops[i]) ==> i == 0 && dest.exists
        },
{
}

/// A kind that `kpackagetool6` installs is refused here, whatever the archive holds.
pub proof fn law_package_kinds_are_refused(
    root: DirNode,
    component_type: ComponentType,
    dest: Destination,
)
    ensures
        package_structure(component_type) is Some ==> direct_plan(root, component_type, dest)
            == Err::<Seq<FileOp>, ErrorView>(
            ErrorView::InstallFailed(type_label(component_type) + " should use kpackagetool"@),
        ),
{
}

// --- Installation by kpackagetool6 ---

/// A call of `kpackagetool6`.
#[derive(Debug)]
pub struct ToolCommand {
    /// Whether it is run with the rights of the administrator.
    pub privileged: bool,
    pub args: Vec<String>,
}

/// The arguments with which `kpackagetool6` updates a package.
pub open spec fn tool_args(
    structure: Seq<char>,
    global: bool,
    package_dir: Seq<char>,
) -> Seq<Seq<char>> {
    seq!["-t"@, structure] + (if global {
        seq!["--global"@]
    } else {
        Seq::empty()
    }) + seq!["-u"@, package_dir]
}

/// The call of `kpackagetool6` that updates a component from the package in a directory.
pub fn install_via_kpackagetool(
    package_dir: &str,
    component_type: ComponentType,
    global: bool,
) -> (r: Result<ToolCommand, Error>)
    ensures
        match package_structure(component_type) {
            Some(structure) => {
                &&& r matches Ok(command)
                &&& command.privileged == global
                &&& texts(command.args@) == tool_args(structure, global, package_dir@)
            },
            None => r matches Err(e) && e@ == ErrorView::InstallFailed(
                type_label(component_type) + " has no kpackage type"@,
            ),
        },
{
    match component_type.kpackage_type() {
        Some(structure) => {
            let mut args: Vec<String> = Vec::new();
            args.push("-t".to_owned());
            args.push(structure.to_owned());
            if global {
                args.push("--global".to_owned());
            }
            args.push("-u".to_owned());
            args.push(package_dir.to_owned());
            assert(texts(args@) =~= tool_args(structure@, global, package_dir@));
            Ok(ToolCommand { privileged: global, args })
        },
        None => Err(
            Error::install(component_type.label().to_owned().concat(" has no kpackage type")),
        ),
    }
}

/// The error that `kpackagetool6` could not be run.
pub fn kpackagetool_not_run(cause: &str) -> (e: Error)
    ensures
        e@ == ErrorView::InstallFailed("failed to run kpackagetool6: "@ + cause@),
{
    Error::install("failed to run kpackagetool6: ".to_owned().concat(cause))
}

/// What a program wrote, from both of its outputs, without the white space around each.
pub open spec fn combined_output(stdout: Seq<char>, stderr: Seq<char>) -> Seq<char> {
    let out = trimmed(stdout);
    let err = trimmed(stderr);
    if out.len() > 0 && err.len() > 0 {
        out + seq!['\n'] + err
    } else if out.len() > 0 {
        out
    } else if err.len() > 0 {
        err
    } else {
        "(no output)"@
    }
}

/// The error that `kpackagetool6` failed, with what it wrote.
pub fn kpackagetool_failed(stdout: &str, stderr: &str) -> (e: Error)
    ensures
        e@ == ErrorView::InstallFailed(
            "kpackagetool6 failed: "@ + combined_output(stdout@, stderr@),
        ),
{
    let out = trim(stdout);
    let err = trim(stderr);
    let combined = if !out.as_str().is_empty() && !err.as_str().is_empty() {
        proof {
            reveal_strlit("\n");
            assert("\n"@ == seq!['\n']);
        }
        out.concat("\n").concat(err.as_str())
    } else if !out.as_str().is_empty() {
        out
    } else if !err.as_str().is_empty() {
        err
    } else {
        "(no output)".to_owned()
    };
    Error::install("kpackagetool6 failed: ".to_owned().concat(combined.as_str()))
}

/// What a run of `kpackagetool6` comes to, by its exit status and the bytes that it wrote.
pub fn kpackagetool_result(success: bool, stdout: &Vec<u8>, stderr: &Vec<u8>) -> (r: Result<
    (),
    Error,
>)
    ensures
        success ==> r is Ok,
        !success ==> (r matches Err(e) && e@ == ErrorView::InstallFailed(
            "kpackagetool6 failed: "@ + combined_output(lossy_utf8(stdout@), lossy_utf8(stderr@)),
        )),
{
    if success {
        Ok(())
    } else {
        let out = lossy_text(stdout);
        let err = lossy_text(stderr);
        Err(kpackagetool_failed(out.as_str(), err.as_str()))
    }
}

/// The text says something, and every line that says anything complains of a package whose
/// structure does not match.
pub open spec fn only_complains_of_structures(text: Seq<char>) -> bool {
    &&& exists|i: int| 0 <= i < lines_of(text).len() && trimmed(#[trigger] lines_of(text)[i]).len() > 0
    &&& forall|i: int|
        0 <= i < lines_of(text).len() && trimmed(#[trigger] lines_of(text)[i]).len() > 0
            ==> mentions(trimmed(lines_of(text)[i]), "does not match requested format"@)
}

/// The installation failed for no other reason than that other packages in the same directory lack
/// their package structure.
pub open spec fn is_sibling_error(error: ErrorView) -> bool {
    error matches ErrorView::InstallFailed(message) && only_complains_of_structures(
        without_prefix(message, "kpackagetool6 failed: "@),
    )
}

pub fn is_sibling_kpackage_structure_error(error: &Error) -> (b: bool)
    ensures
        b == is_sibling_error(error@),
{
    let message: &String = match error {
        Error::InstallFailed(message) => message,
        _ => {
            return false;
        },
    };
    let body = strip_prefix(message.as_str(), "kpackagetool6 failed: ");
    let body_lines = lines(body.as_str());
    let ghost all = lines_of(body@);
    let mut has_lines: bool = false;
    let mut i: usize = 0;
    while i < body_lines.len()
        invariant
            i <= body_lines@.len(),
            all == lines_of(body@),
            texts(body_lines@) == all,
            error@ == ErrorView::InstallFailed(message@),
            body@ == without_prefix(message@, "kpackagetool6 failed: "@),
            has_lines <==> exists|j: int| 0 <= j < i && trimmed(#[trigger] all[j]).len() > 0,
            forall|j: int|
                0 <= j < i && trimmed(#[trigger] all[j]).len() > 0 ==> mentions(
                    trimmed(all[j]),
                    "does not match requested format"@,
                ),
        decreases body_lines@.len() - i,
    {
        assert(body_lines@[i as int]@ == all[i as int]);
        let line = trim(body_lines[i].as_str());
        if !line.as_str().is_empty() {
            has_lines = true;
            if !contains(line.as_str(), "does not match requested format") {
                return false;
            }
        }
        i = i + 1;
    }
    has_lines
}

/// A failure of `kpackagetool6` is judged by what it wrote alone.
pub proof fn law_sibling_error_is_judged_by_the_output(stdout: Seq<char>, stderr: Seq<char>)
    ensures
        is_sibling_error(
            ErrorView::InstallFailed(
                "kpackagetool6 failed: "@ + combined_output(stdout, stderr),
            ),
        ) == only_complains_of_structures(combined_output(stdout, stderr)),
{
    let prefix = "kpackagetool6 failed: "@;
    let output = combined_output(stdout, stderr);
    assert((prefix + output).subrange(0, prefix.len() as int) == prefix);
    assert((prefix + output).skip(prefix.len() as int) == output);
}

/// What the user is told where an update failed for the sake of other packages alone.
pub open spec fn blocked_message(output: Seq<char>) -> Seq<char> {
    "update blocked: one or more installed plasmoids in your plasma install directory have a missing or incorrect KPackageStructure field in their metadata.json. kpackagetool6 validates all packages in the same directory and rejects updates when any of them are malformed. Run 'plasmoid-updater repair' to add the missing field to affected packages, then retry the update.\nkpackagetool6 output: "@
        + output
}

/// The error of an installation by `kpackagetool6`, as it is reported.
pub open spec fn reported_error(error: ErrorView) -> ErrorView {
    if is_sibling_error(error) {
        ErrorView::InstallFailed(blocked_message(error->InstallFailed_0))
    } else {
        error
    }
}

/// What an installation by `kpackagetool6` comes to. An error that other packages caused is
/// explained; nothing is done to those packages.
pub fn finish_via_kpackage(outcome: Result<(), Error>) -> (r: Result<(), Error>)
    ensures
        match outcome {
            Ok(_) => r is Ok,
            Err(e) => {
                &&& r matches Err(reported)
                &&& reported@ == reported_error(e@)
                &&& !is_sibling_error(e@) ==> reported == e
            },
        },
{
    match outcome {
        Ok(_) => Ok(()),
        Err(e) => {
            if is_sibling_kpackage_structure_error(&e) {
                match e {
                    Error::InstallFailed(output) => Err(
                        Error::install(
                            "update blocked: one or more installed plasmoids in your plasma install directory have a missing or incorrect KPackageStructure field in their metadata.json. kpackagetool6 validates all packages in the same directory and rejects updates when any of them are malformed. Run 'plasmoid-updater repair' to add the missing field to affected packages, then retry the update.\nkpackagetool6 output: ".to_owned().concat(
                                output.as_str(),
                            ),
                        ),
                    ),
                    other => Err(other),
                }
            } else {
                Err(e)
            }
        },
    }
}

// --- Course of an installation by kpackagetool6 ---

/// What is done with an unpacked package before and by the call of `kpackagetool6`.
#[derive(Debug, Clone, Copy, PartialEq, Eq, Structural)]
pub struct KpackagePlan {
    /// The directory of the package.
    pub package: usize,
    pub patch_json: bool,
    pub patch_desktop: bool,
    pub component_type: ComponentType,
    /// Whether the package is installed for the whole system.
    pub global: bool,
}

/// Where an installation by `kpackagetool6` stands.
#[derive(Debug)]
pub enum KpackageStage {
    /// The `metadata.json` of the package is to be patched.
    PatchingJson(KpackagePlan),
    /// The `metadata.desktop` of the package is to be patched.
    PatchingDesktop(KpackagePlan),
    /// `kpackagetool6` is to be run.
    RunningTool(KpackagePlan),
    Finished(Result<(), Error>),
}

/// Where an installation by `kpackagetool6` stands, with what the text of its error holds.
pub enum KpackageStageView {
    PatchingJson(KpackagePlan),
    PatchingDesktop(KpackagePlan),
    RunningTool(KpackagePlan),
    Finished(Result<(), ErrorView>),
}

impl View for KpackageStage {
    type V = KpackageStageView;

    open spec fn view(&self) -> KpackageStageView {
        match self {
            KpackageStage::PatchingJson(plan) => KpackageStageView::PatchingJson(*plan),
            KpackageStage::PatchingDesktop(plan) => KpackageStageView::PatchingDesktop(*plan),
            KpackageStage::RunningTool(plan) => KpackageStageView::RunningTool(*plan),
            KpackageStage::Finished(Ok(_)) => KpackageStageView::Finished(Ok(())),
            KpackageStage::Finished(Err(e)) => KpackageStageView::Finished(Err(e@)),
        }
    }
}

/// What came of the last stage.
#[derive(Debug)]
pub enum KpackageEvent {
    Patched(Result<(), Error>),
    ToolNotRun { cause: String },
    ToolExited { success: bool, stdout: Vec<u8>, stderr: Vec<u8> },
}

/// The plan for the package in a directory.
pub open spec fn plan_for(dir: DirNode, component_type: ComponentType, global: bool) -> KpackagePlan {
    KpackagePlan {
        package: dir.handle,
        patch_json: holds(dir, "metadata.json"@),
        patch_desktop: holds(dir, "metadata.desktop"@),
        component_type,
        global,
    }
}

/// The end of an installation by what came of the tool.
pub open spec fn tool_finished(outcome: Result<(), ErrorView>) -> KpackageStageView {
    KpackageStageView::Finished(
        match outcome {
            Ok(_) => Ok(()),
            Err(e) => Err(reported_error(e)),
        },
    )
}

/// What follows when all patches were tried: the tool is run, if it installs this kind.
pub open spec fn after_patches(plan: KpackagePlan) -> KpackageStageView {
    if package_structure(plan.component_type) is Some {
        KpackageStageView::RunningTool(plan)
    } else {
        tool_finished(
            Err(
                ErrorView::InstallFailed(
                    type_label(plan.component_type) + " has no kpackage type"@,
                ),
            ),
        )
    }
}

/// What follows when the patch of `metadata.json` was tried, or there is none.
pub open spec fn after_json(plan: KpackagePlan) -> KpackageStageView {
    if plan.patch_desktop {
        KpackageStageView::PatchingDesktop(plan)
    } else {
        after_patches(plan)
    }
}

/// How the installation of an unpacked package begins.
pub open spec fn kpackage_start(
    root: DirNode,
    component_type: ComponentType,
    global: bool,
) -> KpackageStageView {
    match package_dir(root) {
        Some(dir) => {
            let plan = plan_for(dir, component_type, global);
            if plan.patch_json {
                KpackageStageView::PatchingJson(plan)
            } else {
                after_json(plan)
            }
        },
        None => KpackageStageView::Finished(Err(ErrorView::MetadataNotFound)),
    }
}

/// What came of the tool, where it was the tool that came to an end.
pub open spec fn tool_outcome(event: KpackageEvent) -> Option<Result<(), ErrorView>> {
    match event {
        KpackageEvent::Patched(_) => None,
        KpackageEvent::ToolNotRun { cause } => Some(
            Err(ErrorView::InstallFailed("failed to run kpackagetool6: "@ + cause@)),
        ),
        KpackageEvent::ToolExited { success, stdout, stderr } => Some(
            if success {
                Ok(())
            } else {
                Err(
                    ErrorView::InstallFailed(
                        "kpackagetool6 failed: "@ + combined_output(
                            lossy_utf8(stdout@),
                            lossy_utf8(stderr@),
                        ),
                    ),
                )
            },
        ),
    }
}

/// The stage that follows. Whether a patch failed makes no difference. A stage that awaits
/// something else stays.
pub open spec fn next_kpackage_stage(
    stage: KpackageStageView,
    event: KpackageEvent,
) -> KpackageStageView {
    match stage {
        KpackageStageView::PatchingJson(plan) => if event is Patched {
            after_json(plan)
        } else {
            stage
        },
        KpackageStageView::PatchingDesktop(plan) => if event is Patched {
            after_patches(plan)
        } else {
            stage
        },
        KpackageStageView::RunningTool(_) => match tool_outcome(event) {
            Some(outcome) => tool_finished(outcome),
            None => stage,
        },
        KpackageStageView::Finished(_) => stage,
    }
}

fn go_on_to_tool(plan: KpackagePlan) -> (stage: KpackageStage)
    ensures
        stage@ == after_patches(plan),
{
    if plan.component_type.kpackage_type().is_some() {
        KpackageStage::RunningTool(plan)
    } else {
        let refused = Error::install(
            plan.component_type.label().to_owned().concat(" has no kpackage type"),
        );
        KpackageStage::Finished(finish_via_kpackage(Err(refused)))
    }
}

fn go_on_to_desktop(plan: KpackagePlan) -> (stage: KpackageStage)
    ensures
        stage@ == after_json(plan),
{
    if plan.patch_desktop {
        KpackageStage::PatchingDesktop(plan)
    } else {
        go_on_to_tool(plan)
    }
}

/// The installation of a package by `kpackagetool6`.
#[derive(Debug)]
pub struct KpackageRun {
    /// The version that the metadata of the package is patched to.
    pub new_version: String,
    pub stage: KpackageStage,
}

/// What a stage does with a metadata file of the package that holds this: a file that is patched is
/// brought to the new version.
pub open spec fn package_patch(
    stage: KpackageStageView,
    version: Seq<char>,
    content: Seq<char>,
) -> Option<FilePatchView> {
    match stage {
        KpackageStageView::PatchingJson(plan) => json_patch(
            content,
            package_structure(plan.component_type),
            version,
        ),
        KpackageStageView::PatchingDesktop(_) => Some(desktop_patch(content, version)),
        _ => Some(FilePatchView::Keep),
    }
}

/// Begins the installation of an update by `kpackagetool6` from its unpacked package: for the whole
/// system, or for the user.
pub fn install_via_kpackage(
    extract_dir: &DirNode,
    update: &AvailableUpdate,
    global: bool,
) -> (run: KpackageRun)
    ensures
        run.new_version@ == update.latest_version@,
        run.stage@ == kpackage_start(*extract_dir, update.installed.component_type, global),
{
    KpackageRun {
        new_version: update.latest_version.clone(),
        stage: begin_via_kpackage(extract_dir, update.installed.component_type, global),
    }
}

impl KpackageRun {
    /// Goes on with what came of the last stage.
    pub fn step(self, event: KpackageEvent) -> (run: KpackageRun)
        ensures
            run.new_version == self.new_version,
            run.stage@ == next_kpackage_stage(self.stage@, event),
    {
        KpackageRun { new_version: self.new_version, stage: self.stage.step(event) }
    }

    /// What to do with the metadata file of the package that is to be patched now, which holds
    /// this. `None` where the text is JSON in which the members to patch cannot be set.
    pub fn patch(&self, content: &str) -> (r: Option<FilePatch>)
        ensures
            patch_view(r) == package_patch(self.stage@, self.new_version@, content@),
            self.stage matches KpackageStage::PatchingJson(plan) ==> (r matches Some(
                FilePatch::Write(text),
            ) ==> keeps_patched_texts(
                text@,
                content@,
                package_structure(plan.component_type),
                self.new_version@,
            )),
    {
        match &self.stage {
            KpackageStage::PatchingJson(plan) => patch_json_file(
                content,
                plan.component_type,
                self.new_version.as_str(),
            ),
            KpackageStage::PatchingDesktop(_) => Some(
                patch_desktop_file(content, self.new_version.as_str()),
            ),
            _ => Some(FilePatch::Keep),
        }
    }
}

fn begin_via_kpackage(
    extract_dir: &DirNode,
    component_type: ComponentType,
    global: bool,
) -> (stage: KpackageStage)
    ensures
        stage@ == kpackage_start(*extract_dir, component_type, global),
{
    match find_package_dir(extract_dir) {
        Some(dir) => {
            let plan = KpackagePlan {
                package: dir.handle,
                patch_json: has_entry(dir, "metadata.json"),
                patch_desktop: has_entry(dir, "metadata.desktop"),
                component_type,
                global,
            };
            if plan.patch_json {
                KpackageStage::PatchingJson(plan)
            } else {
                go_on_to_desktop(plan)
            }
        },
        None => KpackageStage::Finished(Err(Error::MetadataNotFound)),
    }
}

impl KpackageStage {
    /// Goes on with what came of this stage.
    fn step(self, event: KpackageEvent) -> (next: KpackageStage)
        ensures
            next@ == next_kpackage_stage(self@, event),
    {
        match self {
            KpackageStage::PatchingJson(plan) => match event {
                KpackageEvent::Patched(_) => go_on_to_desktop(plan),
                _ => KpackageStage::PatchingJson(plan),
            },
            KpackageStage::PatchingDesktop(plan) => match event {
                KpackageEvent::Patched(_) => go_on_to_tool(plan),
                _ => KpackageStage::PatchingDesktop(plan),
            },
            KpackageStage::RunningTool(plan) => match event {
                KpackageEvent::Patched(_) => KpackageStage::RunningTool(plan),
                KpackageEvent::ToolNotRun { cause } => KpackageStage::Finished(
                    finish_via_kpackage(Err(kpackagetool_not_run(cause.as_str()))),
                ),
                KpackageEvent::ToolExited { success, stdout, stderr } => KpackageStage::Finished(
                    finish_via_kpackage(kpackagetool_result(success, &stdout, &stderr)),
                ),
            },
            KpackageStage::Finished(result) => KpackageStage::Finished(result),
        }
    }

    /// The call of `kpackagetool6` for the package, which stands in this directory, if it is time
    /// for it.
    pub fn tool_command(&self, package_dir: &str) -> (r: Option<ToolCommand>)
        ensures
            match self@ {
                KpackageStageView::RunningTool(plan) => match package_structure(
                    plan.component_type,
                ) {
                    Some(structure) => {
                        &&& r matches Some(command)
                        &&& command.privileged == plan.global
                        &&& texts(command.args@) == tool_args(structure, plan.global, package_dir@)
                    },
                    None => r is None,
                },
                _ => r is None,
            },
    {
        match self {
            KpackageStage::RunningTool(plan) => match install_via_kpackagetool(
                package_dir,
                plan.component_type,
                plan.global,
            ) {
                Ok(command) => Some(command),
                Err(_) => None,
            },
            _ => None,
        }
    }
}

/// The stage after all of these.
pub open spec fn kpackage_stage_after(
    start: KpackageStageView,
    events: Seq<KpackageEvent>,
) -> KpackageStageView
    decreases events.len(),
{
    if events.len() == 0 {
        start
    } else {
        next_kpackage_stage(kpackage_stage_after(start, events.drop_last()), events.last())
    }
}

/// A patch that fails does not keep the package from being installed: what follows is the same.
pub proof fn law_failed_patch_makes_no_difference(
    stage: KpackageStageView,
    one: Result<(), Error>,
    other: Result<(), Error>,
)
    ensures
        next_kpackage_stage(stage, KpackageEvent::Patched(one)) == next_kpackage_stage(
            stage,
            KpackageEvent::Patched(other),
        ),
{
}

/// However many patches fail, a package of a kind that `kpackagetool6` installs comes to be handed
/// to it after at most two of them.
pub proof fn law_tool_is_run_after_the_patches(
    root: DirNode,
    component_type: ComponentType,
    global: bool,
    patches: Seq<KpackageEvent>,
)
    requires
        package_dir(root) is Some,
        package_structure(component_type) is Some,
        patches.len() == 2,
        patches[0] is Patched,
        patches[1] is Patched,
    ensures
        kpackage_stage_after(kpackage_start(root, component_type, global), patches)
            == KpackageStageView::RunningTool(
            plan_for(package_dir(root)->0, component_type, global),
        ),
{
    reveal_with_fuel(kpackage_stage_after, 3);
    assert(patches.drop_last().last() == patches[0]);
}

/// Without a package there is nothing to do, and the tool is not run. With one, the installation
/// comes to what the tool came to, which was run with the rights that were asked for.
pub proof fn law_tool_decides(
    root: DirNode,
    component_type: ComponentType,
    global: bool,
    events: Seq<KpackageEvent>,
)
    ensures
        match package_dir(root) {
            None => kpackage_stage_after(kpackage_start(root, component_type, global), events)
                == KpackageStageView::Finished(Err(ErrorView::MetadataNotFound)),
            Some(dir) => match kpackage_stage_after(
                kpackage_start(root, component_type, global),
                events,
            ) {
                KpackageStageView::PatchingJson(plan) => plan == plan_for(
                    dir,
                    component_type,
                    global,
                ),
                KpackageStageView::PatchingDesktop(plan) => plan == plan_for(
                    dir,
                    component_type,
                    global,
                ),
                KpackageStageView::RunningTool(plan) => plan == plan_for(
                    dir,
                    component_type,
                    global,
                ),
                KpackageStageView::Finished(result) => package_structure(component_type) is Some
                    ==> exists|i: int|
                    {
                        &&& 0 <= i < events.len()
                        &&& tool_outcome(#[trigger] events[i]) is Some
                        &&& KpackageStageView::Finished(result) == tool_finished(
                            tool_outcome(events[i])->0,
                        )
                    },
            },
        },
    decreases events.len(),
{
    if events.len() > 0 {
        let before = events.drop_last();
        let start = kpackage_start(root, component_type, global);
        law_tool_decides(root, component_type, global, before);
        assert(events[events.len() - 1] == events.last());
        if package_dir(root) is Some && package_structure(component_type) is Some {
            if let KpackageStageView::Finished(result) = kpackage_stage_after(start, before) {
                let i = choose|i: int|
                    {
                        &&& 0 <= i < before.len()
                        &&& tool_outcome(#[trigger] before[i]) is Some
                        &&& KpackageStageView::Finished(result) == tool_finished(
                            tool_outcome(before[i])->0,
                        )
                    };
                assert(tool_outcome(events[i]) is Some);
            }
        }
    }
}

// --- What a plan copies ---

/// What stood at the destination is removed, exactly if something did, and as what it was. The
/// directory around the destination is created, exactly if there is one. Then the file is copied;
/// or the destination is created and the directory is copied into it. Nothing else is done, and
/// nothing twice.
pub proof fn law_what_a_plan_does(source: usize, dest: Destination)
    ensures
        ({
            let ops = file_plan(source, dest);
            &&& ops.no_duplicates()
            &&& ops.last() == FileOp::CopyFile(source)
            &&& ops.contains(FileOp::RemoveDir) <==> dest.exists && dest.is_dir
            &&& ops.contains(FileOp::RemoveFile) <==> dest.exists && !dest.is_dir
            &&& ops.contains(FileOp::CreateParent) <==> dest.has_parent
            &&& forall|i: int|
                0 <= i < ops.len() - 1 ==> {
                    ||| i == 0 && ((#[trigger] ops[i]) is RemoveDir || ops[i] is RemoveFile)
                    ||| i == ops.len() - 2 && ops[i] is CreateParent
                }
        }),
        ({
            let ops = dir_plan(source, dest);
            &&& ops.no_duplicates()
            &&& ops.last() == FileOp::CopyDir(source)
            &&& ops[ops.len() - 2] is CreateDir
            &&& ops.contains(FileOp::RemoveDir) <==> dest.exists && dest.is_dir
            &&& ops.contains(FileOp::RemoveFile) <==> dest.exists && !dest.is_dir
            &&& ops.contains(FileOp::CreateParent) <==> dest.has_parent
            &&& forall|i: int|
                0 <= i < ops.len() - 2 ==> {
                    ||| i == 0 && ((#[trigger] ops[i]) is RemoveDir || ops[i] is RemoveFile)
                    ||| i == ops.len() - 3 && ops[i] is CreateParent
                }
        }),
{
    let files = file_plan(source, dest);
    let dirs = dir_plan(source, dest);
    if dest.exists {
        assert(is_removal(files[0]));
        assert(is_removal(dirs[0]));
    }
    if dest.has_parent {
        assert(files[files.len() - 2] is CreateParent);
        assert(dirs[dirs.len() - 3] is CreateParent);
    }
}

/// An icon theme is installed by a copy of the first directory of the archive that directly holds
/// an `index.theme`. It is refused only if no directory does.
pub proof fn law_icon_theme_is_copied(root: DirNode, dest: Destination)
    ensures
        direct_plan(root, ComponentType::IconTheme, dest) == icon_theme_plan(root, dest),
        match icon_theme_plan(root, dest) {
            Ok(ops) => exists|k: int|
                {
                    &&& 0 <= k < dirs_of(root).len()
                    &&& holds(#[trigger] dirs_of(root)[k], "index.theme"@)
                    &&& forall|j: int|
                        0 <= j < k ==> !holds(#[trigger] dirs_of(root)[j], "index.theme"@)
                    &&& ops == dir_plan(dirs_of(root)[k].handle, dest)
                    &&& ops.last() == FileOp::CopyDir(dirs_of(root)[k].handle)
                },
            Err(e) => {
                &&& nowhere_held(root, "index.theme"@)
                &&& e == ErrorView::InstallFailed("no icon theme (index.theme) found in archive"@)
            },
        },
{
    law_icon_theme_is_found_by_its_index(root);
    if let Some(dir) = icon_theme_dir(root) {
        law_what_a_plan_does(dir.handle, dest);
        let k = choose|k: int|
            {
                &&& 0 <= k < dirs_of(root).len()
                &&& #[trigger] dirs_of(root)[k] == dir
                &&& holds(dir, "index.theme"@)
                &&& forall|j: int|
                    0 <= j < k ==> !holds(#[trigger] dirs_of(root)[j], "index.theme"@)
            };
        assert(holds(dirs_of(root)[k], "index.theme"@));
    }
}

/// A color scheme is installed by a copy of the first file of the archive with the extension of
/// one, wherever it stands. It is refused only if there is none.
pub proof fn law_color_scheme_is_copied(root: DirNode, dest: Destination)
    ensures
        direct_plan(root, ComponentType::ColorScheme, dest) == color_scheme_plan(root, dest),
        match color_scheme_plan(root, dest) {
            Ok(ops) => exists|k: int|
                {
                    &&& 0 <= k < files_of(root).len()
                    &&& is_scheme(#[trigger] files_of(root)[k])
                    &&& forall|j: int| 0 <= j < k ==> !is_scheme(#[trigger] files_of(root)[j])
                    &&& ops == file_plan(files_of(root)[k].kind->File_0, dest)
                    &&& ops.last() == FileOp::CopyFile(files_of(root)[k].kind->File_0)
                },
            Err(e) => {
                &&& forall|j: int|
                    0 <= j < files_of(root).len() ==> !is_scheme(#[trigger] files_of(root)[j])
                &&& e == ErrorView::InstallFailed("no color scheme file found in archive"@)
            },
        },
{
    law_color_scheme_is_found_by_its_extension(root);
    if let Some(entry) = first_fit(files_of(root), |e: DirEntry| is_color_scheme_file(e)) {
        law_what_a_plan_does(entry.kind->File_0, dest);
        let k = choose|k: int|
            {
                &&& 0 <= k < files_of(root).len()
                &&& #[trigger] files_of(root)[k] == entry
                &&& is_scheme(entry)
                &&& forall|j: int| 0 <= j < k ==> !is_scheme(#[trigger] files_of(root)[j])
            };
        assert(is_scheme(files_of(root)[k]));
    }
}

/// A wallpaper is installed by a copy of the first directory of the archive that has contents or
/// metadata; if there is none, by a copy of the first image file at its top. It is refused only if
/// there is neither.
pub proof fn law_wallpaper_is_copied(root: DirNode, dest: Destination)
    ensures
        direct_plan(root, ComponentType::Wallpaper, dest) == wallpaper_plan(root, dest),
        match wallpaper_plan(root, dest) {
            Ok(ops) => {
                ||| exists|k: int|
                    {
                        &&& 0 <= k < dirs_of(root).len()
                        &&& is_wallpaper_dir(#[trigger] dirs_of(root)[k])
                        &&& forall|j: int|
                            0 <= j < k ==> !is_wallpaper_dir(#[trigger] dirs_of(root)[j])
                        &&& ops == dir_plan(dirs_of(root)[k].handle, dest)
                        &&& ops.last() == FileOp::CopyDir(dirs_of(root)[k].handle)
                    }
                ||| (forall|j: int|
                    0 <= j < dirs_of(root).len() ==> !is_wallpaper_dir(
                        #[trigger] dirs_of(root)[j],
                    )) && exists|k: int|
                    {
                        &&& 0 <= k < root.entries@.len()
                        &&& is_image(#[trigger] root.entries@[k])
                        &&& forall|j: int| 0 <= j < k ==> !is_image(#[trigger] root.entries@[j])
                        &&& ops == file_plan(root.entries@[k].kind->File_0, dest)
                        &&& ops.last() == FileOp::CopyFile(root.entries@[k].kind->File_0)
                    }
            },
            Err(e) => {
                &&& forall|j: int|
                    0 <= j < dirs_of(root).len() ==> !is_wallpaper_dir(#[trigger] dirs_of(root)[j])
                &&& forall|j: int|
                    0 <= j < root.entries@.len() ==> !is_image(#[trigger] root.entries@[j])
                &&& e == ErrorView::InstallFailed("no wallpaper found in archive"@)
            },
        },
{
    law_wallpaper_is_a_directory_or_an_image(root);
    match wallpaper_source(root) {
        Some(WallpaperSource::Dir(handle)) => {
            law_what_a_plan_does(handle, dest);
            let k = choose|k: int|
                {
                    &&& 0 <= k < dirs_of(root).len()
                    &&& (#[trigger] dirs_of(root)[k]).handle == handle
                    &&& is_wallpaper_dir(dirs_of(root)[k])
                    &&& forall|j: int|
                        0 <= j < k ==> !is_wallpaper_dir(#[trigger] dirs_of(root)[j])
                };
            assert(is_wallpaper_dir(dirs_of(root)[k]));
        },
        Some(WallpaperSource::File(handle)) => {
            law_what_a_plan_does(handle, dest);
            let k = choose|k: int|
                {
                    &&& 0 <= k < root.entries@.len()
                    &&& (#[trigger] root.entries@[k]).kind == EntryKind::File(handle)
                    &&& is_image(root.entries@[k])
                    &&& forall|j: int| 0 <= j < k ==> !is_image(#[trigger] root.entries@[j])
                };
            assert(is_image(root.entries@[k]));
        },
        None => {},
    }
}

/// A decoration, a global theme, a style, a splash screen and a login theme are installed by a copy
/// of the whole archive if its top has the marks of the kind, else of the first directory directly
/// in it that has them. They are refused only if there is none.
pub proof fn law_theme_is_copied(root: DirNode, component_type: ComponentType, dest: Destination)
    ensures
        component_type is AuroraeDecoration || component_type is GlobalTheme || component_type
            is PlasmaStyle || component_type is SplashScreen || component_type is SddmTheme
            ==> direct_plan(root, component_type, dest) == theme_plan(root, dest, component_type),
        match theme_plan(root, dest, component_type) {
            Ok(ops) => {
                ||| has_mark(root, component_type) && ops == dir_plan(root.handle, dest)
                    && ops.last() == FileOp::CopyDir(root.handle)
                ||| !has_mark(root, component_type) && exists|k: int|
                    {
                        &&& 0 <= k < root.entries@.len()
                        &&& (#[trigger] root.entries@[k]).kind is Dir
                        &&& has_mark(root.entries@[k].kind->Dir_0, component_type)
                        &&& forall|j: int|
                            0 <= j < k && (#[trigger] root.entries@[j]).kind is Dir ==> !has_mark(
                                root.entries@[j].kind->Dir_0,
                                component_type,
                            )
                        &&& ops == dir_plan(root.entries@[k].kind->Dir_0.handle, dest)
                        &&& ops.last() == FileOp::CopyDir(root.entries@[k].kind->Dir_0.handle)
                    }
            },
            Err(e) => {
                &&& !has_mark(root, component_type)
                &&& forall|j: int|
                    0 <= j < root.entries@.len() && (#[trigger] root.entries@[j]).kind is Dir
                        ==> !has_mark(root.entries@[j].kind->Dir_0, component_type)
                &&& e == ErrorView::InstallFailed(
                    "no valid "@ + type_label(component_type) + " structure found in archive"@,
                )
            },
        },
{
    law_component_root_has_the_mark(root, component_type);
    if let Some(dir) = component_root(root, component_type) {
        law_what_a_plan_does(dir.handle, dest);
        if !has_mark(root, component_type) {
            let k = choose|k: int|
                {
                    &&& 0 <= k < root.entries@.len()
                    &&& (#[trigger] root.entries@[k]).kind == EntryKind::Dir(dir)
                    &&& has_mark(dir, component_type)
                    &&& forall|j: int|
                        0 <= j < k && (#[trigger] root.entries@[j]).kind is Dir ==> !has_mark(
                            root.entries@[j].kind->Dir_0,
                            component_type,
                        )
                };
            assert(root.entries@[k].kind is Dir);
        }
    }
}

// --- What is handed to kpackagetool6, and what comes of it ---

/// The tool is told the kind of the package first and its directory last, and that the package is
/// for the whole system exactly if it is.
pub proof fn law_tool_is_told_kind_and_directory(
    structure: Seq<char>,
    global: bool,
    package_dir: Seq<char>,
)
    ensures
        ({
            let args = tool_args(structure, global, package_dir);
            let last = args.len() - 1;
            &&& args.len() == if global { 5nat } else { 4nat }
            &&& args[0] == "-t"@
            &&& args[1] == structure
            &&& global ==> args[2] == "--global"@
            &&& args[last - 1] == "-u"@
            &&& args[last] == package_dir
        }),
{
}

/// What the tool wrote is reported: each output without the white space around it, the second on a
/// line of its own, and an output with nothing in it not at all.
pub proof fn law_both_outputs_are_reported(stdout: Seq<char>, stderr: Seq<char>)
    ensures
        ({
            let all = combined_output(stdout, stderr);
            let out = trimmed(stdout);
            let err = trimmed(stderr);
            &&& out.len() > 0 ==> begins_with(all, out)
            &&& err.len() > 0 ==> finishes_with(all, err)
            &&& out.len() > 0 && err.len() > 0 ==> all.len() == out.len() + 1 + err.len()
                && all[out.len() as int] == '\n'
            &&& out.len() > 0 && err.len() == 0 ==> all == out
            &&& out.len() == 0 && err.len() > 0 ==> all == err
            &&& out.len() == 0 && err.len() == 0 ==> all == "(no output)"@
        }),
{
    let out = trimmed(stdout);
    let err = trimmed(stderr);
    let all = combined_output(stdout, stderr);
    if out.len() > 0 {
        assert(all.subrange(0, out.len() as int) == out);
    }
    if err.len() > 0 {
        assert(all.subrange(all.len() - err.len(), all.len() as int) == err);
    }
}

/// An error is explained exactly if it is a failure of an installation whose message, read without
/// the name of the tool, has a line that says something and none that says anything but that a
/// structure does not match. The explanation keeps the message at its end. Any other error is
/// reported as it is.
pub proof fn law_what_is_explained(error: ErrorView)
    ensures
        reported_error(error) == error || (error is InstallFailed && ({
            let said = lines_of(
                without_prefix(error->InstallFailed_0, "kpackagetool6 failed: "@),
            );
            &&& exists|i: int| 0 <= i < said.len() && trimmed(#[trigger] said[i]).len() > 0
            &&& forall|i: int|
                0 <= i < said.len() && trimmed(#[trigger] said[i]).len() > 0 ==> mentions(
                    trimmed(said[i]),
                    "does not match requested format"@,
                )
        }) && reported_error(error) is InstallFailed && finishes_with(
            reported_error(error)->InstallFailed_0,
            error->InstallFailed_0,
        ) && begins_with(reported_error(error)->InstallFailed_0, "update blocked: "@)),
        error is InstallFailed && ({
            let said = lines_of(
                without_prefix(error->InstallFailed_0, "kpackagetool6 failed: "@),
            );
            &&& exists|i: int| 0 <= i < said.len() && trimmed(#[trigger] said[i]).len() > 0
            &&& forall|i: int|
                0 <= i < said.len() && trimmed(#[trigger] said[i]).len() > 0 ==> mentions(
                    trimmed(said[i]),
                    "does not match requested format"@,
                )
        }) ==> reported_error(error) != error,
{
    if let ErrorView::InstallFailed(message) = error {
        let said = lines_of(without_prefix(message, "kpackagetool6 failed: "@));
        let whole = blocked_message(message);
        reveal_strlit("update blocked: ");
        reveal_strlit(
            "update blocked: one or more installed plasmoids in your plasma install directory have a missing or incorrect KPackageStructure field in their metadata.json. kpackagetool6 validates all packages in the same directory and rejects updates when any of them are malformed. Run 'plasmoid-updater repair' to add the missing field to affected packages, then retry the update.\nkpackagetool6 output: ",
        );
        assert(whole.subrange(whole.len() - message.len(), whole.len() as int) == message);
        assert(whole.subrange(0, "update blocked: "@.len() as int) == "update blocked: "@);
        assert(whole.len() != message.len());
    }
}

/// A package is installed exactly if the tool was run and said that it succeeded. A tool that could
/// not be run, and one that failed, end the installation with an error that says so and holds the
/// cause, or all that the tool wrote.
pub proof fn law_package_is_installed_if_the_tool_succeeds(
    plan: KpackagePlan,
    event: KpackageEvent,
)
    ensures
        ({
            let next = next_kpackage_stage(KpackageStageView::RunningTool(plan), event);
            &&& next == KpackageStageView::Finished(Ok(())) <==> (event matches
                KpackageEvent::ToolExited { success, .. } && success)
            &&& event matches KpackageEvent::ToolNotRun { cause } ==> next
                == KpackageStageView::Finished(
                Err(reported_error(ErrorView::InstallFailed("failed to run kpackagetool6: "@ + cause@))),
            )
            &&& event matches KpackageEvent::ToolExited { success, stdout, stderr } ==> (!success
                ==> next == KpackageStageView::Finished(
                Err(
                    reported_error(
                        ErrorView::InstallFailed(
                            "kpackagetool6 failed: "@ + combined_output(
                                lossy_utf8(stdout@),
                                lossy_utf8(stderr@),
                            ),
                        ),
                    ),
                ),
            ))
            &&& event is Patched ==> next == KpackageStageView::RunningTool(plan)
        }),
{
}

/// No installation of a package succeeds without a run of the tool that succeeded.
pub proof fn law_no_package_is_installed_without_the_tool(
    root: DirNode,
    component_type: ComponentType,
    global: bool,
    events: Seq<KpackageEvent>,
)
    ensures
        kpackage_stage_after(kpackage_start(root, component_type, global), events)
            == KpackageStageView::Finished(Ok(())) ==> exists|i: int|
            0 <= i < events.len() && (#[trigger] events[i]) is ToolExited && events[i]->success,
    decreases events.len(),
{
    if events.len() > 0 {
        let before = events.drop_last();
        law_no_package_is_installed_without_the_tool(root, component_type, global, before);
        let start = kpackage_start(root, component_type, global);
        if kpackage_stage_after(start, before) == KpackageStageView::Finished(Ok(())) {
            let i = choose|i: int|
                0 <= i < before.len() && (#[trigger] before[i]) is ToolExited
                    && before[i]->success;
            assert(events[i] is ToolExited);
        } else if kpackage_stage_after(start, events) == KpackageStageView::Finished(Ok(())) {
            assert(events[events.len() - 1] is ToolExited);
        }
    }
}

/// The package that is installed is the first directory of the archive with a `metadata.json`, or,
/// if there is none, the first with a `metadata.desktop`. A file of these that it holds is patched,
/// the first before the other; one that it does not hold is not.
pub proof fn law_package_is_patched_and_installed(
    root: DirNode,
    component_type: ComponentType,
    global: bool,
)
    ensures
        match kpackage_start(root, component_type, global) {
            KpackageStageView::PatchingJson(plan) => exists|dir: DirNode|
                {
                    &&& #[trigger] is_first_holding(root, dir, "metadata.json"@)
                    &&& plan.package == dir.handle
                    &&& plan.patch_desktop == holds(dir, "metadata.desktop"@)
                    &&& plan.component_type == component_type
                    &&& plan.global == global
                },
            KpackageStageView::PatchingDesktop(plan) => exists|dir: DirNode|
                {
                    &&& nowhere_held(root, "metadata.json"@)
                    &&& #[trigger] is_first_holding(root, dir, "metadata.desktop"@)
                    &&& plan.package == dir.handle
                    &&& plan.component_type == component_type
                    &&& plan.global == global
                },
            KpackageStageView::RunningTool(_) => false,
            KpackageStageView::Finished(result) => {
                &&& result == Err::<(), ErrorView>(ErrorView::MetadataNotFound)
                &&& nowhere_held(root, "metadata.json"@)
                &&& nowhere_held(root, "metadata.desktop"@)
            },
        },
{
    law_package_is_found_by_its_metadata(root);
    if let Some(dir) = package_dir(root) {
        if is_first_holding(root, dir, "metadata.json"@) {
            assert(holds(dir, "metadata.json"@));
        } else {
            let k = choose|k: int|
                {
                    &&& 0 <= k < dirs_of(root).len()
                    &&& #[trigger] dirs_of(root)[k] == dir
                    &&& holds(dir, "metadata.desktop"@)
                    &&& forall|j: int|
                        0 <= j < k ==> !holds(#[trigger] dirs_of(root)[j], "metadata.desktop"@)
                };
            assert(!holds(dirs_of(root)[k], "metadata.json"@));
            assert(holds(dir, "metadata.desktop"@));
        }
    }
}

/// The patch of `metadata.json` is followed by that of `metadata.desktop` exactly if the package
/// has one, and the last patch by the tool, exactly if it installs this kind.
pub proof fn law_course_of_the_patches(plan: KpackagePlan, patched: Result<(), Error>)
    ensures
        ({
            let after_json = next_kpackage_stage(
                KpackageStageView::PatchingJson(plan),
                KpackageEvent::Patched(patched),
            );
            let after_desktop = next_kpackage_stage(
                KpackageStageView::PatchingDesktop(plan),
                KpackageEvent::Patched(patched),
            );
            &&& plan.patch_desktop ==> after_json == KpackageStageView::PatchingDesktop(plan)
            &&& !plan.patch_desktop ==> after_json == after_desktop
            &&& after_desktop == KpackageStageView::RunningTool(plan) <==> package_structure(
                plan.component_type,
            ) is Some
            &&& after_desktop is RunningTool || (after_desktop matches KpackageStageView::Finished(
                result,
            ) && result is Err)
        }),
{
}

/// A patch is made to the version of the update: to `metadata.json` with the structure of the kind,
/// and to `metadata.desktop`. At any other time no file is changed.
pub proof fn law_package_is_patched_to_the_version(
    plan: KpackagePlan,
    version: Seq<char>,
    content: Seq<char>,
    result: Result<(), ErrorView>,
)
    ensures
        package_patch(KpackageStageView::PatchingJson(plan), version, content) == json_patch(
            content,
            package_structure(plan.component_type),
            version,
        ),
        package_patch(KpackageStageView::PatchingDesktop(plan), version, content) == Some(
            desktop_patch(content, version),
        ),
        package_patch(KpackageStageView::RunningTool(plan), version, content) == Some(
            FilePatchView::Keep,
        ),
        package_patch(KpackageStageView::Finished(result), version, content) == Some(
            FilePatchView::Keep,
        ),
{
}

/// What came of a plan, and of an installation by the tool, is told as it is.
pub proof fn law_installation_is_told(
    planned: Result<Vec<FileOp>, Error>,
    result: Result<(), Error>,
    plan: KpackagePlan,
)
    ensures
        plan_view(planned) is Ok <==> planned is Ok,
        planned is Ok ==> plan_view(planned)->Ok_0 == planned->Ok_0@,
        planned is Err ==> plan_view(planned)->Err_0 == planned->Err_0@,
        KpackageStage::Finished(result)@ is Finished,
        KpackageStage::Finished(result)@->Finished_0 is Ok <==> result is Ok,
        result is Err ==> KpackageStage::Finished(result)@->Finished_0->Err_0 == result->Err_0@,
        KpackageStage::PatchingJson(plan)@ == KpackageStageView::PatchingJson(plan),
        KpackageStage::PatchingDesktop(plan)@ == KpackageStageView::PatchingDesktop(plan),
        KpackageStage::RunningTool(plan)@ == KpackageStageView::RunningTool(plan),
{
}

} // verus!
