//! The metadata files of a component: what is read in them, and how they are brought up to date.

use vstd::prelude::*;
use vstd::string::*;

use crate::error::{Error, ErrorView};
use crate::json;
use crate::json::{
    json_tree, keeps_texts, lemma_with_member_nests, members, nests_within, parsed_json, pretty_json,
    reading_depth, takes_members, text_at, with_member, JsonTree,
};
use crate::text::{
    begins_with, ends_with, finishes_with, join_lines, joined, law_joined_lines_read_back,
    law_lines_hold_no_line_feed, lemma_unended_last_line, lines, lines_of, starts_with, texts,
    within_a_line, without_return, without_returns,
};
use crate::types::{package_structure, ComponentType};

verus! {

// --- metadata.json ---

/// The document with the package structure that the kind of component asks for, and with the new
/// version wherever it describes a plugin.
pub open spec fn patched_tree(
    tree: JsonTree,
    structure: Option<Seq<char>>,
    version: Seq<char>,
) -> JsonTree {
    let structured = match structure {
        Some(s) => with_member(tree, "KPackageStructure"@, JsonTree::Text(s)),
        None => tree,
    };
    if members(structured).contains_key("KPlugin"@) {
        with_member(
            structured,
            "KPlugin"@,
            with_member(members(structured)["KPlugin"@], "Version"@, JsonTree::Text(version)),
        )
    } else {
        structured
    }
}

/// Whether the members that a patch sets can be set in the document.
pub open spec fn patchable(tree: JsonTree, structure: Option<Seq<char>>) -> bool {
    &&& structure is Some ==> takes_members(tree)
    &&& members(tree).contains_key("KPlugin"@) ==> takes_members(members(tree)["KPlugin"@])
}

/// Whether the document clearly lacks a package structure: there is none, or it is null, or it is
/// an empty text.
pub open spec fn lacks_structure(tree: JsonTree) -> bool {
    let key = "KPackageStructure"@;
    ||| !members(tree).contains_key(key)
    ||| members(tree)[key] is Null
    ||| members(tree)[key] matches JsonTree::Text(s) && s.len() == 0
}

/// Whether a text is read as a document that has its package structure.
pub open spec fn has_structure(text: Seq<char>) -> bool {
    parsed_json(text) matches Ok(read) && takes_members(read) && !lacks_structure(read)
}

/// What a document holds where its package structure belongs.
#[derive(Debug, Clone, Copy)]
pub enum StructureField<'a> {
    Absent,
    Null,
    Text(&'a str),
    /// A value that is neither null nor a text.
    Other,
}

/// Whether a package structure is to be added, by what stands in its place. An existing value is
/// never replaced.
pub fn structure_is_missing(field: StructureField) -> (missing: bool)
    ensures
        missing == match field {
            StructureField::Absent => true,
            StructureField::Null => true,
            StructureField::Text(s) => s@.len() == 0,
            StructureField::Other => false,
        },
{
    match field {
        StructureField::Absent => true,
        StructureField::Null => true,
        StructureField::Text(s) => s.is_empty(),
        StructureField::Other => false,
    }
}

fn structure_field<'a>(document: &'a serde_json::Value) -> (field: StructureField<'a>)
    ensures
        ({
            let found = members(json_tree(*document));
            let key = "KPackageStructure"@;
            match field {
                StructureField::Absent => !found.contains_key(key),
                StructureField::Null => found.contains_key(key) && found[key] is Null,
                StructureField::Text(s) => found.contains_key(key) && found[key] == JsonTree::Text(
                    s@,
                ),
                StructureField::Other => found.contains_key(key) && !(found[key] is Null) && !(
                found[key] is Text),
            }
        }),
{
    match json::get(document, "KPackageStructure") {
        None => StructureField::Absent,
        Some(value) => {
            if json::is_null(value) {
                StructureField::Null
            } else {
                match json::as_text(value) {
                    None => StructureField::Other,
                    Some(s) => StructureField::Text(s),
                }
            }
        },
    }
}

/// Sets the package structure and the version in a document.
fn patch_document(document: &mut serde_json::Value, structure: Option<&'static str>, version: &str)
    requires
        nests_within(json_tree(*old(document)), reading_depth()),
        patchable(
            json_tree(*old(document)),
            match structure {
                Some(s) => Some(s@),
                None => None,
            },
        ),
    ensures
        nests_within(json_tree(*final(document)), reading_depth()),
        json_tree(*final(document)) == patched_tree(
            json_tree(*old(document)),
            match structure {
                Some(s) => Some(s@),
                None => None,
            },
            version@,
        ),
{
    let ghost before = json_tree(*document);
    proof {
        reveal_strlit("KPackageStructure");
        reveal_strlit("KPlugin");
        assert("KPackageStructure"@.len() != "KPlugin"@.len());
    }
    if let Some(s) = structure {
        json::set_text(document, "KPackageStructure", s);
        proof {
            lemma_with_member_nests(
                before,
                "KPackageStructure"@,
                JsonTree::Text(s@),
                reading_depth(),
            );
        }
    }
    let ghost structured = json_tree(*document);
    if let Some(plugin) = json::get_mut(document, "KPlugin") {
        json::set_text(plugin, "Version", version);
    }
    proof {
        if members(structured).contains_key("KPlugin"@) {
            let plugin = members(structured)["KPlugin"@];
            lemma_with_member_nests(plugin, "Version"@, JsonTree::Text(version@), 126);
            lemma_with_member_nests(
                structured,
                "KPlugin"@,
                with_member(plugin, "Version"@, JsonTree::Text(version@)),
                reading_depth(),
            );
        }
    }
}

/// Patches the text of a `metadata.json`: the package structure becomes the one of the
/// component's kind, where `kpackagetool6` installs that kind, and the version of the plugin that
/// it describes becomes `new_version`.
pub fn patch_metadata(content: &str, component_type: ComponentType, new_version: &str) -> (r: Result<
    String,
    Error,
>)
    requires
        parsed_json(content@) matches Ok(tree) ==> patchable(
            tree,
            package_structure(component_type),
        ),
    ensures
        match parsed_json(content@) {
            Ok(tree) => {
                let patched = patched_tree(tree, package_structure(component_type), new_version@);
                &&& r is Ok
                &&& r->Ok_0@ == pretty_json(patched)
                &&& keeps_texts(r->Ok_0@, patched)
            },
            Err(message) => r is Err && r->Err_0@ == ErrorView::MetadataParse(message),
        },
{
    match json::parse(content) {
        Err(message) => Err(Error::MetadataParse(message)),
        Ok(value) => {
            let mut document = value;
            patch_document(&mut document, component_type.kpackage_type(), new_version);
            match json::write_pretty(&document) {
                Ok(text) => Ok(text),
                Err(message) => Err(Error::MetadataParse(message)),
            }
        },
    }
}

fn can_be_patched(document: &serde_json::Value, structure: Option<&'static str>) -> (b: bool)
    ensures
        b == patchable(
            json_tree(*document),
            match structure {
                Some(s) => Some(s@),
                None => None,
            },
        ),
{
    if structure.is_some() && !(json::is_object(document) || json::is_null(document)) {
        return false;
    }
    match json::get(document, "KPlugin") {
        None => true,
        Some(plugin) => json::is_object(plugin) || json::is_null(plugin),
    }
}

/// `patch_metadata` for a text of which nothing is known: `None` where the text is JSON in which
/// the members to patch cannot be set.
pub fn try_patch_metadata(
    content: &str,
    component_type: ComponentType,
    new_version: &str,
) -> (r: Option<Result<String, Error>>)
    ensures
        match parsed_json(content@) {
            Ok(tree) => if patchable(tree, package_structure(component_type)) {
                let patched = patched_tree(tree, package_structure(component_type), new_version@);
                &&& r matches Some(Ok(text))
                &&& text@ == pretty_json(patched)
                &&& keeps_texts(text@, patched)
            } else {
                r is None
            },
            Err(message) => r matches Some(Err(e)) && e@ == ErrorView::MetadataParse(message),
        },
{
    match json::parse(content) {
        Err(message) => Some(Err(Error::MetadataParse(message))),
        Ok(document) => {
            if can_be_patched(&document, component_type.kpackage_type()) {
                Some(patch_metadata(content, component_type, new_version))
            } else {
                None
            }
        },
    }
}

/// Adds the package structure to the text of a `metadata.json` that lacks one. Gives the new text
/// to write, or `None` where a package structure is there already.
pub fn add_kpackage_structure_if_missing(content: &str, kpackage_type: &str) -> (r: Result<
    Option<String>,
    Error,
>)
    requires
        parsed_json(content@) matches Ok(tree) ==> takes_members(tree),
    ensures
        match parsed_json(content@) {
            Ok(tree) => if lacks_structure(tree) {
                let repaired = with_member(
                    tree,
                    "KPackageStructure"@,
                    JsonTree::Text(kpackage_type@),
                );
                &&& r matches Ok(Some(text))
                &&& text@ == pretty_json(repaired)
                &&& keeps_texts(text@, repaired)
                &&& has_structure(text@) == (kpackage_type@.len() > 0)
            } else {
                r matches Ok(None)
            },
            Err(message) => r is Err && r->Err_0@ == ErrorView::MetadataParse(message),
        },
{
    match json::parse(content) {
        Err(message) => Err(Error::MetadataParse(message)),
        Ok(value) => {
            let mut document = value;
            if !structure_is_missing(structure_field(&document)) {
                return Ok(None);
            }
            let ghost before = json_tree(document);
            json::set_text(&mut document, "KPackageStructure", kpackage_type);
            proof {
                lemma_with_member_nests(
                    before,
                    "KPackageStructure"@,
                    JsonTree::Text(kpackage_type@),
                    reading_depth(),
                );
            }
            match json::write_pretty(&document) {
                Ok(text) => {
                    proof {
                        lemma_repaired_text(text@, before, kpackage_type@);
                    }
                    Ok(Some(text))
                },
                Err(message) => Err(Error::MetadataParse(message)),
            }
        },
    }
}

/// A text that keeps the texts of a repaired document is read to have its package structure.
proof fn lemma_repaired_text(text: Seq<char>, tree: JsonTree, structure: Seq<char>)
    requires
        keeps_texts(text, with_member(tree, "KPackageStructure"@, JsonTree::Text(structure))),
    ensures
        has_structure(text) == (structure.len() > 0),
{
    let repaired = with_member(tree, "KPackageStructure"@, JsonTree::Text(structure));
    let path = seq!["KPackageStructure"@];
    reveal_with_fuel(text_at, 2);
    assert(path.drop_first() == Seq::<Seq<char>>::empty());
    assert(text_at(repaired, path) == Some(structure));
    if let Ok(read) = parsed_json(text) {
        assert(text_at(read, path) == text_at(repaired, path));
        assert(path.first() == "KPackageStructure"@);
    }
}

/// `add_kpackage_structure_if_missing` for a text of which nothing is known: `None` where the
/// text is JSON but neither an object nor null.
pub fn try_add_kpackage_structure(content: &str, kpackage_type: &str) -> (r: Option<
    Result<Option<String>, Error>,
>)
    ensures
        match parsed_json(content@) {
            Ok(tree) => if !takes_members(tree) {
                r is None
            } else if lacks_structure(tree) {
                let repaired = with_member(
                    tree,
                    "KPackageStructure"@,
                    JsonTree::Text(kpackage_type@),
                );
                &&& r matches Some(Ok(Some(text)))
                &&& text@ == pretty_json(repaired)
                &&& keeps_texts(text@, repaired)
                &&& has_structure(text@) == (kpackage_type@.len() > 0)
            } else {
                r matches Some(Ok(None))
            },
            Err(message) => r matches Some(Err(e)) && e@ == ErrorView::MetadataParse(message),
        },
{
    match json::parse(content) {
        Err(message) => Some(Err(Error::MetadataParse(message))),
        Ok(document) => {
            if json::is_object(&document) || json::is_null(&document) {
                Some(add_kpackage_structure_if_missing(content, kpackage_type))
            } else {
                None
            }
        },
    }
}

/// A patch sets the package structure of the component's kind, and the version of the plugin that
/// the document describes.
pub proof fn law_patch_sets_structure_and_version(
    tree: JsonTree,
    structure: Option<Seq<char>>,
    version: Seq<char>,
)
    requires
        patchable(tree, structure),
    ensures
        structure matches Some(s) ==> text_at(
            patched_tree(tree, structure, version),
            seq!["KPackageStructure"@],
        ) == Some(s),
        members(tree).contains_key("KPlugin"@) ==> text_at(
            patched_tree(tree, structure, version),
            seq!["KPlugin"@, "Version"@],
        ) == Some(version),
{
    reveal_strlit("KPackageStructure");
    reveal_strlit("KPlugin");
    assert("KPackageStructure"@.len() != "KPlugin"@.len());
    reveal_with_fuel(text_at, 3);
    assert(seq!["KPackageStructure"@].drop_first() == Seq::<Seq<char>>::empty());
    assert(seq!["KPlugin"@, "Version"@].drop_first() == seq!["Version"@]);
    assert(seq!["Version"@].drop_first() == Seq::<Seq<char>>::empty());
}

/// A patch changes no other text of the document.
pub proof fn law_patch_keeps_other_texts(
    tree: JsonTree,
    structure: Option<Seq<char>>,
    version: Seq<char>,
    path: Seq<Seq<char>>,
)
    requires
        patchable(tree, structure),
        path.len() > 0 ==> path[0] != "KPackageStructure"@,
        path.len() > 1 && path[0] == "KPlugin"@ ==> path[1] != "Version"@,
    ensures
        text_at(patched_tree(tree, structure, version), path) == text_at(tree, path),
{
    reveal_strlit("KPackageStructure");
    reveal_strlit("KPlugin");
    assert("KPackageStructure"@.len() != "KPlugin"@.len());
    reveal_with_fuel(text_at, 3);
    if path.len() > 1 {
        assert(path.drop_first().first() == path[1]);
    }
}

/// Patching a patched document again changes nothing.
pub proof fn law_patch_is_idempotent(
    tree: JsonTree,
    structure: Option<Seq<char>>,
    version: Seq<char>,
)
    requires
        patchable(tree, structure),
    ensures
        patchable(patched_tree(tree, structure, version), structure),
        patched_tree(patched_tree(tree, structure, version), structure, version) == patched_tree(
            tree,
            structure,
            version,
        ),
{
    reveal_strlit("KPackageStructure");
    reveal_strlit("KPlugin");
    assert("KPackageStructure"@.len() != "KPlugin"@.len());
    let once = patched_tree(tree, structure, version);
    let twice = patched_tree(once, structure, version);
    if members(once).contains_key("KPlugin"@) {
        assert(members(members(twice)["KPlugin"@]) =~= members(members(once)["KPlugin"@]));
    }
    assert(members(twice) =~= members(once));
}

/// A repaired document has the package structure that was added, and every other text that it
/// had.
pub proof fn law_repair_changes_only_the_structure(
    tree: JsonTree,
    structure: Seq<char>,
    path: Seq<Seq<char>>,
)
    requires
        takes_members(tree),
    ensures
        text_at(
            with_member(tree, "KPackageStructure"@, JsonTree::Text(structure)),
            seq!["KPackageStructure"@],
        ) == Some(structure),
        path.len() > 0 && path[0] == "KPackageStructure"@ || text_at(
            with_member(tree, "KPackageStructure"@, JsonTree::Text(structure)),
            path,
        ) == text_at(tree, path),
{
    reveal_with_fuel(text_at, 2);
    assert(seq!["KPackageStructure"@].drop_first() == Seq::<Seq<char>>::empty());
}

// --- metadata.desktop ---

/// A line of a `metadata.desktop` that gives the version.
pub open spec fn is_version_line(line: Seq<char>) -> bool {
    begins_with(line, "X-KDE-PluginInfo-Version="@)
}

/// Some line gives the version.
pub open spec fn gives_version(lines: Seq<Seq<char>>) -> bool {
    exists|i: int| 0 <= i < lines.len() && is_version_line(#[trigger] lines[i])
}

/// The lines with every version line replaced by one for the new version.
pub open spec fn patched_lines(lines: Seq<Seq<char>>, version: Seq<char>) -> Seq<Seq<char>> {
    lines.map_values(
        |line: Seq<char>|
            if is_version_line(line) {
                "X-KDE-PluginInfo-Version="@ + version
            } else {
                line
            },
    )
}

/// The text of the lines, with a line feed at its end if `content` has one there.
pub open spec fn text_of_lines(lines: Seq<Seq<char>>, content: Seq<char>) -> Seq<char> {
    if finishes_with(content, seq!['\n']) && !finishes_with(joined(lines), seq!['\n']) {
        joined(lines).push('\n')
    } else {
        joined(lines)
    }
}

/// Patches the text of a `metadata.desktop` to the new version. `None` where it gives no version,
/// and so is left alone.
pub fn patch_metadata_desktop(content: &str, new_version: &str) -> (r: Option<String>)
    ensures
        match r {
            Some(text) => {
                &&& gives_version(lines_of(content@))
                &&& text@ == text_of_lines(
                    patched_lines(lines_of(content@), new_version@),
                    content@,
                )
            },
            None => !gives_version(lines_of(content@)),
        },
        r is Some <==> exists|i: int|
            0 <= i < lines_of(content@).len() && begins_with(
                #[trigger] lines_of(content@)[i],
                "X-KDE-PluginInfo-Version="@,
            ),
        r matches Some(text) ==> (within_a_line(new_version@) ==> forall|i: int|
            0 <= i < lines_of(text@).len() ==> ({
                let line = lines_of(content@)[i];
                let wanted = if begins_with(line, "X-KDE-PluginInfo-Version="@) {
                    "X-KDE-PluginInfo-Version="@ + new_version@
                } else {
                    line
                };
                #[trigger] lines_of(text@)[i] == wanted || lines_of(text@)[i] == without_return(
                    wanted,
                )
            })),
{
    proof {
        if within_a_line(new_version@) {
            law_desktop_patch_line_by_line(content@, new_version@);
        }
    }
    let content_lines = lines(content);
    let mut found: bool = false;
    let mut patched: Vec<String> = Vec::new();
    let ghost all = lines_of(content@);
    let mut i: usize = 0;
    while i < content_lines.len()
        invariant
            i <= content_lines.len(),
            all == lines_of(content@),
            texts(content_lines@) == all,
            texts(patched@) == patched_lines(all, new_version@).take(i as int),
            found <==> exists|j: int| 0 <= j < i && is_version_line(#[trigger] all[j]),
        decreases content_lines.len() - i,
    {
        let line: &String = &content_lines[i];
        assert(line@ == all[i as int]);
        let ghost before = patched@;
        if starts_with(line.as_str(), "X-KDE-PluginInfo-Version=") {
            found = true;
            patched.push("X-KDE-PluginInfo-Version=".to_owned().concat(new_version));
        } else {
            patched.push(line.clone());
        }
        assert(texts(patched@) == texts(before).push(patched@.last()@));
        assert(patched_lines(all, new_version@).take(i + 1) == patched_lines(
            all,
            new_version@,
        ).take(i as int).push(patched_lines(all, new_version@)[i as int]));
        i = i + 1;
    }
    assert(patched_lines(all, new_version@).take(all.len() as int) == patched_lines(
        all,
        new_version@,
    ));
    if !found {
        return None;
    }
    let body = join_lines(&patched);
    proof {
        reveal_strlit("\n");
        assert("\n"@ == seq!['\n']);
        assert(body@ + "\n"@ == body@.push('\n'));
    }
    if ends_with(content, "\n") && !ends_with(body.as_str(), "\n") {
        Some(body.concat("\n"))
    } else {
        Some(body)
    }
}

/// The lines that a patched text is read to have: those that were put together, without what the
/// ends of lines swallow. Each loses one carriage return at its end, and where the text ends with
/// a line feed, one empty last line is lost.
pub open spec fn lines_read_back(lines: Seq<Seq<char>>, content: Seq<char>) -> Seq<Seq<char>> {
    if !finishes_with(content, seq!['\n']) {
        without_returns(lines.drop_last()).push(lines.last())
    } else if lines.last().len() > 0 {
        without_returns(lines)
    } else {
        without_returns(lines.drop_last())
    }
}

proof fn lemma_patched_lines(content: Seq<char>, version: Seq<char>)
    requires
        within_a_line(version),
        gives_version(lines_of(content)),
    ensures
        forall|i: int|
            0 <= i < lines_of(content).len() ==> within_a_line(
                #[trigger] patched_lines(lines_of(content), version)[i],
            ),
        forall|i: int|
            0 <= i < lines_of(content).len() ==> (#[trigger] patched_lines(
                lines_of(content),
                version,
            )[i].len() == 0 <==> lines_of(content)[i].len() == 0),
        !finishes_with(content, seq!['\n']) ==> lines_of(content).last().len() > 0,
        lines_of(content).last().len() == 0 ==> lines_of(content).len() > 1,
{
    let lines = lines_of(content);
    reveal_strlit("X-KDE-PluginInfo-Version=");
    assert forall|i: int| 0 <= i < lines.len() implies within_a_line(
        #[trigger] patched_lines(lines, version)[i],
    ) by {
        assert forall|j: int| 0 <= j < lines[i].len() implies lines[i][j] != '\n' by {
            law_lines_hold_no_line_feed(content, i, j);
        }
    }
    if !finishes_with(content, seq!['\n']) {
        assert(content.subrange(content.len() - 1, content.len() as int) =~= seq![content.last()]);
        lemma_unended_last_line(content);
    }
}

proof fn lemma_joined_end(lines: Seq<Seq<char>>)
    requires
        lines.len() > 0,
        within_a_line(lines.last()),
    ensures
        lines.last().len() > 0 ==> !finishes_with(joined(lines), seq!['\n']),
        lines.last().len() == 0 && lines.len() > 1 ==> {
            &&& joined(lines) == joined(lines.drop_last()).push('\n')
            &&& finishes_with(joined(lines), seq!['\n'])
        },
{
    let body = joined(lines);
    assert(seq!['\n'][0] == '\n');
    if lines.last().len() > 0 {
        assert(body.last() == lines.last().last());
        assert(body.subrange(body.len() - 1, body.len() as int)[0] == body.last());
    } else if lines.len() > 1 {
        assert(body =~= joined(lines.drop_last()).push('\n'));
        assert(body.subrange(body.len() - 1, body.len() as int) =~= seq!['\n']);
    }
}

/// A patched `metadata.desktop` has the lines that it had, but for its version lines, which give
/// the new version, and but for what the ends of lines swallow.
pub proof fn law_desktop_patch_keeps_other_lines(content: Seq<char>, version: Seq<char>)
    requires
        within_a_line(version),
        gives_version(lines_of(content)),
    ensures
        lines_of(text_of_lines(patched_lines(lines_of(content), version), content))
            == lines_read_back(patched_lines(lines_of(content), version), content),
{
    let lines = patched_lines(lines_of(content), version);
    lemma_patched_lines(content, version);
    assert(lines.last() == lines[lines.len() - 1]);
    law_joined_lines_read_back(lines);
    lemma_joined_end(lines);
    if lines.last().len() == 0 {
        let shorter = lines.drop_last();
        assert forall|i: int| 0 <= i < shorter.len() implies within_a_line(
            #[trigger] shorter[i],
        ) by {
            assert(within_a_line(lines[i]));
        }
        law_joined_lines_read_back(shorter);
    }
}

/// Patching a patched `metadata.desktop` to the same version again changes nothing, if the ends
/// of its lines swallow nothing more: no line but an unended last one ends with a further carriage
/// return, and no two empty lines end the text.
pub proof fn law_desktop_patch_is_idempotent(content: Seq<char>, version: Seq<char>)
    requires
        within_a_line(version),
        gives_version(lines_of(content)),
        forall|i: int|
            0 <= i < lines_of(content).len() && !is_version_line(#[trigger] lines_of(content)[i])
                && without_return(lines_of(content)[i]) != lines_of(content)[i] ==> i
                == lines_of(content).len() - 1 && !finishes_with(content, seq!['\n']),
        lines_of(content).len() > 1 && lines_of(content).last().len() == 0
            ==> lines_of(content).drop_last().last().len() > 0,
    ensures
        ({
            let once = text_of_lines(patched_lines(lines_of(content), version), content);
            text_of_lines(patched_lines(lines_of(once), version), once) == once
        }),
{
    let key = "X-KDE-PluginInfo-Version="@;
    reveal_strlit("X-KDE-PluginInfo-Version=");
    let unpatched = lines_of(content);
    let lines = patched_lines(unpatched, version);
    let once = text_of_lines(lines, content);
    let read = lines_of(once);
    lemma_patched_lines(content, version);
    law_desktop_patch_keeps_other_lines(content, version);
    assert(lines.last() == lines[lines.len() - 1]);
    lemma_joined_end(lines);
    assert forall|i: int| 0 <= i < read.len() implies #[trigger] patched_lines(read, version)[i]
        == lines[i] by {
        let line = lines[i];
        if is_version_line(unpatched[i]) {
            assert(line == key + version);
            assert(line.subrange(0, key.len() as int) == key);
            assert(without_return(line).subrange(0, key.len() as int) == key);
        }
    }
    let again = patched_lines(read, version);
    assert(once.len() > 0 ==> once.subrange(once.len() - 1, once.len() as int) =~= seq![once.last()]);
    assert(seq!['\n'][0] == '\n');
    if finishes_with(content, seq!['\n']) {
        assert(once.last() == '\n');
        if lines.last().len() > 0 {
            assert(again =~= lines);
        } else {
            assert(again =~= lines.drop_last());
            assert(again.last() == lines[lines.len() - 2]);
            assert(unpatched.drop_last().last() == unpatched[lines.len() - 2]);
            lemma_joined_end(again);
        }
    } else {
        assert(again =~= lines);
    }
}

// --- Patches of files ---

/// What to do with a metadata file.
#[derive(Debug)]
pub enum FilePatch {
    /// This is to be written in place of the file.
    Write(String),
    Keep,
    /// The file cannot be understood.
    Fail(Error),
}

/// What to do with a metadata file, with what the text to write holds.
pub enum FilePatchView {
    Write(Seq<char>),
    Keep,
    Fail(ErrorView),
}

impl View for FilePatch {
    type V = FilePatchView;

    open spec fn view(&self) -> FilePatchView {
        match self {
            FilePatch::Write(text) => FilePatchView::Write(text@),
            FilePatch::Keep => FilePatchView::Keep,
            FilePatch::Fail(e) => FilePatchView::Fail(e@),
        }
    }
}

/// The patch of a `metadata.json` to a version. `None` where the text is JSON in which the members
/// to patch cannot be set.
pub open spec fn json_patch(
    content: Seq<char>,
    structure: Option<Seq<char>>,
    version: Seq<char>,
) -> Option<FilePatchView> {
    match parsed_json(content) {
        Ok(tree) => if patchable(tree, structure) {
            Some(FilePatchView::Write(pretty_json(patched_tree(tree, structure, version))))
        } else {
            None
        },
        Err(message) => Some(FilePatchView::Fail(ErrorView::MetadataParse(message))),
    }
}

/// The patch of a `metadata.desktop` to a version.
pub open spec fn desktop_patch(content: Seq<char>, version: Seq<char>) -> FilePatchView {
    if gives_version(lines_of(content)) {
        FilePatchView::Write(text_of_lines(patched_lines(lines_of(content), version), content))
    } else {
        FilePatchView::Keep
    }
}

/// Whether a text is read to hold what the patched `metadata.json` holds: the new version of the
/// plugin that it describes, and all other texts.
pub open spec fn keeps_patched_texts(
    text: Seq<char>,
    content: Seq<char>,
    structure: Option<Seq<char>>,
    version: Seq<char>,
) -> bool {
    parsed_json(content) matches Ok(tree) && keeps_texts(
        text,
        patched_tree(tree, structure, version),
    )
}

pub open spec fn patch_view(r: Option<FilePatch>) -> Option<FilePatchView> {
    match r {
        Some(patch) => Some(patch@),
        None => None,
    }
}

pub(crate) fn patch_json_file(content: &str, component_type: ComponentType, version: &str) -> (r:
    Option<FilePatch>)
    ensures
        patch_view(r) == json_patch(content@, package_structure(component_type), version@),
        r matches Some(FilePatch::Write(text)) ==> keeps_patched_texts(
            text@,
            content@,
            package_structure(component_type),
            version@,
        ),
{
    match try_patch_metadata(content, component_type, version) {
        Some(Ok(text)) => Some(FilePatch::Write(text)),
        Some(Err(e)) => Some(FilePatch::Fail(e)),
        None => None,
    }
}

pub(crate) fn patch_desktop_file(content: &str, version: &str) -> (patch: FilePatch)
    ensures
        patch@ == desktop_patch(content@, version@),
{
    match patch_metadata_desktop(content, version) {
        Some(text) => FilePatch::Write(text),
        None => FilePatch::Keep,
    }
}

// --- What a patch does, member by member and line by line ---

/// A patch can be made exactly in a document that is an object or null where a package structure is
/// to be set, and whose plugin description, if it has one, is an object or null.
pub proof fn law_what_can_be_patched(tree: JsonTree, structure: Option<Seq<char>>)
    ensures
        patchable(tree, structure) <==> {
            &&& structure is Some ==> tree is Object || tree is Null
            &&& tree matches JsonTree::Object(m) ==> (m.contains_key("KPlugin"@)
                ==> m["KPlugin"@] is Object || m["KPlugin"@] is Null)
        },
{
}

/// A patch sets the package structure of the document and the version in its plugin description,
/// where there is one, and leaves every other member of both as it was, whatever it holds.
pub proof fn law_patch_changes_two_members(
    tree: JsonTree,
    structure: Option<Seq<char>>,
    version: Seq<char>,
    key: Seq<char>,
)
    requires
        patchable(tree, structure),
    ensures
        ({
            let before = members(tree);
            let after = members(patched_tree(tree, structure, version));
            let plugin = "KPlugin"@;
            let field = "KPackageStructure"@;
            &&& structure matches Some(s) ==> after.contains_key(field) && after[field]
                == JsonTree::Text(s)
            &&& key != plugin && !(key == field && structure is Some) ==> {
                &&& after.contains_key(key) == before.contains_key(key)
                &&& before.contains_key(key) ==> after[key] == before[key]
            }
            &&& after.contains_key(plugin) == before.contains_key(plugin)
            &&& before.contains_key(plugin) ==> {
                let described = members(before[plugin]);
                let patched = members(after[plugin]);
                &&& after[plugin] is Object
                &&& patched.contains_key("Version"@)
                &&& patched["Version"@] == JsonTree::Text(version)
                &&& key != "Version"@ ==> {
                    &&& patched.contains_key(key) == described.contains_key(key)
                    &&& described.contains_key(key) ==> patched[key] == described[key]
                }
            }
            &&& structure is None && !before.contains_key(plugin) ==> patched_tree(
                tree,
                structure,
                version,
            ) == tree
        }),
{
    reveal_strlit("KPackageStructure");
    reveal_strlit("KPlugin");
    assert("KPackageStructure"@.len() != "KPlugin"@.len());
}

/// The patch of a `metadata.json` is written wherever the text is JSON that can be patched. A text
/// that is no JSON is an error with the message of the reader.
pub proof fn law_readable_metadata_is_patched(
    content: Seq<char>,
    structure: Option<Seq<char>>,
    version: Seq<char>,
)
    ensures
        match json_patch(content, structure, version) {
            Some(FilePatchView::Write(text)) => {
                &&& parsed_json(content) matches Ok(tree)
                &&& patchable(tree, structure)
                &&& text == pretty_json(patched_tree(tree, structure, version))
            },
            Some(FilePatchView::Fail(e)) => parsed_json(content) matches Err(message) && e
                == ErrorView::MetadataParse(message),
            Some(FilePatchView::Keep) => false,
            None => parsed_json(content) matches Ok(tree) && !patchable(tree, structure),
        },
{
}

/// A package structure is lacking exactly where there is no such member, or it is null, or it is an
/// empty text. Any other value, also one that is no text, is there.
pub proof fn law_what_lacks_a_structure(tree: JsonTree)
    ensures
        match tree {
            JsonTree::Object(m) => lacks_structure(tree) <==> (m.contains_key(
                "KPackageStructure"@,
            ) ==> m["KPackageStructure"@] is Null || m["KPackageStructure"@] == JsonTree::Text(
                Seq::empty(),
            )),
            _ => lacks_structure(tree),
        },
{
    if members(tree).contains_key("KPackageStructure"@) {
        if let JsonTree::Text(s) = members(tree)["KPackageStructure"@] {
            if s.len() == 0 {
                assert(s =~= Seq::<char>::empty());
            }
        }
    }
}

/// A repaired document has the package structure that was added, and every other member as it was.
pub proof fn law_repair_adds_one_member(tree: JsonTree, structure: Seq<char>, key: Seq<char>)
    ensures
        ({
            let repaired = with_member(tree, "KPackageStructure"@, JsonTree::Text(structure));
            &&& repaired is Object
            &&& members(repaired).contains_key("KPackageStructure"@)
            &&& members(repaired)["KPackageStructure"@] == JsonTree::Text(structure)
            &&& key != "KPackageStructure"@ ==> {
                &&& members(repaired).contains_key(key) == members(tree).contains_key(key)
                &&& members(tree).contains_key(key) ==> members(repaired)[key] == members(tree)[key]
            }
        }),
{
}

/// A `metadata.desktop` is patched exactly if one of its lines begins with the version key. The
/// patched text has a line for each line, but for an empty last one that the end of the text
/// swallows. A line that begins with the version key becomes the key with the new version, and
/// every other line stays, each up to one carriage return at its end. The patched text ends with a
/// line feed exactly if the text did.
pub proof fn law_desktop_patch_line_by_line(content: Seq<char>, version: Seq<char>)
    requires
        within_a_line(version),
    ensures
        ({
            let key = "X-KDE-PluginInfo-Version="@;
            let lines = lines_of(content);
            let found = exists|i: int| 0 <= i < lines.len() && begins_with(#[trigger] lines[i], key);
            &&& gives_version(lines) == found
            &&& desktop_patch(content, version) is Keep <==> !found
            &&& found ==> {
                let text = text_of_lines(patched_lines(lines, version), content);
                let read = lines_of(text);
                &&& desktop_patch(content, version) == FilePatchView::Write(text)
                &&& read.len() <= lines.len() <= read.len() + 1
                &&& read.len() < lines.len() ==> lines.last().len() == 0
                &&& forall|i: int|
                    0 <= i < read.len() && begins_with(lines[i], key) ==> #[trigger] read[i] == key
                        + version || read[i] == without_return(key + version)
                &&& forall|i: int|
                    0 <= i < read.len() && !begins_with(lines[i], key) ==> #[trigger] read[i]
                        == lines[i] || read[i] == without_return(lines[i])
                &&& finishes_with(text, seq!['\n']) == finishes_with(content, seq!['\n'])
            }
        }),
{
    let key = "X-KDE-PluginInfo-Version="@;
    let lines = lines_of(content);
    if exists|i: int| 0 <= i < lines.len() && begins_with(#[trigger] lines[i], key) {
        let i = choose|i: int| 0 <= i < lines.len() && begins_with(#[trigger] lines[i], key);
        assert(is_version_line(lines[i]));
        let patched = patched_lines(lines, version);
        let text = text_of_lines(patched, content);
        lemma_patched_lines(content, version);
        law_desktop_patch_keeps_other_lines(content, version);
        assert(patched.last() == patched[patched.len() - 1]);
        assert(within_a_line(patched.last()));
        lemma_joined_end(patched);
        let read = lines_of(text);
        assert forall|k: int| 0 <= k < read.len() implies #[trigger] read[k] == patched[k]
            || read[k] == without_return(patched[k]) by {
            if !finishes_with(content, seq!['\n']) && k == patched.len() - 1 {
                assert(read[k] == patched.last());
            }
        }
        assert(joined(patched).push('\n').subrange(
            joined(patched).len() as int,
            joined(patched).len() as int + 1,
        ) =~= seq!['\n']);
    }
}

} // verus!
