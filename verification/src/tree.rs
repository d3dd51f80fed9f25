//! An unpacked archive as a tree of directories, and the search for what is to be installed.
//!
//! The tree is a picture of what stands on disk: every directory with its entries in the order in
//! which they are listed. Each directory and file has a handle by which whoever took the picture
//! finds it again.

use vstd::prelude::*;

use crate::text::{ends_with, finishes_with, lowercase, lowercased, same_text};
use crate::types::ComponentType;

verus! {

#[derive(Debug)]
pub struct DirNode {
    pub handle: usize,
    pub entries: Vec<DirEntry>,
}

#[derive(Debug)]
pub struct DirEntry {
    /// The name, `None` where it is not valid Unicode.
    pub name: Option<String>,
    pub kind: EntryKind,
}

#[derive(Debug)]
pub enum EntryKind {
    Dir(DirNode),
    File(usize),
    /// Something that exists and is neither a directory nor a regular file.
    Special,
    /// A link that leads nowhere.
    Dangling,
}

// --- Model ---

/// The entry exists and has this name.
pub open spec fn is_named(entry: DirEntry, name: Seq<char>) -> bool {
    &&& entry.name matches Some(s) && s@ == name
    &&& !(entry.kind is Dangling)
}

/// Something of this name stands directly in the directory.
pub open spec fn holds(dir: DirNode, name: Seq<char>) -> bool {
    exists|i: int| 0 <= i < dir.entries@.len() && is_named(#[trigger] dir.entries@[i], name)
}

/// A directory and all directories below it, each before those below it, in the order in which
/// they are listed.
pub open spec fn dirs_of(dir: DirNode) -> Seq<DirNode>
    decreases dir,
{
    seq![dir] + dirs_among(dir.entries@)
}

pub open spec fn dirs_among(entries: Seq<DirEntry>) -> Seq<DirNode>
    decreases entries,
{
    if entries.len() == 0 {
        Seq::empty()
    } else {
        dirs_among(entries.drop_last()) + match entries.last().kind {
            EntryKind::Dir(d) => dirs_of(d),
            _ => Seq::empty(),
        }
    }
}

/// The files in a directory and in all directories below it, in the order in which they are
/// listed.
pub open spec fn files_of(dir: DirNode) -> Seq<DirEntry>
    decreases dir,
{
    files_among(dir.entries@)
}

pub open spec fn files_among(entries: Seq<DirEntry>) -> Seq<DirEntry>
    decreases entries,
{
    if entries.len() == 0 {
        Seq::empty()
    } else {
        files_among(entries.drop_last()) + match entries.last().kind {
            EntryKind::Dir(d) => files_of(d),
            EntryKind::File(_) => seq![entries.last()],
            _ => Seq::empty(),
        }
    }
}

/// The first item of a sequence that fits.
pub open spec fn first_fit<T>(items: Seq<T>, fits: spec_fn(T) -> bool) -> Option<T>
    decreases items.len(),
{
    if items.len() == 0 {
        None
    } else if fits(items.first()) {
        Some(items.first())
    } else {
        first_fit(items.drop_first(), fits)
    }
}

proof fn lemma_first_fit_none<T>(items: Seq<T>, fits: spec_fn(T) -> bool)
    requires
        forall|i: int| 0 <= i < items.len() ==> !fits(#[trigger] items[i]),
    ensures
        first_fit(items, fits) is None,
    decreases items.len(),
{
    if items.len() > 0 {
        assert(!fits(items[0]));
        assert forall|i: int| 0 <= i < items.drop_first().len() implies !fits(
            #[trigger] items.drop_first()[i],
        ) by {
            assert(!fits(items[i + 1]));
        }
        lemma_first_fit_none(items.drop_first(), fits);
    }
}

proof fn lemma_first_fit_some<T>(items: Seq<T>, fits: spec_fn(T) -> bool, at: int)
    requires
        0 <= at < items.len(),
        fits(items[at]),
        forall|i: int| 0 <= i < at ==> !fits(#[trigger] items[i]),
    ensures
        first_fit(items, fits) == Some(items[at]),
    decreases items.len(),
{
    if at > 0 {
        assert(!fits(items[0]));
        assert forall|i: int| 0 <= i < at - 1 implies !fits(#[trigger] items.drop_first()[i]) by {
            assert(!fits(items[i + 1]));
        }
        lemma_first_fit_some(items.drop_first(), fits, at - 1);
    }
}

/// The first item that fits stands in the sequence, fits, and has no earlier one that does.
pub proof fn law_first_fit<T>(items: Seq<T>, fits: spec_fn(T) -> bool)
    ensures
        match first_fit(items, fits) {
            Some(item) => exists|k: int|
                {
                    &&& 0 <= k < items.len()
                    &&& #[trigger] items[k] == item
                    &&& fits(item)
                    &&& forall|i: int| 0 <= i < k ==> !fits(#[trigger] items[i])
                },
            None => forall|i: int| 0 <= i < items.len() ==> !fits(#[trigger] items[i]),
        },
    decreases items.len(),
{
    if items.len() > 0 {
        if fits(items.first()) {
            assert(items[0] == items.first());
        } else {
            law_first_fit(items.drop_first(), fits);
            match first_fit(items.drop_first(), fits) {
                Some(item) => {
                    let k = choose|k: int|
                        {
                            &&& 0 <= k < items.drop_first().len()
                            &&& #[trigger] items.drop_first()[k] == item
                            &&& fits(item)
                            &&& forall|i: int|
                                0 <= i < k ==> !fits(#[trigger] items.drop_first()[i])
                        };
                    assert(items[k + 1] == item);
                    assert forall|i: int| 0 <= i < k + 1 implies !fits(#[trigger] items[i]) by {
                        if i > 0 {
                            assert(items[i] == items.drop_first()[i - 1]);
                        }
                    }
                },
                None => {
                    assert forall|i: int| 0 <= i < items.len() implies !fits(
                        #[trigger] items[i],
                    ) by {
                        if i > 0 {
                            assert(items[i] == items.drop_first()[i - 1]);
                        }
                    }
                },
            }
        }
    }
}

// --- Searches ---

/// Searches a directory and those below it for the first one that the predicate accepts.
pub fn find_in_dir<'a, F: Fn(&DirNode) -> bool>(dir: &'a DirNode, predicate: &F) -> (r: Option<
    &'a DirNode,
>)
    requires
        forall|d: &DirNode| #[trigger] predicate.requires((d,)),
    ensures
        match r {
            Some(found) => exists|k: int|
                {
                    &&& 0 <= k < dirs_of(*dir).len()
                    &&& #[trigger] dirs_of(*dir)[k] == *found
                    &&& predicate.ensures((found,), true)
                    &&& forall|j: int|
                        0 <= j < k ==> predicate.ensures((&#[trigger] dirs_of(*dir)[j],), false)
                },
            None => forall|j: int|
                0 <= j < dirs_of(*dir).len() ==> predicate.ensures(
                    (&#[trigger] dirs_of(*dir)[j],),
                    false,
                ),
        },
    decreases *dir,
{
    let ghost all = dirs_of(*dir);
    assert(all == seq![*dir] + dirs_among(dir.entries@));
    if predicate(dir) {
        assert(all[0] == *dir);
        return Some(dir);
    }
    let mut i: usize = 0;
    while i < dir.entries.len()
        invariant
            i <= dir.entries@.len(),
            all == dirs_of(*dir),
            all == seq![*dir] + dirs_among(dir.entries@),
            forall|d: &DirNode| #[trigger] predicate.requires((d,)),
            predicate.ensures((dir,), false),
            forall|j: int|
                0 <= j < dirs_among(dir.entries@.take(i as int)).len() ==> predicate.ensures(
                    (&#[trigger] dirs_among(dir.entries@.take(i as int))[j],),
                    false,
                ),
        decreases dir.entries@.len() - i,
    {
        let ghost before = dirs_among(dir.entries@.take(i as int));
        proof {
            assert(dir.entries@.take(i + 1).drop_last() == dir.entries@.take(i as int));
            lemma_dirs_among_prefix(dir.entries@, i + 1);
        }
        if let EntryKind::Dir(sub) = &dir.entries[i].kind {
            assert(decreases_to!(*dir => *sub));
            let ghost below = dirs_of(*sub);
            let found = find_in_dir(sub, predicate);
            if let Some(node) = found {
                proof {
                    let k = choose|k: int|
                        {
                            &&& 0 <= k < below.len()
                            &&& #[trigger] below[k] == *node
                            &&& predicate.ensures((node,), true)
                            &&& forall|j: int|
                                0 <= j < k ==> predicate.ensures((&#[trigger] below[j],), false)
                        };
                    let at = 1 + before.len() + k;
                    assert(dirs_among(dir.entries@.take(i + 1)) == before + below);
                    assert(dirs_among(dir.entries@)[at - 1] == (before + below)[at - 1]);
                    assert(all[at] == *node);
                    assert forall|j: int| 0 <= j < at implies predicate.ensures(
                        (&#[trigger] all[j],),
                        false,
                    ) by {
                        if j > 0 {
                            assert(dirs_among(dir.entries@)[j - 1] == (before + below)[j - 1]);
                        }
                        if j > before.len() {
                            assert(all[j] == below[j - 1 - before.len()]);
                        } else if j > 0 {
                            assert(all[j] == before[j - 1]);
                        }
                    }
                }
                return Some(node);
            }
        }
        i = i + 1;
    }
    assert(dir.entries@.take(dir.entries@.len() as int) == dir.entries@);
    assert forall|j: int| 0 <= j < all.len() implies predicate.ensures(
        (&#[trigger] all[j],),
        false,
    ) by {
        if j > 0 {
            assert(all[j] == dirs_among(dir.entries@)[j - 1]);
        }
    }
    None
}

proof fn lemma_dirs_among_prefix(entries: Seq<DirEntry>, n: int)
    requires
        0 <= n <= entries.len(),
    ensures
        dirs_among(entries.take(n)).len() <= dirs_among(entries).len(),
        forall|j: int|
            0 <= j < dirs_among(entries.take(n)).len() ==> #[trigger] dirs_among(entries)[j]
                == dirs_among(entries.take(n))[j],
    decreases entries.len() - n,
{
    if n == entries.len() {
        assert(entries.take(n) == entries);
    } else {
        lemma_dirs_among_prefix(entries, n + 1);
        assert(entries.take(n + 1).drop_last() == entries.take(n));
    }
}

/// Searches a directory and those below it for the first file that the predicate accepts.
pub fn find_file_in_dir<'a, F: Fn(&DirEntry) -> bool>(dir: &'a DirNode, predicate: &F) -> (r:
    Option<&'a DirEntry>)
    requires
        forall|e: &DirEntry| #[trigger] predicate.requires((e,)),
    ensures
        match r {
            Some(found) => exists|k: int|
                {
                    &&& 0 <= k < files_of(*dir).len()
                    &&& #[trigger] files_of(*dir)[k] == *found
                    &&& predicate.ensures((found,), true)
                    &&& forall|j: int|
                        0 <= j < k ==> predicate.ensures((&#[trigger] files_of(*dir)[j],), false)
                },
            None => forall|j: int|
                0 <= j < files_of(*dir).len() ==> predicate.ensures(
                    (&#[trigger] files_of(*dir)[j],),
                    false,
                ),
        },
    decreases *dir,
{
    let ghost all = files_of(*dir);
    assert(all == files_among(dir.entries@));
    let mut i: usize = 0;
    while i < dir.entries.len()
        invariant
            i <= dir.entries@.len(),
            all == files_of(*dir),
            all == files_among(dir.entries@),
            forall|e: &DirEntry| #[trigger] predicate.requires((e,)),
            forall|j: int|
                0 <= j < files_among(dir.entries@.take(i as int)).len() ==> predicate.ensures(
                    (&#[trigger] files_among(dir.entries@.take(i as int))[j],),
                    false,
                ),
        decreases dir.entries@.len() - i,
    {
        let entry = &dir.entries[i];
        let ghost before = files_among(dir.entries@.take(i as int));
        proof {
            assert(dir.entries@.take(i + 1).drop_last() == dir.entries@.take(i as int));
            lemma_files_among_prefix(dir.entries@, i + 1);
        }
        match &entry.kind {
            EntryKind::File(_) => {
                if predicate(entry) {
                    proof {
                        assert(files_among(dir.entries@.take(i + 1)) == before + seq![*entry]);
                        let at = before.len() as int;
                        assert(all[at] == (before + seq![*entry])[at]);
                        assert forall|j: int| 0 <= j < at implies predicate.ensures(
                            (&#[trigger] all[j],),
                            false,
                        ) by {
                            assert(all[j] == (before + seq![*entry])[j]);
                            assert(all[j] == before[j]);
                        }
                    }
                    return Some(entry);
                }
            },
            EntryKind::Dir(sub) => {
                assert(decreases_to!(*dir => *sub));
                let ghost below = files_of(*sub);
                if let Some(file) = find_file_in_dir(sub, predicate) {
                    proof {
                        let k = choose|k: int|
                            {
                                &&& 0 <= k < below.len()
                                &&& #[trigger] below[k] == *file
                                &&& predicate.ensures((file,), true)
                                &&& forall|j: int|
                                    0 <= j < k ==> predicate.ensures(
                                        (&#[trigger] below[j],),
                                        false,
                                    )
                            };
                        let at = before.len() + k;
                        assert(files_among(dir.entries@.take(i + 1)) == before + below);
                        assert(all[at] == (before + below)[at]);
                        assert forall|j: int| 0 <= j < at implies predicate.ensures(
                            (&#[trigger] all[j],),
                            false,
                        ) by {
                            assert(all[j] == (before + below)[j]);
                            if j < before.len() {
                                assert(all[j] == before[j]);
                            } else {
                                assert(all[j] == below[j - before.len()]);
                            }
                        }
                    }
                    return Some(file);
                }
            },
            _ => {},
        }
        i = i + 1;
    }
    assert(dir.entries@.take(dir.entries@.len() as int) == dir.entries@);
    None
}

proof fn lemma_files_among_prefix(entries: Seq<DirEntry>, n: int)
    requires
        0 <= n <= entries.len(),
    ensures
        files_among(entries.take(n)).len() <= files_among(entries).len(),
        forall|j: int|
            0 <= j < files_among(entries.take(n)).len() ==> #[trigger] files_among(entries)[j]
                == files_among(entries.take(n))[j],
    decreases entries.len() - n,
{
    if n == entries.len() {
        assert(entries.take(n) == entries);
    } else {
        lemma_files_among_prefix(entries, n + 1);
        assert(entries.take(n + 1).drop_last() == entries.take(n));
    }
}

/// Whether something of this name stands directly in the directory.
pub fn has_entry(dir: &DirNode, name: &str) -> (b: bool)
    ensures
        b == holds(*dir, name@),
{
    let mut i: usize = 0;
    while i < dir.entries.len()
        invariant
            i <= dir.entries@.len(),
            forall|j: int| 0 <= j < i ==> !is_named(#[trigger] dir.entries@[j], name@),
        decreases dir.entries@.len() - i,
    {
        let entry = &dir.entries[i];
        let exists_there: bool = match &entry.kind {
            EntryKind::Dangling => false,
            _ => true,
        };
        if let Some(s) = &entry.name {
            if exists_there && same_text(s.as_str(), name) {
                assert(is_named(dir.entries@[i as int], name@));
                return true;
            }
        }
        i = i + 1;
    }
    false
}

fn find_first_dir<'a, F: Fn(&DirNode) -> bool>(
    dir: &'a DirNode,
    predicate: &F,
    Ghost(fits): Ghost<spec_fn(DirNode) -> bool>,
) -> (r: Option<&'a DirNode>)
    requires
        forall|d: &DirNode| #[trigger] predicate.requires((d,)),
        forall|d: &DirNode, b: bool| #[trigger] predicate.ensures((d,), b) ==> b == fits(*d),
    ensures
        match r {
            Some(found) => first_fit(dirs_of(*dir), fits) == Some(*found),
            None => first_fit(dirs_of(*dir), fits) is None,
        },
{
    let r = find_in_dir(dir, predicate);
    proof {
        let all = dirs_of(*dir);
        match r {
            Some(found) => {
                let k = choose|k: int|
                    {
                        &&& 0 <= k < all.len()
                        &&& #[trigger] all[k] == *found
                        &&& predicate.ensures((found,), true)
                        &&& forall|j: int|
                            0 <= j < k ==> predicate.ensures((&#[trigger] all[j],), false)
                    };
                lemma_first_fit_some(all, fits, k);
            },
            None => {
                lemma_first_fit_none(all, fits);
            },
        }
    }
    r
}

fn find_first_file<'a, F: Fn(&DirEntry) -> bool>(
    dir: &'a DirNode,
    predicate: &F,
    Ghost(fits): Ghost<spec_fn(DirEntry) -> bool>,
) -> (r: Option<&'a DirEntry>)
    requires
        forall|e: &DirEntry| #[trigger] predicate.requires((e,)),
        forall|e: &DirEntry, b: bool| #[trigger] predicate.ensures((e,), b) ==> b == fits(*e),
    ensures
        match r {
            Some(found) => first_fit(files_of(*dir), fits) == Some(*found),
            None => first_fit(files_of(*dir), fits) is None,
        },
{
    let r = find_file_in_dir(dir, predicate);
    proof {
        let all = files_of(*dir);
        match r {
            Some(found) => {
                let k = choose|k: int|
                    {
                        &&& 0 <= k < all.len()
                        &&& #[trigger] all[k] == *found
                        &&& predicate.ensures((found,), true)
                        &&& forall|j: int|
                            0 <= j < k ==> predicate.ensures((&#[trigger] all[j],), false)
                    };
                lemma_first_fit_some(all, fits, k);
            },
            None => {
                lemma_first_fit_none(all, fits);
            },
        }
    }
    r
}

// --- Components in an archive ---

/// The directory of the package in an archive: the first with a `metadata.json`, or else the
/// first with a `metadata.desktop`.
pub open spec fn package_dir(root: DirNode) -> Option<DirNode> {
    match first_fit(dirs_of(root), |d: DirNode| holds(d, "metadata.json"@)) {
        Some(d) => Some(d),
        None => first_fit(dirs_of(root), |d: DirNode| holds(d, "metadata.desktop"@)),
    }
}

pub fn find_package_dir<'a>(extract_dir: &'a DirNode) -> (r: Option<&'a DirNode>)
    ensures
        match r {
            Some(d) => package_dir(*extract_dir) == Some(*d),
            None => package_dir(*extract_dir) is None,
        },
{
    let has_json = |d: &DirNode| -> (b: bool)
        ensures
            b == holds(*d, "metadata.json"@),
        { has_entry(d, "metadata.json") };
    if let Some(dir) = find_first_dir(
        extract_dir,
        &has_json,
        Ghost(|d: DirNode| holds(d, "metadata.json"@)),
    ) {
        return Some(dir);
    }
    let has_desktop = |d: &DirNode| -> (b: bool)
        ensures
            b == holds(*d, "metadata.desktop"@),
        { has_entry(d, "metadata.desktop") };
    find_first_dir(extract_dir, &has_desktop, Ghost(|d: DirNode| holds(d, "metadata.desktop"@)))
}

/// The directory of the icon theme in an archive: the first with an `index.theme`.
pub open spec fn icon_theme_dir(root: DirNode) -> Option<DirNode> {
    first_fit(dirs_of(root), |d: DirNode| holds(d, "index.theme"@))
}

pub fn find_icon_theme_dir<'a>(extract_dir: &'a DirNode) -> (r: Option<&'a DirNode>)
    ensures
        match r {
            Some(d) => icon_theme_dir(*extract_dir) == Some(*d),
            None => icon_theme_dir(*extract_dir) is None,
        },
{
    let has_index = |d: &DirNode| -> (b: bool)
        ensures
            b == holds(*d, "index.theme"@),
        { has_entry(d, "index.theme") };
    find_first_dir(extract_dir, &has_index, Ghost(|d: DirNode| holds(d, "index.theme"@)))
}

/// The name of a color scheme file.
pub open spec fn names_color_scheme(name: Seq<char>) -> bool {
    finishes_with(name, ".colors"@) || finishes_with(name, ".colorscheme"@)
}

/// The name of an image file, in lower case.
pub open spec fn names_image(name: Seq<char>) -> bool {
    ||| finishes_with(name, ".jpg"@)
    ||| finishes_with(name, ".jpeg"@)
    ||| finishes_with(name, ".png"@)
    ||| finishes_with(name, ".webp"@)
    ||| finishes_with(name, ".svg"@)
}

pub fn has_color_scheme_extension(name: &str) -> (b: bool)
    ensures
        b == names_color_scheme(name@),
{
    ends_with(name, ".colors") || ends_with(name, ".colorscheme")
}

pub fn has_image_extension(name: &str) -> (b: bool)
    ensures
        b == names_image(name@),
{
    ends_with(name, ".jpg") || ends_with(name, ".jpeg") || ends_with(name, ".png") || ends_with(
        name,
        ".webp",
    ) || ends_with(name, ".svg")
}

pub open spec fn is_color_scheme_file(entry: DirEntry) -> bool {
    entry.name matches Some(name) && names_color_scheme(name@)
}

/// Finds the first color scheme file in an archive.
pub fn locate_color_scheme_file(dir: &DirNode) -> (r: Option<usize>)
    ensures
        match first_fit(files_of(*dir), |e: DirEntry| is_color_scheme_file(e)) {
            Some(e) => e.kind matches EntryKind::File(handle) && r == Some(handle),
            None => r is None,
        },
{
    let is_scheme = |e: &DirEntry| -> (b: bool)
        ensures
            b == is_color_scheme_file(*e),
        {
            match &e.name {
                Some(name) => has_color_scheme_extension(name.as_str()),
                None => false,
            }
        };
    let found = find_first_file(dir, &is_scheme, Ghost(|e: DirEntry| is_color_scheme_file(e)));
    match found {
        Some(e) => {
            proof {
                law_first_fit(files_of(*dir), |e: DirEntry| is_color_scheme_file(e));
                lemma_files_are_files(*dir);
            }
            match &e.kind {
                EntryKind::File(handle) => Some(*handle),
                _ => None,
            }
        },
        None => None,
    }
}

proof fn lemma_files_are_files(dir: DirNode)
    ensures
        forall|i: int| 0 <= i < files_of(dir).len() ==> (#[trigger] files_of(dir)[i]).kind is File,
    decreases dir,
{
    lemma_files_among_are_files(dir.entries@);
}

proof fn lemma_files_among_are_files(entries: Seq<DirEntry>)
    ensures
        forall|i: int|
            0 <= i < files_among(entries).len() ==> (#[trigger] files_among(entries)[i]).kind
                is File,
    decreases entries,
{
    if entries.len() > 0 {
        lemma_files_among_are_files(entries.drop_last());
        if let EntryKind::Dir(d) = entries.last().kind {
            lemma_files_are_files(d);
        }
    }
}

/// Whether a directory looks like the root of a component of this kind.
pub open spec fn looks_like(dir: DirNode, component_type: ComponentType) -> bool {
    match component_type {
        ComponentType::AuroraeDecoration => holds(dir, "decoration.svg"@) || holds(
            dir,
            "aurorae"@,
        ),
        ComponentType::GlobalTheme => holds(dir, "metadata.json"@) || holds(
            dir,
            "metadata.desktop"@,
        ),
        ComponentType::SplashScreen => holds(dir, "metadata.json"@) || holds(
            dir,
            "metadata.desktop"@,
        ),
        ComponentType::PlasmaStyle => holds(dir, "colors"@) || holds(dir, "widgets"@) || holds(
            dir,
            "metadata.desktop"@,
        ),
        ComponentType::SddmTheme => holds(dir, "theme.conf"@) || holds(dir, "Main.qml"@),
        ComponentType::KWinSwitcher => holds(dir, "metadata.json"@) || holds(dir, "contents"@),
        _ => false,
    }
}

pub fn has_component_structure(dir: &DirNode, component_type: ComponentType) -> (b: bool)
    ensures
        b == looks_like(*dir, component_type),
{
    match component_type {
        ComponentType::AuroraeDecoration => has_entry(dir, "decoration.svg") || has_entry(
            dir,
            "aurorae",
        ),
        ComponentType::GlobalTheme | ComponentType::SplashScreen => has_entry(
            dir,
            "metadata.json",
        ) || has_entry(dir, "metadata.desktop"),
        ComponentType::PlasmaStyle => has_entry(dir, "colors") || has_entry(dir, "widgets")
            || has_entry(dir, "metadata.desktop"),
        ComponentType::SddmTheme => has_entry(dir, "theme.conf") || has_entry(dir, "Main.qml"),
        ComponentType::KWinSwitcher => has_entry(dir, "metadata.json") || has_entry(
            dir,
            "contents",
        ),
        _ => false,
    }
}

/// The entry is a directory that looks like the root of a component of this kind.
pub open spec fn is_component_root(entry: DirEntry, component_type: ComponentType) -> bool {
    entry.kind matches EntryKind::Dir(d) && looks_like(d, component_type)
}

/// The root of a component in an archive: the top of the archive, or else the first directory
/// directly in it that looks like one.
pub open spec fn component_root(root: DirNode, component_type: ComponentType) -> Option<DirNode> {
    if looks_like(root, component_type) {
        Some(root)
    } else {
        match first_fit(root.entries@, |e: DirEntry| is_component_root(e, component_type)) {
            Some(e) => Some(e.kind->Dir_0),
            None => None,
        }
    }
}

pub fn find_component_root_in_archive<'a>(
    extract_dir: &'a DirNode,
    component_type: ComponentType,
) -> (r: Option<&'a DirNode>)
    ensures
        match r {
            Some(d) => component_root(*extract_dir, component_type) == Some(*d),
            None => component_root(*extract_dir, component_type) is None,
        },
{
    if has_component_structure(extract_dir, component_type) {
        return Some(extract_dir);
    }
    let ghost fits = |e: DirEntry| is_component_root(e, component_type);
    let mut i: usize = 0;
    while i < extract_dir.entries.len()
        invariant
            i <= extract_dir.entries@.len(),
            !looks_like(*extract_dir, component_type),
            fits == (|e: DirEntry| is_component_root(e, component_type)),
            forall|j: int| 0 <= j < i ==> !fits(#[trigger] extract_dir.entries@[j]),
        decreases extract_dir.entries@.len() - i,
    {
        if let EntryKind::Dir(d) = &extract_dir.entries[i].kind {
            if has_component_structure(d, component_type) {
                proof {
                    lemma_first_fit_some(extract_dir.entries@, fits, i as int);
                }
                return Some(d);
            }
        }
        i = i + 1;
    }
    proof {
        lemma_first_fit_none(extract_dir.entries@, fits);
    }
    None
}

/// What a wallpaper is installed from.
#[derive(Debug, Clone, Copy, PartialEq, Eq, Structural)]
pub enum WallpaperSource {
    Dir(usize),
    File(usize),
}

/// The entry is an image file.
pub open spec fn is_image_file(entry: DirEntry) -> bool {
    &&& entry.kind is File
    &&& entry.name matches Some(name) && names_image(lowercased(name@))
}

/// The wallpaper in an archive: the first directory with `contents` or a `metadata.json`, or else
/// the first image file directly in the archive.
pub open spec fn wallpaper_source(root: DirNode) -> Option<WallpaperSource> {
    match first_fit(
        dirs_of(root),
        |d: DirNode| holds(d, "contents"@) || holds(d, "metadata.json"@),
    ) {
        Some(d) => Some(WallpaperSource::Dir(d.handle)),
        None => match first_fit(root.entries@, |e: DirEntry| is_image_file(e)) {
            Some(e) => Some(WallpaperSource::File(e.kind->File_0)),
            None => None,
        },
    }
}

pub fn find_wallpaper_source(extract_dir: &DirNode) -> (r: Option<WallpaperSource>)
    ensures
        r == wallpaper_source(*extract_dir),
{
    let is_package = |d: &DirNode| -> (b: bool)
        ensures
            b == (holds(*d, "contents"@) || holds(*d, "metadata.json"@)),
        { has_entry(d, "contents") || has_entry(d, "metadata.json") };
    if let Some(dir) = find_first_dir(
        extract_dir,
        &is_package,
        Ghost(|d: DirNode| holds(d, "contents"@) || holds(d, "metadata.json"@)),
    ) {
        return Some(WallpaperSource::Dir(dir.handle));
    }
    let ghost package = |d: DirNode| holds(d, "contents"@) || holds(d, "metadata.json"@);
    let ghost fits = |e: DirEntry| is_image_file(e);
    let mut i: usize = 0;
    while i < extract_dir.entries.len()
        invariant
            i <= extract_dir.entries@.len(),
            package == (|d: DirNode| holds(d, "contents"@) || holds(d, "metadata.json"@)),
            first_fit(dirs_of(*extract_dir), package) is None,
            fits == (|e: DirEntry| is_image_file(e)),
            forall|j: int| 0 <= j < i ==> !fits(#[trigger] extract_dir.entries@[j]),
        decreases extract_dir.entries@.len() - i,
    {
        let entry = &extract_dir.entries[i];
        if let EntryKind::File(handle) = &entry.kind {
            if let Some(name) = &entry.name {
                let lower = lowercase(name.as_str());
                if has_image_extension(lower.as_str()) {
                    proof {
                        lemma_first_fit_some(extract_dir.entries@, fits, i as int);
                    }
                    return Some(WallpaperSource::File(*handle));
                }
            }
        }
        i = i + 1;
    }
    proof {
        lemma_first_fit_none(extract_dir.entries@, fits);
    }
    None
}

/// Whether a downloaded file is the component itself, by its name in lower case.
pub open spec fn is_single_file(lower: Seq<char>, component_type: ComponentType) -> bool {
    match component_type {
        ComponentType::ColorScheme => names_color_scheme(lower),
        ComponentType::Wallpaper => names_image(lower),
        _ => false,
    }
}

pub fn is_single_file_name(lower: &str, component_type: ComponentType) -> (b: bool)
    ensures
        b == is_single_file(lower@, component_type),
{
    match component_type {
        ComponentType::ColorScheme => has_color_scheme_extension(lower),
        ComponentType::Wallpaper => has_image_extension(lower),
        _ => false,
    }
}

/// Whether a downloaded file is the component itself and no archive. A file has no name where its
/// name is not valid Unicode.
pub fn is_single_file_component(file_name: Option<&str>, component_type: ComponentType) -> (b: bool)
    ensures
        b == match file_name {
            Some(name) => is_single_file(lowercased(name@), component_type),
            None => false,
        },
{
    match file_name {
        Some(name) => is_single_file_name(lowercase(name).as_str(), component_type),
        None => false,
    }
}

// --- What the searches find ---

/// A directory holds a name exactly if one of its entries has it and leads somewhere.
pub proof fn law_what_a_directory_holds(dir: DirNode, name: Seq<char>)
    ensures
        holds(dir, name) <==> exists|i: int|
            {
                &&& 0 <= i < dir.entries@.len()
                &&& !((#[trigger] dir.entries@[i]).kind is Dangling)
                &&& dir.entries@[i].name is Some
                &&& dir.entries@[i].name->0@ == name
            },
{
    if exists|i: int|
        {
            &&& 0 <= i < dir.entries@.len()
            &&& !((#[trigger] dir.entries@[i]).kind is Dangling)
            &&& dir.entries@[i].name is Some
            &&& dir.entries@[i].name->0@ == name
        } {
        let i = choose|i: int|
            {
                &&& 0 <= i < dir.entries@.len()
                &&& !((#[trigger] dir.entries@[i]).kind is Dangling)
                &&& dir.entries@[i].name is Some
                &&& dir.entries@[i].name->0@ == name
            };
        assert(is_named(dir.entries@[i], name));
    }
    if holds(dir, name) {
        let i = choose|i: int|
            0 <= i < dir.entries@.len() && is_named(#[trigger] dir.entries@[i], name);
        assert(dir.entries@[i].name->0@ == name);
    }
}

proof fn lemma_dirs_among_flat(entries: Seq<DirEntry>)
    ensures
        dirs_among(entries) == entries.map_values(
            |e: DirEntry|
                match e.kind {
                    EntryKind::Dir(d) => dirs_of(d),
                    _ => Seq::empty(),
                },
        ).flatten(),
    decreases entries.len(),
{
    let below = |e: DirEntry|
        match e.kind {
            EntryKind::Dir(d) => dirs_of(d),
            _ => Seq::empty(),
        };
    if entries.len() > 0 {
        lemma_dirs_among_flat(entries.drop_last());
        assert(entries.map_values(below) =~= entries.drop_last().map_values(below).push(
            below(entries.last()),
        ));
        entries.drop_last().map_values(below).lemma_flatten_push(below(entries.last()));
    } else {
        assert(entries.map_values(below) =~= Seq::empty());
    }
}

proof fn lemma_files_among_flat(entries: Seq<DirEntry>)
    ensures
        files_among(entries) == entries.map_values(
            |e: DirEntry|
                match e.kind {
                    EntryKind::Dir(d) => files_of(d),
                    EntryKind::File(_) => seq![e],
                    _ => Seq::empty(),
                },
        ).flatten(),
    decreases entries.len(),
{
    let below = |e: DirEntry|
        match e.kind {
            EntryKind::Dir(d) => files_of(d),
            EntryKind::File(_) => seq![e],
            _ => Seq::empty(),
        };
    if entries.len() > 0 {
        lemma_files_among_flat(entries.drop_last());
        assert(entries.map_values(below) =~= entries.drop_last().map_values(below).push(
            below(entries.last()),
        ));
        entries.drop_last().map_values(below).lemma_flatten_push(below(entries.last()));
    } else {
        assert(entries.map_values(below) =~= Seq::empty());
    }
}

/// A search goes through a directory itself, then through each directory in it with all below that,
/// in the order in which they are listed; and through the files likewise. None is left out, and
/// nothing else is looked at.
pub proof fn law_search_goes_through_everything(dir: DirNode)
    ensures
        dirs_of(dir) == seq![dir] + dir.entries@.map_values(
            |e: DirEntry|
                match e.kind {
                    EntryKind::Dir(d) => dirs_of(d),
                    _ => Seq::empty(),
                },
        ).flatten(),
        files_of(dir) == dir.entries@.map_values(
            |e: DirEntry|
                match e.kind {
                    EntryKind::Dir(d) => files_of(d),
                    EntryKind::File(_) => seq![e],
                    _ => Seq::empty(),
                },
        ).flatten(),
{
    lemma_dirs_among_flat(dir.entries@);
    lemma_files_among_flat(dir.entries@);
}

/// The directory stands in the archive, holds this name, and is the first that does.
pub open spec fn is_first_holding(root: DirNode, dir: DirNode, name: Seq<char>) -> bool {
    exists|k: int|
        {
            &&& 0 <= k < dirs_of(root).len()
            &&& #[trigger] dirs_of(root)[k] == dir
            &&& holds(dir, name)
            &&& forall|j: int| 0 <= j < k ==> !holds(#[trigger] dirs_of(root)[j], name)
        }
}

/// No directory of the archive holds this name.
pub open spec fn nowhere_held(root: DirNode, name: Seq<char>) -> bool {
    forall|j: int| 0 <= j < dirs_of(root).len() ==> !holds(#[trigger] dirs_of(root)[j], name)
}

proof fn lemma_first_holding(root: DirNode, name: Seq<char>)
    ensures
        match first_fit(dirs_of(root), |d: DirNode| holds(d, name)) {
            Some(dir) => is_first_holding(root, dir, name),
            None => nowhere_held(root, name),
        },
{
    let fits = |d: DirNode| holds(d, name);
    law_first_fit(dirs_of(root), fits);
    match first_fit(dirs_of(root), fits) {
        Some(dir) => {
            let k = choose|k: int|
                {
                    &&& 0 <= k < dirs_of(root).len()
                    &&& #[trigger] dirs_of(root)[k] == dir
                    &&& fits(dir)
                    &&& forall|i: int| 0 <= i < k ==> !fits(#[trigger] dirs_of(root)[i])
                };
            assert forall|j: int| 0 <= j < k implies !holds(#[trigger] dirs_of(root)[j], name) by {
                assert(!fits(dirs_of(root)[j]));
            }
            assert(dirs_of(root)[k] == dir);
        },
        None => {
            assert forall|j: int| 0 <= j < dirs_of(root).len() implies !holds(
                #[trigger] dirs_of(root)[j],
                name,
            ) by {
                assert(!fits(dirs_of(root)[j]));
            }
        },
    }
}

/// The directory of a package is the first in the archive with a `metadata.json`, or, if there is
/// none, the first with a `metadata.desktop`. It is not found only if there is neither.
pub proof fn law_package_is_found_by_its_metadata(root: DirNode)
    ensures
        match package_dir(root) {
            Some(dir) => is_first_holding(root, dir, "metadata.json"@) || (nowhere_held(
                root,
                "metadata.json"@,
            ) && is_first_holding(root, dir, "metadata.desktop"@)),
            None => nowhere_held(root, "metadata.json"@) && nowhere_held(
                root,
                "metadata.desktop"@,
            ),
        },
{
    lemma_first_holding(root, "metadata.json"@);
    lemma_first_holding(root, "metadata.desktop"@);
}

/// The directory of an icon theme is the first in the archive with an `index.theme`. It is not found
/// only if there is none.
pub proof fn law_icon_theme_is_found_by_its_index(root: DirNode)
    ensures
        match icon_theme_dir(root) {
            Some(dir) => is_first_holding(root, dir, "index.theme"@),
            None => nowhere_held(root, "index.theme"@),
        },
{
    lemma_first_holding(root, "index.theme"@);
}

/// The names that mark the root of a component of a kind that is installed as a directory.
pub open spec fn has_mark(dir: DirNode, component_type: ComponentType) -> bool {
    ||| component_type is AuroraeDecoration && (holds(dir, "decoration.svg"@) || holds(
        dir,
        "aurorae"@,
    ))
    ||| (component_type is GlobalTheme || component_type is SplashScreen) && (holds(
        dir,
        "metadata.json"@,
    ) || holds(dir, "metadata.desktop"@))
    ||| component_type is PlasmaStyle && (holds(dir, "colors"@) || holds(dir, "widgets"@) || holds(
        dir,
        "metadata.desktop"@,
    ))
    ||| component_type is SddmTheme && (holds(dir, "theme.conf"@) || holds(dir, "Main.qml"@))
    ||| component_type is KWinSwitcher && (holds(dir, "metadata.json"@) || holds(dir, "contents"@))
}

/// A directory looks like the root of a component exactly if it has a mark of the kind.
pub proof fn law_component_is_told_by_its_marks(dir: DirNode, component_type: ComponentType)
    ensures
        looks_like(dir, component_type) == has_mark(dir, component_type),
{
}

/// The root of a component is the top of the archive if that has a mark of the kind, else the first
/// directory directly in it that has one. It is not found only if there is none.
pub proof fn law_component_root_has_the_mark(root: DirNode, component_type: ComponentType)
    ensures
        match component_root(root, component_type) {
            Some(dir) => (dir == root && has_mark(root, component_type)) || (!has_mark(
                root,
                component_type,
            ) && exists|k: int|
                {
                    &&& 0 <= k < root.entries@.len()
                    &&& (#[trigger] root.entries@[k]).kind == EntryKind::Dir(dir)
                    &&& has_mark(dir, component_type)
                    &&& forall|j: int|
                        0 <= j < k && (#[trigger] root.entries@[j]).kind is Dir ==> !has_mark(
                            root.entries@[j].kind->Dir_0,
                            component_type,
                        )
                }),
            None => !has_mark(root, component_type) && forall|j: int|
                0 <= j < root.entries@.len() && (#[trigger] root.entries@[j]).kind is Dir
                    ==> !has_mark(root.entries@[j].kind->Dir_0, component_type),
        },
{
    let fits = |e: DirEntry| is_component_root(e, component_type);
    law_first_fit(root.entries@, fits);
    if !looks_like(root, component_type) {
        match first_fit(root.entries@, fits) {
            Some(entry) => {
                let k = choose|k: int|
                    {
                        &&& 0 <= k < root.entries@.len()
                        &&& #[trigger] root.entries@[k] == entry
                        &&& fits(entry)
                        &&& forall|i: int| 0 <= i < k ==> !fits(#[trigger] root.entries@[i])
                    };
                assert(root.entries@[k].kind == EntryKind::Dir(entry.kind->Dir_0));
                assert forall|j: int|
                    0 <= j < k && (#[trigger] root.entries@[j]).kind is Dir implies !has_mark(
                    root.entries@[j].kind->Dir_0,
                    component_type,
                ) by {
                    assert(!fits(root.entries@[j]));
                }
            },
            None => {
                assert forall|j: int|
                    0 <= j < root.entries@.len() && (#[trigger] root.entries@[j]).kind
                        is Dir implies !has_mark(root.entries@[j].kind->Dir_0, component_type) by {
                    assert(!fits(root.entries@[j]));
                }
            },
        }
    }
}

/// Whether an entry is a file with an image's extension, in whatever case.
pub open spec fn is_image(entry: DirEntry) -> bool {
    &&& entry.kind is File
    &&& entry.name is Some
    &&& ({
        let lower = lowercased(entry.name->0@);
        ||| finishes_with(lower, ".jpg"@)
        ||| finishes_with(lower, ".jpeg"@)
        ||| finishes_with(lower, ".png"@)
        ||| finishes_with(lower, ".webp"@)
        ||| finishes_with(lower, ".svg"@)
    })
}

/// Whether a directory is a wallpaper.
pub open spec fn is_wallpaper_dir(dir: DirNode) -> bool {
    holds(dir, "contents"@) || holds(dir, "metadata.json"@)
}

/// A wallpaper is the first directory of the archive that has contents or metadata; if there is
/// none, the first image file at the top of the archive. It is not found only if there is neither.
pub proof fn law_wallpaper_is_a_directory_or_an_image(root: DirNode)
    ensures
        match wallpaper_source(root) {
            Some(WallpaperSource::Dir(handle)) => exists|k: int|
                {
                    &&& 0 <= k < dirs_of(root).len()
                    &&& (#[trigger] dirs_of(root)[k]).handle == handle
                    &&& is_wallpaper_dir(dirs_of(root)[k])
                    &&& forall|j: int|
                        0 <= j < k ==> !is_wallpaper_dir(#[trigger] dirs_of(root)[j])
                },
            Some(WallpaperSource::File(handle)) => {
                &&& forall|j: int|
                    0 <= j < dirs_of(root).len() ==> !is_wallpaper_dir(#[trigger] dirs_of(root)[j])
                &&& exists|k: int|
                    {
                        &&& 0 <= k < root.entries@.len()
                        &&& (#[trigger] root.entries@[k]).kind == EntryKind::File(handle)
                        &&& is_image(root.entries@[k])
                        &&& forall|j: int| 0 <= j < k ==> !is_image(#[trigger] root.entries@[j])
                    }
            },
            None => {
                &&& forall|j: int|
                    0 <= j < dirs_of(root).len() ==> !is_wallpaper_dir(#[trigger] dirs_of(root)[j])
                &&& forall|j: int|
                    0 <= j < root.entries@.len() ==> !is_image(#[trigger] root.entries@[j])
            },
        },
{
    let package = |d: DirNode| holds(d, "contents"@) || holds(d, "metadata.json"@);
    let picture = |e: DirEntry| is_image_file(e);
    let dirs = dirs_of(root);
    law_first_fit(dirs, package);
    law_first_fit(root.entries@, picture);
    match first_fit(dirs, package) {
        Some(dir) => {
            let k = choose|k: int|
                {
                    &&& 0 <= k < dirs.len()
                    &&& #[trigger] dirs[k] == dir
                    &&& package(dir)
                    &&& forall|i: int| 0 <= i < k ==> !package(#[trigger] dirs[i])
                };
            assert forall|j: int| 0 <= j < k implies !is_wallpaper_dir(
                #[trigger] dirs_of(root)[j],
            ) by {
                assert(!package(dirs[j]));
            }
            assert(dirs_of(root)[k].handle == dir.handle);
        },
        None => {
            assert forall|j: int| 0 <= j < dirs_of(root).len() implies !is_wallpaper_dir(
                #[trigger] dirs_of(root)[j],
            ) by {
                assert(!package(dirs[j]));
            }
            match first_fit(root.entries@, picture) {
                Some(entry) => {
                    let k = choose|k: int|
                        {
                            &&& 0 <= k < root.entries@.len()
                            &&& #[trigger] root.entries@[k] == entry
                            &&& picture(entry)
                            &&& forall|i: int| 0 <= i < k ==> !picture(#[trigger] root.entries@[i])
                        };
                    assert(root.entries@[k].kind == EntryKind::File(entry.kind->File_0));
                    assert forall|j: int| 0 <= j < k implies !is_image(
                        #[trigger] root.entries@[j],
                    ) by {
                        assert(!picture(root.entries@[j]));
                    }
                },
                None => {
                    assert forall|j: int| 0 <= j < root.entries@.len() implies !is_image(
                        #[trigger] root.entries@[j],
                    ) by {
                        assert(!picture(root.entries@[j]));
                    }
                },
            }
        },
    }
}

/// Whether an entry is a file with the extension of a color scheme.
pub open spec fn is_scheme(entry: DirEntry) -> bool {
    &&& entry.kind is File
    &&& entry.name is Some
    &&& finishes_with(entry.name->0@, ".colors"@) || finishes_with(
        entry.name->0@,
        ".colorscheme"@,
    )
}

/// The color scheme of an archive is its first file with the extension of one, wherever it stands.
/// It is not found only if there is none.
pub proof fn law_color_scheme_is_found_by_its_extension(root: DirNode)
    ensures
        match first_fit(files_of(root), |e: DirEntry| is_color_scheme_file(e)) {
            Some(entry) => exists|k: int|
                {
                    &&& 0 <= k < files_of(root).len()
                    &&& #[trigger] files_of(root)[k] == entry
                    &&& is_scheme(entry)
                    &&& forall|j: int| 0 <= j < k ==> !is_scheme(#[trigger] files_of(root)[j])
                },
            None => forall|j: int|
                0 <= j < files_of(root).len() ==> !is_scheme(#[trigger] files_of(root)[j]),
        },
{
    let fits = |e: DirEntry| is_color_scheme_file(e);
    let files = files_of(root);
    law_first_fit(files, fits);
    lemma_files_are_files(root);
    match first_fit(files, fits) {
        Some(entry) => {
            let k = choose|k: int|
                {
                    &&& 0 <= k < files.len()
                    &&& #[trigger] files[k] == entry
                    &&& fits(entry)
                    &&& forall|i: int| 0 <= i < k ==> !fits(#[trigger] files[i])
                };
            assert forall|j: int| 0 <= j < k implies !is_scheme(#[trigger] files_of(root)[j]) by {
                assert(!fits(files[j]));
            }
            assert(files_of(root)[k] == entry);
        },
        None => {
            assert forall|j: int| 0 <= j < files_of(root).len() implies !is_scheme(
                #[trigger] files_of(root)[j],
            ) by {
                assert(!fits(files[j]));
            }
        },
    }
}

/// A download is the component itself exactly if it is a color scheme or a wallpaper by the kind of
/// the component and by the extension of its name.
pub proof fn law_single_files_are_told_by_kind_and_extension(
    lower: Seq<char>,
    component_type: ComponentType,
)
    ensures
        is_single_file(lower, component_type) <==> {
            ||| component_type is ColorScheme && (finishes_with(lower, ".colors"@)
                || finishes_with(lower, ".colorscheme"@))
            ||| component_type is Wallpaper && (finishes_with(lower, ".jpg"@) || finishes_with(
                lower,
                ".jpeg"@,
            ) || finishes_with(lower, ".png"@) || finishes_with(lower, ".webp"@) || finishes_with(
                lower,
                ".svg"@,
            ))
        },
{
}

} // verus!
