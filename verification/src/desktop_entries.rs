//! The files that tell of applications.

use crate::text::{pieces, rsplit_once, split_last, view_opt, views};
use freedesktop_desktop_entry::unicase::Ascii;
use freedesktop_desktop_entry::{find_app_by_id, DesktopEntry};
use vstd::prelude::*;

verus! {

/// A file that tells of an application.
#[derive(Debug)]
pub struct DesktopFile {
    pub path: String,
    pub data: String,
    /// The name that the message catalogues of the machine give the application, for a file that
    /// leaves its translations to them. It stands in the place of the name that is not translated.
    pub message: Option<String>,
}

/// A file that tells of an application, as a value.
pub struct FileView {
    pub path: Seq<char>,
    pub data: Seq<char>,
    pub message: Option<Seq<char>>,
}

impl View for DesktopFile {
    type V = FileView;

    open spec fn view(&self) -> FileView {
        FileView { path: self.path@, data: self.data@, message: view_opt(self.message) }
    }
}

/// What such a file tells.
#[derive(Debug)]
pub struct EntryInfo {
    pub id: String,
    pub icon: Option<String>,
    /// The class of the windows of the application.
    pub wm_class: Option<String>,
}

/// The identifier, the icon and the class of windows that the file at a path with these contents
/// tells of, if it can be read with translations into these languages.
pub uninterp spec fn desktop_entry(
    path: Seq<char>,
    data: Seq<char>,
    kept: Seq<Seq<char>>,
) -> Option<(Seq<char>, Option<Seq<char>>, Option<Seq<char>>)>;

/// The name that the file at a path with these contents, read with translations into the first
/// languages, gives the application in the first of the second languages that it has. The message
/// stands in the place of the name that is not translated.
pub uninterp spec fn desktop_entry_name(
    path: Seq<char>,
    data: Seq<char>,
    message: Option<Seq<char>>,
    kept: Seq<Seq<char>>,
    languages: Seq<Seq<char>>,
) -> Option<Seq<char>>;

/// Which of some files, read with translations into these languages, tells of an application. A file
/// is its path, its contents and its message.
pub uninterp spec fn app_file(
    files: Seq<(Seq<char>, Seq<char>, Option<Seq<char>>)>,
    kept: Seq<Seq<char>>,
    app_id: Seq<char>,
) -> Option<usize>;

/// What a file tells of an application, as `freedesktop_desktop_entry::DesktopEntry::from_str` reads
/// it with translations into the languages that are kept, with the results of `id`, `icon` and
/// `startup_wm_class`. All of it depends on the path, the contents and the languages alone.
#[verifier::external_body]
pub(crate) fn read_entry(path: &str, data: &str, kept: &Vec<String>) -> (r: Option<EntryInfo>)
    ensures
        match r {
            Some(entry) => desktop_entry(path@, data@, views(kept@)) == Some(
                (entry.id@, view_opt(entry.icon), view_opt(entry.wm_class)),
            ),
            None => desktop_entry(path@, data@, views(kept@)) is None,
        },
{
    let entry = DesktopEntry::from_str(path, data, Some(kept.as_slice())).ok()?;
    let id = entry.id().to_string();
    let icon = entry.icon().map(str::to_string);
    Some(EntryInfo { id, icon, wm_class: entry.startup_wm_class().map(str::to_string) })
}

/// The name of an application, as `freedesktop_desktop_entry::DesktopEntry::name` finds it in a file
/// that `DesktopEntry::from_str` reads. The message of the file, if there is one, is put in the place
/// of the name that is not translated, and the domain by which `name` would look into the message
/// catalogues of the machine is taken out. So the name depends on the arguments alone: it is one of
/// those in the file, or the message. A file that cannot be read gives none, and where no language is
/// wanted a message is the name.
#[verifier::external_body]
pub(crate) fn entry_name(
    file: &DesktopFile,
    kept: &Vec<String>,
    languages: &Vec<String>,
) -> (r: Option<String>)
    ensures
        view_opt(r) == desktop_entry_name(
            file@.path,
            file@.data,
            file@.message,
            views(kept@),
            views(languages@),
        ),
        desktop_entry(file@.path, file@.data, views(kept@)) is None ==> r is None,
        file.message is Some && r is Some && languages@.len() == 0 ==> view_opt(r) == file@.message,
{
    let mut entry = DesktopEntry::from_str(&file.path, &file.data, Some(kept.as_slice())).ok()?;
    entry.ubuntu_gettext_domain = None;
    if let Some(message) = &file.message {
        let name = entry.groups.0.get_mut("Desktop Entry")?.0.get_mut("Name")?;
        name.0 = message.clone();
    }
    entry.name(languages).map(|name| name.into_owned())
}

/// Files as values.
pub open spec fn file_views(files: Seq<DesktopFile>) -> Seq<FileView> {
    files.map_values(|file: DesktopFile| file@)
}

/// The paths, contents and messages of files.
pub open spec fn file_parts(
    files: Seq<FileView>,
) -> Seq<(Seq<char>, Seq<char>, Option<Seq<char>>)> {
    files.map_values(|file: FileView| (file.path, file.data, file.message))
}

/// What a file tells, read with translations into these languages.
pub open spec fn entry_of(file: FileView, kept: Seq<Seq<char>>) -> Option<
    (Seq<char>, Option<Seq<char>>, Option<Seq<char>>),
> {
    desktop_entry(file.path, file.data, kept)
}

/// Whether all files can be read with translations into these languages.
pub open spec fn all_readable(files: Seq<FileView>, kept: Seq<Seq<char>>) -> bool {
    forall|i: int| 0 <= i < files.len() ==> entry_of(#[trigger] files[i], kept) is Some
}

/// A letter from A to Z made small; any other as it is.
pub open spec fn small_letter(c: char) -> char {
    if 'A' <= c <= 'Z' {
        (c as u8 + 32) as char
    } else {
        c
    }
}

/// Whether two texts are the same but for the size of the letters from A to Z.
pub open spec fn same_letters(a: Seq<char>, b: Seq<char>) -> bool {
    a.map_values(|c: char| small_letter(c)) == b.map_values(|c: char| small_letter(c))
}

/// The name of a file without what is behind its last dot. A dot that begins the name does not
/// count.
pub open spec fn file_stem(path: Seq<char>) -> Seq<char> {
    let name = match split_last(path, '/') {
        Some((_, name)) => name,
        None => path,
    };
    match split_last(name, '.') {
        Some((stem, _)) => if stem.len() > 0 {
            stem
        } else {
            name
        },
        None => name,
    }
}

/// The name of a file without what is behind its last dot.
pub(crate) fn stem_of(path: &str) -> (r: String)
    ensures
        r@ == file_stem(path@),
{
    let name = match rsplit_once(path, '/') {
        Some((_, name)) => name,
        None => path.to_owned(),
    };
    match rsplit_once(name.as_str(), '.') {
        Some((stem, _)) => if stem.as_str().unicode_len() > 0 {
            stem
        } else {
            name
        },
        None => name,
    }
}

/// Whether a file says that the windows of an application are of a class with its identifier.
pub open spec fn has_class(file: FileView, kept: Seq<Seq<char>>, app_id: Seq<char>) -> bool {
    entry_of(file, kept) matches Some((_, _, Some(class))) && same_letters(class, app_id)
}

/// Whether a file has the identifier of an application: as its own one, as its name, or as its name
/// behind the last dot of the identifier.
pub open spec fn has_id(file: FileView, kept: Seq<Seq<char>>, app_id: Seq<char>) -> bool {
    entry_of(file, kept) matches Some((id, _, _)) && {
        ||| same_letters(id, app_id)
        ||| same_letters(file_stem(file.path), app_id)
        ||| pieces(app_id, '.').last() == file_stem(file.path)
    }
}

/// Whether a file is the first one with the class of an application.
pub open spec fn is_first_with_class(
    files: Seq<FileView>,
    kept: Seq<Seq<char>>,
    app_id: Seq<char>,
    i: int,
) -> bool {
    &&& 0 <= i < files.len()
    &&& has_class(files[i], kept, app_id)
    &&& forall|j: int| 0 <= j < i ==> !has_class(#[trigger] files[j], kept, app_id)
}

/// Whether a file is the first one with the identifier of an application.
pub open spec fn is_first_with_id(
    files: Seq<FileView>,
    kept: Seq<Seq<char>>,
    app_id: Seq<char>,
    i: int,
) -> bool {
    &&& 0 <= i < files.len()
    &&& has_id(files[i], kept, app_id)
    &&& forall|j: int| 0 <= j < i ==> !has_id(#[trigger] files[j], kept, app_id)
}

/// Whether what was found is one of the files: the first one with the class of the application, or
/// the first one with its identifier where none has the class.
pub open spec fn prefers_class_and_id(
    files: Seq<FileView>,
    kept: Seq<Seq<char>>,
    app_id: Seq<char>,
    found: Option<usize>,
) -> bool {
    &&& found matches Some(i) ==> i < files.len()
    &&& forall|i: int| #[trigger]
        is_first_with_class(files, kept, app_id, i) ==> found == Some(i as usize)
    &&& forall|i: int| #[trigger]
        is_first_with_id(files, kept, app_id, i) && (forall|j: int|
            0 <= j < files.len() ==> !has_class(#[trigger] files[j], kept, app_id)) ==> found
            == Some(i as usize)
}

/// Which file tells of an application, as `freedesktop_desktop_entry::find_app_by_id` finds it among
/// the files as `DesktopEntry::from_str` reads them, each with its message as its name if it has one
/// and without the domain by which names would be looked up in the message catalogues of the
/// machine. Which one it is depends on the arguments alone. The first file with the class of the
/// application comes before all others, and behind that the first one with its identifier; behind
/// these `find_app_by_id` compares names and commands.
#[verifier::external_body]
fn get_desktop_entry(files: &Vec<DesktopFile>, kept: &Vec<String>, app_id: &str) -> (r: Option<usize>)
    requires
        all_readable(file_views(files@), views(kept@)),
    ensures
        r == app_file(file_parts(file_views(files@)), views(kept@), app_id@),
        prefers_class_and_id(file_views(files@), views(kept@), app_id@, r),
{
    let mut entries = Vec::new();
    for file in files {
        let mut entry = DesktopEntry::from_str(&file.path, &file.data, Some(kept.as_slice())).ok()?;
        entry.ubuntu_gettext_domain = None;
        if let Some(message) = &file.message {
            entry.add_desktop_entry("Name".to_string(), message.clone());
        }
        entries.push(entry);
    }
    let found = find_app_by_id(&entries, Ascii::new(app_id))?;
    entries.iter().position(|entry| std::ptr::eq(entry, found))
}

/// The files that can be read, in their order.
pub open spec fn readable(files: Seq<FileView>, kept: Seq<Seq<char>>) -> Seq<FileView>
    decreases files.len(),
{
    if files.len() == 0 {
        Seq::empty()
    } else {
        let rest = readable(files.drop_last(), kept);
        if entry_of(files.last(), kept) is Some {
            rest.push(files.last())
        } else {
            rest
        }
    }
}

/// A copy of a file.
fn copy_file(file: &DesktopFile) -> (r: DesktopFile)
    ensures
        r@ == file@,
{
    let message = match &file.message {
        Some(message) => Some(message.clone()),
        None => None,
    };
    DesktopFile { path: file.path.clone(), data: file.data.clone(), message }
}

/// The files that can be read, in their order.
pub fn load_desktop_entries(files: &Vec<DesktopFile>, kept: &Vec<String>) -> (r: Vec<DesktopFile>)
    ensures
        file_views(r@) == readable(file_views(files@), views(kept@)),
        all_readable(file_views(r@), views(kept@)),
{
    let mut r: Vec<DesktopFile> = Vec::new();
    let mut i: usize = 0;
    let ghost all = file_views(files@);
    proof {
        assert(all.take(0) =~= Seq::<FileView>::empty());
        assert(file_views(r@) =~= Seq::<FileView>::empty());
    }
    while i < files.len()
        invariant
            i <= files@.len(),
            all == file_views(files@),
            file_views(r@) == readable(all.take(i as int), views(kept@)),
            all_readable(file_views(r@), views(kept@)),
        decreases files@.len() - i,
    {
        let file = &files[i];
        proof {
            assert(all.take(i + 1).drop_last() =~= all.take(i as int));
            assert(all.take(i + 1).last() == file@);
        }
        if read_entry(file.path.as_str(), file.data.as_str(), kept).is_some() {
            let ghost before = r@;
            r.push(copy_file(file));
            proof {
                assert(file_views(r@) =~= file_views(before).push(file@));
            }
        }
        i = i + 1;
    }
    proof {
        assert(all.take(i as int) =~= all);
    }
    r
}

/// The name and the icon that a file tells of, if there is one, in the languages that are kept.
pub open spec fn told(files: Seq<FileView>, kept: Seq<Seq<char>>, found: Option<usize>) -> (
    Option<Seq<char>>,
    Option<Seq<char>>,
) {
    match found {
        Some(i) => {
            let file = files[i as int];
            match entry_of(file, kept) {
                Some((_, icon, _)) => (
                    desktop_entry_name(file.path, file.data, file.message, kept, kept),
                    icon,
                ),
                None => (None, None),
            }
        },
        None => (None, None),
    }
}

/// The name and the icon that a file tells of, if there is one, in the languages that are kept.
pub fn name_and_icon(
    files: &Vec<DesktopFile>,
    kept: &Vec<String>,
    found: Option<usize>,
) -> (r: (Option<String>, Option<String>))
    requires
        found matches Some(i) ==> i < files@.len(),
    ensures
        (view_opt(r.0), view_opt(r.1)) == told(file_views(files@), views(kept@), found),
{
    match found {
        Some(i) => match read_entry(files[i].path.as_str(), files[i].data.as_str(), kept) {
            Some(entry) => (entry_name(&files[i], kept, kept), entry.icon),
            None => (None, None),
        },
        None => (None, None),
    }
}

/// The name and the icon of an application, in the languages that are kept, as the file that tells
/// of it has them.
pub open spec fn described(files: Seq<FileView>, kept: Seq<Seq<char>>, app_id: Seq<char>) -> (
    Option<Seq<char>>,
    Option<Seq<char>>,
) {
    told(files, kept, app_file(file_parts(files), kept, app_id))
}

/// Whether the file that tells of an application is the first one with its class, or the first one
/// with its identifier where none has the class.
pub open spec fn finds_by_class_and_id(
    files: Seq<FileView>,
    kept: Seq<Seq<char>>,
    app_id: Seq<char>,
) -> bool {
    prefers_class_and_id(files, kept, app_id, app_file(file_parts(files), kept, app_id))
}

/// The name and the icon of an application, in the languages that are kept, as the file that tells
/// of it among those that can be read has them.
pub fn describe(files: &Vec<DesktopFile>, kept: &Vec<String>, app_id: &str) -> (r: (
    Option<String>,
    Option<String>,
))
    ensures
        (view_opt(r.0), view_opt(r.1)) == described(
            readable(file_views(files@), views(kept@)),
            views(kept@),
            app_id@,
        ),
        finds_by_class_and_id(readable(file_views(files@), views(kept@)), views(kept@), app_id@),
{
    let entries = load_desktop_entries(files, kept);
    describe_among(&entries, kept, app_id)
}

/// The name and the icon of an application, as the file that tells of it has them. All files can be
/// read.
pub(crate) fn describe_among(entries: &Vec<DesktopFile>, kept: &Vec<String>, app_id: &str) -> (r: (
    Option<String>,
    Option<String>,
))
    requires
        all_readable(file_views(entries@), views(kept@)),
    ensures
        (view_opt(r.0), view_opt(r.1)) == described(file_views(entries@), views(kept@), app_id@),
        finds_by_class_and_id(file_views(entries@), views(kept@), app_id@),
{
    let found = get_desktop_entry(entries, kept, app_id);
    name_and_icon(entries, kept, found)
}

/// A file that can be read stays, and no other does.
pub proof fn law_readable_files_stay(files: Seq<FileView>, kept: Seq<Seq<char>>, file: FileView)
    ensures
        readable(files, kept).contains(file) <==> files.contains(file) && desktop_entry(
            file.path,
            file.data,
            kept,
        ) is Some,
    decreases files.len(),
{
    if files.len() > 0 {
        let init = files.drop_last();
        let (all, rest) = (readable(files, kept), readable(init, kept));
        law_readable_files_stay(init, kept, file);
        if files.contains(file) && entry_of(file, kept) is Some {
            let k = choose|k: int| 0 <= k < files.len() && files[k] == file;
            if k < init.len() {
                assert(init[k] == file);
                let j = choose|j: int| 0 <= j < rest.len() && rest[j] == file;
                assert(all[j] == file);
            } else {
                assert(all.last() == file);
            }
        }
        if all.contains(file) {
            let j = choose|j: int| 0 <= j < all.len() && all[j] == file;
            if j < rest.len() {
                assert(rest[j] == file);
                let k = choose|k: int| 0 <= k < init.len() && init[k] == file;
                assert(files[k] == file);
            } else {
                assert(files[files.len() - 1] == file);
            }
        }
    }
}

/// Name and icon are those of the very file that was found, and there are none where none was found.
pub proof fn law_name_and_icon_are_of_the_file(files: Seq<FileView>, kept: Seq<Seq<char>>, i: usize)
    requires
        i < files.len(),
    ensures
        ({
            let file = files[i as int];
            desktop_entry(file.path, file.data, kept) matches Some((_, icon, _)) ==> told(
                files,
                kept,
                Some(i),
            ) == (desktop_entry_name(file.path, file.data, file.message, kept, kept), icon)
        }),
        told(files, kept, None) == (None::<Seq<char>>, None::<Seq<char>>),
{
}

/// An application is described by the first file with its class, whatever the other files are; and by the
/// first with its identifier where no file has the class.
pub proof fn law_application_is_described_by_its_file(
    files: Seq<FileView>,
    kept: Seq<Seq<char>>,
    app_id: Seq<char>,
    i: usize,
    id: Seq<char>,
    icon: Option<Seq<char>>,
)
    requires
        i < files.len(),
        finds_by_class_and_id(files, kept, app_id),
        ({
            ||| desktop_entry(files[i as int].path, files[i as int].data, kept) == Some(
                (id, icon, Some(app_id)),
            ) && forall|j: int|
                0 <= j < i ==> !has_class(#[trigger] files[j], kept, app_id)
            ||| desktop_entry(files[i as int].path, files[i as int].data, kept) == Some(
                (app_id, icon, None::<Seq<char>>),
            ) && (forall|j: int| 0 <= j < files.len() ==> !has_class(#[trigger] files[j], kept, app_id))
                && (forall|j: int| 0 <= j < i ==> !has_id(#[trigger] files[j], kept, app_id))
        }),
    ensures
        described(files, kept, app_id).1 == icon,
        described(files, kept, app_id).0 == desktop_entry_name(
            files[i as int].path,
            files[i as int].data,
            files[i as int].message,
            kept,
            kept,
        ),
{
    assert(same_letters(app_id, app_id));
    if desktop_entry(files[i as int].path, files[i as int].data, kept) == Some(
        (id, icon, Some(app_id)),
    ) && forall|j: int| 0 <= j < i ==> !has_class(#[trigger] files[j], kept, app_id) {
        assert(is_first_with_class(files, kept, app_id, i as int));
    } else {
        assert(is_first_with_id(files, kept, app_id, i as int));
    }
}

} // verus!
