use vstd::prelude::*;

use crate::desktop::AppInfo;
use crate::index::{inserted, KeyedIndex};
use crate::text::{lowercase_of, starts_with, starts_with_seq, to_lowercase};

verus! {

/// A file that the launcher can find: what the search reads of it.
pub struct FileEntry {
    /// Its path, as text.
    pub path: String,
    /// Its extension, when it has one that is valid Unicode.
    pub extension: Option<String>,
}

/// The texts that a `FileEntry` holds.
pub struct FileEntryView {
    pub path: Seq<char>,
    pub extension: Option<Seq<char>>,
}

impl View for FileEntry {
    type V = FileEntryView;

    open spec fn view(&self) -> FileEntryView {
        FileEntryView {
            path: self.path@,
            extension: match self.extension {
                Some(e) => Some(e@),
                None => None,
            },
        }
    }
}

impl FileEntry {
    /// A copy of this entry.
    pub fn copy(&self) -> (r: FileEntry)
        ensures
            r@ == self@,
    {
        FileEntry {
            path: self.path.clone(),
            extension: match &self.extension {
                Some(e) => Some(e.clone()),
                None => None,
            },
        }
    }
}

/// The texts of a sequence of strings.
pub open spec fn texts(s: Seq<String>) -> Seq<Seq<char>> {
    s.map_values(|x: String| x@)
}

/// What the launcher knows: the applications and files it has indexed, each under its
/// lowercase name, and the names of the applications opened recently, oldest first.
pub struct LauncherState {
    pub apps: KeyedIndex<AppInfo>,
    pub files: KeyedIndex<FileEntry>,
    pub recents: Vec<String>,
}

impl LauncherState {
    /// Both indexes are consistent.
    pub open spec fn wf(&self) -> bool {
        self.apps.wf() && self.files.wf()
    }

    /// A state with nothing indexed and nothing opened.
    pub fn new() -> (r: LauncherState)
        ensures
            r.wf(),
            r.apps@.len() == 0,
            r.files@.len() == 0,
            r.recents@.len() == 0,
    {
        LauncherState { apps: KeyedIndex::new(), files: KeyedIndex::new(), recents: Vec::new() }
    }

    /// Indexes an application under its lowercase name; a later application with the same
    /// lowercase name takes the place of the earlier one.
    pub fn index_app(&mut self, app: AppInfo)
        requires
            old(self).wf(),
        ensures
            final(self).wf(),
            final(self).apps@ == inserted(old(self).apps@, lowercase_of(app@.name), app@),
            final(self).files@ == old(self).files@,
            final(self).recents@ == old(self).recents@,
    {
        let key = to_lowercase(app.name.as_str());
        self.apps.insert(key, app);
    }

    /// Indexes a file named `file_name` under its lowercase name, unless the name starts
    /// with a dot (a hidden file), in which case nothing changes.
    pub fn index_file(&mut self, file_name: &str, entry: FileEntry)
        requires
            old(self).wf(),
        ensures
            final(self).wf(),
            starts_with_seq(file_name@, "."@) ==> final(self).files@ == old(self).files@,
            !starts_with_seq(file_name@, "."@) ==> final(self).files@ == inserted(
                old(self).files@,
                lowercase_of(file_name@),
                entry@,
            ),
            final(self).apps@ == old(self).apps@,
            final(self).recents@ == old(self).recents@,
    {
        if starts_with(file_name, ".") {
            return;
        }
        let key = to_lowercase(file_name);
        self.files.insert(key, entry);
    }

    /// Records that the application named `name` was opened.
    pub fn record_recent(&mut self, name: String)
        requires
            old(self).wf(),
        ensures
            final(self).wf(),
            texts(final(self).recents@) == texts(old(self).recents@).push(name@),
            final(self).apps@ == old(self).apps@,
            final(self).files@ == old(self).files@,
    {
        let ghost before = self.recents@;
        self.recents.push(name);
        assert(texts(self.recents@) =~= texts(before).push(self.recents@.last()@));
    }

    /// The numbers of indexed applications and files.
    pub fn get_index_stats(&self) -> (r: (usize, usize))
        ensures
            r.0 == self.apps@.len(),
            r.1 == self.files@.len(),
    {
        (self.apps.len(), self.files.len())
    }
}

} // verus!
