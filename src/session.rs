use vstd::prelude::*;

use crate::cursor::{next_index, previous_index, StatefulList};
use crate::listing::{
    entry_details, entry_names, is_parent_name, is_parent_ref, list_current_dir,
    make_file_already_exists_dest, details_of, listed, names_of, DirEntry, DirectorySnapshot,
    EntryKind,
};
use crate::names::{join, join_path, lemma_numbered_paste_spares_source, numbered_name};

verus! {

/// A copy or a move that waits for a paste, with the absolute path of its
/// source and the source's bare name.
pub enum PendingOperation {
    Idle,
    Copy { source_path: String, source_name: String },
    Cut { source_path: String, source_name: String },
}

/// Why a file operation was refused before anything on disk was touched.
#[derive(Clone, Copy, Debug, PartialEq, Eq, Structural)]
pub enum FsError {
    /// The listing is empty: there is no entry to act on.
    NothingSelected,
    /// The entry is `..`.
    Forbidden,
    /// The source is neither a file nor a directory, or cannot be inspected.
    Metadata,
}

/// What a paste does on disk.
#[derive(Clone, Copy, Debug, PartialEq, Eq, Structural)]
pub enum TransferKind {
    /// Copy a directory tree into the destination directory, overwriting.
    CopyDir,
    /// Copy one file to the destination path, overwriting.
    CopyFile,
    /// Move a directory tree into the destination directory, overwriting.
    MoveDir,
    /// Move one file to the destination path, overwriting.
    MoveFile,
}

/// A copy or a move to run on disk.
pub struct Transfer {
    pub kind: TransferKind,
    pub source: String,
    pub dest: String,
}

/// An entry to move to the trash: its absolute path and its bare name.
pub struct TrashRequest {
    pub path: String,
    pub name: String,
}

/// The state of one browsing session: the directory shown, its listing with
/// the cursor over it, the pending copy or move, and the status line.
pub struct App {
    pub path: String,
    pub view_items: StatefulList<DirEntry>,
    pub pending: PendingOperation,
    pub title: String,
}

/// The cursor after a listing is replaced: on the first entry, if any.
pub open spec fn reset_selection(len: nat) -> Option<usize> {
    if len > 0 {
        Some(0usize)
    } else {
        None
    }
}

/// `p` is a pending copy of the entry `name` at `path`.
pub open spec fn holds_copy(p: PendingOperation, path: Seq<char>, name: Seq<char>) -> bool {
    match p {
        PendingOperation::Copy { source_path, source_name } => source_path@ == path
            && source_name@ == name,
        _ => false,
    }
}

/// `p` is a pending move of the entry `name` at `path`.
pub open spec fn holds_cut(p: PendingOperation, path: Seq<char>, name: Seq<char>) -> bool {
    match p {
        PendingOperation::Cut { source_path, source_name } => source_path@ == path
            && source_name@ == name,
        _ => false,
    }
}

/// Where a file named `name` at `source` is pasted into `cwd`: under its own
/// name, or under a numbered name when that would be the source itself.
pub open spec fn file_dest(
    cwd: Seq<char>,
    names: Seq<Seq<char>>,
    source: Seq<char>,
    name: Seq<char>,
) -> Seq<char> {
    if join(cwd, name) == source {
        join(cwd, numbered_name(names, name))
    } else {
        join(cwd, name)
    }
}

/// The status line after a successful transfer of the given kind.
pub open spec fn success_text(kind: TransferKind) -> Seq<char> {
    match kind {
        TransferKind::CopyDir => "Copied directory succesfully"@,
        TransferKind::CopyFile => "Copied file succesfully"@,
        TransferKind::MoveDir => "Moved directory succesfully"@,
        TransferKind::MoveFile => "Moved file succesfully"@,
    }
}

impl Transfer {
    /// The status line to show once this transfer has succeeded.
    pub fn success_message(&self) -> (r: String)
        ensures
            r@ == success_text(self.kind),
    {
        match self.kind {
            TransferKind::CopyDir => String::from_str("Copied directory succesfully"),
            TransferKind::CopyFile => String::from_str("Copied file succesfully"),
            TransferKind::MoveDir => String::from_str("Moved directory succesfully"),
            TransferKind::MoveFile => String::from_str("Moved file succesfully"),
        }
    }
}

impl PendingOperation {
    /// The path of the pending source, if a copy or a move is pending.
    pub fn source_path(&self) -> (r: Option<String>)
        ensures
            match self {
                PendingOperation::Idle => r is None,
                PendingOperation::Copy { source_path, .. } => r == Some(*source_path),
                PendingOperation::Cut { source_path, .. } => r == Some(*source_path),
            },
    {
        match self {
            PendingOperation::Idle => None,
            PendingOperation::Copy { source_path, .. } => Some(source_path.clone()),
            PendingOperation::Cut { source_path, .. } => Some(source_path.clone()),
        }
    }
}

impl App {
    pub open spec fn wf(&self) -> bool {
        self.view_items.wf()
    }

    /// The entries of the current listing.
    pub open spec fn entries(&self) -> Seq<DirEntry> {
        self.view_items.items@
    }

    /// The position that copy, cut, delete and activation act on: the
    /// highlighted entry, or the first one when nothing is highlighted.
    pub open spec fn target_index(&self) -> int {
        match self.view_items.selected {
            Some(i) => i as int,
            None => 0,
        }
    }

    pub open spec fn has_target(&self) -> bool {
        self.target_index() < self.entries().len()
    }

    pub open spec fn target_name(&self) -> Seq<char> {
        self.entries()[self.target_index()].name@
    }

    /// A session over `snapshot`, with nothing highlighted or pending and the
    /// directory's path as the status line.
    pub fn new(snapshot: DirectorySnapshot) -> (r: App)
        ensures
            r.wf(),
            r.path == snapshot.path,
            r.entries() == snapshot.entries@,
            r.view_items.selected is None,
            r.pending is Idle,
            r.title@ == snapshot.path@,
    {
        let title = snapshot.path.clone();
        App {
            path: snapshot.path,
            view_items: StatefulList::with_items(snapshot.entries),
            pending: PendingOperation::Idle,
            title,
        }
    }

    /// The bare names of the listing.
    pub fn names(&self) -> (r: Vec<String>)
        ensures
            r@.len() == self.entries().len(),
            forall|i: int| 0 <= i < r@.len() ==> #[trigger] r@[i]@ == names_of(self.entries())[i],
    {
        entry_names(&self.view_items.items)
    }

    /// The detail rows of the listing, in the order of the names.
    pub fn detail_rows(&self) -> (r: Vec<String>)
        ensures
            r@.len() == self.entries().len(),
            forall|i: int|
                0 <= i < r@.len() ==> #[trigger] r@[i]@ == details_of(self.entries())[i],
    {
        entry_details(&self.view_items.items)
    }

    /// The highlighted position.
    pub fn selection(&self) -> (r: Option<usize>)
        ensures
            r == self.view_items.selected,
    {
        self.view_items.selected
    }

    /// The status line.
    pub fn status_message(&self) -> (r: &str)
        ensures
            r@ == self.title@,
    {
        self.title.as_str()
    }

    /// The directory shown.
    pub fn current_path(&self) -> (r: &str)
        ensures
            r@ == self.path@,
    {
        self.path.as_str()
    }

    /// Moves the cursor one entry down, wrapping to the top.
    pub fn move_cursor_next(&mut self)
        requires
            old(self).wf(),
        ensures
            final(self).wf(),
            final(self).view_items.selected == next_index(
                old(self).view_items.selected,
                old(self).entries().len(),
            ),
            final(self).entries() == old(self).entries(),
            final(self).path == old(self).path,
            final(self).pending == old(self).pending,
            final(self).title == old(self).title,
    {
        self.view_items.next();
    }

    /// Moves the cursor one entry up, wrapping to the bottom.
    pub fn move_cursor_previous(&mut self)
        requires
            old(self).wf(),
        ensures
            final(self).wf(),
            final(self).view_items.selected == previous_index(
                old(self).view_items.selected,
                old(self).entries().len(),
            ),
            final(self).entries() == old(self).entries(),
            final(self).path == old(self).path,
            final(self).pending == old(self).pending,
            final(self).title == old(self).title,
    {
        self.view_items.previous();
    }

    /// Clears the cursor and shows the directory's path again.
    pub fn clear_selection(&mut self)
        requires
            old(self).wf(),
        ensures
            final(self).wf(),
            final(self).view_items.selected is None,
            final(self).entries() == old(self).entries(),
            final(self).path == old(self).path,
            final(self).pending == old(self).pending,
            final(self).title@ == old(self).path@,
    {
        self.view_items.unselect();
        self.title = self.path.clone();
    }

    /// The directory to enter for the targeted entry: its path, when it is a
    /// directory; nothing otherwise.
    pub fn activate_target(&self) -> (r: Option<String>)
        requires
            self.wf(),
        ensures
            match r {
                Some(p) => self.has_target() && self.entries()[self.target_index()].kind
                    == EntryKind::Directory && p@ == join(self.path@, self.target_name()),
                None => !self.has_target() || self.entries()[self.target_index()].kind
                    != EntryKind::Directory,
            },
    {
        let i: usize = match self.view_items.selected {
            Some(i) => i,
            None => 0,
        };
        if i >= self.view_items.items.len() {
            return None;
        }
        let e = &self.view_items.items[i];
        if e.kind == EntryKind::Directory {
            Some(join_path(self.path.as_str(), e.name.as_str()))
        } else {
            None
        }
    }

    /// Shows the directory at `path`, now the working directory, from one
    /// enumeration of it.
    pub fn enter_directory(&mut self, path: String, raw: &Vec<DirEntry>)
        requires
            old(self).wf(),
        ensures
            final(self).wf(),
            final(self).path == path,
            final(self).entries() == listed(raw@, true),
            final(self).view_items.selected == reset_selection(listed(raw@, true).len()),
            final(self).title@ == path@,
            final(self).pending == old(self).pending,
    {
        self.title = path.clone();
        self.path = path;
        refresh(self, raw);
    }
}

/// Replaces the listing by a new enumeration of the same directory and puts
/// the cursor back on the first entry.
fn refresh(app: &mut App, raw: &Vec<DirEntry>)
    ensures
        final(app).wf(),
        final(app).entries() == listed(raw@, true),
        final(app).view_items.selected == reset_selection(listed(raw@, true).len()),
        final(app).path == old(app).path,
        final(app).pending == old(app).pending,
        final(app).title == old(app).title,
{
    let snapshot = list_current_dir(app.path.clone(), raw, true);
    let mut view_items = StatefulList::with_items(snapshot.entries);
    if view_items.items.len() > 0 {
        view_items.selected = Some(0);
    }
    app.view_items = view_items;
}

/// The name of the targeted entry.
fn select(app: &App) -> (r: Option<String>)
    requires
        app.wf(),
    ensures
        match r {
            Some(n) => app.has_target() && n@ == app.target_name(),
            None => !app.has_target(),
        },
{
    let i: usize = match app.view_items.selected {
        Some(i) => i,
        None => 0,
    };
    if i < app.view_items.items.len() {
        Some(app.view_items.items[i].name.clone())
    } else {
        None
    }
}

/// Records the targeted entry as the source of a pending copy. `..` is
/// refused. Only the pending operation and the status line change.
pub fn copy(app: &mut App) -> (r: Result<(), FsError>)
    requires
        old(app).wf(),
    ensures
        final(app).wf(),
        final(app).path == old(app).path,
        final(app).view_items == old(app).view_items,
        if !old(app).has_target() {
            r == Err::<(), FsError>(FsError::NothingSelected) && final(app).pending == old(
                app,
            ).pending && final(app).title@ == "Nothing selected"@
        } else if is_parent_ref(old(app).target_name()) {
            r == Err::<(), FsError>(FsError::Forbidden) && final(app).pending == old(app).pending
                && final(app).title@ == "user not allowed to copy .. directory"@
        } else {
            r is Ok && holds_copy(
                final(app).pending,
                join(old(app).path@, old(app).target_name()),
                old(app).target_name(),
            ) && final(app).title@ == "Copied "@ + join(old(app).path@, old(app).target_name())
        },
{
    match select(app) {
        None => {
            app.title = String::from_str("Nothing selected");
            Err(FsError::NothingSelected)
        },
        Some(name) => {
            if is_parent_name(name.as_str()) {
                app.title = String::from_str("user not allowed to copy .. directory");
                return Err(FsError::Forbidden);
            }
            let source_path = join_path(app.path.as_str(), name.as_str());
            let mut title = String::from_str("Copied ");
            title.append(source_path.as_str());
            app.title = title;
            app.pending = PendingOperation::Copy { source_path, source_name: name };
            Ok(())
        },
    }
}

/// Records the targeted entry as the source of a pending move. `..` is
/// refused. Only the pending operation and the status line change.
pub fn cut(app: &mut App) -> (r: Result<(), FsError>)
    requires
        old(app).wf(),
    ensures
        final(app).wf(),
        final(app).path == old(app).path,
        final(app).view_items == old(app).view_items,
        if !old(app).has_target() {
            r == Err::<(), FsError>(FsError::NothingSelected) && final(app).pending == old(
                app,
            ).pending && final(app).title@ == "Nothing selected"@
        } else if is_parent_ref(old(app).target_name()) {
            r == Err::<(), FsError>(FsError::Forbidden) && final(app).pending == old(app).pending
                && final(app).title@ == "user not allowed to move .. directory"@
        } else {
            r is Ok && holds_cut(
                final(app).pending,
                join(old(app).path@, old(app).target_name()),
                old(app).target_name(),
            ) && final(app).title@ == "Cut "@ + join(old(app).path@, old(app).target_name())
        },
{
    match select(app) {
        None => {
            app.title = String::from_str("Nothing selected");
            Err(FsError::NothingSelected)
        },
        Some(name) => {
            if is_parent_name(name.as_str()) {
                app.title = String::from_str("user not allowed to move .. directory");
                return Err(FsError::Forbidden);
            }
            let source_path = join_path(app.path.as_str(), name.as_str());
            let mut title = String::from_str("Cut ");
            title.append(source_path.as_str());
            app.title = title;
            app.pending = PendingOperation::Cut { source_path, source_name: name };
            Ok(())
        },
    }
}

/// Decides the trash-delete of the targeted entry. `..` is refused. Only the
/// status line changes here, and only on refusal: the listing is replaced
/// once the trash has taken the entry.
pub fn delete(app: &mut App) -> (r: Result<TrashRequest, FsError>)
    requires
        old(app).wf(),
    ensures
        final(app).wf(),
        final(app).path == old(app).path,
        final(app).view_items == old(app).view_items,
        final(app).pending == old(app).pending,
        if !old(app).has_target() {
            r matches Err(e) && e == FsError::NothingSelected && final(app).title@
                == "Nothing selected"@
        } else if is_parent_ref(old(app).target_name()) {
            r matches Err(e) && e == FsError::Forbidden && final(app).title@
                == "user not allowed to delete .. directory"@
        } else {
            r matches Ok(t) && t.path@ == join(old(app).path@, old(app).target_name()) && t.name@
                == old(app).target_name() && final(app).title == old(app).title
        },
{
    match select(app) {
        None => {
            app.title = String::from_str("Nothing selected");
            Err(FsError::NothingSelected)
        },
        Some(name) => {
            if is_parent_name(name.as_str()) {
                app.title = String::from_str("user not allowed to delete .. directory");
                return Err(FsError::Forbidden);
            }
            let path = join_path(app.path.as_str(), name.as_str());
            Ok(TrashRequest { path, name })
        },
    }
}

/// Takes the outcome of a trash-delete: on success, `raw` is a new
/// enumeration of the directory, which replaces the listing; the cursor goes
/// back to the first entry and nothing stays pending. On failure only the
/// status line changes, to the error's text.
pub fn finish_delete(app: &mut App, request: &TrashRequest, res: Result<Vec<DirEntry>, String>)
    requires
        old(app).wf(),
    ensures
        final(app).wf(),
        final(app).path == old(app).path,
        match res {
            Ok(raw) => final(app).entries() == listed(raw@, true)
                && final(app).view_items.selected == reset_selection(listed(raw@, true).len())
                && final(app).pending is Idle && final(app).title@ == "Moved "@ + request.name@
                + " succesfully to Trash"@,
            Err(e) => final(app).view_items == old(app).view_items && final(app).pending == old(
                app,
            ).pending && final(app).title@ == e@,
        },
{
    match res {
        Ok(raw) => {
            let mut title = String::from_str("Moved ");
            title.append(request.name.as_str());
            title.append(" succesfully to Trash");
            app.title = title;
            app.pending = PendingOperation::Idle;
            refresh(app, &raw);
        },
        Err(e) => {
            app.title = e;
        },
    }
}

/// Decides what a paste does, given what the pending source turned out to be
/// on disk. A directory goes into the current directory under its own name.
/// A file goes to the current directory under its own name, or under a
/// numbered name when that would be the source itself. A source named `..`
/// is refused, as is one that is neither a file nor a directory. Nothing
/// but the status line changes here, and only on refusal: the pending
/// operation stays for further pastes.
pub fn make_command(app: &mut App, source_kind: EntryKind) -> (r: Result<
    Option<Transfer>,
    FsError,
>)
    requires
        old(app).wf(),
    ensures
        final(app).wf(),
        final(app).path == old(app).path,
        final(app).view_items == old(app).view_items,
        final(app).pending == old(app).pending,
        match old(app).pending {
            PendingOperation::Idle => r matches Ok(None) && final(app).title == old(app).title,
            PendingOperation::Copy { source_path, source_name } | PendingOperation::Cut {
                source_path,
                source_name,
            } => if is_parent_ref(source_name@) {
                r matches Err(e) && e == FsError::Forbidden && final(app).title@ == (if old(
                    app,
                ).pending is Copy {
                    "user not allowed to copy .. directory"@
                } else {
                    "user not allowed to move .. directory"@
                })
            } else if source_kind == EntryKind::Directory {
                r matches Ok(Some(t)) && t.kind == (if old(app).pending is Copy {
                    TransferKind::CopyDir
                } else {
                    TransferKind::MoveDir
                }) && t.source == source_path && t.dest == old(app).path && final(app).title
                    == old(app).title
            } else if source_kind == EntryKind::File {
                r matches Ok(Some(t)) && t.kind == (if old(app).pending is Copy {
                    TransferKind::CopyFile
                } else {
                    TransferKind::MoveFile
                }) && t.source == source_path && t.dest@ == file_dest(
                    old(app).path@,
                    names_of(old(app).entries()),
                    source_path@,
                    source_name@,
                ) && final(app).title == old(app).title
            } else {
                r matches Err(e) && e == FsError::Metadata && final(app).title@
                    == "Error metadata"@
            },
        },
{
    let (source_path, source_name, is_copy) = match &app.pending {
        PendingOperation::Idle => {
            return Ok(None);
        },
        PendingOperation::Copy { source_path, source_name } => (
            source_path.clone(),
            source_name.clone(),
            true,
        ),
        PendingOperation::Cut { source_path, source_name } => (
            source_path.clone(),
            source_name.clone(),
            false,
        ),
    };
    if is_parent_name(source_name.as_str()) {
        app.title = if is_copy {
            String::from_str("user not allowed to copy .. directory")
        } else {
            String::from_str("user not allowed to move .. directory")
        };
        return Err(FsError::Forbidden);
    }
    match source_kind {
        EntryKind::Directory => {
            let kind = if is_copy {
                TransferKind::CopyDir
            } else {
                TransferKind::MoveDir
            };
            Ok(Some(Transfer { kind, source: source_path, dest: app.path.clone() }))
        },
        EntryKind::File => {
            let kind = if is_copy {
                TransferKind::CopyFile
            } else {
                TransferKind::MoveFile
            };
            let mut dest = join_path(app.path.as_str(), source_name.as_str());
            if dest == source_path {
                dest =
                make_file_already_exists_dest(
                    app.path.as_str(),
                    &app.view_items.items,
                    source_name.as_str(),
                );
            }
            Ok(Some(Transfer { kind, source: source_path, dest }))
        },
        EntryKind::Other => {
            app.title = String::from_str("Error metadata");
            Err(FsError::Metadata)
        },
    }
}

/// Takes the outcome of a copy or a move: on success, `raw` is a new
/// enumeration of the directory, which replaces the listing, the cursor goes
/// back to the first entry and the status line becomes `on_success_msg`. On
/// failure only the status line changes, to the error's text. The pending
/// operation stays either way.
pub fn result(app: &mut App, res: Result<Vec<DirEntry>, String>, on_success_msg: String)
    requires
        old(app).wf(),
    ensures
        final(app).wf(),
        final(app).path == old(app).path,
        final(app).pending == old(app).pending,
        match res {
            Ok(raw) => final(app).entries() == listed(raw@, true)
                && final(app).view_items.selected == reset_selection(listed(raw@, true).len())
                && final(app).title == on_success_msg,
            Err(e) => final(app).view_items == old(app).view_items && final(app).title@
                == "Error res "@ + e@,
        },
{
    match res {
        Ok(raw) => {
            app.title = on_success_msg;
            refresh(app, &raw);
        },
        Err(e) => {
            let mut title = String::from_str("Error res ");
            title.append(e.as_str());
            app.title = title;
        },
    }
}

/// A paste never puts a file onto its own source: the destination chosen
/// for a file differs from the path it is copied or moved from.
pub proof fn lemma_file_paste_never_overwrites_source(
    cwd: Seq<char>,
    names: Seq<Seq<char>>,
    source: Seq<char>,
    name: Seq<char>,
)
    ensures
        file_dest(cwd, names, source, name) != source,
{
    if join(cwd, name) == source {
        lemma_numbered_paste_spares_source(cwd, names, name);
    }
}

} // verus!
