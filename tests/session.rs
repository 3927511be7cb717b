use fifm::listing::{
    list_current_dir, list_current_dir_matches, make_file_already_exists_dest, DirEntry,
    EntryKind,
};
use fifm::session::{
    copy, cut, delete, finish_delete, make_command, result, App, FsError, PendingOperation,
    TransferKind,
};

fn entry(name: &str, kind: EntryKind) -> DirEntry {
    DirEntry { name: name.to_string(), kind, detail: format!("{:?} {}", kind, name) }
}

fn raw(names: &[(&str, EntryKind)]) -> Vec<DirEntry> {
    let mut v = vec![entry(".", EntryKind::Directory), entry("..", EntryKind::Directory)];
    for (n, k) in names {
        v.push(entry(n, *k));
    }
    v
}

fn home() -> App {
    let r = raw(&[("notes.txt", EntryKind::File), ("docs", EntryKind::Directory)]);
    App::new(list_current_dir("/home/u".to_string(), &r, true))
}

fn names(app: &App) -> Vec<String> {
    app.names()
}

#[test]
fn listing_drops_self_and_keeps_parent() {
    let app = home();
    assert_eq!(names(&app), vec!["..", "notes.txt", "docs"]);
    assert_eq!(app.current_path(), "/home/u");
    assert_eq!(app.status_message(), "/home/u");
    assert_eq!(app.selection(), None);
}

#[test]
fn listing_without_parent() {
    let r = raw(&[("a", EntryKind::File)]);
    let s = list_current_dir("/x".to_string(), &r, false);
    assert_eq!(s.entries.len(), 1);
    assert_eq!(s.entries[0].name, "a");
}

#[test]
fn names_and_detail_rows_line_up() {
    let app = home();
    let n = app.names();
    let d = app.detail_rows();
    assert_eq!(n.len(), d.len());
    for i in 0..n.len() {
        assert!(d[i].ends_with(&n[i]));
    }
    assert_eq!(d[1], "File notes.txt");
}

#[test]
fn counts_names_containing_stem() {
    let r = raw(&[("a.txt", EntryKind::File), ("a (1).txt", EntryKind::File), ("b", EntryKind::File)]);
    let s = list_current_dir("/d".to_string(), &r, true);
    assert_eq!(list_current_dir_matches(&s.entries, "a"), 2);
    assert_eq!(list_current_dir_matches(&s.entries, "zzz"), 0);
}

#[test]
fn numbered_destination() {
    let r = raw(&[("a.txt", EntryKind::File)]);
    let s = list_current_dir("/d".to_string(), &r, true);
    assert_eq!(make_file_already_exists_dest("/d", &s.entries, "a.txt"), "/d/a (1).txt");
    let r2 = raw(&[("a.txt", EntryKind::File), ("a (1).txt", EntryKind::File)]);
    let s2 = list_current_dir("/d".to_string(), &r2, true);
    assert_eq!(make_file_already_exists_dest("/d", &s2.entries, "a.txt"), "/d/a (2).txt");
}

#[test]
fn copy_records_pending_source() {
    let mut app = home();
    app.move_cursor_next();
    app.move_cursor_next();
    assert_eq!(copy(&mut app), Ok(()));
    assert_eq!(app.status_message(), "Copied /home/u/notes.txt");
    match &app.pending {
        PendingOperation::Copy { source_path, source_name } => {
            assert_eq!(source_path, "/home/u/notes.txt");
            assert_eq!(source_name, "notes.txt");
        }
        _ => panic!("copy not recorded"),
    }
    assert_eq!(app.pending.source_path(), Some("/home/u/notes.txt".to_string()));
}

#[test]
fn cut_records_pending_move() {
    let mut app = home();
    app.move_cursor_previous();
    app.move_cursor_previous();
    assert_eq!(app.selection(), Some(2));
    assert_eq!(cut(&mut app), Ok(()));
    assert_eq!(app.status_message(), "Cut /home/u/docs");
    assert!(matches!(app.pending, PendingOperation::Cut { .. }));
}

#[test]
fn paste_file_into_own_directory_gets_numbered_name() {
    let mut app = home();
    app.move_cursor_next();
    app.move_cursor_next();
    copy(&mut app).unwrap();
    let t = make_command(&mut app, EntryKind::File).unwrap().unwrap();
    assert_eq!(t.kind, TransferKind::CopyFile);
    assert_eq!(t.source, "/home/u/notes.txt");
    assert_eq!(t.dest, "/home/u/notes (1).txt");
    assert_ne!(t.dest, t.source);
    let after = raw(&[
        ("notes.txt", EntryKind::File),
        ("docs", EntryKind::Directory),
        ("notes (1).txt", EntryKind::File),
    ]);
    let msg = t.success_message();
    result(&mut app, Ok(after), msg);
    assert!(names(&app).contains(&"notes (1).txt".to_string()));
    assert_eq!(app.status_message(), "Copied file succesfully");
    assert_eq!(app.selection(), Some(0));
    assert!(matches!(app.pending, PendingOperation::Copy { .. }));
}

#[test]
fn second_paste_gets_another_name() {
    let mut app = home();
    app.move_cursor_next();
    app.move_cursor_next();
    copy(&mut app).unwrap();
    let first = make_command(&mut app, EntryKind::File).unwrap().unwrap();
    let after = raw(&[
        ("notes.txt", EntryKind::File),
        ("docs", EntryKind::Directory),
        ("notes (1).txt", EntryKind::File),
    ]);
    result(&mut app, Ok(after), first.success_message());
    let second = make_command(&mut app, EntryKind::File).unwrap().unwrap();
    assert_eq!(second.dest, "/home/u/notes (2).txt");
    assert_ne!(first.dest, second.dest);
}

#[test]
fn cut_directory_and_paste_elsewhere() {
    let mut app = home();
    app.move_cursor_previous();
    app.move_cursor_previous();
    cut(&mut app).unwrap();
    let target = app.activate_target();
    assert_eq!(target, Some("/home/u/docs".to_string()));
    let other = raw(&[("x.md", EntryKind::File)]);
    app.enter_directory("/home/v".to_string(), &other);
    assert_eq!(app.status_message(), "/home/v");
    assert_eq!(app.selection(), Some(0));
    let t = make_command(&mut app, EntryKind::Directory).unwrap().unwrap();
    assert_eq!(t.kind, TransferKind::MoveDir);
    assert_eq!(t.source, "/home/u/docs");
    assert_eq!(t.dest, "/home/v");
    let after = raw(&[("x.md", EntryKind::File), ("docs", EntryKind::Directory)]);
    result(&mut app, Ok(after), t.success_message());
    assert!(names(&app).contains(&"docs".to_string()));
    assert_eq!(app.status_message(), "Moved directory succesfully");
}

#[test]
fn delete_parent_is_forbidden() {
    let mut app = home();
    app.move_cursor_next();
    let before = names(&app);
    assert_eq!(delete(&mut app).err(), Some(FsError::Forbidden));
    assert_eq!(app.status_message(), "user not allowed to delete .. directory");
    assert_eq!(names(&app), before);
    assert_eq!(app.selection(), Some(0));
    assert!(matches!(app.pending, PendingOperation::Idle));
}

#[test]
fn copy_and_cut_of_parent_are_forbidden() {
    let mut app = home();
    assert_eq!(copy(&mut app), Err(FsError::Forbidden));
    assert_eq!(app.status_message(), "user not allowed to copy .. directory");
    assert!(matches!(app.pending, PendingOperation::Idle));
    app.move_cursor_next();
    app.move_cursor_next();
    copy(&mut app).unwrap();
    app.move_cursor_previous();
    assert_eq!(cut(&mut app), Err(FsError::Forbidden));
    assert_eq!(app.status_message(), "user not allowed to move .. directory");
    assert_eq!(app.selection(), Some(0));
    assert!(matches!(app.pending, PendingOperation::Copy { .. }));
}

#[test]
fn paste_of_parent_source_is_forbidden() {
    let mut app = home();
    app.pending = PendingOperation::Cut {
        source_path: "/home/u/..".to_string(),
        source_name: "..".to_string(),
    };
    assert_eq!(make_command(&mut app, EntryKind::Directory).err(), Some(FsError::Forbidden));
    assert_eq!(app.status_message(), "user not allowed to move .. directory");
}

#[test]
fn activate_file_changes_nothing() {
    let mut app = home();
    app.move_cursor_next();
    app.move_cursor_next();
    assert_eq!(app.activate_target(), None);
    assert_eq!(app.status_message(), "/home/u");
    assert_eq!(app.selection(), Some(1));
}

#[test]
fn activate_parent_enters_it() {
    let app = home();
    assert_eq!(app.activate_target(), Some("/home/u/..".to_string()));
}

#[test]
fn unknown_source_kind_is_metadata_error() {
    let mut app = home();
    app.move_cursor_next();
    app.move_cursor_next();
    copy(&mut app).unwrap();
    assert_eq!(make_command(&mut app, EntryKind::Other).err(), Some(FsError::Metadata));
    assert_eq!(app.status_message(), "Error metadata");
    assert!(matches!(app.pending, PendingOperation::Copy { .. }));
}

#[test]
fn paste_with_nothing_pending_does_nothing() {
    let mut app = home();
    assert!(make_command(&mut app, EntryKind::File).unwrap().is_none());
    assert_eq!(app.status_message(), "/home/u");
}

#[test]
fn failed_transfer_keeps_state() {
    let mut app = home();
    app.move_cursor_next();
    app.move_cursor_next();
    copy(&mut app).unwrap();
    let before = names(&app);
    result(&mut app, Err("disk full".to_string()), "unused".to_string());
    assert_eq!(app.status_message(), "Error res disk full");
    assert_eq!(names(&app), before);
    assert_eq!(app.selection(), Some(1));
    assert!(matches!(app.pending, PendingOperation::Copy { .. }));
}

#[test]
fn delete_moves_to_trash_and_refreshes() {
    let mut app = home();
    app.move_cursor_next();
    app.move_cursor_next();
    copy(&mut app).unwrap();
    let req = delete(&mut app).ok().unwrap();
    assert_eq!(req.path, "/home/u/notes.txt");
    assert_eq!(req.name, "notes.txt");
    let after = raw(&[("docs", EntryKind::Directory)]);
    finish_delete(&mut app, &req, Ok(after));
    assert_eq!(app.status_message(), "Moved notes.txt succesfully to Trash");
    assert_eq!(names(&app), vec!["..", "docs"]);
    assert_eq!(app.selection(), Some(0));
    assert!(matches!(app.pending, PendingOperation::Idle));
}

#[test]
fn failed_delete_keeps_state() {
    let mut app = home();
    app.move_cursor_next();
    app.move_cursor_next();
    let req = delete(&mut app).ok().unwrap();
    finish_delete(&mut app, &req, Err("no trash".to_string()));
    assert_eq!(app.status_message(), "no trash");
    assert_eq!(app.selection(), Some(1));
    assert_eq!(names(&app).len(), 3);
}

#[test]
fn empty_listing_has_nothing_to_act_on() {
    let mut app = App::new(list_current_dir("/e".to_string(), &Vec::new(), true));
    assert_eq!(copy(&mut app), Err(FsError::NothingSelected));
    assert_eq!(cut(&mut app), Err(FsError::NothingSelected));
    assert_eq!(delete(&mut app).err(), Some(FsError::NothingSelected));
    assert_eq!(app.status_message(), "Nothing selected");
    assert_eq!(app.activate_target(), None);
}

#[test]
fn refresh_to_empty_listing_clears_cursor() {
    let mut app = home();
    app.move_cursor_next();
    result(&mut app, Ok(vec![entry(".", EntryKind::Directory)]), "done".to_string());
    assert_eq!(app.selection(), None);
    assert_eq!(app.names().len(), 0);
}

#[test]
fn clear_selection_shows_path() {
    let mut app = home();
    app.move_cursor_next();
    copy(&mut app).ok();
    app.clear_selection();
    assert_eq!(app.selection(), None);
    assert_eq!(app.status_message(), "/home/u");
}

#[test]
fn success_messages() {
    let mut app = home();
    app.move_cursor_next();
    app.move_cursor_next();
    copy(&mut app).unwrap();
    let t = make_command(&mut app, EntryKind::Directory).unwrap().unwrap();
    assert_eq!(t.kind, TransferKind::CopyDir);
    assert_eq!(t.success_message(), "Copied directory succesfully");
    cut(&mut app).unwrap();
    let t = make_command(&mut app, EntryKind::File).unwrap().unwrap();
    assert_eq!(t.kind, TransferKind::MoveFile);
    assert_eq!(t.success_message(), "Moved file succesfully");
}

#[test]
fn paths_at_root_keep_separator() {
    let r = raw(&[("a.txt", EntryKind::File)]);
    let mut app = App::new(list_current_dir("/".to_string(), &r, true));
    app.move_cursor_previous();
    app.move_cursor_previous();
    copy(&mut app).unwrap();
    assert_eq!(app.status_message(), "Copied //a.txt");
    let t = make_command(&mut app, EntryKind::File).unwrap().unwrap();
    assert_eq!(t.source, "//a.txt");
    assert_eq!(t.dest, "//a (1).txt");
}
