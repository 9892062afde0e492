use vstd::prelude::*;
use crate::kinds::ScannerError;
use crate::paths::hidden;
use crate::paths::is_hidden_path;
use crate::paths::mountable;
use crate::paths::should_mount;
use crate::scanner::MediaScanner;
use crate::store::MediaStore;

verus! {

/// A filesystem notification, as the watch reports it after debouncing.
#[derive(Debug)]
pub enum FsEvent {
    /// A file was created.
    Create(String),
    /// A file was written to.
    Write(String),
    /// A file or directory was removed.
    Remove(String),
    /// A path was renamed, from the first to the second.
    Rename(String, String),
    /// A directory was created.
    DirCreate(String),
}

/// What the daemon does on the catalog for a notification.
#[derive(Debug)]
pub enum DaemonAction {
    /// Mount the file at this path.
    Mount(String),
    /// Delete the record of this path.
    Delete(String),
    /// Walk this new directory and mount what it holds.
    Walk(String),
}

/// The actions for a created or written file: a mount where it qualifies.
pub open spec fn mount_actions(r: Seq<DaemonAction>, p: Seq<char>) -> bool {
    if mountable(p) {
        r.len() == 1 && r[0] is Mount && r[0]->Mount_0@ == p
    } else {
        r.len() == 0
    }
}

fn mount_if_supported(p: &String) -> (r: Vec<DaemonAction>)
    ensures
        mount_actions(r@, p@),
{
    let mut r: Vec<DaemonAction> = Vec::new();
    if should_mount(p.as_str()) {
        r.push(DaemonAction::Mount(p.clone()));
    }
    r
}

/// The actions that the daemon takes on a notification, in order: a
/// created or written file is mounted where it has no hidden component and a
/// supported extension; a removed path loses its record; a renamed file
/// loses the record of its old path and is mounted under its new one; a new
/// directory is walked unless it is hidden.
pub fn daemon_actions(ev: &FsEvent) -> (r: Vec<DaemonAction>)
    ensures
        ev is Create ==> mount_actions(r@, ev->Create_0@),
        ev is Write ==> mount_actions(r@, ev->Write_0@),
        ev is Remove ==> r@.len() == 1 && r@[0] is Delete && r@[0]->Delete_0@ == ev->Remove_0@,
        ev is Rename ==> r@.len() >= 1 && r@[0] is Delete && r@[0]->Delete_0@ == ev->Rename_0@
            && mount_actions(r@.drop_first(), ev->Rename_1@),
        ev is DirCreate ==> if hidden(ev->DirCreate_0@) {
            r@.len() == 0
        } else {
            r@.len() == 1 && r@[0] is Walk && r@[0]->Walk_0@ == ev->DirCreate_0@
        },
{
    match ev {
        FsEvent::Create(p) => mount_if_supported(p),
        FsEvent::Write(p) => mount_if_supported(p),
        FsEvent::Remove(p) => {
            let mut r: Vec<DaemonAction> = Vec::new();
            r.push(DaemonAction::Delete(p.clone()));
            r
        },
        FsEvent::Rename(from, to) => {
            let mut r: Vec<DaemonAction> = Vec::new();
            r.push(DaemonAction::Delete(from.clone()));
            let mut tail = mount_if_supported(to);
            let ghost whole = tail@;
            if tail.len() == 1 {
                let a = tail.pop().unwrap();
                r.push(a);
            }
            assert(r@.drop_first() =~= whole);
            r
        },
        FsEvent::DirCreate(p) => {
            let mut r: Vec<DaemonAction> = Vec::new();
            if !is_hidden_path(p.as_str()) {
                r.push(DaemonAction::Walk(p.clone()));
            }
            r
        },
    }
}

/// Builds the scanner for a library of whatever kind it declares.
pub fn scanner_from_library(store: &MediaStore, lib_id: i32) -> (r: Result<MediaScanner, ScannerError>)
    requires
        store.wf(),
    ensures
        (forall|i: int| 0 <= i < store.libraries@.len() ==> (#[trigger] store.libraries@[i]).id != lib_id)
            ==> r == Err::<MediaScanner, ScannerError>(ScannerError::LibraryDoesntExist(lib_id)),
        forall|i: int| 0 <= i < store.libraries@.len() && (#[trigger] store.libraries@[i]).id == lib_id
            ==> r == Ok::<MediaScanner, ScannerError>(MediaScanner {
                media_type: store.libraries@[i].media_type,
                library: store.libraries@[i],
            }),
{
    match store.get_library(lib_id) {
        None => Err(ScannerError::LibraryDoesntExist(lib_id)),
        Some(lib) => MediaScanner::new(lib.media_type, store, lib_id),
    }
}

} // verus!
