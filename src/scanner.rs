use vstd::prelude::*;
use crate::heuristic::heuristic_safe;
use crate::heuristic::parse_file_name;
use crate::heuristic::release_name_of;
use crate::kinds::MediaType;
use crate::kinds::ScannerError;
use crate::paths::bare_file_name;
use crate::paths::bare_name_of;
use crate::paths::mountable;
use crate::paths::should_mount;
use crate::store::has_path;
use crate::store::is_orphan;
use crate::store::lemma_has_path_push;
use crate::store::record_at_path;
use crate::store::Library;
use crate::store::MediaFile;
use crate::store::MediaStore;
use crate::store::ProbeData;

verus! {

/// The ids above this one are never handed out.
pub const MAX_FILE_ID: i32 = 2147483647;

/// The file heuristic reads a title from the bare name of `p`.
pub open spec fn name_readable(p: Seq<char>) -> bool {
    &&& bare_name_of(p) is Some
    &&& heuristic_safe(bare_name_of(p)->0)
    &&& release_name_of(bare_name_of(p)->0) is Some
}

/// Mounting `p` calls for the technical probe: the path has a readable name
/// and is not mounted yet.
pub open spec fn needs_probe_spec(fs: Seq<MediaFile>, p: Seq<char>) -> bool {
    name_readable(p) && !has_path(fs, p)
}

/// How mounting `p` into a catalog of files `fs` fails, if it does.
pub open spec fn mount_error(fs: Seq<MediaFile>, next_id: i32, p: Seq<char>, probe: Option<ProbeData>) -> Option<ScannerError> {
    if bare_name_of(p) is None {
        Some(ScannerError::UnknownError)
    } else if has_path(fs, p) {
        None
    } else if !name_readable(p) {
        Some(ScannerError::FilenameParserError)
    } else if probe is None {
        Some(ScannerError::FFProbeError)
    } else if next_id == MAX_FILE_ID {
        Some(ScannerError::InternalDbError)
    } else {
        None
    }
}

/// `m` is the record that mounting `p` into library `lib` makes, with id
/// `id`, from what the heuristic reads in its bare name and from `probe`.
pub open spec fn fresh_record(m: MediaFile, id: i32, lib: i32, p: Seq<char>, probe: ProbeData) -> bool {
    let t = release_name_of(bare_name_of(p)->0)->0;
    &&& m.id == id
    &&& m.media_id is None
    &&& m.library_id == lib
    &&& m.target_file@ == p
    &&& m.raw_name@ == t.0
    &&& m.raw_year == t.1
    &&& m.season == t.2
    &&& m.episode == t.3
    &&& m.quality == probe.quality
    &&& m.codec == probe.codec
    &&& m.container == probe.container
    &&& m.audio == probe.audio
    &&& m.original_resolution == probe.original_resolution
    &&& m.duration == probe.duration
    &&& m.corrupt == probe.corrupt
}

/// A walked path, with what the probe reported of it where it was asked.
#[derive(Debug)]
pub struct ScanEntry {
    pub path: String,
    pub probe: Option<ProbeData>,
}

/// A scanner bound to one library of its own kind.
#[derive(Debug)]
pub struct MediaScanner {
    pub media_type: MediaType,
    pub library: Library,
}

impl MediaScanner {
    /// A scanner of kind `media_type` for the library with id `library_id`.
    pub fn new(media_type: MediaType, store: &MediaStore, library_id: i32) -> (r: Result<MediaScanner, ScannerError>)
        requires
            store.wf(),
        ensures
            (forall|i: int| 0 <= i < store.libraries@.len() ==> (#[trigger] store.libraries@[i]).id != library_id)
                ==> r == Err::<MediaScanner, ScannerError>(ScannerError::LibraryDoesntExist(library_id)),
            forall|i: int| 0 <= i < store.libraries@.len() && (#[trigger] store.libraries@[i]).id == library_id
                ==> r == if store.libraries@[i].media_type == media_type {
                    Ok::<MediaScanner, ScannerError>(MediaScanner { media_type, library: store.libraries@[i] })
                } else {
                    Err(ScannerError::InvalidLibraryType { expected: media_type, got: store.libraries@[i].media_type })
                },
    {
        match store.get_library(library_id) {
            None => Err(ScannerError::LibraryDoesntExist(library_id)),
            Some(lib) => {
                if lib.media_type != media_type {
                    Err(ScannerError::InvalidLibraryType { expected: media_type, got: lib.media_type })
                } else {
                    Ok(MediaScanner { media_type, library: lib })
                }
            },
        }
    }

    /// The directory that a scan walks: `custom_path` where given, else the
    /// library's root.
    pub fn walk_root<'a>(&'a self, custom_path: Option<&'a str>) -> (r: &'a str)
        ensures
            custom_path is Some ==> r@ == custom_path->0@,
            custom_path is None ==> r@ == self.library.location@,
    {
        match custom_path {
            Some(p) => p,
            None => self.library.location.as_str(),
        }
    }

    /// Whether mounting `path` calls for the technical probe: it has a
    /// readable name and is not mounted yet. A caller probes only then.
    pub fn needs_probe(&self, store: &MediaStore, path: &str) -> (r: bool)
        requires
            store.wf(),
        ensures
            r == needs_probe_spec(store.files@, path@),
    {
        match bare_file_name(path) {
            None => false,
            Some(name) => {
                if store.get_by_path(path).is_some() {
                    false
                } else {
                    parse_file_name(name.as_str()).is_some()
                }
            },
        }
    }

    /// Mounts `path` into the catalog as an orphan of this scanner's library,
    /// from what the heuristic reads in its bare name and from `probe`. A path
    /// that is mounted already is looked up, and the catalog left as it was.
    pub fn mount_file(&self, store: &mut MediaStore, path: &str, probe: Option<ProbeData>) -> (r: Result<MediaFile, ScannerError>)
        requires
            old(store).wf(),
        ensures
            final(store).wf(),
            final(store).libraries@ == old(store).libraries@,
            r is Err <==> mount_error(old(store).files@, old(store).next_id, path@, probe) is Some,
            r is Err ==> r->Err_0 == mount_error(old(store).files@, old(store).next_id, path@, probe)->0
                && *final(store) == *old(store),
            r is Ok && has_path(old(store).files@, path@) ==> *final(store) == *old(store)
                && r->Ok_0 == record_at_path(old(store).files@, path@),
            r is Ok && !has_path(old(store).files@, path@) ==> final(store).files@ == old(store).files@.push(r->Ok_0)
                && final(store).next_id == old(store).next_id + 1
                && fresh_record(r->Ok_0, old(store).next_id, self.library.id, path@, probe->0),
    {
        let name = match bare_file_name(path) {
            Some(n) => n,
            None => {
                return Err(ScannerError::UnknownError);
            },
        };
        match store.get_by_path(path) {
            Some(m) => {
                return Ok(m);
            },
            None => {},
        }
        let parsed = match parse_file_name(name.as_str()) {
            Some(t) => t,
            None => {
                return Err(ScannerError::FilenameParserError);
            },
        };
        let data = match probe {
            Some(d) => d,
            None => {
                return Err(ScannerError::FFProbeError);
            },
        };
        if store.next_id == MAX_FILE_ID {
            return Err(ScannerError::InternalDbError);
        }
        let m = MediaFile {
            id: store.next_id,
            media_id: None,
            library_id: self.library.id,
            target_file: path.to_owned(),
            raw_name: parsed.title,
            raw_year: parsed.year,
            season: parsed.season,
            episode: parsed.episode,
            quality: data.quality,
            codec: data.codec,
            container: data.container,
            audio: data.audio,
            original_resolution: data.original_resolution,
            duration: data.duration,
            corrupt: data.corrupt,
        };
        let r = m.copy();
        let ghost before = store.files@;
        store.files.push(m);
        store.next_id = store.next_id + 1;
        proof {
            assert(store.files@ == before.push(r));
            assert forall|i: int, j: int|
                0 <= i < store.files@.len() && 0 <= j < store.files@.len() && i != j
                    implies (#[trigger] store.files@[i]).target_file@ != (#[trigger] store.files@[j]).target_file@
                    && store.files@[i].id != store.files@[j].id by {
                if i == before.len() {
                    assert(before[j] == store.files@[j]);
                } else if j == before.len() {
                    assert(before[i] == store.files@[i]);
                } else {
                    assert(before[i] == store.files@[i] && before[j] == store.files@[j]);
                }
            }
        }
        Ok(r)
    }
}

impl MediaScanner {
    /// Mounts, in order, every walked path that has no hidden component and
    /// a supported extension; the others are passed over. A path that fails
    /// to mount is skipped and the rest are still mounted.
    pub fn start(&self, store: &mut MediaStore, entries: &Vec<ScanEntry>)
        requires
            old(store).wf(),
        ensures
            final(store).wf(),
            final(store).libraries@ == old(store).libraries@,
            old(store).files@.len() <= final(store).files@.len(),
            final(store).files@.subrange(0, old(store).files@.len() as int) == old(store).files@,
            forall|k: int| old(store).files@.len() <= k < final(store).files@.len() ==> {
                let m = #[trigger] final(store).files@[k];
                &&& mountable(m.target_file@)
                &&& m.media_id is None
                &&& m.library_id == self.library.id
                &&& exists|j: int| 0 <= j < entries@.len() && (#[trigger] entries@[j]).path@ == m.target_file@
            },
            forall|j: int| 0 <= j < entries@.len() && mountable((#[trigger] entries@[j]).path@)
                && name_readable(entries@[j].path@) && entries@[j].probe is Some
                && old(store).next_id + entries@.len() < MAX_FILE_ID
                ==> has_path(final(store).files@, entries@[j].path@),
    {
        let ghost start_files = store.files@;
        let ghost start_id = store.next_id;
        let mut i: usize = 0;
        while i < entries.len()
            invariant
                store.wf(),
                store.libraries@ == old(store).libraries@,
                start_files == old(store).files@,
                start_id == old(store).next_id,
                i <= entries@.len(),
                start_files.len() <= store.files@.len(),
                store.files@.subrange(0, start_files.len() as int) == start_files,
                store.next_id <= start_id + i,
                forall|k: int| start_files.len() <= k < store.files@.len() ==> {
                    let m = #[trigger] store.files@[k];
                    &&& mountable(m.target_file@)
                    &&& m.media_id is None
                    &&& m.library_id == self.library.id
                    &&& exists|j: int| 0 <= j < i && (#[trigger] entries@[j]).path@ == m.target_file@
                },
                forall|j: int| 0 <= j < i && mountable((#[trigger] entries@[j]).path@)
                    && name_readable(entries@[j].path@) && entries@[j].probe is Some
                    && start_id + entries@.len() < MAX_FILE_ID
                    ==> has_path(store.files@, entries@[j].path@),
            decreases entries@.len() - i,
        {
            let e = &entries[i];
            if should_mount(e.path.as_str()) {
                let probe = match &e.probe {
                    Some(d) => Some(d.copy()),
                    None => None,
                };
                let ghost before = store.files@;
                let ghost before_id = store.next_id;
                let r = self.mount_file(store, e.path.as_str(), probe);
                proof {
                    if r is Ok && !has_path(before, e.path@) {
                        let m = r->Ok_0;
                        assert forall|j: int| 0 <= j < i && mountable((#[trigger] entries@[j]).path@)
                            && name_readable(entries@[j].path@) && entries@[j].probe is Some
                            && start_id + entries@.len() < MAX_FILE_ID
                            implies has_path(store.files@, entries@[j].path@) by {
                            lemma_has_path_push(before, m, entries@[j].path@);
                        }
                        lemma_has_path_push(before, m, e.path@);
                        assert(store.files@.subrange(0, start_files.len() as int) =~= before.subrange(0, start_files.len() as int));
                        assert forall|k: int| start_files.len() <= k < store.files@.len() implies {
                            let m2 = #[trigger] store.files@[k];
                            &&& mountable(m2.target_file@)
                            &&& m2.media_id is None
                            &&& m2.library_id == self.library.id
                            &&& exists|j: int| 0 <= j < i + 1 && (#[trigger] entries@[j]).path@ == m2.target_file@
                        } by {
                            if k < before.len() {
                                assert(store.files@[k] == before[k]);
                            } else {
                                assert(store.files@[k] == m);
                                assert(entries@[i as int].path@ == m.target_file@);
                            }
                        }
                    }
                    if has_path(before, e.path@) {
                        assert(has_path(store.files@, e.path@));
                    }
                }
            }
            i = i + 1;
        }
    }
}

/// The files of `fs` after linking every orphan of library `lib` whose raw
/// title is `title` to the catalog record `media_id`.
pub open spec fn linked(fs: Seq<MediaFile>, lib: i32, title: Seq<char>, media_id: i32) -> Seq<MediaFile> {
    Seq::new(
        fs.len(),
        |i: int|
            if fs[i].media_id is None && fs[i].library_id == lib && fs[i].raw_name@ == title {
                MediaFile { media_id: Some(media_id), ..fs[i] }
            } else {
                fs[i]
            },
    )
}

/// `t` is the raw title of some orphan of library `lib`.
pub open spec fn orphan_title(fs: Seq<MediaFile>, lib: i32, t: Seq<char>) -> bool {
    exists|i: int| 0 <= i < fs.len() && (#[trigger] fs[i]).media_id is None && fs[i].library_id == lib && fs[i].raw_name@ == t
}

fn contains_text(v: &Vec<String>, s: &String) -> (r: bool)
    ensures
        r == exists|k: int| 0 <= k < v@.len() && (#[trigger] v@[k])@ == s@,
{
    let mut i: usize = 0;
    while i < v.len()
        invariant
            i <= v@.len(),
            forall|k: int| 0 <= k < i ==> (#[trigger] v@[k])@ != s@,
        decreases v@.len() - i,
    {
        if v[i] == *s {
            return true;
        }
        i = i + 1;
    }
    false
}

impl MediaScanner {
    /// The distinct raw titles of the orphans of this scanner's library, in
    /// catalog order: one remote lookup is made for each.
    pub fn orphan_titles(&self, store: &MediaStore) -> (r: Vec<String>)
        ensures
            forall|t: Seq<char>| (exists|k: int| 0 <= k < r@.len() && (#[trigger] r@[k])@ == t)
                <==> orphan_title(store.files@, self.library.id, t),
            forall|a: int, b: int| 0 <= a < r@.len() && 0 <= b < r@.len() && a != b ==> (#[trigger] r@[a])@ != (#[trigger] r@[b])@,
    {
        let lib = self.library.id;
        let mut r: Vec<String> = Vec::new();
        let mut i: usize = 0;
        while i < store.files.len()
            invariant
                i <= store.files@.len(),
                lib == self.library.id,
                forall|t: Seq<char>| (exists|k: int| 0 <= k < r@.len() && (#[trigger] r@[k])@ == t)
                    <==> orphan_title(store.files@.subrange(0, i as int), lib, t),
                forall|a: int, b: int| 0 <= a < r@.len() && 0 <= b < r@.len() && a != b ==> (#[trigger] r@[a])@ != (#[trigger] r@[b])@,
            decreases store.files@.len() - i,
        {
            let f = &store.files[i];
            let ghost pre = store.files@.subrange(0, i as int);
            let ghost post = store.files@.subrange(0, i + 1);
            assert forall|k: int| 0 <= k < i implies post[k] == #[trigger] pre[k] by {}
            assert(post[i as int] == *f);
            if f.media_id.is_none() && f.library_id == lib && !contains_text(&r, &f.raw_name) {
                let ghost prev = r@;
                r.push(f.raw_name.clone());
                proof {
                    assert forall|t: Seq<char>| (exists|k: int| 0 <= k < r@.len() && (#[trigger] r@[k])@ == t)
                        implies orphan_title(post, lib, t) by {
                        let k = choose|k: int| 0 <= k < r@.len() && (#[trigger] r@[k])@ == t;
                        if k < prev.len() {
                            assert(prev[k]@ == t);
                            assert(exists|k2: int| 0 <= k2 < prev.len() && (#[trigger] prev[k2])@ == t);
                            assert(orphan_title(pre, lib, t));
                            let j = choose|j: int| 0 <= j < pre.len() && (#[trigger] pre[j]).media_id is None && pre[j].library_id == lib && pre[j].raw_name@ == t;
                            assert(post[j] == pre[j]);
                        } else {
                            assert(post[i as int].raw_name@ == t);
                        }
                    }
                    assert forall|t: Seq<char>| orphan_title(post, lib, t)
                        implies (exists|k: int| 0 <= k < r@.len() && (#[trigger] r@[k])@ == t) by {
                        let j = choose|j: int| 0 <= j < post.len() && (#[trigger] post[j]).media_id is None && post[j].library_id == lib && post[j].raw_name@ == t;
                        if j < i {
                            assert(pre[j] == post[j]);
                            assert(orphan_title(pre, lib, t));
                            let k = choose|k: int| 0 <= k < prev.len() && (#[trigger] prev[k])@ == t;
                            assert(r@[k] == prev[k]);
                        } else {
                            assert(r@[prev.len() as int]@ == t);
                        }
                    }
                    assert forall|a: int, b: int| 0 <= a < r@.len() && 0 <= b < r@.len() && a != b
                        implies (#[trigger] r@[a])@ != (#[trigger] r@[b])@ by {
                        if a < prev.len() && b < prev.len() {
                            assert(r@[a] == prev[a] && r@[b] == prev[b]);
                        } else if a < prev.len() {
                            assert(r@[a] == prev[a]);
                        } else if b < prev.len() {
                            assert(r@[b] == prev[b]);
                        }
                    }
                }
            } else {
                proof {
                    assert forall|t: Seq<char>| orphan_title(post, lib, t) implies orphan_title(pre, lib, t) by {
                        let j = choose|j: int| 0 <= j < post.len() && (#[trigger] post[j]).media_id is None && post[j].library_id == lib && post[j].raw_name@ == t;
                        if j < i {
                            assert(pre[j] == post[j]);
                        } else {
                            assert(exists|k: int| 0 <= k < r@.len() && (#[trigger] r@[k])@ == t);
                        }
                    }
                    assert forall|t: Seq<char>| orphan_title(pre, lib, t) implies orphan_title(post, lib, t) by {
                        let j = choose|j: int| 0 <= j < pre.len() && (#[trigger] pre[j]).media_id is None && pre[j].library_id == lib && pre[j].raw_name@ == t;
                        assert(pre[j] == post[j]);
                    }
                }
            }
            i = i + 1;
        }
        assert(store.files@.subrange(0, i as int) =~= store.files@);
        r
    }

    /// Links every orphan of this scanner's library whose raw title is
    /// `title` to the catalog record `media_id`; the other files stay as
    /// they are.
    pub fn link_title(&self, store: &mut MediaStore, title: &str, media_id: i32)
        requires
            old(store).wf(),
        ensures
            final(store).wf(),
            final(store).libraries@ == old(store).libraries@,
            final(store).next_id == old(store).next_id,
            final(store).files@ == linked(old(store).files@, self.library.id, title@, media_id),
    {
        let t = title.to_owned();
        let lib = self.library.id;
        let mut i: usize = 0;
        while i < store.files.len()
            invariant
                store.wf(),
                lib == self.library.id,
                t@ == title@,
                store.libraries@ == old(store).libraries@,
                store.next_id == old(store).next_id,
                store.files@.len() == old(store).files@.len(),
                i <= store.files@.len(),
                forall|k: int| 0 <= k < i ==> #[trigger] store.files@[k] == linked(old(store).files@, lib, title@, media_id)[k],
                forall|k: int| i <= k < store.files@.len() ==> #[trigger] store.files@[k] == old(store).files@[k],
            decreases store.files@.len() - i,
        {
            if store.files[i].media_id.is_none() && store.files[i].library_id == lib && store.files[i].raw_name == t {
                let mut m = store.files[i].copy();
                m.media_id = Some(media_id);
                let ghost before = store.files@;
                store.files.set(i, m);
                proof {
                    assert forall|a: int, b: int| 0 <= a < store.files@.len() && 0 <= b < store.files@.len() && a != b
                        implies (#[trigger] store.files@[a]).target_file@ != (#[trigger] store.files@[b]).target_file@
                        && store.files@[a].id != store.files@[b].id by {
                        assert(before[a].target_file@ != before[b].target_file@ && before[a].id != before[b].id);
                    }
                }
            }
            i = i + 1;
        }
        assert(store.files@ =~= linked(old(store).files@, lib, title@, media_id));
    }
}

/// Reconciliation is safe to re-run: linking the orphans of one title a
/// second time changes nothing.
pub proof fn lemma_link_idempotent(fs: Seq<MediaFile>, lib: i32, title: Seq<char>, media_id: i32)
    ensures
        linked(linked(fs, lib, title, media_id), lib, title, media_id) == linked(fs, lib, title, media_id),
{
    assert(linked(linked(fs, lib, title, media_id), lib, title, media_id) =~= linked(fs, lib, title, media_id));
}

/// Mounting is idempotent: once `p` has been mounted as `m`, mounting it
/// again asks for no probe, cannot fail, and yields `m` itself.
pub proof fn lemma_mount_twice(
    fs: Seq<MediaFile>,
    next_id: i32,
    lib: i32,
    p: Seq<char>,
    probe: Option<ProbeData>,
    m: MediaFile,
    probe_again: Option<ProbeData>,
)
    requires
        !has_path(fs, p),
        mount_error(fs, next_id, p, probe) is None,
        fresh_record(m, next_id, lib, p, probe->0),
    ensures
        has_path(fs.push(m), p),
        record_at_path(fs.push(m), p) == m,
        !needs_probe_spec(fs.push(m), p),
        mount_error(fs.push(m), (next_id + 1) as i32, p, probe_again) is None,
{
    let fs1 = fs.push(m);
    lemma_has_path_push(fs, m, p);
    let k = choose|k: int| 0 <= k < fs1.len() && (#[trigger] fs1[k]).target_file@ == p;
    if k < fs.len() {
        assert(fs[k] == fs1[k]);
    }
    assert(k == fs.len());
}

/// A freshly mounted file is an orphan of its library until a
/// reconciliation pass links it.
pub proof fn lemma_fresh_is_orphan(fs: Seq<MediaFile>, next_id: i32, lib: i32, p: Seq<char>, probe: ProbeData, m: MediaFile)
    requires
        fresh_record(m, next_id, lib, p, probe),
    ensures
        m.media_id is None,
        is_orphan(fs.push(m), m.id, lib),
{
    assert(fs.push(m)[fs.len() as int] == m);
}

} // verus!
