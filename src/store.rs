use vstd::prelude::*;
use crate::kinds::MediaType;

verus! {

/// A configured root directory and the kind of media under it.
#[derive(Debug)]
pub struct Library {
    pub id: i32,
    pub name: String,
    pub location: String,
    pub media_type: MediaType,
}

/// What the technical probe reports of a file.
#[derive(Debug)]
pub struct ProbeData {
    pub quality: Option<String>,
    pub codec: Option<String>,
    pub container: Option<String>,
    pub audio: Option<String>,
    pub original_resolution: Option<String>,
    pub duration: Option<i32>,
    pub corrupt: Option<bool>,
}

/// A mounted file of a library, keyed by its path.
#[derive(Debug)]
pub struct MediaFile {
    pub id: i32,
    /// The matched record of the remote catalog; none while an orphan.
    pub media_id: Option<i32>,
    pub library_id: i32,
    pub target_file: String,
    pub raw_name: String,
    pub raw_year: Option<i32>,
    pub season: Option<i32>,
    pub episode: Option<i32>,
    pub quality: Option<String>,
    pub codec: Option<String>,
    pub container: Option<String>,
    pub audio: Option<String>,
    pub original_resolution: Option<String>,
    pub duration: Option<i32>,
    pub corrupt: Option<bool>,
}

pub(crate) fn copy_text(o: &Option<String>) -> (r: Option<String>)
    ensures
        r == *o,
{
    match o {
        Some(s) => Some(s.clone()),
        None => None,
    }
}

impl Library {
    pub fn copy(&self) -> (r: Library)
        ensures
            r == *self,
    {
        Library {
            id: self.id,
            name: self.name.clone(),
            location: self.location.clone(),
            media_type: self.media_type,
        }
    }
}

impl ProbeData {
    pub fn copy(&self) -> (r: ProbeData)
        ensures
            r == *self,
    {
        ProbeData {
            quality: copy_text(&self.quality),
            codec: copy_text(&self.codec),
            container: copy_text(&self.container),
            audio: copy_text(&self.audio),
            original_resolution: copy_text(&self.original_resolution),
            duration: self.duration,
            corrupt: self.corrupt,
        }
    }
}

impl MediaFile {
    pub fn copy(&self) -> (r: MediaFile)
        ensures
            r == *self,
    {
        MediaFile {
            id: self.id,
            media_id: self.media_id,
            library_id: self.library_id,
            target_file: self.target_file.clone(),
            raw_name: self.raw_name.clone(),
            raw_year: self.raw_year,
            season: self.season,
            episode: self.episode,
            quality: copy_text(&self.quality),
            codec: copy_text(&self.codec),
            container: copy_text(&self.container),
            audio: copy_text(&self.audio),
            original_resolution: copy_text(&self.original_resolution),
            duration: self.duration,
            corrupt: self.corrupt,
        }
    }
}

/// Some record of `fs` has path `p`.
pub open spec fn has_path(fs: Seq<MediaFile>, p: Seq<char>) -> bool {
    exists|i: int| 0 <= i < fs.len() && (#[trigger] fs[i]).target_file@ == p
}

pub proof fn lemma_has_path_push(fs: Seq<MediaFile>, m: MediaFile, p: Seq<char>)
    requires
        has_path(fs, p) || m.target_file@ == p,
    ensures
        has_path(fs.push(m), p),
{
    if has_path(fs, p) {
        let i = choose|i: int| 0 <= i < fs.len() && (#[trigger] fs[i]).target_file@ == p;
        assert(fs.push(m)[i] == fs[i]);
    } else {
        assert(fs.push(m)[fs.len() as int] == m);
    }
}

/// The record of `fs` with path `p`, where there is one.
pub open spec fn record_at_path(fs: Seq<MediaFile>, p: Seq<char>) -> MediaFile {
    fs[choose|i: int| 0 <= i < fs.len() && (#[trigger] fs[i]).target_file@ == p]
}

/// The file with id `id` of library `lib` has no catalog link.
pub open spec fn is_orphan(fs: Seq<MediaFile>, id: i32, lib: i32) -> bool {
    exists|i: int| 0 <= i < fs.len() && #[trigger] fs[i].id == id && fs[i].media_id is None && fs[i].library_id == lib
}

/// The ids of the orphans of library `lib` in `fs`, in order.
pub open spec fn orphan_ids(fs: Seq<MediaFile>, lib: i32) -> Seq<i32>
    decreases fs.len(),
{
    if fs.len() == 0 {
        Seq::empty()
    } else {
        let rest = orphan_ids(fs.drop_last(), lib);
        if fs.last().media_id is None && fs.last().library_id == lib {
            rest.push(fs.last().id)
        } else {
            rest
        }
    }
}

/// Some record of `fs` has id `id`.
pub open spec fn has_id(fs: Seq<MediaFile>, id: i32) -> bool {
    exists|i: int| 0 <= i < fs.len() && (#[trigger] fs[i]).id == id
}

/// No two libraries share an id.
pub open spec fn libraries_unique(ls: Seq<Library>) -> bool {
    forall|i: int, j: int| 0 <= i < ls.len() && 0 <= j < ls.len() && i != j ==> (#[trigger] ls[i]).id != (#[trigger] ls[j]).id
}

/// The mounted files and libraries that the scanners work on, in memory.
pub struct MediaStore {
    pub libraries: Vec<Library>,
    pub files: Vec<MediaFile>,
    /// The id that the next mounted file gets.
    pub next_id: i32,
}

impl MediaStore {
    /// Paths and ids are unique, and every id is below the next one.
    pub open spec fn wf(&self) -> bool {
        &&& libraries_unique(self.libraries@)
        &&& 1 <= self.next_id
        &&& forall|i: int|
            0 <= i < self.files@.len() ==> 1 <= (#[trigger] self.files@[i]).id < self.next_id
        &&& forall|i: int, j: int|
            0 <= i < self.files@.len() && 0 <= j < self.files@.len() && i != j
                ==> (#[trigger] self.files@[i]).target_file@ != (#[trigger] self.files@[j]).target_file@
                && self.files@[i].id != self.files@[j].id
    }

    /// A store with these libraries and no mounted file.
    pub fn new(libraries: Vec<Library>) -> (r: MediaStore)
        requires
            libraries_unique(libraries@),
        ensures
            r.wf(),
            r.libraries@ == libraries@,
            r.files@.len() == 0,
    {
        MediaStore { libraries, files: Vec::new(), next_id: 1 }
    }

    /// The library with id `id`, where there is one.
    pub fn get_library(&self, id: i32) -> (r: Option<Library>)
        requires
            libraries_unique(self.libraries@),
        ensures
            r is None <==> forall|i: int| 0 <= i < self.libraries@.len() ==> (#[trigger] self.libraries@[i]).id != id,
            forall|i: int| 0 <= i < self.libraries@.len() && (#[trigger] self.libraries@[i]).id == id ==> r == Some(self.libraries@[i]),
    {
        let mut i: usize = 0;
        while i < self.libraries.len()
            invariant
                libraries_unique(self.libraries@),
                i <= self.libraries@.len(),
                forall|j: int| 0 <= j < i ==> (#[trigger] self.libraries@[j]).id != id,
            decreases self.libraries@.len() - i,
        {
            if self.libraries[i].id == id {
                let l = self.libraries[i].copy();
                assert(self.libraries@[i as int] == l);
                return Some(l);
            }
            i = i + 1;
        }
        None
    }

    fn index_of_path(&self, path: &String) -> (r: Option<usize>)
        requires
            self.wf(),
        ensures
            r is None <==> !has_path(self.files@, path@),
            r is Some ==> r->0 < self.files@.len() && self.files@[r->0 as int].target_file@ == path@
                && self.files@[r->0 as int] == record_at_path(self.files@, path@),
    {
        let mut i: usize = 0;
        while i < self.files.len()
            invariant
                self.wf(),
                i <= self.files@.len(),
                forall|j: int| 0 <= j < i ==> (#[trigger] self.files@[j]).target_file@ != path@,
            decreases self.files@.len() - i,
        {
            if self.files[i].target_file == *path {
                proof {
                    let k = choose|k: int| 0 <= k < self.files@.len() && (#[trigger] self.files@[k]).target_file@ == path@;
                    assert(k == i);
                }
                return Some(i);
            }
            i = i + 1;
        }
        None
    }

    /// The mounted file with this path, where there is one.
    pub fn get_by_path(&self, path: &str) -> (r: Option<MediaFile>)
        requires
            self.wf(),
        ensures
            r is None <==> !has_path(self.files@, path@),
            r is Some ==> r->0 == record_at_path(self.files@, path@),
    {
        let p = path.to_owned();
        match self.index_of_path(&p) {
            Some(i) => Some(self.files[i].copy()),
            None => None,
        }
    }

    /// The mounted file with this id, where there is one.
    pub fn get_one(&self, id: i32) -> (r: Option<MediaFile>)
        ensures
            r is None <==> !has_id(self.files@, id),
            r is Some ==> r->0.id == id && self.files@.contains(r->0),
    {
        let mut i: usize = 0;
        while i < self.files.len()
            invariant
                i <= self.files@.len(),
                forall|j: int| 0 <= j < i ==> (#[trigger] self.files@[j]).id != id,
            decreases self.files@.len() - i,
        {
            if self.files[i].id == id {
                let m = self.files[i].copy();
                assert(self.files@[i as int] == m);
                return Some(m);
            }
            i = i + 1;
        }
        None
    }

    /// Removes the mounted file with this path; whether there was one.
    pub fn delete(&mut self, path: &str) -> (r: bool)
        requires
            old(self).wf(),
        ensures
            final(self).wf(),
            r == has_path(old(self).files@, path@),
            !has_path(final(self).files@, path@),
            final(self).libraries@ == old(self).libraries@,
            forall|m: MediaFile| #[trigger] final(self).files@.contains(m) <==> old(self).files@.contains(m) && m.target_file@ != path@,
            final(self).next_id == old(self).next_id,
            !r ==> final(self).files@ == old(self).files@,
            r ==> exists|i: int| 0 <= i < old(self).files@.len() && (#[trigger] old(self).files@[i]).target_file@ == path@
                && final(self).files@ == old(self).files@.remove(i),
    {
        let p = path.to_owned();
        match self.index_of_path(&p) {
            Some(i) => {
                let ghost before = self.files@;
                self.files.remove(i);
                proof {
                    assert(self.files@ == before.remove(i as int));
                    assert(before[i as int].target_file@ == path@);
                    assert forall|m: MediaFile| #[trigger] self.files@.contains(m) <==> before.contains(m) && m.target_file@ != path@ by {
                        if before.contains(m) && m.target_file@ != path@ {
                            let k = choose|k: int| 0 <= k < before.len() && before[k] == m;
                            if k < i { assert(self.files@[k] == m); } else { assert(self.files@[k - 1] == m); }
                        }
                        if self.files@.contains(m) {
                            let k = choose|k: int| 0 <= k < self.files@.len() && self.files@[k] == m;
                            if k < i { assert(before[k] == m); } else { assert(before[k + 1] == m); }
                        }
                    }
                    assert forall|j: int| 0 <= j < self.files@.len() implies (#[trigger] self.files@[j]).target_file@ != path@ by {
                        if j < i { assert(self.files@[j] == before[j]); } else { assert(self.files@[j] == before[j + 1]); }
                    }
                }
                true
            },
            None => false,
        }
    }

    /// The ids of the orphans of library `library_id`, in catalog order.
    pub fn orphans(&self, library_id: i32) -> (r: Vec<i32>)
        ensures
            forall|id: i32| #[trigger] r@.contains(id) <==> is_orphan(self.files@, id, library_id),
            r@ == orphan_ids(self.files@, library_id),
    {
        let mut r: Vec<i32> = Vec::new();
        let mut i: usize = 0;
        while i < self.files.len()
            invariant
                i <= self.files@.len(),
                r@ == orphan_ids(self.files@.subrange(0, i as int), library_id),
                forall|id: i32| #[trigger] r@.contains(id) <==> exists|k: int| 0 <= k < i
                    && #[trigger] self.files@[k].id == id && self.files@[k].media_id is None
                    && self.files@[k].library_id == library_id,
            decreases self.files@.len() - i,
        {
            let f = &self.files[i];
            assert(self.files@.subrange(0, i + 1).drop_last() =~= self.files@.subrange(0, i as int));
            if f.media_id.is_none() && f.library_id == library_id {
                let ghost prev = r@;
                r.push(f.id);
                proof {
                    assert(r@ == prev.push(f.id));
                    assert forall|id: i32| #[trigger] r@.contains(id) implies exists|k: int| 0 <= k < i + 1
                        && #[trigger] self.files@[k].id == id && self.files@[k].media_id is None
                        && self.files@[k].library_id == library_id by {
                        let q = choose|q: int| 0 <= q < r@.len() && r@[q] == id;
                        if q < prev.len() {
                            assert(prev[q] == id);
                            assert(prev.contains(id));
                        } else {
                            assert(self.files@[i as int].id == id);
                        }
                    }
                    assert forall|id: i32| (exists|k: int| 0 <= k < i + 1
                        && #[trigger] self.files@[k].id == id && self.files@[k].media_id is None
                        && self.files@[k].library_id == library_id) implies #[trigger] r@.contains(id) by {
                        let k = choose|k: int| 0 <= k < i + 1
                            && #[trigger] self.files@[k].id == id && self.files@[k].media_id is None
                            && self.files@[k].library_id == library_id;
                        if k < i {
                            assert(prev.contains(id));
                            let q = choose|q: int| 0 <= q < prev.len() && prev[q] == id;
                            assert(r@[q] == id);
                        } else {
                            assert(r@[prev.len() as int] == id);
                        }
                    }
                }
            }
            i = i + 1;
        }
        assert(self.files@.subrange(0, i as int) =~= self.files@);
        r
    }

    /// Links the mounted file with id `id` to the catalog record `media_id`;
    /// whether there was such a file.
    pub fn set_media_id(&mut self, id: i32, media_id: i32) -> (r: bool)
        requires
            old(self).wf(),
        ensures
            final(self).wf(),
            r == has_id(old(self).files@, id),
            final(self).libraries@ == old(self).libraries@,
            final(self).next_id == old(self).next_id,
            final(self).files@.len() == old(self).files@.len(),
            forall|i: int| 0 <= i < old(self).files@.len() ==> #[trigger] final(self).files@[i] == if old(self).files@[i].id == id {
                MediaFile { media_id: Some(media_id), ..old(self).files@[i] }
            } else {
                old(self).files@[i]
            },
    {
        let mut i: usize = 0;
        while i < self.files.len()
            invariant
                self.wf(),
                *self == *old(self),
                i <= self.files@.len(),
                forall|j: int| 0 <= j < i ==> (#[trigger] self.files@[j]).id != id,
            decreases self.files@.len() - i,
        {
            if self.files[i].id == id {
                let mut m = self.files[i].copy();
                m.media_id = Some(media_id);
                let ghost before = self.files@;
                self.files.set(i, m);
                proof {
                    assert forall|j: int| 0 <= j < before.len() && j != i implies before[j].id != id by {
                        assert(before[j].id != before[i as int].id);
                    }
                    assert forall|a: int, b: int| 0 <= a < self.files@.len() && 0 <= b < self.files@.len() && a != b
                        implies (#[trigger] self.files@[a]).target_file@ != (#[trigger] self.files@[b]).target_file@
                        && self.files@[a].id != self.files@[b].id by {
                        assert(before[a].target_file@ != before[b].target_file@);
                    }
                }
                return true;
            }
            i = i + 1;
        }
        false
    }
}

} // verus!
