//! A snapshot of the document store: each file's URI and its coordinate
//! index, a file's handle being its index.
use crate::analysis::FileId;
use crate::line_map::{byte_len, lemma_byte_len_is_utf8_len, LineMap};
use vstd::prelude::*;

verus! {

/// The store's files, each as (URI, text).
pub type VfsView = Seq<(Seq<char>, Seq<char>)>;

/// `file` names a file of the store.
pub open spec fn has_file(v: VfsView, file: FileId) -> bool {
    (file.0 as int) < v.len()
}

pub open spec fn uri_of(v: VfsView, file: FileId) -> Seq<char> {
    v[file.0 as int].0
}

pub open spec fn text_of(v: VfsView, file: FileId) -> Seq<char> {
    v[file.0 as int].1
}

/// No two files share a URI.
pub open spec fn distinct_uris(v: VfsView) -> bool {
    forall|i: int, j: int| 0 <= i < v.len() && 0 <= j < v.len() && i != j ==> #[trigger] v[i].0
        != #[trigger] v[j].0
}

/// Some file of the store has URI `uri`.
pub open spec fn tracks_uri(v: VfsView, uri: Seq<char>) -> bool {
    exists|i: int| 0 <= i < v.len() && #[trigger] v[i].0 == uri
}

/// A lookup of an URI that the store does not track.
#[derive(Clone, Debug, PartialEq, Eq)]
pub struct UnknownDocument {
    pub uri: String,
}

pub struct Vfs {
    files: Vec<(String, LineMap)>,
}

impl View for Vfs {
    type V = VfsView;

    closed spec fn view(&self) -> VfsView {
        self.files@.map_values(|f: (String, LineMap)| (f.0@, f.1@))
    }
}

impl Vfs {
    /// Every text fits 32-bit offsets, every file a 32-bit handle, and no
    /// two files share a URI.
    pub open spec fn wf(&self) -> bool {
        &&& self@.len() <= u32::MAX + 1
        &&& forall|i: int| 0 <= i < self@.len() ==> byte_len(#[trigger] self@[i].1) <= u32::MAX
        &&& distinct_uris(self@)
    }

    pub fn new() -> (r: Vfs)
        ensures
            r@ == Seq::<(Seq<char>, Seq<char>)>::empty(),
            r.wf(),
    {
        let r = Vfs { files: Vec::new() };
        assert(r@ =~= Seq::<(Seq<char>, Seq<char>)>::empty());
        r
    }

    /// Sets the text of the document `uri` and returns its handle. A
    /// tracked document keeps its handle and gets a fresh index; an
    /// untracked one is added with the next handle. Nothing changes, and
    /// nothing is returned, when the text does not fit 32-bit offsets or no
    /// handle is left.
    pub fn add_file(&mut self, uri: String, text: &str) -> (r: Option<FileId>)
        requires
            old(self).wf(),
        ensures
            final(self).wf(),
            r is Some <==> byte_len(text@) <= u32::MAX && (old(self)@.len() <= u32::MAX
                || tracks_uri(old(self)@, uri@)),
            match r {
                Some(f) => if tracks_uri(old(self)@, uri@) {
                    &&& has_file(old(self)@, f)
                    &&& uri_of(old(self)@, f) == uri@
                    &&& final(self)@ == old(self)@.update(f.0 as int, (uri@, text@))
                } else {
                    &&& f.0 == old(self)@.len()
                    &&& final(self)@ == old(self)@.push((uri@, text@))
                },
                None => final(self)@ == old(self)@,
            },
    {
        proof {
            lemma_byte_len_is_utf8_len(text@);
        }
        let size = text.as_bytes().len();
        if size > 0xFFFF_FFFF {
            return None;
        }
        let ghost prev = self@;
        match self.file_for_uri(&uri) {
            Some(f) => {
                let map = LineMap::new(text);
                let ghost u = uri@;
                self.files[f.0 as usize] = (uri, map);
                assert(self@ =~= prev.update(f.0 as int, (u, text@)));
                Some(f)
            },
            None => {
                if self.files.len() > 0xFFFF_FFFF {
                    return None;
                }
                let r = FileId(self.files.len() as u32);
                let map = LineMap::new(text);
                let ghost u = uri@;
                self.files.push((uri, map));
                assert(self@ =~= prev.push((u, text@)));
                Some(r)
            },
        }
    }

    /// The URI of `file`.
    pub fn uri_for_file(&self, file: FileId) -> (r: String)
        requires
            has_file(self@, file),
        ensures
            r@ == uri_of(self@, file),
    {
        self.files[file.0 as usize].0.clone()
    }

    /// The coordinate index of `file`.
    pub fn file_line_map(&self, file: FileId) -> (r: &LineMap)
        requires
            self.wf(),
            has_file(self@, file),
        ensures
            r@ == text_of(self@, file),
            r.wf(),
    {
        assert(byte_len(self@[file.0 as int].1) <= u32::MAX);
        &self.files[file.0 as usize].1
    }

    /// The file whose URI is `uri`, if the store tracks one.
    pub fn file_for_uri(&self, uri: &String) -> (r: Option<FileId>)
        requires
            self.wf(),
        ensures
            match r {
                Some(f) => has_file(self@, f) && uri_of(self@, f) == uri@,
                None => !tracks_uri(self@, uri@),
            },
    {
        let mut i: usize = 0;
        while i < self.files.len()
            invariant
                self.wf(),
                i <= self.files.len(),
                self@.len() == self.files.len(),
                forall|j: int| 0 <= j < i ==> #[trigger] self@[j].0 != uri@,
            decreases self.files.len() - i,
        {
            if self.files[i].0 == *uri {
                return Some(FileId(i as u32));
            }
            i = i + 1;
        }
        None
    }
}

} // verus!
