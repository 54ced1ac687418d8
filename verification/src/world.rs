//! The facade a document compiler is handed: the main source, a pinned
//! standard-definitions library, pinned font metadata and payloads, and file
//! resolution by identifier. Library and fonts are fixed at construction;
//! only the file store evolves, through its own lazy-parse path, and file
//! faults pass through to the compiler unchanged.

use vstd::prelude::*;
use vstd::utf8::{decode_utf8, valid_utf8};

use crate::store::{
    entry_wf, spec_store_get, strip_bom, FileEntry, FileError, Source, VirtualFileStore,
};

verus! {

/// One font face: its raw payload and the face index inside it.
#[derive(Debug, PartialEq)]
pub struct Font {
    pub data: Vec<u8>,
    pub index: usize,
}

/// The bundle the compiler consumes.
#[derive(Debug)]
pub struct TypstWorld {
    /// The main content source.
    source: Source,
    /// Serialized standard-library definitions, pinned for the session.
    library: Vec<u8>,
    /// The font catalog: one family name per known face, pinned.
    book: Vec<String>,
    /// The font payloads themselves, pinned.
    fonts: Vec<Font>,
    /// The shared virtual file store; the only part that evolves.
    files: VirtualFileStore,
}

impl TypstWorld {
    /// The main source, as the contracts see it.
    pub closed spec fn spec_source(&self) -> Source {
        self.source
    }

    /// The pinned library bytes.
    pub closed spec fn spec_library(&self) -> Seq<u8> {
        self.library@
    }

    /// The pinned font catalog.
    pub closed spec fn spec_book(&self) -> Seq<String> {
        self.book@
    }

    /// The pinned font payloads.
    pub closed spec fn spec_fonts(&self) -> Seq<Font> {
        self.fonts@
    }

    /// The file store's entries.
    pub closed spec fn spec_files(&self) -> Seq<(u64, FileEntry)> {
        self.files@
    }

    /// The store invariant carries over to the world.
    pub closed spec fn wf(&self) -> bool {
        self.files.wf()
    }

    /// Binds a session: takes ownership of the main source and pins library,
    /// fonts and the file store handle.
    pub fn new(
        source: Source,
        library: Vec<u8>,
        book: Vec<String>,
        fonts: Vec<Font>,
        files: VirtualFileStore,
    ) -> (w: TypstWorld)
        requires
            files.wf(),
        ensures
            w.wf(),
            w.spec_source() == source,
            w.spec_library() == library@,
            w.spec_book() == book@,
            w.spec_fonts() == fonts@,
            w.spec_files() == files@,
    {
        TypstWorld { source, library, book, fonts, files }
    }

    /// The main source.
    pub fn main_source(&self) -> (r: &Source)
        ensures
            *r == self.spec_source(),
    {
        &self.source
    }

    /// The pinned standard-library definitions.
    pub fn library(&self) -> (r: &Vec<u8>)
        ensures
            r@ == self.spec_library(),
    {
        &self.library
    }

    /// The pinned font catalog.
    pub fn book(&self) -> (r: &Vec<String>)
        ensures
            r@ == self.spec_book(),
    {
        &self.book
    }

    /// The pinned font payloads.
    pub fn fonts(&self) -> (r: &Vec<Font>)
        ensures
            r@ == self.spec_fonts(),
    {
        &self.fonts
    }

    /// One font payload by position in the catalog.
    pub fn font(&self, i: usize) -> (r: Option<&Font>)
        ensures
            match r {
                Some(f) => i < self.spec_fonts().len() && *f == self.spec_fonts()[i as int],
                None => i >= self.spec_fonts().len(),
            },
    {
        if i < self.fonts.len() {
            Some(&self.fonts[i])
        } else {
            None
        }
    }

    /// Loads, or overwrites, a file's raw content; nothing else changes.
    pub fn load_file(&mut self, id: u64, bytes: Vec<u8>) -> (r: FileEntry)
        requires
            old(self).wf(),
        ensures
            final(self).wf(),
            final(self).spec_source() == old(self).spec_source(),
            final(self).spec_library() == old(self).spec_library(),
            final(self).spec_book() == old(self).spec_book(),
            final(self).spec_fonts() == old(self).spec_fonts(),
            r.bytes@ == bytes@,
            r.source is None,
            spec_store_get(final(self).spec_files(), id) matches Some(e) && e.bytes@ == bytes@
                && e.source is None,
            forall|o: u64| o != id ==> spec_store_get(final(self).spec_files(), o)
                == spec_store_get(old(self).spec_files(), o),
    {
        self.files.load_bytes(id, bytes)
    }

    /// A file's raw content, exactly as the store resolves it; a missing
    /// identifier surfaces as the store's own fault, unchanged.
    pub fn file(&self, id: u64) -> (r: Result<&Vec<u8>, FileError>)
        ensures
            match spec_store_get(self.spec_files(), id) {
                Some(e) => r matches Ok(b) && b@ == e.bytes@,
                None => r == Err::<&Vec<u8>, FileError>(FileError::NotFound(id)),
            },
    {
        self.files.get_bytes(id)
    }

    /// A file's parsed source, exactly as the store resolves it: cached after
    /// the first parse, pinned fields untouched, faults passed through
    /// unchanged.
    pub fn source(&mut self, id: u64) -> (r: Result<Source, FileError>)
        requires
            old(self).wf(),
        ensures
            final(self).wf(),
            final(self).spec_source() == old(self).spec_source(),
            final(self).spec_library() == old(self).spec_library(),
            final(self).spec_book() == old(self).spec_book(),
            final(self).spec_fonts() == old(self).spec_fonts(),
            match spec_store_get(old(self).spec_files(), id) {
                None => final(self).spec_files() == old(self).spec_files() && r == Err::<
                    Source,
                    FileError,
                >(FileError::NotFound(id)),
                Some(e) => {
                    &&& (forall|o: u64| o != id ==> spec_store_get(final(self).spec_files(), o)
                        == spec_store_get(old(self).spec_files(), o))
                    &&& match e.source {
                        Some(src) => final(self).spec_files() == old(self).spec_files() && r
                            == Ok::<Source, FileError>(src),
                        None => {
                            if valid_utf8(e.bytes@) {
                                r matches Ok(src) && src.id == id && src.text@ == strip_bom(
                                    decode_utf8(e.bytes@),
                                ) && spec_store_get(final(self).spec_files(), id) == Some(
                                    (FileEntry { bytes: e.bytes, source: Some(src) }),
                                )
                            } else {
                                final(self).spec_files() == old(self).spec_files() && r == Err::<
                                    Source,
                                    FileError,
                                >(FileError::InvalidUtf8(id))
                            }
                        },
                    }
                },
            },
    {
        self.files.get_source(id)
    }
}

} // verus!
