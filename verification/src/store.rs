//! The virtual file layer a document compiler consults: raw bytes per opaque
//! file identifier, and a source representation parsed from them at most
//! once. Parsing decodes the bytes as UTF-8 and strips every leading
//! byte-order mark; the result is cached and never re-derived.

use vstd::prelude::*;
use vstd::utf8::{decode_utf8, valid_utf8};

verus! {

/// Why a file request failed; each variant names the file identifier.
#[derive(Debug, PartialEq)]
pub enum FileError {
    /// No content was ever loaded for the identifier.
    NotFound(u64),
    /// The loaded content is not valid UTF-8 text.
    InvalidUtf8(u64),
}

/// The text with every leading byte-order mark removed.
pub open spec fn strip_bom(s: Seq<char>) -> Seq<char>
    decreases s.len(),
{
    if s.len() > 0 && s[0] == '\u{feff}' {
        strip_bom(s.drop_first())
    } else {
        s
    }
}

/// Relies on std::str::from_utf8: it succeeds exactly on valid UTF-8 input,
/// and decodes it; vstd's `valid_utf8` and `decode_utf8` state both.
#[verifier::external_body]
fn decode_utf8_bytes(bytes: &Vec<u8>) -> (r: Option<String>)
    ensures
        r is Some <==> valid_utf8(bytes@),
        r matches Some(s) ==> s@ == decode_utf8(bytes@),
{
    match std::str::from_utf8(bytes.as_slice()) {
        Ok(s) => Some(s.to_string()),
        Err(_) => None,
    }
}

/// Removes every leading byte-order mark from the text.
pub fn strip_bom_string(s: String) -> (r: String)
    ensures
        r@ == strip_bom(s@),
{
    let mut t = s;
    while t.as_str().unicode_len() > 0 && t.as_str().get_char(0) == '\u{feff}'
        invariant
            strip_bom(t@) == strip_bom(s@),
        decreases t@.len(),
    {
        let n = t.as_str().unicode_len();
        t = t.as_str().substring_char(1, n).to_owned();
    }
    t
}

/// A parsed source: the file identifier it was requested under, and the
/// decoded, byte-order-mark-free text.
#[derive(Debug, PartialEq)]
pub struct Source {
    pub id: u64,
    pub text: String,
}

impl Clone for Source {
    /// An exact copy.
    fn clone(&self) -> (r: Source)
        ensures
            r == *self,
    {
        Source { id: self.id, text: self.text.clone() }
    }
}

/// One file's raw content, and the source parsed from it, once demanded.
#[derive(Debug)]
pub struct FileEntry {
    pub bytes: Vec<u8>,
    pub source: Option<Source>,
}

/// A populated source cache is exactly what parsing the entry's bytes under
/// its identifier gives: decoded text, stripped of leading byte-order marks.
pub open spec fn entry_wf(e: FileEntry, id: u64) -> bool {
    match e.source {
        Some(src) => src.id == id && valid_utf8(e.bytes@) && src.text@ == strip_bom(
            decode_utf8(e.bytes@),
        ),
        None => true,
    }
}

impl FileEntry {
    /// An entry holding raw content, and a parsed source where one is already
    /// known.
    pub fn new(bytes: Vec<u8>, source: Option<Source>) -> (r: FileEntry)
        ensures
            r.bytes == bytes,
            r.source == source,
    {
        FileEntry { bytes, source }
    }

    /// The parsed source of this entry: computed from the bytes on the first
    /// call, the cached value on every later one. The bytes never change; a
    /// cache, once filled, holds exactly the source that is returned.
    pub fn source(&mut self, id: u64) -> (r: Result<Source, FileError>)
        ensures
            final(self).bytes == old(self).bytes,
            match old(self).source {
                Some(src) => *final(self) == *old(self) && r == Ok::<Source, FileError>(src),
                None => {
                    if valid_utf8(old(self).bytes@) {
                        r matches Ok(src) && src.id == id && src.text@ == strip_bom(
                            decode_utf8(old(self).bytes@),
                        ) && final(self).source == Some(src)
                    } else {
                        *final(self) == *old(self) && r == Err::<Source, FileError>(
                            FileError::InvalidUtf8(id),
                        )
                    }
                },
            },
    {
        match &self.source {
            Some(src) => Ok(src.clone()),
            None => match decode_utf8_bytes(&self.bytes) {
                None => Err(FileError::InvalidUtf8(id)),
                Some(text) => {
                    let stripped = strip_bom_string(text);
                    let src = Source { id, text: stripped };
                    self.source = Some(src.clone());
                    Ok(src)
                },
            },
        }
    }
}

/// First entry under the identifier, if any.
pub open spec fn spec_store_get(entries: Seq<(u64, FileEntry)>, id: u64) -> Option<FileEntry>
    decreases entries.len(),
{
    if entries.len() == 0 {
        None
    } else if entries[0].0 == id {
        Some(entries[0].1)
    } else {
        spec_store_get(entries.drop_first(), id)
    }
}

/// Skipping entries under other identifiers does not change the lookup.
proof fn lemma_store_get_skip(entries: Seq<(u64, FileEntry)>, id: u64, i: int)
    requires
        0 <= i <= entries.len(),
        forall|j: int| 0 <= j < i ==> entries[j].0 != id,
    ensures
        spec_store_get(entries, id) == spec_store_get(entries.skip(i), id),
    decreases i,
{
    if i > 0 {
        assert(entries.skip(i) =~= entries.drop_first().skip(i - 1));
        lemma_store_get_skip(entries.drop_first(), id, i - 1);
    } else {
        assert(entries.skip(0) =~= entries);
    }
}

/// Replacing the entry at one index changes the lookup under its identifier
/// alone, provided identifiers are distinct.
proof fn lemma_store_get_update(entries: Seq<(u64, FileEntry)>, i: int, e2: FileEntry)
    requires
        0 <= i < entries.len(),
        forall|p: int, q: int| 0 <= p < q < entries.len() ==> entries[p].0 != entries[q].0,
    ensures
        spec_store_get(entries.update(i, (entries[i].0, e2)), entries[i].0) == Some(e2),
        forall|o: u64| o != entries[i].0 ==> spec_store_get(
            entries.update(i, (entries[i].0, e2)),
            o,
        ) == spec_store_get(entries, o),
    decreases i,
{
    let up = entries.update(i, (entries[i].0, e2));
    let key = entries[i].0;
    if i == 0 {
        assert(up[0] == (entries[0].0, e2));
        assert(up.drop_first() =~= entries.drop_first());
        assert(spec_store_get(up, key) == Some(e2));
        assert forall|o: u64| o != key implies spec_store_get(up, o) == spec_store_get(
            entries,
            o,
        ) by {
            assert(spec_store_get(up, o) == spec_store_get(up.drop_first(), o));
            assert(spec_store_get(entries, o) == spec_store_get(entries.drop_first(), o));
        }
    } else {
        assert(up[0] == entries[0]);
        assert(up.drop_first() =~= entries.drop_first().update(i - 1, (entries[i].0, e2)));
        assert(entries.drop_first()[i - 1] == entries[i]);
        lemma_store_get_update(entries.drop_first(), i - 1, e2);
        assert(entries[0].0 != key);
        assert(spec_store_get(up, key) == spec_store_get(up.drop_first(), key));
        assert(spec_store_get(up, key) == Some(e2));
        assert forall|o: u64| o != key implies spec_store_get(up, o) == spec_store_get(
            entries,
            o,
        ) by {
            if o == entries[0].0 {
                assert(spec_store_get(up, o) == Some(up[0].1));
                assert(spec_store_get(entries, o) == Some(entries[0].1));
            } else {
                assert(spec_store_get(up, o) == spec_store_get(up.drop_first(), o));
                assert(spec_store_get(entries, o) == spec_store_get(entries.drop_first(), o));
            }
        }
    }
}

/// Appending an entry changes the lookup only for an identifier that had no
/// entry, and only to the appended one.
proof fn lemma_store_get_push(entries: Seq<(u64, FileEntry)>, pair: (u64, FileEntry), o: u64)
    ensures
        spec_store_get(entries.push(pair), o) == (match spec_store_get(entries, o) {
            Some(e) => Some(e),
            None => if o == pair.0 {
                Some(pair.1)
            } else {
                None
            },
        }),
    decreases entries.len(),
{
    let pu = entries.push(pair);
    if entries.len() > 0 {
        assert(pu[0] == entries[0]);
        assert(pu.drop_first() =~= entries.drop_first().push(pair));
        lemma_store_get_push(entries.drop_first(), pair, o);
        if o == entries[0].0 {
            assert(spec_store_get(pu, o) == Some(pu[0].1));
            assert(spec_store_get(entries, o) == Some(entries[0].1));
        } else {
            assert(spec_store_get(pu, o) == spec_store_get(pu.drop_first(), o));
            assert(spec_store_get(entries, o) == spec_store_get(entries.drop_first(), o));
        }
    } else {
        assert(pu.len() == 1);
        assert(pu[0] == pair);
        assert(pu.drop_first() =~= Seq::<(u64, FileEntry)>::empty());
        assert(spec_store_get(entries, o) is None);
        if o != pair.0 {
            assert(spec_store_get(pu, o) == spec_store_get(pu.drop_first(), o));
        }
    }
}

/// The session's file cache: content per identifier, inserted on demand,
/// never evicted; each parsed source is derived at most once.
#[derive(Debug)]
pub struct VirtualFileStore {
    entries: Vec<(u64, FileEntry)>,
}

impl View for VirtualFileStore {
    type V = Seq<(u64, FileEntry)>;

    closed spec fn view(&self) -> Seq<(u64, FileEntry)> {
        self.entries@
    }
}

impl VirtualFileStore {
    /// Identifiers are distinct and every cached source is exactly what its
    /// entry's bytes parse to.
    pub open spec fn wf(&self) -> bool {
        &&& forall|p: int, q: int| 0 <= p < q < self@.len() ==> self@[p].0 != self@[q].0
        &&& forall|i: int| 0 <= i < self@.len() ==> entry_wf(#[trigger] self@[i].1, self@[i].0)
    }

    /// An empty store.
    pub fn new() -> (s: VirtualFileStore)
        ensures
            s.wf(),
            s@.len() == 0,
            forall|o: u64| spec_store_get(s@, o) is None,
    {
        VirtualFileStore { entries: Vec::new() }
    }

    /// The index of the entry under the identifier, if any.
    fn find_index(&self, id: u64) -> (r: Option<usize>)
        ensures
            match r {
                Some(i) => i < self@.len() && self@[i as int].0 == id && spec_store_get(self@, id)
                    == Some(self@[i as int].1),
                None => spec_store_get(self@, id) is None && (forall|j: int|
                    0 <= j < self@.len() ==> self@[j].0 != id),
            },
    {
        let mut i: usize = 0;
        while i < self.entries.len()
            invariant
                0 <= i <= self@.len(),
                forall|j: int| 0 <= j < i ==> self@[j].0 != id,
            decreases self@.len() - i,
        {
            if self.entries[i].0 == id {
                proof {
                    lemma_store_get_skip(self@, id, i as int);
                    assert(self@.skip(i as int)[0] == self@[i as int]);
                }
                return Some(i);
            }
            i += 1;
        }
        proof {
            lemma_store_get_skip(self@, id, i as int);
            assert(self@.skip(i as int).len() == 0);
        }
        None
    }

    /// Inserts, or overwrites, the raw content under an identifier; nothing
    /// is parsed yet. Returns the entry that now sits there.
    pub fn load_bytes(&mut self, id: u64, bytes: Vec<u8>) -> (r: FileEntry)
        requires
            old(self).wf(),
        ensures
            final(self).wf(),
            r.bytes@ == bytes@,
            r.source is None,
            spec_store_get(final(self)@, id) matches Some(e) && e.bytes@ == bytes@ && e.source
                is None,
            forall|o: u64| o != id ==> spec_store_get(final(self)@, o) == spec_store_get(
                old(self)@,
                o,
            ),
    {
        let ret_bytes = copy_bytes(&bytes);
        let stored = FileEntry { bytes, source: None };
        let ghost gst = stored;
        let ghost pre = self@;
        match self.find_index(id) {
            Some(i) => {
                self.entries.remove(i);
                self.entries.insert(i, (id, stored));
                proof {
                    assert(self@ =~= pre.update(i as int, (id, gst)));
                    assert((id, gst) == (pre[i as int].0, gst));
                    lemma_store_get_update(pre, i as int, gst);
                }
            },
            None => {
                self.entries.push((id, stored));
                proof {
                    assert(self@ =~= pre.push((id, gst)));
                    assert forall|o: u64| o != id implies spec_store_get(self@, o)
                        == spec_store_get(pre, o) by {
                        lemma_store_get_push(pre, (id, gst), o);
                    }
                    lemma_store_get_push(pre, (id, gst), id);
                }
            },
        }
        FileEntry { bytes: ret_bytes, source: None }
    }

    /// Raw content under the identifier, without forcing a parse.
    pub fn get_bytes(&self, id: u64) -> (r: Result<&Vec<u8>, FileError>)
        ensures
            match spec_store_get(self@, id) {
                Some(e) => r matches Ok(b) && b@ == e.bytes@,
                None => r == Err::<&Vec<u8>, FileError>(FileError::NotFound(id)),
            },
    {
        match self.find_index(id) {
            Some(i) => Ok(&self.entries[i].1.bytes),
            None => Err(FileError::NotFound(id)),
        }
    }

    /// Whether the entry under the identifier already carries a parsed
    /// source.
    pub fn is_parsed(&self, id: u64) -> (r: bool)
        ensures
            r == (spec_store_get(self@, id) matches Some(e) && e.source is Some),
    {
        match self.find_index(id) {
            Some(i) => self.entries[i].1.source.is_some(),
            None => false,
        }
    }

    /// The parsed source under the identifier: computed and cached on the
    /// first call, the cached value — unchanged store — on every later one.
    pub fn get_source(&mut self, id: u64) -> (r: Result<Source, FileError>)
        requires
            old(self).wf(),
        ensures
            final(self).wf(),
            match spec_store_get(old(self)@, id) {
                None => final(self)@ == old(self)@ && r == Err::<Source, FileError>(
                    FileError::NotFound(id),
                ),
                Some(e) => {
                    &&& (forall|o: u64| o != id ==> spec_store_get(final(self)@, o)
                        == spec_store_get(old(self)@, o))
                    &&& match e.source {
                        Some(src) => final(self)@ == old(self)@ && r == Ok::<Source, FileError>(
                            src,
                        ),
                        None => {
                            if valid_utf8(e.bytes@) {
                                r matches Ok(src) && src.id == id && src.text@ == strip_bom(
                                    decode_utf8(e.bytes@),
                                ) && spec_store_get(final(self)@, id) == Some(
                                    (FileEntry { bytes: e.bytes, source: Some(src) }),
                                )
                            } else {
                                final(self)@ == old(self)@ && r == Err::<Source, FileError>(
                                    FileError::InvalidUtf8(id),
                                )
                            }
                        },
                    }
                },
            },
    {
        match self.find_index(id) {
            None => Err(FileError::NotFound(id)),
            Some(i) => {
                let ghost pre = self@;
                let mut pair = self.entries.remove(i);
                let r = pair.1.source(id);
                self.entries.insert(i, pair);
                proof {
                    assert(self@ =~= pre.update(i as int, (pre[i as int].0, self@[i as int].1)));
                    lemma_store_get_update(pre, i as int, self@[i as int].1);
                }
                r
            },
        }
    }
}

/// A byte-for-byte copy.
fn copy_bytes(b: &Vec<u8>) -> (r: Vec<u8>)
    ensures
        r@ == b@,
{
    let mut r: Vec<u8> = Vec::new();
    let mut i: usize = 0;
    while i < b.len()
        invariant
            0 <= i <= b@.len(),
            r@ =~= b@.subrange(0, i as int),
        decreases b@.len() - i,
    {
        r.push(b[i]);
        i += 1;
    }
    proof {
        assert(r@ =~= b@);
    }
    r
}

} // verus!
