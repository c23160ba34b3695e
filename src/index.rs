//! The shared catalogue index: one entry per catalogue number, in insertion order.
use vstd::prelude::*;
use vstd::string::StringExecFns;
use crate::json::{
    as_list, is_json_text, json_of, keys_distinct, list_of, list_value, member, member_of,
    number_member, number_member_of, number_value, object_value, parse_document, pretty_of,
    pretty_text, text_member, text_member_of, text_value,
};
use crate::names::species;
use crate::text::push_char;
use crate::record::{source_tag, NormalizedMetadata};

verus! {

/// One row of the index.
#[derive(Debug)]
pub struct IndexEntry {
    pub filename: String,
    pub metadata: String,
    pub xc_id: u64,
    pub en: String,
    pub species: String,
    pub source: String,
}

/// The index document: a format version and the entries in insertion order.
#[derive(Debug)]
pub struct Index {
    pub version: u64,
    pub sounds: Vec<IndexEntry>,
}

/// What a merge did.
#[derive(Debug, Clone, Copy, PartialEq, Eq)]
pub enum MergeOutcome {
    Inserted,
    AlreadyPresent,
}

/// The version that new index documents carry.
pub const INDEX_VERSION: u64 = 1;

pub open spec fn has_id(entries: Seq<IndexEntry>, id: u64) -> bool {
    exists|i: int| 0 <= i < entries.len() && (#[trigger] entries[i]).xc_id == id
}

/// No two entries share a catalogue number.
pub open spec fn ids_unique(entries: Seq<IndexEntry>) -> bool {
    forall|i: int, j: int|
        0 <= i < entries.len() && 0 <= j < entries.len() && i != j ==> (#[trigger] entries[i]).xc_id
            != (#[trigger] entries[j]).xc_id
}

/// The entries after merging `e`: unchanged when its number is present,
/// otherwise `e` appended.
pub open spec fn merged(entries: Seq<IndexEntry>, e: IndexEntry) -> Seq<IndexEntry> {
    if has_id(entries, e.xc_id) {
        entries
    } else {
        entries.push(e)
    }
}

pub open spec fn merge_outcome(entries: Seq<IndexEntry>, e: IndexEntry) -> MergeOutcome {
    if has_id(entries, e.xc_id) {
        MergeOutcome::AlreadyPresent
    } else {
        MergeOutcome::Inserted
    }
}

/// Merging the same entry twice: the second merge finds it and changes
/// nothing, and the first inserts it when its number was absent.
pub proof fn lemma_merge_idempotent(entries: Seq<IndexEntry>, e: IndexEntry)
    ensures
        !has_id(entries, e.xc_id) ==> merge_outcome(entries, e) == MergeOutcome::Inserted,
        merge_outcome(merged(entries, e), e) == MergeOutcome::AlreadyPresent,
        merged(merged(entries, e), e) == merged(entries, e),
{
    if !has_id(entries, e.xc_id) {
        let s = entries.push(e);
        assert(s[entries.len() as int].xc_id == e.xc_id);
    }
}

/// Merging keeps the catalogue numbers unique.
pub proof fn lemma_merge_keeps_ids_unique(entries: Seq<IndexEntry>, e: IndexEntry)
    requires
        ids_unique(entries),
    ensures
        ids_unique(merged(entries, e)),
{
    if !has_id(entries, e.xc_id) {
        let s = entries.push(e);
        assert forall|i: int, j: int|
            0 <= i < s.len() && 0 <= j < s.len() && i != j implies (#[trigger] s[i]).xc_id
            != (#[trigger] s[j]).xc_id by {
            if i == entries.len() {
                assert(entries[j].xc_id != e.xc_id);
            } else if j == entries.len() {
                assert(entries[i].xc_id != e.xc_id);
            } else {
                assert(s[i] == entries[i] && s[j] == entries[j]);
            }
        }
    }
}

impl Index {
    /// An empty index of the current version.
    pub fn new() -> (r: Index)
        ensures
            r.version == INDEX_VERSION,
            r.sounds@.len() == 0,
    {
        Index { version: INDEX_VERSION, sounds: Vec::new() }
    }

    /// Whether an entry has the catalogue number `id`.
    pub fn contains_id(&self, id: u64) -> (r: bool)
        ensures
            r == has_id(self.sounds@, id),
    {
        let mut i: usize = 0;
        while i < self.sounds.len()
            invariant
                i <= self.sounds@.len(),
                forall|j: int| 0 <= j < i ==> (#[trigger] self.sounds@[j]).xc_id != id,
            decreases self.sounds.len() - i,
        {
            if self.sounds[i].xc_id == id {
                return true;
            }
            i = i + 1;
        }
        false
    }

    /// Appends `entry` unless an entry with its catalogue number is present;
    /// the order of the entries and the version are kept.
    pub fn merge(&mut self, entry: IndexEntry) -> (r: MergeOutcome)
        ensures
            r == merge_outcome(old(self).sounds@, entry),
            final(self).sounds@ == merged(old(self).sounds@, entry),
            final(self).version == old(self).version,
    {
        if self.contains_id(entry.xc_id) {
            MergeOutcome::AlreadyPresent
        } else {
            self.sounds.push(entry);
            MergeOutcome::Inserted
        }
    }
}

/// The index entry for a recording whose metadata is `meta`, stored under the
/// given file names.
pub fn index_entry(meta: &NormalizedMetadata, audio_file: &str, metadata_file: &str) -> (r:
    IndexEntry)
    ensures
        r.filename@ == audio_file@,
        r.metadata@ == metadata_file@,
        r.xc_id == meta.xc_id,
        r.en@ == meta.en@,
        r.species@ == meta.genus@ + " "@ + meta.sp@,
        r.source@ == source_tag(),
{
    IndexEntry {
        filename: String::from_str(audio_file),
        metadata: String::from_str(metadata_file),
        xc_id: meta.xc_id,
        en: meta.en.clone(),
        species: species(meta.genus.as_str(), meta.sp.as_str()),
        source: String::from_str("xeno-canto"),
    }
}

/// Why the index could not be read or written.
#[derive(Debug, PartialEq, Eq)]
pub enum IndexError {
    /// The stored text is not an index document.
    CorruptIndex,
    /// The index could not be written as JSON text.
    Unwritable,
}

/// `item` holds the six fields of `e`.
pub open spec fn describes_entry(item: serde_json::Value, e: IndexEntry) -> bool {
    &&& text_member_of(item, "filename"@) == Some(e.filename@)
    &&& text_member_of(item, "metadata"@) == Some(e.metadata@)
    &&& number_member_of(item, "xc_id"@) == Some(e.xc_id)
    &&& text_member_of(item, "en"@) == Some(e.en@)
    &&& text_member_of(item, "species"@) == Some(e.species@)
    &&& text_member_of(item, "source"@) == Some(e.source@)
}

/// `item` holds all six entry fields, with the right kinds of value.
pub open spec fn entry_readable(item: serde_json::Value) -> bool {
    &&& text_member_of(item, "filename"@) is Some
    &&& text_member_of(item, "metadata"@) is Some
    &&& number_member_of(item, "xc_id"@) is Some
    &&& text_member_of(item, "en"@) is Some
    &&& text_member_of(item, "species"@) is Some
    &&& text_member_of(item, "source"@) is Some
}

/// The items of the document's `sounds` array.
pub open spec fn sounds_of(doc: serde_json::Value) -> Option<Seq<serde_json::Value>> {
    match member_of(doc, "sounds"@) {
        Some(s) => list_of(s),
        None => None,
    }
}

/// A numeric `version` and a `sounds` array of complete entries.
pub open spec fn index_readable(doc: serde_json::Value) -> bool {
    &&& number_member_of(doc, "version"@) is Some
    &&& sounds_of(doc) is Some
    &&& forall|i: int|
        0 <= i < sounds_of(doc)->0.len() ==> entry_readable(#[trigger] sounds_of(doc)->0[i])
}

/// `doc` holds `version` and, in order, the entries `entries`.
pub open spec fn describes_index(
    doc: serde_json::Value,
    version: u64,
    entries: Seq<IndexEntry>,
) -> bool {
    &&& number_member_of(doc, "version"@) == Some(version)
    &&& sounds_of(doc) is Some
    &&& sounds_of(doc)->0.len() == entries.len()
    &&& forall|i: int|
        0 <= i < entries.len() ==> describes_entry(sounds_of(doc)->0[i], #[trigger] entries[i])
}

/// Two entry lists with the same fields, in the same order.
pub open spec fn same_entries(a: Seq<IndexEntry>, b: Seq<IndexEntry>) -> bool {
    &&& a.len() == b.len()
    &&& forall|i: int|
        0 <= i < a.len() ==> {
            &&& (#[trigger] a[i]).filename@ == b[i].filename@
            &&& a[i].metadata@ == b[i].metadata@
            &&& a[i].xc_id == b[i].xc_id
            &&& a[i].en@ == b[i].en@
            &&& a[i].species@ == b[i].species@
            &&& a[i].source@ == b[i].source@
        }
}

/// What is read from a document that describes an index is that index: the
/// document is readable, and any index it describes has the same version and
/// the same entries in the same order.
pub proof fn lemma_read_back(doc: serde_json::Value, version: u64, entries: Seq<IndexEntry>, read: Index)
    requires
        describes_index(doc, version, entries),
    ensures
        index_readable(doc),
        describes_index(doc, read.version, read.sounds@) ==> read.version == version
            && same_entries(read.sounds@, entries),
{
    let items = sounds_of(doc)->0;
    assert forall|i: int| 0 <= i < items.len() implies entry_readable(#[trigger] items[i]) by {
        assert(describes_entry(items[i], entries[i]));
    }
    if describes_index(doc, read.version, read.sounds@) {
        assert forall|i: int| 0 <= i < read.sounds@.len() implies {
            &&& (#[trigger] read.sounds@[i]).filename@ == entries[i].filename@
            &&& read.sounds@[i].metadata@ == entries[i].metadata@
            &&& read.sounds@[i].xc_id == entries[i].xc_id
            &&& read.sounds@[i].en@ == entries[i].en@
            &&& read.sounds@[i].species@ == entries[i].species@
            &&& read.sounds@[i].source@ == entries[i].source@
        } by {
            assert(describes_entry(items[i], entries[i]));
            assert(describes_entry(items[i], read.sounds@[i]));
        }
    }
}

pub(crate) fn entry_value(e: &IndexEntry) -> (r: serde_json::Value)
    ensures
        describes_entry(r, *e),
{
    let mut members: Vec<(String, serde_json::Value)> = Vec::new();
    members.push((String::from_str("filename"), text_value(e.filename.as_str())));
    members.push((String::from_str("metadata"), text_value(e.metadata.as_str())));
    members.push((String::from_str("xc_id"), number_value(e.xc_id)));
    members.push((String::from_str("en"), text_value(e.en.as_str())));
    members.push((String::from_str("species"), text_value(e.species.as_str())));
    members.push((String::from_str("source"), text_value(e.source.as_str())));
    proof {
        reveal_strlit("filename");
        reveal_strlit("metadata");
        reveal_strlit("xc_id");
        reveal_strlit("en");
        reveal_strlit("species");
        reveal_strlit("source");
        assert(members@[0].0@.len() == 8 && members@[0].0@[0] == 'f');
        assert(members@[1].0@.len() == 8 && members@[1].0@[0] == 'm');
        assert(members@[2].0@.len() == 5 && members@[2].0@[0] == 'x');
        assert(members@[3].0@.len() == 2 && members@[3].0@[0] == 'e');
        assert(members@[4].0@.len() == 7 && members@[4].0@[0] == 's');
        assert(members@[5].0@.len() == 6 && members@[5].0@[0] == 's');
        assert(keys_distinct(members@));
    }
    let r = object_value(members);
    proof {
        assert(member_of(r, members@[0].0@) == Some(members@[0].1));
        assert(member_of(r, members@[1].0@) == Some(members@[1].1));
        assert(member_of(r, members@[2].0@) == Some(members@[2].1));
        assert(member_of(r, members@[3].0@) == Some(members@[3].1));
        assert(member_of(r, members@[4].0@) == Some(members@[4].1));
        assert(member_of(r, members@[5].0@) == Some(members@[5].1));
    }
    r
}

fn entry_of(v: &serde_json::Value) -> (r: Option<IndexEntry>)
    ensures
        r is Some <==> entry_readable(*v),
        r matches Some(e) ==> describes_entry(*v, e),
{
    let filename = text_member(v, "filename")?;
    let metadata = text_member(v, "metadata")?;
    let xc_id = number_member(v, "xc_id")?;
    let en = text_member(v, "en")?;
    let species = text_member(v, "species")?;
    let source = text_member(v, "source")?;
    Some(IndexEntry { filename, metadata, xc_id, en, species, source })
}

/// The index that `doc` describes, when it is readable.
pub(crate) fn index_of(doc: &serde_json::Value) -> (r: Option<Index>)
    ensures
        r is Some <==> index_readable(*doc),
        r matches Some(i) ==> describes_index(*doc, i.version, i.sounds@),
{
    let version = number_member(doc, "version")?;
    let items = match member(doc, "sounds") {
        Some(s) => as_list(&s)?,
        None => {
            assert(sounds_of(*doc) is None);
            return None;
        },
    };
    let mut sounds: Vec<IndexEntry> = Vec::new();
    let mut i: usize = 0;
    while i < items.len()
        invariant
            i <= items@.len(),
            sounds_of(*doc) == Some(items@),
            sounds@.len() == i,
            forall|j: int| 0 <= j < i ==> entry_readable(#[trigger] items@[j]),
            forall|j: int| 0 <= j < i ==> describes_entry(items@[j], #[trigger] sounds@[j]),
        decreases items.len() - i,
    {
        match entry_of(&items[i]) {
            Some(e) => sounds.push(e),
            None => {
                assert(!entry_readable(sounds_of(*doc)->0[i as int]));
                return None;
            },
        }
        i = i + 1;
    }
    Some(Index { version, sounds })
}

/// Appends a newline to indented JSON text.
pub(crate) fn finish_text(v: &serde_json::Value) -> (r: String)
    ensures
        r@ == pretty_of(*v).push('\n'),
{
    match pretty_text(v) {
        Ok(mut t) => {
            push_char(&mut t, '\n');
            t
        },
        Err(_) => String::new(),
    }
}

impl Index {
    /// The index as indented JSON text `{ "version": .., "sounds": [..] }`,
    /// ending in a newline.
    pub fn to_text(&self) -> (r: Result<String, IndexError>)
        ensures
            r is Ok,
            r is Ok ==> exists|d: serde_json::Value|
                describes_index(d, self.version, self.sounds@) && r->Ok_0@ == pretty_of(d).push(
                    '\n',
                ),
    {
        let mut items: Vec<serde_json::Value> = Vec::new();
        let mut i: usize = 0;
        while i < self.sounds.len()
            invariant
                i <= self.sounds@.len(),
                items@.len() == i,
                forall|j: int| 0 <= j < i ==> describes_entry(#[trigger] items@[j], self.sounds@[j]),
            decreases self.sounds.len() - i,
        {
            items.push(entry_value(&self.sounds[i]));
            i = i + 1;
        }
        let ghost item_seq = items@;
        let mut members: Vec<(String, serde_json::Value)> = Vec::new();
        members.push((String::from_str("version"), number_value(self.version)));
        members.push((String::from_str("sounds"), list_value(items)));
        proof {
            reveal_strlit("version");
            reveal_strlit("sounds");
            assert(members@[0].0@ == "version"@ && members@[1].0@ == "sounds"@);
            assert(members@[0].0@.len() == 7 && members@[1].0@.len() == 6);
            assert(keys_distinct(members@));
        }
        let d = object_value(members);
        proof {
            assert(member_of(d, members@[0].0@) == Some(members@[0].1));
            assert(member_of(d, members@[1].0@) == Some(members@[1].1));
            assert(sounds_of(d) == Some(item_seq));
            assert(describes_index(d, self.version, self.sounds@));
        }
        Ok(finish_text(&d))
    }

    /// Reads an index document: `Ok` exactly when the text is JSON with a
    /// numeric `version` and a `sounds` array of complete entries, and then
    /// the index it describes; else `CorruptIndex`.
    pub fn from_text(text: &str) -> (r: Result<Index, IndexError>)
        ensures
            r is Ok <==> is_json_text(text@) && index_readable(json_of(text@)),
            r matches Ok(i) ==> describes_index(json_of(text@), i.version, i.sounds@),
            r matches Err(e) ==> e == IndexError::CorruptIndex,
    {
        let doc = match parse_document(text) {
            Ok(d) => d,
            Err(_) => return Err(IndexError::CorruptIndex),
        };
        match index_of(&doc) {
            Some(i) => Ok(i),
            None => Err(IndexError::CorruptIndex),
        }
    }
}

} // verus!
