//! What one invocation asks for and where it stores the result.
use vstd::prelude::*;
use vstd::string::StringExecFns;
use crate::index::{
    describes_entry, describes_index, entry_value, finish_text, index_of, index_readable,
    merge_outcome, merged, sounds_of, Index, IndexEntry, IndexError, MergeOutcome, INDEX_VERSION,
};
use crate::json::{
    as_list, is_json_text, json_of, member, member_of, number_member_of, parse_document,
    pretty_of, set_member, list_value, text_view,
};
use crate::names::{
    audio_extension, audio_filename, audio_filename_of, base_name, base_name_of, extension_of,
    metadata_filename, metadata_filename_of,
};
use crate::record::{NormalizedMetadata, RawRecord};
use crate::text::{decimal, push_decimal};

verus! {

pub open spec fn lookup_url_of(id: u64, key: Seq<char>) -> Seq<char> {
    "https://xeno-canto.org/api/3/recordings?query=nr:"@ + decimal(id as nat) + "&key="@ + key
}

/// The provider's lookup query for the catalogue number `id`.
pub fn lookup_url(id: u64, key: &str) -> (r: String)
    ensures
        r@ == lookup_url_of(id, key@),
{
    let mut s = String::from_str("https://xeno-canto.org/api/3/recordings?query=nr:");
    push_decimal(&mut s, id);
    s.append("&key=");
    s.append(key);
    s
}

/// The API key to use: the one given on the command line, else the one from
/// the environment (which a local configuration file may have filled in).
pub fn choose_api_key(given: Option<String>, from_env: Option<String>) -> (r: Option<String>)
    ensures
        r == (if given is Some {
            given
        } else {
            from_env
        }),
{
    match given {
        Some(k) => Some(k),
        None => from_env,
    }
}

/// The names of the files written for one recording.
#[derive(Debug)]
pub struct FilePlan {
    pub base: String,
    pub metadata_file: String,
    pub audio_file: String,
}

/// The base name, metadata file name and audio file name for a recording
/// normalized to `meta` from `raw`.
pub fn file_plan(meta: &NormalizedMetadata, raw: &RawRecord) -> (r: FilePlan)
    ensures
        r.base@ == base_name_of(meta.xc_id, meta.en@, meta.genus@, meta.sp@),
        r.metadata_file@ == metadata_filename_of(r.base@),
        r.audio_file@ == audio_filename_of(r.base@, extension_of(text_view(raw.file_name))),
{
    let base = base_name(meta.xc_id, meta.en.as_str(), meta.genus.as_str(), meta.sp.as_str());
    let ext = match &raw.file_name {
        Some(n) => audio_extension(Some(n.as_str())),
        None => audio_extension(None),
    };
    let metadata_file = metadata_filename(base.as_str());
    let audio_file = audio_filename(base.as_str(), ext.as_str());
    FilePlan { base, metadata_file, audio_file }
}

/// The audio file's URL, when the record gives a non-empty one.
pub fn audio_url(raw: &RawRecord) -> (r: Option<String>)
    ensures
        text_view(r) == (match raw.file {
            Some(f) => if f@.len() > 0 {
                Some(f@)
            } else {
                None
            },
            None => None,
        }),
{
    match &raw.file {
        Some(f) => if f.as_str().is_empty() {
            None
        } else {
            Some(f.clone())
        },
        None => None,
    }
}

/// Merges `entry` into the index read from storage, or into a new empty
/// index when there was none.
pub fn merge_into(loaded: Option<Index>, entry: IndexEntry) -> (r: (Index, MergeOutcome))
    ensures
        r.0.version == (match loaded {
            Some(i) => i.version,
            None => INDEX_VERSION,
        }),
        ({
            let before = match loaded {
                Some(i) => i.sounds@,
                None => Seq::<IndexEntry>::empty(),
            };
            r.0.sounds@ == merged(before, entry) && r.1 == merge_outcome(before, entry)
        }),
{
    let mut index = match loaded {
        Some(i) => i,
        None => Index::new(),
    };
    let outcome = index.merge(entry);
    (index, outcome)
}

/// Whether an item of `items` has the catalogue number `id`.
pub open spec fn lists_id(items: Seq<serde_json::Value>, id: u64) -> bool {
    exists|i: int| 0 <= i < items.len() && number_member_of(#[trigger] items[i], "xc_id"@) == Some(id)
}

/// `t` is the index document `d` written out after `entry` was appended: a
/// document whose members other than `sounds` are those of `d`, whose
/// `sounds` are those of `d` followed by one item holding `entry`, as
/// indented JSON text ending in a newline.
pub open spec fn appended_text(d: serde_json::Value, entry: IndexEntry, t: Seq<char>) -> bool {
    exists|nd: serde_json::Value, ev: serde_json::Value|
        describes_entry(ev, entry) && sounds_of(nd) == Some(sounds_of(d)->0.push(ev)) && (forall|
            k: Seq<char>,
        | k != "sounds"@ ==> #[trigger] member_of(nd, k) == member_of(d, k)) && t == pretty_of(
            nd,
        ).push('\n')
}

/// Merges `entry` into the stored index text `existing` (none when no index
/// is stored yet). Gives the outcome and, only when the entry was inserted,
/// the new text to store. Stored text that is not a readable index is
/// `CorruptIndex`; an existing document keeps all its other members and rows.
pub fn merge_index_text(existing: Option<&str>, entry: IndexEntry) -> (r: Result<
    (MergeOutcome, Option<String>),
    IndexError,
>)
    ensures
        existing is None ==> (r matches Ok((MergeOutcome::Inserted, Some(t))) && exists|
            d: serde_json::Value,
        | describes_index(d, INDEX_VERSION, seq![entry]) && t@ == pretty_of(d).push('\n')),
        existing matches Some(text) ==> (if !(is_json_text(text@) && index_readable(
            json_of(text@),
        )) {
            r matches Err(IndexError::CorruptIndex)
        } else if lists_id(sounds_of(json_of(text@))->0, entry.xc_id) {
            r matches Ok((MergeOutcome::AlreadyPresent, None))
        } else {
            r matches Ok((MergeOutcome::Inserted, Some(t))) && appended_text(
                json_of(text@),
                entry,
                t@,
            )
        }),
{
    match existing {
        None => {
            let mut index = Index::new();
            let ghost e = entry;
            index.merge(entry);
            assert(index.sounds@ =~= seq![e]);
            let t = index.to_text();
            match t {
                Ok(t) => Ok((MergeOutcome::Inserted, Some(t))),
                Err(e) => Err(e),
            }
        },
        Some(text) => {
            let doc = match parse_document(text) {
                Ok(d) => d,
                Err(_) => return Err(IndexError::CorruptIndex),
            };
            let index = match index_of(&doc) {
                Some(i) => i,
                None => return Err(IndexError::CorruptIndex),
            };
            let ghost items = sounds_of(doc)->0;
            if index.contains_id(entry.xc_id) {
                proof {
                    let i = choose|i: int|
                        0 <= i < index.sounds@.len() && (#[trigger] index.sounds@[i]).xc_id
                            == entry.xc_id;
                    assert(describes_entry(items[i], index.sounds@[i]));
                }
                return Ok((MergeOutcome::AlreadyPresent, None));
            }
            proof {
                assert forall|i: int| 0 <= i < items.len() implies number_member_of(
                    #[trigger] items[i],
                    "xc_id"@,
                ) != Some(entry.xc_id) by {
                    assert(describes_entry(items[i], index.sounds@[i]));
                    assert(index.sounds@[i].xc_id != entry.xc_id);
                }
            }
            let mut list = match member(&doc, "sounds") {
                Some(s) => match as_list(&s) {
                    Some(l) => l,
                    None => return Err(IndexError::CorruptIndex),
                },
                None => return Err(IndexError::CorruptIndex),
            };
            let ev = entry_value(&entry);
            let ghost gev = ev;
            list.push(ev);
            let ghost new_items = list@;
            let mut nd = doc;
            set_member(&mut nd, "sounds", list_value(list));
            let t = finish_text(&nd);
            assert(sounds_of(nd) == Some(items.push(gev)));
            assert(appended_text(doc, entry, t@));
            Ok((MergeOutcome::Inserted, Some(t)))
        },
    }
}

} // verus!
