//! Recordings as the provider describes them, and the metadata kept for them.
use vstd::prelude::*;
use vstd::string::StringExecFns;
use crate::date::{iso_date_of, Date};
use crate::ids::{decimal_number, parse_decimal};
use crate::index::finish_text;
use crate::json::{
    keys_distinct, member, member_of, null_value, number_member_of, number_of, number_value,
    object_value, pretty_of, text_member, text_member_of, text_of, text_value, text_view,
};
use crate::names::{attribution, attribution_of, record_url, record_url_of};

verus! {

/// The fields of a provider record that the tool reads, with the whole
/// record kept as received.
#[derive(Debug)]
pub struct RawRecord {
    pub id: Option<String>,
    pub genus: Option<String>,
    pub sp: Option<String>,
    pub en: Option<String>,
    pub rec: Option<String>,
    pub lic: Option<String>,
    pub file: Option<String>,
    pub file_name: Option<String>,
    pub smp: Option<String>,
    pub document: serde_json::Value,
}

/// The metadata document written for a recording.
#[derive(Debug)]
pub struct NormalizedMetadata {
    pub source: String,
    pub xc_id: u64,
    pub url: String,
    pub file_url: Option<String>,
    pub genus: String,
    pub sp: String,
    pub en: String,
    pub rec: String,
    pub lic: String,
    pub smp: Option<u64>,
    pub attribution: String,
    pub retrieved: String,
    pub raw_response: serde_json::Value,
}

/// A text field, or the empty text when it is missing.
pub open spec fn text_or_empty(o: Option<String>) -> Seq<char> {
    match o {
        Some(s) => s@,
        None => Seq::empty(),
    }
}

/// The record's own `id` when it reads as a number, else the requested one.
pub open spec fn authoritative_id(raw: RawRecord, requested: u64) -> u64 {
    match raw.id {
        Some(s) => match decimal_number(s@) {
            Some(n) => n,
            None => requested,
        },
        None => requested,
    }
}

/// The provider's tag.
pub open spec fn source_tag() -> Seq<char> {
    "xeno-canto"@
}

/// `m` is what `raw`, fetched on `fetched` for the number `requested`, normalizes to.
pub open spec fn is_normalization(
    m: NormalizedMetadata,
    raw: RawRecord,
    requested: u64,
    fetched: Date,
) -> bool {
    let id = authoritative_id(raw, requested);
    &&& m.source@ == source_tag()
    &&& m.xc_id == id
    &&& m.url@ == record_url_of(id)
    &&& text_view(m.file_url) == text_view(raw.file)
    &&& m.genus@ == text_or_empty(raw.genus)
    &&& m.sp@ == text_or_empty(raw.sp)
    &&& m.en@ == text_or_empty(raw.en)
    &&& m.rec@ == text_or_empty(raw.rec)
    &&& m.lic@ == text_or_empty(raw.lic)
    &&& m.smp == match raw.smp {
        Some(s) => decimal_number(s@),
        None => None,
    }
    &&& m.attribution@ == attribution_of(text_or_empty(raw.rec), id)
    &&& m.retrieved@ == iso_date_of(fetched)
    &&& m.raw_response == raw.document
}

/// Two metadata documents that hold the same values field by field.
pub open spec fn same_document(a: NormalizedMetadata, b: NormalizedMetadata) -> bool {
    &&& a.source@ == b.source@
    &&& a.xc_id == b.xc_id
    &&& a.url@ == b.url@
    &&& text_view(a.file_url) == text_view(b.file_url)
    &&& a.genus@ == b.genus@
    &&& a.sp@ == b.sp@
    &&& a.en@ == b.en@
    &&& a.rec@ == b.rec@
    &&& a.lic@ == b.lic@
    &&& a.smp == b.smp
    &&& a.attribution@ == b.attribution@
    &&& a.retrieved@ == b.retrieved@
    &&& a.raw_response == b.raw_response
}

/// Normalizing is deterministic: the same record, requested number and
/// fetch date always give the same document.
pub proof fn lemma_normalize_deterministic(
    raw: RawRecord,
    requested: u64,
    fetched: Date,
    a: NormalizedMetadata,
    b: NormalizedMetadata,
)
    requires
        is_normalization(a, raw, requested, fetched),
        is_normalization(b, raw, requested, fetched),
    ensures
        same_document(a, b),
{
}

fn copy_opt(o: &Option<String>) -> (r: Option<String>)
    ensures
        text_view(r) == text_view(*o),
{
    match o {
        Some(s) => Some(s.clone()),
        None => None,
    }
}

fn text_or_blank(o: &Option<String>) -> (r: String)
    ensures
        r@ == text_or_empty(*o),
{
    match o {
        Some(s) => s.clone(),
        None => String::new(),
    }
}

impl RawRecord {
    /// Reads the string fields `id`, `gen`, `sp`, `en`, `rec`, `lic`, `file`,
    /// `file-name` and `smp` of a provider record; other kinds of value count
    /// as missing.
    pub fn from_document(doc: &serde_json::Value) -> (r: RawRecord)
        ensures
            r.document == *doc,
            text_view(r.id) == text_member_of(*doc, "id"@),
            text_view(r.genus) == text_member_of(*doc, "gen"@),
            text_view(r.sp) == text_member_of(*doc, "sp"@),
            text_view(r.en) == text_member_of(*doc, "en"@),
            text_view(r.rec) == text_member_of(*doc, "rec"@),
            text_view(r.lic) == text_member_of(*doc, "lic"@),
            text_view(r.file) == text_member_of(*doc, "file"@),
            text_view(r.file_name) == text_member_of(*doc, "file-name"@),
            text_view(r.smp) == text_member_of(*doc, "smp"@),
    {
        RawRecord {
            id: text_member(doc, "id"),
            genus: text_member(doc, "gen"),
            sp: text_member(doc, "sp"),
            en: text_member(doc, "en"),
            rec: text_member(doc, "rec"),
            lic: text_member(doc, "lic"),
            file: text_member(doc, "file"),
            file_name: text_member(doc, "file-name"),
            smp: text_member(doc, "smp"),
            document: doc.clone(),
        }
    }
}

/// The number the record is filed under: its own `id` when that reads as a
/// number, else `requested`.
pub fn record_id(raw: &RawRecord, requested: u64) -> (r: u64)
    ensures
        r == authoritative_id(*raw, requested),
{
    match &raw.id {
        Some(s) => match parse_decimal(s.as_str()) {
            Some(n) => n,
            None => requested,
        },
        None => requested,
    }
}

/// Builds the metadata document for `raw`, fetched on `fetched` for the
/// number `requested`.
pub fn normalize(raw: &RawRecord, requested: u64, fetched: &Date) -> (r: NormalizedMetadata)
    ensures
        is_normalization(r, *raw, requested, *fetched),
{
    let id = record_id(raw, requested);
    let rec = text_or_blank(&raw.rec);
    let smp = match &raw.smp {
        Some(s) => parse_decimal(s.as_str()),
        None => None,
    };
    NormalizedMetadata {
        source: String::from_str("xeno-canto"),
        xc_id: id,
        url: record_url(id),
        file_url: copy_opt(&raw.file),
        genus: text_or_blank(&raw.genus),
        sp: text_or_blank(&raw.sp),
        en: text_or_blank(&raw.en),
        attribution: attribution(rec.as_str(), id),
        rec,
        lic: text_or_blank(&raw.lic),
        smp,
        retrieved: fetched.iso_date(),
        raw_response: raw.document.clone(),
    }
}

/// A member that is neither a string nor a number.
pub open spec fn is_blank_member(d: serde_json::Value, key: Seq<char>) -> bool {
    member_of(d, key) matches Some(x) && text_of(x) is None && number_of(x) is None
}

/// `k` is the member of the record passed on as received, or blank when the
/// record lacks it.
pub open spec fn passes_member(d: serde_json::Value, raw: serde_json::Value, k: Seq<char>) -> bool {
    match member_of(raw, k) {
        Some(x) => member_of(d, k) == Some(x),
        None => is_blank_member(d, k),
    }
}

/// `d` holds the fields of `m`, the record's descriptive fields as received,
/// and the whole record under `raw_response`.
pub open spec fn describes_metadata(d: serde_json::Value, m: NormalizedMetadata) -> bool {
    &&& text_member_of(d, "source"@) == Some(m.source@)
    &&& text_member_of(d, "url"@) == Some(m.url@)
    &&& text_member_of(d, "gen"@) == Some(m.genus@)
    &&& text_member_of(d, "sp"@) == Some(m.sp@)
    &&& text_member_of(d, "en"@) == Some(m.en@)
    &&& text_member_of(d, "rec"@) == Some(m.rec@)
    &&& text_member_of(d, "lic"@) == Some(m.lic@)
    &&& text_member_of(d, "attribution"@) == Some(m.attribution@)
    &&& text_member_of(d, "retrieved"@) == Some(m.retrieved@)
    &&& number_member_of(d, "xc_id"@) == Some(m.xc_id)
    &&& match m.file_url {
        Some(f) => text_member_of(d, "file_url"@) == Some(f@),
        None => is_blank_member(d, "file_url"@),
    }
    &&& match m.smp {
        Some(n) => number_member_of(d, "smp"@) == Some(n),
        None => is_blank_member(d, "smp"@),
    }
    &&& member_of(d, "raw_response"@) == Some(m.raw_response)
    &&& passes_member(d, m.raw_response, "cnt"@)
    &&& passes_member(d, m.raw_response, "loc"@)
    &&& passes_member(d, m.raw_response, "lat"@)
    &&& passes_member(d, m.raw_response, "lon"@)
    &&& passes_member(d, m.raw_response, "date"@)
    &&& passes_member(d, m.raw_response, "time"@)
    &&& passes_member(d, m.raw_response, "type"@)
    &&& passes_member(d, m.raw_response, "q"@)
    &&& passes_member(d, m.raw_response, "length"@)
}

fn passed_member(doc: &serde_json::Value, key: &str) -> (r: serde_json::Value)
    ensures
        match member_of(*doc, key@) {
            Some(x) => r == x,
            None => text_of(r) is None && number_of(r) is None,
        },
{
    match member(doc, key) {
        Some(v) => v,
        None => null_value(),
    }
}

impl NormalizedMetadata {
    /// The document as indented JSON text ending in a newline: the fields
    /// above, the record's descriptive fields as received (null when
    /// missing), and the whole record under `raw_response`.
    #[verifier::rlimit(100)]
    pub fn to_text(&self) -> (r: Option<String>)
        ensures
            r is Some,
            r is Some ==> exists|d: serde_json::Value|
                describes_metadata(d, *self) && r->0@ == pretty_of(d).push('\n'),
    {
        let mut members: Vec<(String, serde_json::Value)> = Vec::new();
        let doc = &self.raw_response;
        let value = text_value(self.source.as_str());
        members.push((String::from_str("source"), value));
        let value = number_value(self.xc_id);
        members.push((String::from_str("xc_id"), value));
        let value = text_value(self.url.as_str());
        members.push((String::from_str("url"), value));
        let value = match &self.file_url {
            Some(f) => text_value(f.as_str()),
            None => null_value(),
        };
        members.push((String::from_str("file_url"), value));
        let value = text_value(self.genus.as_str());
        members.push((String::from_str("gen"), value));
        let value = text_value(self.sp.as_str());
        members.push((String::from_str("sp"), value));
        let value = text_value(self.en.as_str());
        members.push((String::from_str("en"), value));
        let value = text_value(self.rec.as_str());
        members.push((String::from_str("rec"), value));
        let value = passed_member(doc, "cnt");
        members.push((String::from_str("cnt"), value));
        let value = passed_member(doc, "loc");
        members.push((String::from_str("loc"), value));
        let value = passed_member(doc, "lat");
        members.push((String::from_str("lat"), value));
        let value = passed_member(doc, "lon");
        members.push((String::from_str("lon"), value));
        let value = passed_member(doc, "date");
        members.push((String::from_str("date"), value));
        let value = passed_member(doc, "time");
        members.push((String::from_str("time"), value));
        let value = passed_member(doc, "type");
        members.push((String::from_str("type"), value));
        let value = passed_member(doc, "q");
        members.push((String::from_str("q"), value));
        let value = passed_member(doc, "length");
        members.push((String::from_str("length"), value));
        let value = match self.smp {
            Some(n) => number_value(n),
            None => null_value(),
        };
        members.push((String::from_str("smp"), value));
        let value = text_value(self.lic.as_str());
        members.push((String::from_str("lic"), value));
        let value = text_value(self.attribution.as_str());
        members.push((String::from_str("attribution"), value));
        let value = text_value(self.retrieved.as_str());
        members.push((String::from_str("retrieved"), value));
        let value = self.raw_response.clone();
        members.push((String::from_str("raw_response"), value));
        proof {
            reveal_strlit("source");
            reveal_strlit("xc_id");
            reveal_strlit("url");
            reveal_strlit("file_url");
            reveal_strlit("gen");
            reveal_strlit("sp");
            reveal_strlit("en");
            reveal_strlit("rec");
            reveal_strlit("cnt");
            reveal_strlit("loc");
            reveal_strlit("lat");
            reveal_strlit("lon");
            reveal_strlit("date");
            reveal_strlit("time");
            reveal_strlit("type");
            reveal_strlit("q");
            reveal_strlit("length");
            reveal_strlit("smp");
            reveal_strlit("lic");
            reveal_strlit("attribution");
            reveal_strlit("retrieved");
            reveal_strlit("raw_response");
            assert(members@[0].0@ == "source"@ && members@[0].0@.len() == 6 && members@[0].0@[0] == 's' && members@[0].0@[1] == 'o' && members@[0].0@[2] == 'u');
            assert(members@[1].0@ == "xc_id"@ && members@[1].0@.len() == 5 && members@[1].0@[0] == 'x' && members@[1].0@[1] == 'c' && members@[1].0@[2] == '_');
            assert(members@[2].0@ == "url"@ && members@[2].0@.len() == 3 && members@[2].0@[0] == 'u' && members@[2].0@[1] == 'r' && members@[2].0@[2] == 'l');
            assert(members@[3].0@ == "file_url"@ && members@[3].0@.len() == 8 && members@[3].0@[0] == 'f' && members@[3].0@[1] == 'i' && members@[3].0@[2] == 'l');
            assert(members@[4].0@ == "gen"@ && members@[4].0@.len() == 3 && members@[4].0@[0] == 'g' && members@[4].0@[1] == 'e' && members@[4].0@[2] == 'n');
            assert(members@[5].0@ == "sp"@ && members@[5].0@.len() == 2 && members@[5].0@[0] == 's' && members@[5].0@[1] == 'p');
            assert(members@[6].0@ == "en"@ && members@[6].0@.len() == 2 && members@[6].0@[0] == 'e' && members@[6].0@[1] == 'n');
            assert(members@[7].0@ == "rec"@ && members@[7].0@.len() == 3 && members@[7].0@[0] == 'r' && members@[7].0@[1] == 'e' && members@[7].0@[2] == 'c');
            assert(members@[8].0@ == "cnt"@ && members@[8].0@.len() == 3 && members@[8].0@[0] == 'c' && members@[8].0@[1] == 'n' && members@[8].0@[2] == 't');
            assert(members@[9].0@ == "loc"@ && members@[9].0@.len() == 3 && members@[9].0@[0] == 'l' && members@[9].0@[1] == 'o' && members@[9].0@[2] == 'c');
            assert(members@[10].0@ == "lat"@ && members@[10].0@.len() == 3 && members@[10].0@[0] == 'l' && members@[10].0@[1] == 'a' && members@[10].0@[2] == 't');
            assert(members@[11].0@ == "lon"@ && members@[11].0@.len() == 3 && members@[11].0@[0] == 'l' && members@[11].0@[1] == 'o' && members@[11].0@[2] == 'n');
            assert(members@[12].0@ == "date"@ && members@[12].0@.len() == 4 && members@[12].0@[0] == 'd' && members@[12].0@[1] == 'a' && members@[12].0@[2] == 't');
            assert(members@[13].0@ == "time"@ && members@[13].0@.len() == 4 && members@[13].0@[0] == 't' && members@[13].0@[1] == 'i' && members@[13].0@[2] == 'm');
            assert(members@[14].0@ == "type"@ && members@[14].0@.len() == 4 && members@[14].0@[0] == 't' && members@[14].0@[1] == 'y' && members@[14].0@[2] == 'p');
            assert(members@[15].0@ == "q"@ && members@[15].0@.len() == 1 && members@[15].0@[0] == 'q');
            assert(members@[16].0@ == "length"@ && members@[16].0@.len() == 6 && members@[16].0@[0] == 'l' && members@[16].0@[1] == 'e' && members@[16].0@[2] == 'n');
            assert(members@[17].0@ == "smp"@ && members@[17].0@.len() == 3 && members@[17].0@[0] == 's' && members@[17].0@[1] == 'm' && members@[17].0@[2] == 'p');
            assert(members@[18].0@ == "lic"@ && members@[18].0@.len() == 3 && members@[18].0@[0] == 'l' && members@[18].0@[1] == 'i' && members@[18].0@[2] == 'c');
            assert(members@[19].0@ == "attribution"@ && members@[19].0@.len() == 11 && members@[19].0@[0] == 'a' && members@[19].0@[1] == 't' && members@[19].0@[2] == 't');
            assert(members@[20].0@ == "retrieved"@ && members@[20].0@.len() == 9 && members@[20].0@[0] == 'r' && members@[20].0@[1] == 'e' && members@[20].0@[2] == 't');
            assert(members@[21].0@ == "raw_response"@ && members@[21].0@.len() == 12 && members@[21].0@[0] == 'r' && members@[21].0@[1] == 'a' && members@[21].0@[2] == 'w');
            assert(keys_distinct(members@));
        }
        let ghost ms = members@;
        let d = object_value(members);
        proof {
            assert(member_of(d, ms[0].0@) == Some(ms[0].1));
            assert(member_of(d, ms[1].0@) == Some(ms[1].1));
            assert(member_of(d, ms[2].0@) == Some(ms[2].1));
            assert(member_of(d, ms[3].0@) == Some(ms[3].1));
            assert(member_of(d, ms[4].0@) == Some(ms[4].1));
            assert(member_of(d, ms[5].0@) == Some(ms[5].1));
            assert(member_of(d, ms[6].0@) == Some(ms[6].1));
            assert(member_of(d, ms[7].0@) == Some(ms[7].1));
            assert(member_of(d, ms[8].0@) == Some(ms[8].1));
            assert(member_of(d, ms[9].0@) == Some(ms[9].1));
            assert(member_of(d, ms[10].0@) == Some(ms[10].1));
            assert(member_of(d, ms[11].0@) == Some(ms[11].1));
            assert(member_of(d, ms[12].0@) == Some(ms[12].1));
            assert(member_of(d, ms[13].0@) == Some(ms[13].1));
            assert(member_of(d, ms[14].0@) == Some(ms[14].1));
            assert(member_of(d, ms[15].0@) == Some(ms[15].1));
            assert(member_of(d, ms[16].0@) == Some(ms[16].1));
            assert(member_of(d, ms[17].0@) == Some(ms[17].1));
            assert(member_of(d, ms[18].0@) == Some(ms[18].1));
            assert(member_of(d, ms[19].0@) == Some(ms[19].1));
            assert(member_of(d, ms[20].0@) == Some(ms[20].1));
            assert(member_of(d, ms[21].0@) == Some(ms[21].1));
            assert(describes_metadata(d, *self));
        }
        Some(finish_text(&d))
    }
}

} // verus!
