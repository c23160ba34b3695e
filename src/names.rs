//! File names, links and attribution derived from a recording's fields.
use vstd::prelude::*;
use vstd::string::StringExecFns;
use crate::text::{chars_of, decimal, push_char, push_decimal};

verus! {

/// Characters that cannot stand in a path component.
pub open spec fn is_reserved(c: char) -> bool {
    c == '<' || c == '>' || c == ':' || c == '"' || c == '/' || c == '\\' || c == '|' || c == '?'
        || c == '*'
}

/// `s` with every reserved character replaced by `_`.
pub open spec fn sanitized(s: Seq<char>) -> Seq<char> {
    Seq::new(s.len(), |i: int| if is_reserved(s[i]) { '_' } else { s[i] })
}

/// `XC<id> - <en> - <gen> <sp>`, before sanitization.
pub open spec fn base_text(xc_id: u64, en: Seq<char>, genus: Seq<char>, sp: Seq<char>) -> Seq<char> {
    "XC"@ + decimal(xc_id as nat) + " - "@ + en + " - "@ + genus + " "@ + sp
}

pub open spec fn base_name_of(xc_id: u64, en: Seq<char>, genus: Seq<char>, sp: Seq<char>) -> Seq<char> {
    sanitized(base_text(xc_id, en, genus, sp))
}

/// `<rec>, XC<id>. Accessible at www.xeno-canto.org/<id>`.
pub open spec fn attribution_of(recordist: Seq<char>, xc_id: u64) -> Seq<char> {
    recordist + ", XC"@ + decimal(xc_id as nat) + ". Accessible at www.xeno-canto.org/"@ + decimal(
        xc_id as nat,
    )
}

pub open spec fn record_url_of(xc_id: u64) -> Seq<char> {
    "https://www.xeno-canto.org/"@ + decimal(xc_id as nat)
}

pub open spec fn species_of(genus: Seq<char>, sp: Seq<char>) -> Seq<char> {
    genus + " "@ + sp
}

pub open spec fn metadata_filename_of(base: Seq<char>) -> Seq<char> {
    base + ".xc.json"@
}

pub open spec fn audio_filename_of(base: Seq<char>, ext: Seq<char>) -> Seq<char> {
    base + "."@ + ext
}

/// The index of the last `.` in `s`, or -1 when there is none.
pub open spec fn last_dot(s: Seq<char>) -> int
    decreases s.len(),
{
    if s.len() == 0 {
        -1
    } else if s.last() == '.' {
        s.len() - 1
    } else {
        last_dot(s.drop_last())
    }
}

/// The text after the last `.` of an announced file name; `wav` when the name
/// is absent or has no `.`.
pub open spec fn extension_of(file_name: Option<Seq<char>>) -> Seq<char> {
    match file_name {
        Some(n) => if last_dot(n) >= 0 {
            n.subrange(last_dot(n) + 1, n.len() as int)
        } else {
            "wav"@
        },
        None => "wav"@,
    }
}

pub fn is_reserved_char(c: char) -> (r: bool)
    ensures
        r == is_reserved(c),
{
    c == '<' || c == '>' || c == ':' || c == '"' || c == '/' || c == '\\' || c == '|' || c == '?'
        || c == '*'
}

/// Replaces each character that cannot stand in a path component with `_`.
pub fn sanitize_filename(name: &str) -> (r: String)
    ensures
        r@ == sanitized(name@),
{
    let v = chars_of(name);
    let mut r = String::new();
    let mut i: usize = 0;
    while i < v.len()
        invariant
            i <= v@.len(),
            v@ == name@,
            r@ == sanitized(name@).subrange(0, i as int),
        decreases v.len() - i,
    {
        let c = v[i];
        if is_reserved_char(c) {
            push_char(&mut r, '_');
        } else {
            push_char(&mut r, c);
        }
        i = i + 1;
        assert(r@ =~= sanitized(name@).subrange(0, i as int));
    }
    assert(sanitized(name@).subrange(0, i as int) =~= sanitized(name@));
    r
}

/// The file-system-safe base name `XC<id> - <en> - <gen> <sp>`.
pub fn base_name(xc_id: u64, en: &str, genus: &str, sp: &str) -> (r: String)
    ensures
        r@ == base_name_of(xc_id, en@, genus@, sp@),
{
    let mut s = String::from_str("XC");
    push_decimal(&mut s, xc_id);
    s.append(" - ");
    s.append(en);
    s.append(" - ");
    s.append(genus);
    s.append(" ");
    s.append(sp);
    sanitize_filename(s.as_str())
}

/// The credit line that names the recordist and links the recording.
pub fn attribution(recordist: &str, xc_id: u64) -> (r: String)
    ensures
        r@ == attribution_of(recordist@, xc_id),
{
    let mut s = String::from_str(recordist);
    s.append(", XC");
    push_decimal(&mut s, xc_id);
    s.append(". Accessible at www.xeno-canto.org/");
    push_decimal(&mut s, xc_id);
    s
}

/// The recording's page at the provider.
pub fn record_url(xc_id: u64) -> (r: String)
    ensures
        r@ == record_url_of(xc_id),
{
    let mut s = String::from_str("https://www.xeno-canto.org/");
    push_decimal(&mut s, xc_id);
    s
}

/// Genus and species joined by a space.
pub fn species(genus: &str, sp: &str) -> (r: String)
    ensures
        r@ == species_of(genus@, sp@),
{
    let mut s = String::from_str(genus);
    s.append(" ");
    s.append(sp);
    s
}

/// `<base>.xc.json`.
pub fn metadata_filename(base: &str) -> (r: String)
    ensures
        r@ == metadata_filename_of(base@),
{
    let mut s = String::from_str(base);
    s.append(".xc.json");
    s
}

/// `<base>.<ext>`.
pub fn audio_filename(base: &str, ext: &str) -> (r: String)
    ensures
        r@ == audio_filename_of(base@, ext@),
{
    let mut s = String::from_str(base);
    s.append(".");
    s.append(ext);
    s
}

/// The audio file's extension, from the file name that the record announces.
pub fn audio_extension(file_name: Option<&str>) -> (r: String)
    ensures
        r@ == extension_of(
            match file_name {
                Some(n) => Some(n@),
                None => None,
            },
        ),
{
    match file_name {
        None => String::from_str("wav"),
        Some(n) => {
            let v = chars_of(n);
            let mut j: usize = v.len();
            assert(v@.subrange(0, j as int) =~= v@);
            while j > 0 && v[j - 1] != '.'
                invariant
                    j <= v@.len(),
                    v@ == n@,
                    last_dot(n@) == last_dot(v@.subrange(0, j as int)),
                decreases j,
            {
                assert(v@.subrange(0, j as int).drop_last() =~= v@.subrange(0, j - 1));
                j = j - 1;
            }
            if j == 0 {
                assert(last_dot(v@.subrange(0, 0)) == -1);
                String::from_str("wav")
            } else {
                assert(v@.subrange(0, j as int).last() == '.');
                let mut s = String::new();
                let mut i: usize = j;
                while i < v.len()
                    invariant
                        j <= i <= v@.len(),
                        s@ == v@.subrange(j as int, i as int),
                    decreases v.len() - i,
                {
                    push_char(&mut s, v[i]);
                    i = i + 1;
                    assert(s@ =~= v@.subrange(j as int, i as int));
                }
                s
            }
        },
    }
}

} // verus!
