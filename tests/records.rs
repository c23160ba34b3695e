use xc_fetch::date::Date;
use xc_fetch::index::{index_entry, Index, IndexEntry, MergeOutcome, INDEX_VERSION};
use xc_fetch::plan::{audio_url, choose_api_key, file_plan, lookup_url, merge_into};
use xc_fetch::record::{normalize, record_id, RawRecord};
use xc_fetch::response::{classify, interpret_response, FetchError, ResponseView};

const WREN: &str = r#"{"id":"928094","gen":"Troglodytes","sp":"troglodytes","en":"Eurasian Wren","rec":"J. Doe","lic":"CC-BY","file":"https://xeno-canto.org/928094/download","file-name":"XC928094-wren.mp3","smp":"48000","cnt":"France"}"#;

fn wren_record() -> RawRecord {
    let doc: serde_json::Value = serde_json::from_str(WREN).unwrap();
    RawRecord::from_document(&doc)
}

fn day(year: i32, month: u8, day: u8) -> Date {
    Date { year, month, day }
}

fn entry(id: u64, name: &str) -> IndexEntry {
    IndexEntry {
        filename: format!("{name}.wav"),
        metadata: format!("{name}.xc.json"),
        xc_id: id,
        en: name.to_string(),
        species: "A b".to_string(),
        source: "xeno-canto".to_string(),
    }
}

#[test]
fn iso_dates() {
    assert_eq!(day(2024, 3, 7).iso_date(), "2024-03-07");
    assert_eq!(day(987, 12, 31).iso_date(), "0987-12-31");
    assert_eq!(day(-1, 1, 1).iso_date(), "-0001-01-01");
    assert_eq!(day(12345, 10, 1).iso_date(), "+12345-10-01");
}

#[test]
fn record_fields_are_read() {
    let raw = wren_record();
    assert_eq!(raw.id.as_deref(), Some("928094"));
    assert_eq!(raw.genus.as_deref(), Some("Troglodytes"));
    assert_eq!(raw.file_name.as_deref(), Some("XC928094-wren.mp3"));
    assert_eq!(raw.lic.as_deref(), Some("CC-BY"));
}

#[test]
fn wren_metadata() {
    let raw = wren_record();
    let m = normalize(&raw, 928094, &day(2024, 5, 1));
    assert_eq!(m.source, "xeno-canto");
    assert_eq!(m.xc_id, 928094);
    assert_eq!(m.url, "https://www.xeno-canto.org/928094");
    assert_eq!(m.file_url.as_deref(), Some("https://xeno-canto.org/928094/download"));
    assert_eq!(m.en, "Eurasian Wren");
    assert_eq!(m.rec, "J. Doe");
    assert_eq!(m.lic, "CC-BY");
    assert_eq!(m.smp, Some(48000));
    assert_eq!(m.attribution, "J. Doe, XC928094. Accessible at www.xeno-canto.org/928094");
    assert_eq!(m.retrieved, "2024-05-01");
    assert_eq!(m.raw_response, serde_json::from_str::<serde_json::Value>(WREN).unwrap());
}

#[test]
fn normalizing_twice_gives_the_same_document() {
    let raw = wren_record();
    let a = normalize(&raw, 928094, &day(2024, 5, 1));
    let b = normalize(&raw, 928094, &day(2024, 5, 1));
    assert_eq!(format!("{a:?}"), format!("{b:?}"));
}

#[test]
fn missing_fields_and_bad_numbers() {
    let doc: serde_json::Value = serde_json::from_str(r#"{"id":"x1","smp":"fast","gen":7}"#).unwrap();
    let raw = RawRecord::from_document(&doc);
    assert_eq!(record_id(&raw, 55), 55);
    let m = normalize(&raw, 55, &day(2024, 1, 2));
    assert_eq!(m.xc_id, 55);
    assert_eq!(m.genus, "");
    assert_eq!(m.en, "");
    assert_eq!(m.smp, None);
    assert_eq!(m.file_url, None);
    assert_eq!(m.attribution, ", XC55. Accessible at www.xeno-canto.org/55");
}

#[test]
fn the_record_id_wins_over_the_request() {
    let raw = wren_record();
    assert_eq!(record_id(&raw, 1), 928094);
    assert_eq!(normalize(&raw, 1, &day(2024, 1, 1)).xc_id, 928094);
}

#[test]
fn wren_file_plan_metadata_only() {
    let raw = wren_record();
    let m = normalize(&raw, 928094, &day(2024, 5, 1));
    let plan = file_plan(&m, &raw);
    assert_eq!(plan.base, "XC928094 - Eurasian Wren - Troglodytes troglodytes");
    assert_eq!(plan.metadata_file, "XC928094 - Eurasian Wren - Troglodytes troglodytes.xc.json");
    assert_eq!(plan.audio_file, "XC928094 - Eurasian Wren - Troglodytes troglodytes.mp3");
    let (index, outcome) = merge_into(None, index_entry(&m, &plan.audio_file, &plan.metadata_file));
    assert_eq!(outcome, MergeOutcome::Inserted);
    assert_eq!(index.version, INDEX_VERSION);
    assert_eq!(index.sounds.len(), 1);
    assert_eq!(index.sounds[0].xc_id, 928094);
    assert_eq!(index.sounds[0].species, "Troglodytes troglodytes");
    assert_eq!(index.sounds[0].source, "xeno-canto");
}

#[test]
fn rerun_gives_same_metadata_and_no_new_entry() {
    let raw = wren_record();
    let m1 = normalize(&raw, 928094, &day(2024, 5, 1));
    let first_plan = file_plan(&m1, &raw);
    let (index, first) = merge_into(None, index_entry(&m1, &first_plan.audio_file, &first_plan.metadata_file));
    let m2 = normalize(&raw, 928094, &day(2024, 5, 1));
    let second_plan = file_plan(&m2, &raw);
    assert_eq!(format!("{m1:?}"), format!("{m2:?}"));
    let before = format!("{index:?}");
    let (index, second) = merge_into(Some(index), index_entry(&m2, &second_plan.audio_file, &second_plan.metadata_file));
    assert_eq!(first, MergeOutcome::Inserted);
    assert_eq!(second, MergeOutcome::AlreadyPresent);
    assert_eq!(format!("{index:?}"), before);
}

#[test]
fn merging_twice_is_idempotent() {
    let mut index = Index::new();
    assert_eq!(index.merge(entry(1, "a")), MergeOutcome::Inserted);
    let after_first = format!("{index:?}");
    assert_eq!(index.merge(entry(1, "a")), MergeOutcome::AlreadyPresent);
    assert_eq!(format!("{index:?}"), after_first);
}

#[test]
fn merge_keeps_order_and_skips_known_numbers() {
    let mut index = Index::new();
    index.merge(entry(3, "c"));
    index.merge(entry(1, "a"));
    assert_eq!(index.merge(entry(3, "other")), MergeOutcome::AlreadyPresent);
    index.merge(entry(2, "b"));
    let ids: Vec<u64> = index.sounds.iter().map(|e| e.xc_id).collect();
    assert_eq!(ids, vec![3, 1, 2]);
    assert_eq!(index.sounds[0].en, "c");
    assert!(index.contains_id(2));
    assert!(!index.contains_id(4));
}

#[test]
fn merge_into_an_existing_index_keeps_its_version() {
    let loaded = Index { version: 7, sounds: vec![entry(9, "z")] };
    let (index, outcome) = merge_into(Some(loaded), entry(10, "y"));
    assert_eq!(outcome, MergeOutcome::Inserted);
    assert_eq!(index.version, 7);
    assert_eq!(index.sounds.len(), 2);
}

#[test]
fn audio_url_requires_a_non_empty_link() {
    let raw = wren_record();
    assert_eq!(audio_url(&raw).as_deref(), Some("https://xeno-canto.org/928094/download"));
    let doc: serde_json::Value = serde_json::from_str(r#"{"file":""}"#).unwrap();
    assert_eq!(audio_url(&RawRecord::from_document(&doc)), None);
    let doc: serde_json::Value = serde_json::from_str(r#"{}"#).unwrap();
    assert_eq!(audio_url(&RawRecord::from_document(&doc)), None);
}

#[test]
fn lookup_query_and_key_choice() {
    assert_eq!(
        lookup_url(928094, "k1"),
        "https://xeno-canto.org/api/3/recordings?query=nr:928094&key=k1"
    );
    assert_eq!(choose_api_key(Some("a".into()), Some("b".into())), Some("a".to_string()));
    assert_eq!(choose_api_key(None, Some("b".into())), Some("b".to_string()));
    assert_eq!(choose_api_key(None, None), None);
}

#[test]
fn api_error_with_status_200_aborts() {
    let r = interpret_response(928094, 200, r#"{"error":"invalid key"}"#);
    assert!(matches!(r, Err(FetchError::Api(ref m)) if m == "\"invalid key\""));
}

#[test]
fn http_error_keeps_status_and_body() {
    let r = interpret_response(1, 503, "busy");
    assert!(matches!(r, Err(FetchError::Http(503, ref b)) if b == "busy"));
}

#[test]
fn malformed_and_missing_recordings() {
    assert!(matches!(interpret_response(1, 200, "not json"), Err(FetchError::MalformedResponse)));
    assert!(matches!(interpret_response(4, 200, r#"{"recordings":[]}"#), Err(FetchError::NotFound(4))));
    assert!(matches!(interpret_response(4, 200, r#"{"recordings":3}"#), Err(FetchError::NotFound(4))));
    assert!(matches!(interpret_response(4, 200, r#"{}"#), Err(FetchError::NotFound(4))));
}

#[test]
fn first_recording_is_taken() {
    let body = format!(r#"{{"recordings":[{WREN},{{"id":"1"}}]}}"#);
    let raw = interpret_response(928094, 200, &body).unwrap();
    assert_eq!(raw.id.as_deref(), Some("928094"));
    assert_eq!(raw.en.as_deref(), Some("Eurasian Wren"));
}

#[test]
fn classify_by_view() {
    let one: serde_json::Value = serde_json::from_str(r#"{"id":"5"}"#).unwrap();
    let two: serde_json::Value = serde_json::from_str(r#"{"id":"6"}"#).unwrap();
    let r = classify(5, 200, "", ResponseView::Recordings(Some(vec![one.clone(), two])));
    assert_eq!(r.unwrap(), one);
    assert!(matches!(classify(5, 404, "gone", ResponseView::Malformed), Err(FetchError::Http(404, _))));
    assert!(matches!(classify(5, 200, "", ResponseView::Recordings(None)), Err(FetchError::NotFound(5))));
    assert!(matches!(
        classify(5, 299, "", ResponseView::ApiError("x".into())),
        Err(FetchError::Api(ref m)) if m == "x"
    ));
}
