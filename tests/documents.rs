use xc_fetch::date::{date_of_timestamp, Date};
use xc_fetch::index::{Index, IndexEntry, IndexError, MergeOutcome};
use xc_fetch::plan::merge_index_text;
use xc_fetch::record::{normalize, RawRecord};

fn entry(id: u64, name: &str) -> IndexEntry {
    IndexEntry {
        filename: format!("{name}.mp3"),
        metadata: format!("{name}.xc.json"),
        xc_id: id,
        en: name.to_string(),
        species: "Genus species".to_string(),
        source: "xeno-canto".to_string(),
    }
}

fn ids(index: &Index) -> Vec<u64> {
    index.sounds.iter().map(|e| e.xc_id).collect()
}

#[test]
fn index_text_round_trip_keeps_entries_in_order() {
    let mut index = Index::new();
    index.merge(entry(30, "c"));
    index.merge(entry(10, "a"));
    index.merge(entry(20, "b \"quoted\" / é"));
    let text = index.to_text().unwrap();
    assert!(text.ends_with("}\n"));
    let back = Index::from_text(&text).unwrap();
    assert_eq!(back.version, 1);
    assert_eq!(ids(&back), vec![30, 10, 20]);
    assert_eq!(back.sounds[2].en, "b \"quoted\" / é");
    assert_eq!(back.sounds[0].filename, "c.mp3");
    assert_eq!(back.to_text().unwrap(), text);
}

#[test]
fn empty_index_round_trip() {
    let text = Index::new().to_text().unwrap();
    let back = Index::from_text(&text).unwrap();
    assert_eq!(back.version, 1);
    assert!(back.sounds.is_empty());
}

#[test]
fn corrupt_index_is_refused() {
    for t in ["", "not json", "[]", "{\"version\":1}", "{\"version\":1,\"sounds\":{}}", "{\"sounds\":[]}",
        "{\"version\":1,\"sounds\":[{\"xc_id\":1}]}"] {
        assert_eq!(Index::from_text(t).unwrap_err(), IndexError::CorruptIndex);
    }
    assert_eq!(merge_index_text(Some("garbage"), entry(1, "a")).unwrap_err(), IndexError::CorruptIndex);
}

#[test]
fn merging_into_stored_text_twice() {
    let (first, text) = merge_index_text(None, entry(928094, "wren")).unwrap();
    assert_eq!(first, MergeOutcome::Inserted);
    let text = text.unwrap();
    let (second, again) = merge_index_text(Some(&text), entry(928094, "wren")).unwrap();
    assert_eq!(second, MergeOutcome::AlreadyPresent);
    assert!(again.is_none());
    let index = Index::from_text(&text).unwrap();
    assert_eq!(ids(&index), vec![928094]);
}

#[test]
fn merging_a_new_number_appends_to_stored_text() {
    let (_, text) = merge_index_text(None, entry(1, "a")).unwrap();
    let (outcome, text) = merge_index_text(Some(&text.unwrap()), entry(2, "b")).unwrap();
    assert_eq!(outcome, MergeOutcome::Inserted);
    assert_eq!(ids(&Index::from_text(&text.unwrap()).unwrap()), vec![1, 2]);
}

#[test]
fn metadata_text_is_stable_and_complete() {
    let doc: serde_json::Value = serde_json::from_str(
        r#"{"id":"928094","gen":"Troglodytes","sp":"troglodytes","en":"Eurasian Wren","rec":"J. Doe","lic":"CC-BY","cnt":"France","smp":"48000"}"#,
    )
    .unwrap();
    let raw = RawRecord::from_document(&doc);
    let date = Date { year: 2024, month: 5, day: 1 };
    let a = normalize(&raw, 928094, &date).to_text().unwrap();
    let b = normalize(&raw, 928094, &date).to_text().unwrap();
    assert_eq!(a, b);
    assert!(a.ends_with("}\n"));
    let v: serde_json::Value = serde_json::from_str(&a).unwrap();
    assert_eq!(v["attribution"], "J. Doe, XC928094. Accessible at www.xeno-canto.org/928094");
    assert_eq!(v["xc_id"], 928094);
    assert_eq!(v["retrieved"], "2024-05-01");
    assert_eq!(v["cnt"], "France");
    assert!(v["loc"].is_null());
    assert!(v["file_url"].is_null());
    assert_eq!(v["smp"], 48000);
    assert_eq!(v["source"], "xeno-canto");
    assert_eq!(v["raw_response"], doc);
}

#[test]
fn rewriting_keeps_unknown_members_and_rows() {
    let stored = "{\"version\":1,\"note\":\"keep\",\"sounds\":[{\"filename\":\"a.wav\",\"metadata\":\"a.xc.json\",\"xc_id\":1,\"en\":\"a\",\"species\":\"A a\",\"source\":\"xeno-canto\",\"extra\":[1,2]}]}";
    let (outcome, text) = merge_index_text(Some(stored), entry(2, "b")).unwrap();
    assert_eq!(outcome, MergeOutcome::Inserted);
    let v: serde_json::Value = serde_json::from_str(&text.unwrap()).unwrap();
    assert_eq!(v["note"], "keep");
    assert_eq!(v["sounds"][0]["extra"], serde_json::from_str::<serde_json::Value>("[1,2]").unwrap());
    assert_eq!(v["sounds"][1]["xc_id"], 2);
    assert_eq!(v["sounds"].as_array().unwrap().len(), 2);
}

#[test]
fn dates_from_timestamps() {
    assert_eq!(date_of_timestamp(0), Some(Date { year: 1970, month: 1, day: 1 }));
    assert_eq!(date_of_timestamp(1431648000), Some(Date { year: 2015, month: 5, day: 15 }));
    assert_eq!(date_of_timestamp(-86400), Some(Date { year: 1969, month: 12, day: 31 }));
    assert_eq!(date_of_timestamp(i64::MAX), None);
}
