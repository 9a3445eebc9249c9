use late::ignore::{add_ignored_user_id, remove_ignored_user_id, set_ignored_user_ids};
use late::json::JsonValue;
use late::prefs::{extract_ignored_user_ids, extract_theme_id};

const A: u128 = 0x0000_0000_0000_0000_0000_0000_0000_00aa;
const B: u128 = 0x1234_5678_9abc_def0_1234_5678_9abc_def0;

fn settings_with(ids: &[&str]) -> JsonValue {
    JsonValue::Object(vec![
        ("theme_id".to_string(), JsonValue::String("forest".to_string())),
        (
            "ignored_user_ids".to_string(),
            JsonValue::Array(ids.iter().map(|s| JsonValue::String(s.to_string())).collect()),
        ),
    ])
}

#[test]
fn add_ignored_user_id_inserts_sorted_and_reads_back() {
    let mut s = settings_with(&["12345678-9abc-def0-1234-56789abcdef0"]);
    let (changed, ids) = add_ignored_user_id(&mut s, A);
    assert!(changed);
    assert_eq!(ids, vec![A, B]);
    assert_eq!(extract_ignored_user_ids(&s), vec![A, B]);
    assert_eq!(extract_theme_id(&s).as_deref(), Some("forest"));
    match &s {
        JsonValue::Object(entries) => {
            let list = entries.iter().find(|(k, _)| k == "ignored_user_ids").map(|(_, v)| v);
            match list {
                Some(JsonValue::Array(items)) => {
                    let texts: Vec<&str> = items
                        .iter()
                        .map(|v| match v {
                            JsonValue::String(t) => t.as_str(),
                            _ => "",
                        })
                        .collect();
                    assert_eq!(
                        texts,
                        vec![
                            "00000000-0000-0000-0000-0000000000aa",
                            "12345678-9abc-def0-1234-56789abcdef0"
                        ]
                    );
                }
                _ => panic!("ignore list missing"),
            }
        }
        _ => panic!("settings not an object"),
    }
}

#[test]
fn add_ignored_user_id_twice_changes_nothing() {
    let mut s = settings_with(&["12345678-9abc-def0-1234-56789abcdef0"]);
    let (changed, ids) = add_ignored_user_id(&mut s, B);
    assert!(!changed);
    assert_eq!(ids, vec![B]);
}

#[test]
fn remove_ignored_user_id_undoes_add() {
    let mut s = settings_with(&[" 12345678-9abc-def0-1234-56789abcdef0 ", "not-a-uuid"]);
    assert!(add_ignored_user_id(&mut s, A).0);
    let (changed, ids) = remove_ignored_user_id(&mut s, A);
    assert!(changed);
    assert_eq!(ids, vec![B]);
    assert_eq!(extract_ignored_user_ids(&s), vec![B]);
    let (again, same) = remove_ignored_user_id(&mut s, A);
    assert!(!again);
    assert_eq!(same, vec![B]);
}

#[test]
fn set_ignored_user_ids_turns_non_object_into_object() {
    let mut s = JsonValue::Null;
    set_ignored_user_ids(&mut s, &vec![A]);
    assert_eq!(extract_ignored_user_ids(&s), vec![A]);
    let mut empty = JsonValue::Object(vec![]);
    set_ignored_user_ids(&mut empty, &vec![]);
    assert!(extract_ignored_user_ids(&empty).is_empty());
    match empty {
        JsonValue::Object(entries) => assert_eq!(entries.len(), 1),
        _ => panic!("settings not an object"),
    }
}
