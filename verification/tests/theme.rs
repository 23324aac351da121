use dsh_pet::theme::read_theme;
use dsh_pet::theme::{normalized_animations, AnimationList, RawAnimationValue, Theme};
use serde_json::Value;

/// Reads a `theme.json` text into a theme, as the application does.
fn theme_from_json(text: &str) -> Theme {
    read_theme(text).unwrap()
}

/// Writes a theme back as `theme.json` text: a single name as a string, otherwise a list.
fn theme_to_json(t: &Theme) -> String {
    let mut anims = serde_json::Map::new();
    for i in 0..t.animations.len() {
        let v = match t.animations.value_at(i).to_raw() {
            RawAnimationValue::One(s) => Value::String(s),
            RawAnimationValue::Many(items) => {
                Value::Array(items.into_iter().map(Value::String).collect())
            }
        };
        anims.insert(t.animations.key_at(i).clone(), v);
    }
    let mut root = serde_json::Map::new();
    root.insert("name".to_string(), Value::String(t.name.clone()));
    root.insert("animations".to_string(), Value::Object(anims));
    serde_json::to_string(&Value::Object(root)).unwrap()
}

fn key(s: &str) -> String {
    s.to_string()
}

#[test]
fn deserialize_single_string() {
    let json = r#"{
        "name": "t",
        "animations": { "idle_breath": "idle.webm" }
    }"#;
    let t = theme_from_json(json);
    assert_eq!(t.animations.get(&key("idle_breath")).unwrap().0, vec!["idle.webm"]);
}

#[test]
fn deserialize_string_array() {
    let json = r#"{
        "name": "t",
        "animations": { "work": ["cube.webm", "toycar.webm"] }
    }"#;
    let t = theme_from_json(json);
    assert_eq!(t.animations.get(&key("work")).unwrap().0, vec!["cube.webm", "toycar.webm"]);
}

#[test]
fn deserialize_dedup_and_trim() {
    let json = r#"{
        "name": "t",
        "animations": {
            "work": ["a.webm", "  ", "", "a.webm", "b.webm", " b.webm "]
        }
    }"#;
    let t = theme_from_json(json);
    assert_eq!(t.animations.get(&key("work")).unwrap().0, vec!["a.webm", "b.webm"]);
}

#[test]
fn deserialize_empty_string_and_empty_array() {
    let json = r#"{
        "name": "t",
        "animations": {
            "a": "",
            "b": [],
            "c": ["", "   "]
        }
    }"#;
    let t = theme_from_json(json);
    assert!(t.animations.get(&key("a")).map(|v| v.is_empty()).unwrap_or(true));
    assert!(t.animations.get(&key("b")).map(|v| v.is_empty()).unwrap_or(true));
    assert!(t.animations.get(&key("c")).map(|v| v.is_empty()).unwrap_or(true));
}

#[test]
fn normalized_animations_filters_empty() {
    let json = r#"{
        "name": "t",
        "animations": {
            "work": ["cube.webm", "toycar.webm"],
            "idle": "",
            "rest": []
        }
    }"#;
    let t = theme_from_json(json);
    let n = normalized_animations(&t);
    assert_eq!(
        n.get(&key("work")).unwrap(),
        &vec!["cube.webm".to_string(), "toycar.webm".to_string()]
    );
    assert!(!n.contains_key(&key("idle")));
    assert!(!n.contains_key(&key("rest")));
}

#[test]
fn normalized_animations_keeps_multiple_event_keys() {
    let json = r#"{
        "name": "t",
        "animations": {
            "work_cube": "cube.webm",
            "work_toycar": ["toycar.webm", "toycar-alt.webm"],
            "work_tap": "tap.webm"
        }
    }"#;
    let t = theme_from_json(json);
    let n = normalized_animations(&t);
    assert_eq!(n.len(), 3);
    assert_eq!(n.get(&key("work_cube")).unwrap(), &vec!["cube.webm"]);
    assert_eq!(n.get(&key("work_toycar")).unwrap(), &vec!["toycar.webm", "toycar-alt.webm"]);
    assert_eq!(n.get(&key("work_tap")).unwrap(), &vec!["tap.webm"]);
}

#[test]
fn serialize_round_trip_keeps_values() {
    let json = r#"{"name":"t","animations":{"idle_breath":"idle.webm","work":["a","b"]}}"#;
    let t = theme_from_json(json);
    let out = theme_to_json(&t);
    let t2 = theme_from_json(&out);
    assert_eq!(t2.animations.get(&key("idle_breath")).unwrap().0, vec!["idle.webm"]);
    assert_eq!(t2.animations.get(&key("work")).unwrap().0, vec!["a", "b"]);
}

#[test]
fn from_raw_trims_unicode_white_space() {
    let l = AnimationList::from_raw(RawAnimationValue::Many(vec![
        "\u{3000}a.webm\t".to_string(),
        "\u{a0}".to_string(),
        "a.webm".to_string(),
    ]));
    assert_eq!(l.0, vec!["a.webm"]);
}

#[test]
fn from_raw_keeps_first_occurrence_order() {
    let l = AnimationList::from_raw(RawAnimationValue::Many(vec![
        "c".to_string(),
        "a".to_string(),
        " c".to_string(),
        "b".to_string(),
        "a ".to_string(),
    ]));
    assert_eq!(l.0, vec!["c", "a", "b"]);
    assert_eq!(l.as_slice(), &["c".to_string(), "a".to_string(), "b".to_string()]);
}

#[test]
fn from_raw_of_normal_list_is_identity() {
    let l = AnimationList::from_raw(RawAnimationValue::Many(vec![
        " x ".to_string(),
        "y".to_string(),
        "x".to_string(),
    ]));
    let again = AnimationList::from_raw(l.to_raw());
    assert_eq!(again, l);
}

#[test]
fn to_raw_single_and_many() {
    let one = AnimationList(vec!["a".to_string()]);
    assert!(matches!(one.to_raw(), RawAnimationValue::One(s) if s == "a"));
    let two = AnimationList(vec!["a".to_string(), "b".to_string()]);
    assert!(matches!(two.to_raw(), RawAnimationValue::Many(v) if v == vec!["a", "b"]));
    let none = AnimationList(Vec::new());
    assert!(matches!(none.to_raw(), RawAnimationValue::Many(v) if v.is_empty()));
}

#[test]
fn keep_found_drops_missing_files_and_empty_keys() {
    let found = vec![
        ("work".to_string(), vec![Some("/t/a.webm".to_string()), None, Some("/t/b.webm".to_string())]),
        ("idle".to_string(), vec![None]),
        ("rest".to_string(), vec![]),
    ];
    let r = dsh_pet::theme::keep_found(found);
    assert_eq!(r.len(), 1);
    assert_eq!(r.get(&key("work")).unwrap(), &vec!["/t/a.webm", "/t/b.webm"]);
    assert!(!r.contains_key(&key("idle")));
}

#[test]
fn theme_info_falls_back_to_id() {
    let a = dsh_pet::theme::theme_info("my-pet-1".to_string(), None);
    assert_eq!(a.name, "my-pet-1");
    let b = dsh_pet::theme::theme_info("x".to_string(), Some("名字".to_string()));
    assert_eq!(b.id, "x");
    assert_eq!(b.name, "名字");
}

#[test]
fn theme_json_shapes() {
    let read = |t: &str| read_theme(t);
    assert!(read(r#"{"animations":{}}"#).is_none());
    assert!(read(r#"{"name":1}"#).is_none());
    assert!(read(r#"{"name":"t","animations":{"a":1}}"#).is_none());
    assert!(read(r#"{"name":"t","animations":{"a":["x",2]}}"#).is_none());
    assert!(read(r#"{"name":"t","animations":[]}"#).is_none());
    let t = read(r#"{"name":"t","extra":true,"animations":{"a":null,"b":" b.webm "}}"#).unwrap();
    assert_eq!(t.name, "t");
    assert!(t.animations.get(&key("a")).unwrap().is_empty());
    assert_eq!(t.animations.get(&key("b")).unwrap().0, vec!["b.webm"]);
    let t = read(r#"{"name":"t"}"#).unwrap();
    assert!(t.animations.is_empty());
    // The array form: the name, then optionally the animations.
    let t = read(r#"["t"]"#).unwrap();
    assert_eq!(t.name, "t");
    assert!(t.animations.is_empty());
    let t = read(r#"["t", {"w": ["a", "a"]}]"#).unwrap();
    assert_eq!(t.animations.get(&key("w")).unwrap().0, vec!["a"]);
    assert!(read(r#"[]"#).is_none());
    assert!(read(r#"["t", {}, 1]"#).is_none());
    assert!(read(r#"["t", null]"#).is_none());
    assert!(read(r#"[1]"#).is_none());
    assert!(read_theme("{").is_none());
}
