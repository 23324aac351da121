use dsh_pet::theme_editor::{
    check_webm_name, clean_theme_name, derive_theme_id, has_webm_extension, is_valid_theme_id,
    check_theme_id, plan_animation_file, renamed_webm, staged_file_name, stored_animations,
    FileProbe, FilePlan, PlannedFile, SaveRun,
};
use dsh_pet::theme_template::{event_groups, readme_text, template_animations, template_theme_id, README_INTRO, README_OUTRO};
use dsh_pet::text::{decimal_string, hex_string, trim};

#[test]
fn theme_name_is_trimmed_or_refused() {
    assert_eq!(clean_theme_name("  鲸鱼 "), Ok("鲸鱼".to_string()));
    assert_eq!(clean_theme_name(" \u{3000} "), Err("请输入皮肤名称".to_string()));
}

#[test]
fn theme_ids() {
    assert_eq!(derive_theme_id(Some(" kept ".to_string()), "x", 7), " kept ");
    assert_eq!(derive_theme_id(Some("  ".to_string()), "My Pet!", 42), "custom-My-Pet-42");
    assert_eq!(derive_theme_id(None, "--鲸鱼_2--", 1), "custom-_2-1");
    assert_eq!(derive_theme_id(None, "a b", 9), "custom-a-b-9");
}

#[test]
fn theme_id_validity() {
    assert!(is_valid_theme_id("custom-a-1"));
    assert!(!is_valid_theme_id(""));
    assert!(!is_valid_theme_id("a..b"));
    assert!(!is_valid_theme_id("a/b"));
    assert!(!is_valid_theme_id("a\\b"));
    assert!(is_valid_theme_id("a.b.c"));
}

#[test]
fn webm_names() {
    assert!(has_webm_extension("a.WebM"));
    assert!(!has_webm_extension("a.webm.txt"));
    assert!(!has_webm_extension("webm"));
    assert_eq!(check_webm_name(None), Err("动画文件名无效".to_string()));
    assert_eq!(check_webm_name(Some("a.mp4".to_string())), Err("仅支持 webm：a.mp4".to_string()));
    assert_eq!(check_webm_name(Some("a.WEBM".to_string())), Ok("a.WEBM".to_string()));
    assert_eq!(renamed_webm("idle.webm", 3), "idle-3.webm");
    assert_eq!(renamed_webm("x.webm.webm", 0), "x-0.webm");
    assert_eq!(renamed_webm("X.WEBM", 1), "X.WEBM-1.webm");
    assert_eq!(staged_file_name(1700, 2, "a.webm"), "1700-2-a.webm");
}

fn probe(a: bool, e: bool, same: bool, t: bool, rel: bool) -> FileProbe {
    FileProbe { source_absolute: a, source_exists: e, source_is_target: same, target_exists: t, relative_exists: rel }
}

#[test]
fn file_plans() {
    assert!(matches!(plan_animation_file("/d/a.webm", "a.webm", 0, &probe(true, true, true, true, false)), FilePlan::Keep(n) if n == "a.webm"));
    assert!(matches!(plan_animation_file("/s/a.webm", "a.webm", 2, &probe(true, true, false, true, false)), FilePlan::CopyAs(n) if n == "a-2.webm"));
    assert!(matches!(plan_animation_file("/s/a.webm", "a.webm", 2, &probe(true, true, false, false, false)), FilePlan::CopyAs(n) if n == "a.webm"));
    assert!(matches!(plan_animation_file("a.webm", "a.webm", 0, &probe(false, false, false, false, true)), FilePlan::KeepRelative(p) if p == "a.webm"));
    assert!(matches!(plan_animation_file("/s/a.webm", "a.webm", 0, &probe(true, false, false, false, false)), FilePlan::Missing(e) if e == "动画文件不存在：/s/a.webm"));
}

#[test]
fn template_theme() {
    assert_eq!(template_theme_id(1_700_000_123), "my-pet-123");
    assert_eq!(template_theme_id(5), "my-pet-5");
    let groups = event_groups();
    assert_eq!(groups.len(), 13);
    assert_eq!(groups[1].1, vec!["work_cube", "work_toycar", "work_tap"]);
    let readme = readme_text(&groups);
    assert!(readme.starts_with(README_INTRO));
    assert!(readme.ends_with(README_OUTRO));
    assert!(readme.contains("- 空闲呼吸（必需）：idle_breath\n- 工作（至少 1 个）：work_cube / work_toycar / work_tap\n"));
    let anims = template_animations();
    assert_eq!(anims.len(), 28);
    assert_eq!(anims[0].0, "idle_breath");
    assert_eq!(anims[27].0, "react_wake");
}

#[test]
fn numerals_and_trim() {
    assert_eq!(decimal_string(0), "0");
    assert_eq!(decimal_string(1234567890123), "1234567890123");
    assert_eq!(hex_string(0), "0");
    assert_eq!(hex_string(48879), "beef");
    assert_eq!(trim(" \t a b \u{2003}"), "a b");
}

#[test]
fn click_happy_serves_done_and_click() {
    let groups = event_groups();
    let holding: Vec<&String> = groups
        .iter()
        .filter(|(_, keys)| keys.iter().any(|k| k == "click_happy"))
        .map(|(label, _)| label)
        .collect();
    assert_eq!(holding, vec!["完成（至少 1 个）", "点击（至少 1 个）"]);
}

#[test]
fn eight_groups_need_an_animation() {
    let groups = event_groups();
    let needed = groups
        .iter()
        .filter(|(label, _)| label.contains("必需") || label.contains("至少 1 个"))
        .count();
    assert_eq!(needed, 8);
}

#[test]
fn generated_ids_are_always_valid() {
    for name in ["../../etc", "a/b\\c", "..", "鲸鱼", "x.y"] {
        let id = derive_theme_id(None, name, 12345);
        assert!(is_valid_theme_id(&id), "{id}");
    }
    assert_eq!(derive_theme_id(None, "../../etc", 3), "custom-etc-3");
    // A given id is kept as it is, and may be refused.
    assert!(!is_valid_theme_id(&derive_theme_id(Some("../x".to_string()), "n", 1)));
}

#[test]
fn template_lists_every_documented_key_once() {
    let anims = template_animations();
    let keys: Vec<&str> = anims.iter().map(|(k, _)| k.as_str()).collect();
    for (_, group) in event_groups() {
        for k in group {
            assert_eq!(keys.iter().filter(|x| **x == k).count(), 1, "{k}");
        }
    }
    for k in ["rest_sleep", "react_wake", "idle_hum", "act_violin", "act_spin", "work_tap"] {
        assert!(keys.contains(&k), "{k}");
    }
    assert!(!keys.contains(&"work"));
    for (_, v) in &anims {
        assert!(matches!(v, dsh_pet::theme::RawAnimationValue::One(f) if f.is_empty()));
    }
}

#[test]
fn stored_animations_from_plans() {
    let planned = vec![
        (
            "work".to_string(),
            vec![
                PlannedFile::Blank,
                PlannedFile::Plan(FilePlan::CopyAs("a-1.webm".to_string())),
                PlannedFile::Plan(FilePlan::Keep("b.webm".to_string())),
            ],
        ),
        ("idle".to_string(), vec![PlannedFile::Blank]),
        ("drag".to_string(), vec![PlannedFile::Plan(FilePlan::KeepRelative("d.webm".to_string()))]),
    ];
    let stored = stored_animations(&planned).unwrap();
    assert_eq!(
        stored,
        vec![
            ("work".to_string(), vec!["a-1.webm".to_string(), "b.webm".to_string()]),
            ("drag".to_string(), vec!["d.webm".to_string()]),
        ]
    );
    let bad = vec![
        ("a".to_string(), vec![PlannedFile::Plan(FilePlan::Missing("动画文件不存在：x".to_string()))]),
        ("b".to_string(), vec![PlannedFile::Refused("仅支持 webm：y".to_string())]),
    ];
    assert_eq!(stored_animations(&bad), Err("动画文件不存在：x".to_string()));
    let refused = vec![("b".to_string(), vec![PlannedFile::Blank, PlannedFile::Refused("仅支持 webm：y".to_string())])];
    assert_eq!(stored_animations(&refused), Err("仅支持 webm：y".to_string()));
}

#[test]
fn theme_ids_are_checked() {
    assert_eq!(check_theme_id("custom-a-1".to_string()), Ok("custom-a-1".to_string()));
    assert_eq!(check_theme_id("../x".to_string()), Err("皮肤标识无效".to_string()));
    assert_eq!(check_theme_id(String::new()), Err("皮肤标识无效".to_string()));
}

#[test]
fn saving_stops_at_the_first_failure() {
    let mut run = SaveRun::new();
    run.begin_key("a".to_string());
    run.record(PlannedFile::Blank);
    run.record(PlannedFile::Plan(FilePlan::Keep("a.webm".to_string())));
    assert!(!run.stopped());
    run.begin_key("b".to_string());
    run.record(PlannedFile::Refused("仅支持 webm：b.txt".to_string()));
    assert!(run.stopped());
    assert_eq!(run.finish(), Err("仅支持 webm：b.txt".to_string()));
    let mut ok = SaveRun::new();
    ok.begin_key("a".to_string());
    ok.record(PlannedFile::Plan(FilePlan::CopyAs("a-0.webm".to_string())));
    ok.begin_key("b".to_string());
    ok.record(PlannedFile::Blank);
    assert_eq!(ok.finish(), Ok(vec![("a".to_string(), vec!["a-0.webm".to_string()])]));
}
