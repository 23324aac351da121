//! The template theme that the tray menu creates: its id, its `theme.json` animations and
//! its README table of events and animation keys.
use vstd::prelude::*;
use vstd::string::*;

use crate::text::{contains_string, decimal, decimal_string, strings_view};
use crate::theme::RawAnimationValue;

verus! {

/// The start of the template README.
pub const README_INTRO: &'static str = "自定义皮肤动画对照表
========================

把动画文件（webm）放进本目录，然后在 theme.json 里把对应文件名填到动画键后面。
animations 的每个键值可以是单字符串或字符串数组：
  单字符串：\"idle_breath\": \"idle.webm\"
  字符串数组：\"work\": [\"work_cube.webm\", \"work_toycar.webm\"]
数组每次播放都会随机选择；空字符串和空数组会被忽略。
同一个事件也可以同时填写多个不同动画键（例如 work_cube、work_toycar），运行时会从全部候选中随机选择。
事件名（如 work）会把同一数组提供给该事件的预置动画键；动画键（如 work_cube）只覆盖单个键。
click_happy 同时属于“完成”和“点击”事件，填写一次即可供两个事件使用。

至少需要 8 个动画（每个“必需/至少1个”分组各 1 个）：

";

/// The end of the template README.
pub const README_OUTRO: &'static str = "
说明：
- webm（VP8），纯黑背景，约 360x360，无音频；
- 填好 theme.json 后，右键托盘 → 皮肤 → 选择本皮肤即可生效。
";

/// The names joined with `sep` between them.
pub open spec fn join_with(items: Seq<Seq<char>>, sep: Seq<char>) -> Seq<char>
    decreases items.len(),
{
    if items.len() == 0 {
        Seq::empty()
    } else if items.len() == 1 {
        items[0]
    } else {
        join_with(items.drop_last(), sep) + sep + items.last()
    }
}

/// The README line of one event group: `- <label>：<key> / <key> ...`.
pub open spec fn group_line(label: Seq<char>, keys: Seq<Seq<char>>) -> Seq<char> {
    "- "@ + label + "："@ + join_with(keys, " / "@) + "\n"@
}

/// The README lines of all event groups, in order.
pub open spec fn group_lines(groups: Seq<(Seq<char>, Seq<Seq<char>>)>) -> Seq<char>
    decreases groups.len(),
{
    if groups.len() == 0 {
        Seq::empty()
    } else {
        group_lines(groups.drop_last()) + group_line(groups.last().0, groups.last().1)
    }
}

/// Event groups seen as labels and keys.
pub open spec fn groups_view(groups: Seq<(String, Vec<String>)>) -> Seq<(Seq<char>, Seq<Seq<char>>)> {
    groups.map_values(|g: (String, Vec<String>)| (g.0@, strings_view(g.1@)))
}

/// The names joined with `sep`.
pub fn join_strings(items: &Vec<String>, sep: &str) -> (r: String)
    ensures
        r@ == join_with(strings_view(items@), sep@),
{
    let ghost v = strings_view(items@);
    let mut r = String::new();
    let n = items.len();
    let mut i: usize = 0;
    while i < n
        invariant
            n == items@.len(),
            v == strings_view(items@),
            i <= n,
            r@ == join_with(v.take(i as int), sep@),
        decreases n - i,
    {
        assert(v.take(i + 1).drop_last() =~= v.take(i as int));
        if i > 0 {
            r.append(sep);
        } else {
            assert(r@ =~= Seq::<char>::empty());
        }
        r.append(items[i].as_str());
        assert(v.take(i + 1).last() == items@[i as int]@);
        if i == 0 {
            assert(r@ =~= join_with(v.take(1), sep@));
        }
        i = i + 1;
    }
    assert(v.take(n as int) =~= v);
    r
}

/// The README of the template theme: the introduction, one line per event group, and the
/// closing notes.
pub fn readme_text(groups: &Vec<(String, Vec<String>)>) -> (r: String)
    ensures
        r@ == README_INTRO@ + group_lines(groups_view(groups@)) + README_OUTRO@,
{
    let ghost g = groups_view(groups@);
    let mut r = String::from_str(README_INTRO);
    let n = groups.len();
    let mut i: usize = 0;
    while i < n
        invariant
            n == groups@.len(),
            g == groups_view(groups@),
            i <= n,
            r@ == README_INTRO@ + group_lines(g.take(i as int)),
        decreases n - i,
    {
        let (label, keys) = &groups[i];
        assert(g.take(i + 1).drop_last() =~= g.take(i as int));
        assert(g.take(i + 1).last() == (label@, strings_view(keys@)));
        r.append("- ");
        r.append(label.as_str());
        r.append("：");
        let joined = join_strings(keys, " / ");
        r.append(joined.as_str());
        r.append("\n");
        assert(r@ =~= README_INTRO@ + group_lines(g.take(i + 1)));
        i = i + 1;
    }
    assert(g.take(n as int) =~= g);
    r.append(README_OUTRO);
    r
}

/// The id of a new template theme made `secs` seconds after the epoch:
/// `my-pet-<secs mod 100000>`.
pub fn template_theme_id(secs: u64) -> (r: String)
    ensures
        r@ == "my-pet-"@ + decimal((secs % 100000) as nat),
{
    let mut r = String::from_str("my-pet-");
    let num = decimal_string((secs % 100000) as u128);
    r.append(num.as_str());
    r
}

/// String slices seen as character sequences.
pub open spec fn strs_view(v: Seq<&str>) -> Seq<Seq<char>> {
    v.map_values(|k: &str| k@)
}

fn group(label: &str, keys: &[&str]) -> (r: (String, Vec<String>))
    ensures
        r.0@ == label@,
        strings_view(r.1@) == strs_view(keys@),
{
    let mut v: Vec<String> = Vec::new();
    let n = keys.len();
    let mut i: usize = 0;
    while i < n
        invariant
            n == keys@.len(),
            i <= n,
            strings_view(v@) == strs_view(keys@.take(i as int)),
        decreases n - i,
    {
        let k: &str = keys[i];
        let ks = String::from_str(k);
        assert(ks@ == keys@[i as int]@);
        let ghost before = strings_view(v@);
        v.push(ks);
        assert(strings_view(v@) =~= before.push(keys@[i as int]@));
        assert(strs_view(keys@.take(i + 1)) =~= strs_view(keys@.take(i as int)).push(keys@[i as int]@));
        i = i + 1;
    }
    assert(keys@.take(n as int) =~= keys@);
    (String::from_str(label), v)
}

/// The event groups: each label with the animation keys that serve it.
pub open spec fn event_groups_spec() -> Seq<(Seq<char>, Seq<Seq<char>>)> {
    seq![
        ("空闲呼吸（必需）"@, seq!["idle_breath"@]),
        ("工作（至少 1 个）"@, seq!["work_cube"@, "work_toycar"@, "work_tap"@]),
        ("等待审批（至少 1 个）"@, seq!["react_scared"@, "react_bow"@]),
        ("完成（至少 1 个）"@, seq!["click_happy"@, "act_tailslap"@]),
        ("出错（必需）"@, seq!["act_rage"@]),
        ("回合空闲（可选）"@, seq!["idle_lookaround"@]),
        ("点击（至少 1 个）"@, seq!["click_happy"@, "click_shy"@, "click_tsundere"@]),
        ("拖拽（必需）"@, seq!["drag_hang"@]),
        ("移动（至少 1 个）"@, seq!["move_crab"@, "move_floatstep"@, "move_runleft"@]),
        ("彩蛋（可选）"@, seq!["act_spin"@, "fx_bubbles"@, "act_caught"@]),
        ("待机随机动作（可选）"@, seq!["idle_lookaround"@, "idle_hum"@, "idle_stretch"@, "idle_yawn"@, "idle_squash"@]),
        ("随机动作池（可选）"@, seq!["act_violin"@, "act_watergun"@, "act_jump"@, "act_caught"@, "act_rage"@, "act_tailslap"@, "fx_bubbles"@, "react_bow"@]),
        ("休息/起床（可选）"@, seq!["rest_sleep"@, "react_wake"@]),
    ]
}

/// The event groups of the animation keys, as the README lists them.
pub fn event_groups() -> (r: Vec<(String, Vec<String>)>)
    ensures
        groups_view(r@) == event_groups_spec(),
{
    let mut g: Vec<(String, Vec<String>)> = Vec::new();
    let e = group("空闲呼吸（必需）", &["idle_breath"]);
    assert(strs_view(["idle_breath"]@) =~= seq!["idle_breath"@]);
    g.push(e);
    let e = group("工作（至少 1 个）", &["work_cube", "work_toycar", "work_tap"]);
    assert(strs_view(["work_cube", "work_toycar", "work_tap"]@) =~= seq!["work_cube"@, "work_toycar"@, "work_tap"@]);
    g.push(e);
    let e = group("等待审批（至少 1 个）", &["react_scared", "react_bow"]);
    assert(strs_view(["react_scared", "react_bow"]@) =~= seq!["react_scared"@, "react_bow"@]);
    g.push(e);
    let e = group("完成（至少 1 个）", &["click_happy", "act_tailslap"]);
    assert(strs_view(["click_happy", "act_tailslap"]@) =~= seq!["click_happy"@, "act_tailslap"@]);
    g.push(e);
    let e = group("出错（必需）", &["act_rage"]);
    assert(strs_view(["act_rage"]@) =~= seq!["act_rage"@]);
    g.push(e);
    let e = group("回合空闲（可选）", &["idle_lookaround"]);
    assert(strs_view(["idle_lookaround"]@) =~= seq!["idle_lookaround"@]);
    g.push(e);
    let e = group("点击（至少 1 个）", &["click_happy", "click_shy", "click_tsundere"]);
    assert(strs_view(["click_happy", "click_shy", "click_tsundere"]@) =~= seq!["click_happy"@, "click_shy"@, "click_tsundere"@]);
    g.push(e);
    let e = group("拖拽（必需）", &["drag_hang"]);
    assert(strs_view(["drag_hang"]@) =~= seq!["drag_hang"@]);
    g.push(e);
    let e = group("移动（至少 1 个）", &["move_crab", "move_floatstep", "move_runleft"]);
    assert(strs_view(["move_crab", "move_floatstep", "move_runleft"]@) =~= seq!["move_crab"@, "move_floatstep"@, "move_runleft"@]);
    g.push(e);
    let e = group("彩蛋（可选）", &["act_spin", "fx_bubbles", "act_caught"]);
    assert(strs_view(["act_spin", "fx_bubbles", "act_caught"]@) =~= seq!["act_spin"@, "fx_bubbles"@, "act_caught"@]);
    g.push(e);
    let e = group("待机随机动作（可选）", &["idle_lookaround", "idle_hum", "idle_stretch", "idle_yawn", "idle_squash"]);
    assert(strs_view(["idle_lookaround", "idle_hum", "idle_stretch", "idle_yawn", "idle_squash"]@) =~= seq!["idle_lookaround"@, "idle_hum"@, "idle_stretch"@, "idle_yawn"@, "idle_squash"@]);
    g.push(e);
    let e = group("随机动作池（可选）", &["act_violin", "act_watergun", "act_jump", "act_caught", "act_rage", "act_tailslap", "fx_bubbles", "react_bow"]);
    assert(strs_view(["act_violin", "act_watergun", "act_jump", "act_caught", "act_rage", "act_tailslap", "fx_bubbles", "react_bow"]@) =~= seq!["act_violin"@, "act_watergun"@, "act_jump"@, "act_caught"@, "act_rage"@, "act_tailslap"@, "fx_bubbles"@, "react_bow"@]);
    g.push(e);
    let e = group("休息/起床（可选）", &["rest_sleep", "react_wake"]);
    assert(strs_view(["rest_sleep", "react_wake"]@) =~= seq!["rest_sleep"@, "react_wake"@]);
    g.push(e);
    assert(groups_view(g@) =~= event_groups_spec());
    g
}

/// Every key of the groups, group by group, in order.
pub open spec fn group_keys(groups: Seq<(Seq<char>, Seq<Seq<char>>)>) -> Seq<Seq<char>>
    decreases groups.len(),
{
    if groups.len() == 0 {
        Seq::empty()
    } else {
        group_keys(groups.drop_last()) + groups.last().1
    }
}

/// The keys in order of first occurrence, each once.
pub open spec fn first_occurrences(keys: Seq<Seq<char>>) -> Seq<Seq<char>>
    decreases keys.len(),
{
    if keys.len() == 0 {
        Seq::empty()
    } else {
        let acc = first_occurrences(keys.drop_last());
        if acc.contains(keys.last()) {
            acc
        } else {
            acc.push(keys.last())
        }
    }
}

/// The animation keys of the template: every key of the event table, once each, in the
/// order the table first names them.
pub open spec fn template_keys() -> Seq<Seq<char>> {
    first_occurrences(group_keys(event_groups_spec()))
}

/// An animation entry seen as its key, whether it is written as a list, and its names.
pub open spec fn entry_view(e: (String, RawAnimationValue)) -> (Seq<char>, bool, Seq<Seq<char>>) {
    (e.0@, e.1 is Many, crate::theme::raw_names(e.1))
}

pub open spec fn entries_spec_view(v: Seq<(String, RawAnimationValue)>) -> Seq<(Seq<char>, bool, Seq<Seq<char>>)> {
    v.map_values(|e: (String, RawAnimationValue)| entry_view(e))
}

/// A template entry: the key with an empty file name for the user to fill in.
pub open spec fn blank_entry_fn() -> spec_fn(Seq<char>) -> (Seq<char>, bool, Seq<Seq<char>>) {
    |k: Seq<char>| (k, false, seq![Seq::<char>::empty()])
}

/// The animations written into a new template theme's `theme.json`: every animation key of
/// the event table, once each, with an empty file name for the user to fill in.
pub fn template_animations() -> (r: Vec<(String, RawAnimationValue)>)
    ensures
        entries_spec_view(r@) == template_keys().map_values(blank_entry_fn()),
{
    let groups = event_groups();
    let ghost g = groups_view(groups@);
    let mut keys: Vec<String> = Vec::new();
    let n = groups.len();
    let mut i: usize = 0;
    while i < n
        invariant
            n == g.len(),
            g == groups_view(groups@),
            i <= n,
            strings_view(keys@) == first_occurrences(group_keys(g.take(i as int))),
        decreases n - i,
    {
        let ks = &groups[i].1;
        let ghost gk = g[i as int].1;
        assert(strings_view(ks@) == gk);
        let ghost base = group_keys(g.take(i as int));
        let m = ks.len();
        let mut j: usize = 0;
        while j < m
            invariant
                m == gk.len(),
                gk == strings_view(ks@),
                j <= m,
                strings_view(keys@) == first_occurrences(base + gk.take(j as int)),
            decreases m - j,
        {
            let k = &ks[j];
            assert((base + gk.take(j + 1)).drop_last() =~= base + gk.take(j as int));
            assert((base + gk.take(j + 1)).last() == k@);
            if !contains_string(&keys, k) {
                let ghost before = strings_view(keys@);
                keys.push(k.clone());
                assert(strings_view(keys@) =~= before.push(k@));
            }
            j = j + 1;
        }
        assert(gk.take(m as int) =~= gk);
        assert(g.take(i + 1).drop_last() =~= g.take(i as int));
        assert(g.take(i + 1).last() == g[i as int]);
        i = i + 1;
    }
    assert(g.take(n as int) =~= g);
    let ghost tk = strings_view(keys@);
    assert(tk == template_keys());
    let mut r: Vec<(String, RawAnimationValue)> = Vec::new();
    let nk = keys.len();
    let mut t: usize = 0;
    while t < nk
        invariant
            nk == tk.len(),
            tk == strings_view(keys@),
            t <= nk,
            entries_spec_view(r@) == tk.take(t as int).map_values(blank_entry_fn()),
        decreases nk - t,
    {
        let e = (keys[t].clone(), RawAnimationValue::One(String::new()));
        assert(entry_view(e) == blank_entry_fn()(tk[t as int])) by {
            assert(crate::theme::raw_names(e.1) =~= seq![Seq::<char>::empty()]);
        }
        let ghost before = entries_spec_view(r@);
        r.push(e);
        assert(entries_spec_view(r@) =~= before.push(blank_entry_fn()(tk[t as int])));
        assert(tk.take(t + 1).map_values(blank_entry_fn()) =~= tk.take(t as int).map_values(
            blank_entry_fn(),
        ).push(blank_entry_fn()(tk[t as int])));
        t = t + 1;
    }
    assert(tk.take(nk as int) =~= tk);
    r
}

/// The keys kept by `first_occurrences` are those of the input, each once.
pub proof fn lemma_first_occurrences(keys: Seq<Seq<char>>)
    ensures
        forall|k: Seq<char>| first_occurrences(keys).contains(k) <==> keys.contains(k),
        forall|i: int, j: int|
            0 <= i < j < first_occurrences(keys).len() ==> first_occurrences(keys)[i]
                != first_occurrences(keys)[j],
    decreases keys.len(),
{
    if keys.len() > 0 {
        let rest = keys.drop_last();
        lemma_first_occurrences(rest);
        let acc = first_occurrences(rest);
        assert forall|k: Seq<char>| first_occurrences(keys).contains(k) <==> keys.contains(k) by {
            if keys.contains(k) {
                let p = choose|p: int| 0 <= p < keys.len() && keys[p] == k;
                if p < keys.len() - 1 {
                    assert(rest[p] == k);
                    assert(rest.contains(k));
                }
            }
            if rest.contains(k) {
                let p = choose|p: int| 0 <= p < rest.len() && rest[p] == k;
                assert(keys[p] == k);
            }
            if !acc.contains(keys.last()) {
                if acc.push(keys.last()).contains(k) && k != keys.last() {
                    let p = choose|p: int| 0 <= p < acc.push(keys.last()).len() && acc.push(keys.last())[p] == k;
                    assert(acc[p] == k);
                }
                if acc.contains(k) {
                    let p = choose|p: int| 0 <= p < acc.len() && acc[p] == k;
                    assert(acc.push(keys.last())[p] == k);
                }
                assert(acc.push(keys.last())[acc.len() as int] == keys.last());
            }
            assert(keys[keys.len() - 1] == keys.last());
        }
        if !acc.contains(keys.last()) {
            let f = acc.push(keys.last());
            assert forall|i: int, j: int| 0 <= i < j < f.len() implies f[i] != f[j] by {
                if j == acc.len() {
                    assert(f[i] == acc[i]);
                }
            }
        }
    }
}

/// Every key of a group occurs among the keys of all groups.
proof fn lemma_group_keys_contain(groups: Seq<(Seq<char>, Seq<Seq<char>>)>, i: int, j: int)
    requires
        0 <= i < groups.len(),
        0 <= j < groups[i].1.len(),
    ensures
        group_keys(groups).contains(groups[i].1[j]),
    decreases groups.len(),
{
    let rest = groups.drop_last();
    let gk = group_keys(rest);
    if i == groups.len() - 1 {
        assert((gk + groups.last().1)[gk.len() + j] == groups[i].1[j]);
    } else {
        assert(rest[i] == groups[i]);
        lemma_group_keys_contain(rest, i, j);
        let p = choose|p: int| 0 <= p < gk.len() && gk[p] == groups[i].1[j];
        assert((gk + groups.last().1)[p] == gk[p]);
    }
}

/// The template lists every animation key of the event table, each once: a new template
/// theme leaves the user only the file names to fill in.
pub proof fn lemma_template_lists_every_key()
    ensures
        forall|i: int, j: int|
            0 <= i < event_groups_spec().len() && 0 <= j < event_groups_spec()[i].1.len()
                ==> template_keys().contains(#[trigger] event_groups_spec()[i].1[j]),
        forall|k: Seq<char>| template_keys().contains(k) ==> group_keys(event_groups_spec()).contains(k),
        forall|i: int, j: int|
            0 <= i < j < template_keys().len() ==> template_keys()[i] != template_keys()[j],
{
    let g = event_groups_spec();
    lemma_first_occurrences(group_keys(g));
    assert forall|i: int, j: int| 0 <= i < g.len() && 0 <= j < g[i].1.len() implies template_keys().contains(
        #[trigger] g[i].1[j],
    ) by {
        lemma_group_keys_contain(g, i, j);
    }
}

} // verus!
