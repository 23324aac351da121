//! Themes: a name and, per event or animation key, a list of webm file names.
//!
//! Each animation value is one file name or a list of them; a list is normalized by
//! trimming every name, dropping empty ones and keeping the first of equal names, in order.
use vstd::prelude::*;
use vstd::string::*;

use crate::json::{
    as_text, field, field_of, json_parse, json_views, parse_json, lemma_array_view, lemma_members_index, member_views,
    text_of as json_text, JsonValue, JsonView,
};
use crate::registry::{with_entry, Registry};
use crate::text::{clone_strings, contains_string, strings_view, trim, trim_spec};

verus! {

/// An animation value as written in `theme.json`: one file name or a list of them.
pub enum RawAnimationValue {
    One(String),
    Many(Vec<String>),
}

/// The names an animation value holds, in order.
pub open spec fn raw_names(v: RawAnimationValue) -> Seq<Seq<char>> {
    match v {
        RawAnimationValue::One(s) => seq![s@],
        RawAnimationValue::Many(items) => strings_view(items@),
    }
}

/// The normalized list of names: each trimmed, empty ones dropped, only the first of equal
/// names kept, in order.
pub open spec fn normalize_names(items: Seq<Seq<char>>) -> Seq<Seq<char>>
    decreases items.len(),
{
    if items.len() == 0 {
        Seq::empty()
    } else {
        let acc = normalize_names(items.drop_last());
        let t = trim_spec(items.last());
        if t.len() == 0 || acc.contains(t) {
            acc
        } else {
            acc.push(t)
        }
    }
}

/// A list is in normal form: no empty name, no name twice, every name trimmed.
pub open spec fn is_normal_list(l: Seq<Seq<char>>) -> bool {
    &&& forall|i: int| 0 <= i < l.len() ==> (#[trigger] l[i]).len() > 0
    &&& forall|i: int| 0 <= i < l.len() ==> trim_spec(#[trigger] l[i]) == l[i]
    &&& forall|i: int, j: int| 0 <= i < l.len() && 0 <= j < l.len() && i != j ==> #[trigger] l[i]
        != #[trigger] l[j]
}

/// The normalized list of webm file names of one animation key or event.
#[derive(Debug, PartialEq, Eq)]
pub struct AnimationList(pub Vec<String>);

impl DeepView for AnimationList {
    type V = Seq<Seq<char>>;

    open spec fn deep_view(&self) -> Seq<Seq<char>> {
        strings_view(self.0@)
    }
}

impl AnimationList {
    /// Whether the list holds no file name.
    pub fn is_empty(&self) -> (b: bool)
        ensures
            b == (self.deep_view().len() == 0),
    {
        self.0.len() == 0
    }

    /// The file names, in order.
    pub fn as_slice(&self) -> (r: &[String])
        ensures
            r@ == self.0@,
    {
        self.0.as_slice()
    }

    /// Normalizes an animation value: trims every name, drops empty names and keeps only
    /// the first of equal names, in order.
    pub fn from_raw(value: RawAnimationValue) -> (r: Self)
        ensures
            r.deep_view() == normalize_names(raw_names(value)),
    {
        let ghost names = raw_names(value);
        let items: Vec<String> = match value {
            RawAnimationValue::One(s) => {
                let mut v: Vec<String> = Vec::new();
                v.push(s);
                assert(strings_view(v@) =~= names);
                v
            },
            RawAnimationValue::Many(items) => items,
        };
        assert(strings_view(items@) == names);
        let mut out: Vec<String> = Vec::new();
        let n = items.len();
        let mut i: usize = 0;
        while i < n
            invariant
                n == items@.len(),
                i <= n,
                names == strings_view(items@),
                strings_view(out@) == normalize_names(names.take(i as int)),
            decreases n - i,
        {
            let t = trim(items[i].as_str());
            assert(names.take(i + 1).drop_last() =~= names.take(i as int));
            assert(names.take(i + 1).last() == items@[i as int]@);
            if t.as_str().is_empty() || contains_string(&out, &t) {
            } else {
                let ghost before = strings_view(out@);
                let ghost tv = t@;
                out.push(t);
                assert(strings_view(out@) =~= before.push(tv));
            }
            i = i + 1;
        }
        assert(names.take(n as int) =~= names);
        AnimationList(out)
    }

    /// The animation value that writes this list back: a single name alone, otherwise
    /// the list.
    pub fn to_raw(&self) -> (r: RawAnimationValue)
        ensures
            raw_names(r) == self.deep_view(),
            r is One <==> self.deep_view().len() == 1,
    {
        if self.0.len() == 1 {
            let r = RawAnimationValue::One(self.0[0].clone());
            assert(raw_names(r) =~= self.deep_view());
            r
        } else {
            RawAnimationValue::Many(clone_strings(&self.0))
        }
    }
}

/// A theme: its display name and its animation lists by key.
pub struct Theme {
    pub name: String,
    pub animations: Registry<AnimationList>,
}

/// The text of a string value, or nothing.
pub open spec fn str_text(v: JsonView) -> Seq<char> {
    match v {
        JsonView::Str(s) => s,
        _ => Seq::empty(),
    }
}

/// The names an animation value of `theme.json` gives before normalizing: a string is one
/// name, an array of strings its names, null none; any other value makes the file
/// unreadable.
pub open spec fn anim_names_of(v: JsonView) -> Option<Seq<Seq<char>>> {
    match v {
        JsonView::Str(s) => Some(seq![s]),
        JsonView::Null => Some(Seq::empty()),
        JsonView::Array(a) => if forall|i: int| 0 <= i < a.len() ==> (#[trigger] a[i]) is Str {
            Some(a.map_values(|x: JsonView| str_text(x)))
        } else {
            None
        },
        _ => None,
    }
}

/// The animation lists of the members of an `animations` object, normalized; a later
/// member of a name replaces an earlier one.
pub open spec fn theme_entries(ms: Seq<(Seq<char>, JsonView)>) -> Option<
    Seq<(Seq<char>, Seq<Seq<char>>)>,
>
    decreases ms.len(),
{
    if ms.len() == 0 {
        Some(Seq::empty())
    } else {
        match (theme_entries(ms.drop_last()), anim_names_of(ms.last().1)) {
            (Some(acc), Some(names)) => Some(with_entry(acc, ms.last().0, normalize_names(names))),
            _ => None,
        }
    }
}

/// The animations of a theme, from the value of its `animations` member or element:
/// missing is none; an object gives its members (see `theme_entries`); anything else makes
/// the file unreadable.
pub open spec fn animations_of_json(a: Option<JsonView>) -> Option<Seq<(Seq<char>, Seq<Seq<char>>)>> {
    match a {
        None => Some(Seq::empty()),
        Some(JsonView::Object(ms)) => theme_entries(ms),
        Some(_) => None,
    }
}

/// A `theme.json` read as a theme, as an object (`name` string and optional `animations`
/// object, other members ignored) or as an array (the name, then optionally the
/// animations); `None` when the file is of neither form.
pub open spec fn theme_of_json(v: JsonView) -> Option<(Seq<char>, Seq<(Seq<char>, Seq<Seq<char>>)>)> {
    match v {
        JsonView::Array(items) => if 1 <= items.len() <= 2 {
            match items[0] {
                JsonView::Str(name) => match animations_of_json(
                    if items.len() == 2 {
                        Some(items[1])
                    } else {
                        None
                    },
                ) {
                    Some(e) => Some((name, e)),
                    None => None,
                },
                _ => None,
            }
        } else {
            None
        },
        _ => match as_text(field_of(v, "name"@)) {
            None => None,
            Some(name) => match animations_of_json(field_of(v, "animations"@)) {
                Some(e) => Some((name, e)),
                None => None,
            },
        },
    }
}

/// Reads one animation value of `theme.json` (see `anim_names_of`), normalized.
pub fn animation_list_from_json(v: &JsonValue) -> (r: Option<AnimationList>)
    ensures
        match anim_names_of(v@) {
            Some(names) => r matches Some(l) && l.deep_view() == normalize_names(names),
            None => r is None,
        },
{
    match v {
        JsonValue::Str(s) => Some(AnimationList::from_raw(RawAnimationValue::One(s.clone()))),
        JsonValue::Null => {
            let l = AnimationList(Vec::new());
            assert(l.deep_view() =~= Seq::<Seq<char>>::empty());
            Some(l)
        },
        JsonValue::Array(a) => {
            proof {
                lemma_array_view(a);
            }
            let ghost av = json_views(a@);
            assert(v@ == JsonView::Array(av));
            let mut names: Vec<String> = Vec::new();
            let n = a.len();
            let mut i: usize = 0;
            while i < n
                invariant
                    n == a@.len(),
                    av.len() == n,
                    av == json_views(a@),
                    forall|j: int| 0 <= j < n ==> #[trigger] av[j] == a@[j]@,
                    forall|j: int| 0 <= j < i ==> (#[trigger] av[j]) is Str,
                    v@ == JsonView::Array(av),
                    strings_view(names@) == av.take(i as int).map_values(|x: JsonView| str_text(x)),
                    i <= n,
                decreases n - i,
            {
                match &a[i] {
                    JsonValue::Str(t) => {
                        let ghost before = strings_view(names@);
                        names.push(t.clone());
                        assert(strings_view(names@) =~= before.push(t@));
                        assert(av.take(i + 1).map_values(|x: JsonView| str_text(x)) =~= av.take(
                            i as int,
                        ).map_values(|x: JsonView| str_text(x)).push(str_text(av[i as int])));
                    },
                    _ => {
                        assert(!(av[i as int] is Str));
                        assert(v@ == JsonView::Array(av));
                        return None;
                    },
                }
                i = i + 1;
            }
            assert(av.take(n as int) =~= av);
            assert(v@ == JsonView::Array(av));
            Some(AnimationList::from_raw(RawAnimationValue::Many(names)))
        },
        _ => None,
    }
}

/// Reads the members of an `animations` object (see `theme_entries`).
#[verifier::rlimit(30)]
fn animations_from_members(m: &Vec<(String, JsonValue)>) -> (r: Option<Registry<AnimationList>>)
    ensures
        match theme_entries(member_views(m@)) {
            Some(e) => r matches Some(reg) && reg@ == e,
            None => r is None,
        },
{
    proof {
        lemma_members_index(m@);
    }
    let ghost mv = member_views(m@);
    let mut animations: Registry<AnimationList> = Registry::new();
    let n = m.len();
    let mut i: usize = 0;
    while i < n
        invariant
            n == m@.len(),
            mv.len() == n,
            mv == member_views(m@),
            forall|j: int| 0 <= j < n ==> #[trigger] mv[j] == (m@[j].0@, m@[j].1@),
            theme_entries(mv.take(i as int)) == Some(animations@),
            i <= n,
        decreases n - i,
    {
        let ghost pre = mv.take(i + 1);
        assert(pre.drop_last() =~= mv.take(i as int));
        assert(pre.last() == mv[i as int]);
        let key = &m[i].0;
        let value = &m[i].1;
        assert(mv[i as int] == (key@, value@));
        match animation_list_from_json(value) {
            Some(l) => {
                let ghost acc = animations@;
                let ghost lv = l.deep_view();
                animations.insert(key.clone(), l);
                assert(theme_entries(pre) == Some(with_entry(acc, key@, lv)));
            },
            None => {
                assert(theme_entries(pre) is None);
                proof {
                    lemma_entries_none_grows(mv, i as int + 1);
                }
                assert(mv.take(n as int) =~= mv);
                return None;
            },
        }
        i = i + 1;
    }
    assert(mv.take(n as int) =~= mv);
    Some(animations)
}

/// Once a prefix of the members is unreadable, so is every longer prefix.
proof fn lemma_entries_none_grows(ms: Seq<(Seq<char>, JsonView)>, k: int)
    requires
        0 <= k <= ms.len(),
        theme_entries(ms.take(k)) is None,
    ensures
        theme_entries(ms.take(ms.len() as int)) is None,
    decreases ms.len() - k,
{
    if k < ms.len() {
        assert(ms.take(k + 1).drop_last() =~= ms.take(k));
        lemma_entries_none_grows(ms, k + 1);
    }
}

/// Reads the animations of a theme (see `animations_of_json`).
fn animations_from_json(a: Option<&JsonValue>) -> (r: Option<Registry<AnimationList>>)
    ensures
        match animations_of_json(
            match a {
                Some(x) => Some(x@),
                None => None,
            },
        ) {
            Some(e) => r matches Some(reg) && reg@ == e,
            None => r is None,
        },
{
    match a {
        None => Some(Registry::new()),
        Some(x) => match x {
            JsonValue::Object(m) => {
                assert(x@ == JsonView::Object(member_views(m@)));
                animations_from_members(m)
            },
            _ => {
                assert(!(x@ is Object));
                None
            },
        },
    }
}

/// Reads a `theme.json` (see `theme_of_json`).
pub fn theme_from_json(v: &JsonValue) -> (r: Option<Theme>)
    ensures
        match theme_of_json(v@) {
            Some((name, entries)) => r matches Some(t) && t.name@ == name && t.animations@
                == entries,
            None => r is None,
        },
{
    match v {
        JsonValue::Array(items) => {
            proof {
                lemma_array_view(items);
            }
            assert(v@ == JsonView::Array(json_views(items@)));
            let n = items.len();
            if n < 1 || n > 2 {
                return None;
            }
            let name = match &items[0] {
                JsonValue::Str(s) => s.clone(),
                _ => return None,
            };
            let rest = if n == 2 {
                Some(&items[1])
            } else {
                None
            };
            match animations_from_json(rest) {
                Some(animations) => Some(Theme { name, animations }),
                None => None,
            }
        },
        _ => {
            assert(!(v@ is Array));
            let name = match json_text(field(v, "name")) {
                Some(n) => n,
                None => return None,
            };
            match animations_from_json(field(v, "animations")) {
                Some(animations) => Some(Theme { name, animations }),
                None => None,
            }
        },
    }
}

/// Reads the text of a `theme.json`: `None` when it is not JSON or not of the form of
/// `theme_of_json`.
pub fn read_theme(text: &str) -> (r: Option<Theme>)
    ensures
        match json_parse(text@) {
            Some(v) => match theme_of_json(v) {
                Some((name, entries)) => r matches Some(t) && t.name@ == name && t.animations@
                    == entries,
                None => r is None,
            },
            None => r is None,
        },
{
    match parse_json(text) {
        Some(v) => theme_from_json(&v),
        None => None,
    }
}

/// A theme as offered for choosing: its directory id and display name.
pub struct ThemeInfo {
    pub id: String,
    pub name: String,
}

/// The entry of a theme directory: its id, and its display name, which is the name in
/// its `theme.json` when that file could be read, otherwise the id.
pub fn theme_info(id: String, name: Option<String>) -> (r: ThemeInfo)
    ensures
        r.id@ == id@,
        r.name@ == (match name {
            Some(n) => n@,
            None => id@,
        }),
{
    match name {
        Some(n) => ThemeInfo { id, name: n },
        None => {
            let name = id.clone();
            ThemeInfo { id, name }
        },
    }
}

/// Animation file names by key, only for keys with at least one name.
pub type ThemeAnimations = Registry<Vec<String>>;

/// An entry whose list holds at least one name.
pub open spec fn nonempty_entry_fn() -> spec_fn((Seq<char>, Seq<Seq<char>>)) -> bool {
    |e: (Seq<char>, Seq<Seq<char>>)| e.1.len() > 0
}

/// The theme's animation lists without the empty ones, in order.
pub fn normalized_animations(theme: &Theme) -> (r: ThemeAnimations)
    ensures
        r@ == theme.animations@.filter(nonempty_entry_fn()),
{
    let ghost src = theme.animations@;
    theme.animations.check_distinct();
    let mut r: ThemeAnimations = Registry::new();
    let n = theme.animations.len();
    let mut i: usize = 0;
    while i < n
        invariant
            src == theme.animations@,
            crate::registry::keys_distinct(src),
            n == src.len(),
            i <= n,
            r@ == src.take(i as int).filter(nonempty_entry_fn()),
        decreases n - i,
    {
        let list = theme.animations.value_at(i);
        proof {
            reveal(Seq::filter);
            assert(src.take(i + 1).drop_last() =~= src.take(i as int));
            assert(src.take(i + 1).last() == src[i as int]);
        }
        if !list.is_empty() {
            let key = theme.animations.key_at(i);
            let files = clone_strings(&list.0);
            assert(files.deep_view() =~= src[i as int].1);
            proof {
                lemma_absent_from_prefix_filter(src, i as int);
            }
            r.insert(key.clone(), files);
            assert(r@ =~= src.take(i + 1).filter(nonempty_entry_fn()));
        }
        i = i + 1;
    }
    assert(src.take(n as int) =~= src);
    r
}

/// The key at position `i` does not occur among the kept entries before it.
proof fn lemma_absent_from_prefix_filter(s: Seq<(Seq<char>, Seq<Seq<char>>)>, i: int)
    requires
        crate::registry::keys_distinct(s),
        0 <= i < s.len(),
    ensures
        !crate::registry::has_key(s.take(i).filter(nonempty_entry_fn()), s[i].0),
        crate::registry::with_entry(
            s.take(i).filter(nonempty_entry_fn()),
            s[i].0,
            s[i].1,
        ) == s.take(i).filter(nonempty_entry_fn()).push(s[i]),
{
    let f = s.take(i).filter(nonempty_entry_fn());
    if crate::registry::has_key(f, s[i].0) {
        let j = choose|j: int| 0 <= j < f.len() && #[trigger] f[j].0 == s[i].0;
        assert(f.contains(f[j]));
        s.take(i).lemma_filter_contains_rev(nonempty_entry_fn(), f[j]);
        let m = choose|m: int| 0 <= m < s.take(i).len() && s.take(i)[m] == f[j];
        assert(s[m].0 == s[i].0);
    }
}

/// The names of the files that were found, in order.
pub open spec fn found_names(files: Seq<Option<Seq<char>>>) -> Seq<Seq<char>> {
    files.filter_map(|o: Option<Seq<char>>| o)
}

/// Animation paths by key, keeping for each key the files that were found and dropping
/// keys with none; a later entry for a key replaces an earlier one.
pub open spec fn found_entries(es: Seq<(Seq<char>, Seq<Option<Seq<char>>>)>) -> Seq<
    (Seq<char>, Seq<Seq<char>>),
>
    decreases es.len(),
{
    if es.len() == 0 {
        Seq::empty()
    } else {
        let acc = found_entries(es.drop_last());
        let f = found_names(es.last().1);
        if f.len() == 0 {
            acc
        } else {
            with_entry(acc, es.last().0, f)
        }
    }
}

/// Per-key lookups seen as character sequences.
pub open spec fn lookups_view(es: Seq<(String, Vec<Option<String>>)>) -> Seq<
    (Seq<char>, Seq<Option<Seq<char>>>),
> {
    es.map_values(
        |e: (String, Vec<Option<String>>)|
            (e.0@, e.1@.map_values(|o: Option<String>| crate::text::opt_text(o))),
    )
}

/// The paths of the animation files that exist, by key: `found[k]` holds, for each file
/// of key `k`, its path when the file exists.
pub fn keep_found(found: Vec<(String, Vec<Option<String>>)>) -> (r: ThemeAnimations)
    ensures
        r@ == found_entries(lookups_view(found@)),
{
    let ghost es = lookups_view(found@);
    let mut r: ThemeAnimations = Registry::new();
    let n = found.len();
    let mut i: usize = 0;
    while i < n
        invariant
            n == found@.len(),
            es == lookups_view(found@),
            i <= n,
            r@ == found_entries(es.take(i as int)),
        decreases n - i,
    {
        let (key, files) = &found[i];
        let ghost fv = files@.map_values(|o: Option<String>| crate::text::opt_text(o));
        assert(es[i as int] == (key@, fv));
        let mut names: Vec<String> = Vec::new();
        let m = files.len();
        let mut j: usize = 0;
        while j < m
            invariant
                m == files@.len(),
                fv == files@.map_values(|o: Option<String>| crate::text::opt_text(o)),
                j <= m,
                strings_view(names@) == found_names(fv.take(j as int)),
            decreases m - j,
        {
            proof {
                fv.lemma_filter_map_take_succ(|o: Option<Seq<char>>| o, j as int);
            }
            match &files[j] {
                Some(p) => {
                    let ghost before = strings_view(names@);
                    names.push(p.clone());
                    assert(strings_view(names@) =~= before.push(p@));
                },
                None => {},
            }
            assert(strings_view(names@) =~= found_names(fv.take(j + 1)));
            j = j + 1;
        }
        assert(fv.take(m as int) =~= fv);
        assert(es.take(i + 1).drop_last() =~= es.take(i as int));
        assert(es.take(i + 1).last() == es[i as int]);
        assert(names.deep_view() =~= strings_view(names@));
        if names.len() > 0 {
            r.insert(key.clone(), names);
        }
        i = i + 1;
    }
    assert(es.take(n as int) =~= es);
    r
}

} // verus!
