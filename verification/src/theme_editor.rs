//! The rules of the theme editor: theme names and ids, accepted animation file names,
//! and what to do with each chosen file.
use vstd::prelude::*;
use vstd::string::*;

use crate::text::{
    chars_of, decimal, decimal_string, lemma_trim_end_index,
    lemma_trim_start_index, strings_view, substring, trim, trim_by, trim_spec,
};

verus! {

// ---------------------------------------------------------------------------
// Theme names and ids
// ---------------------------------------------------------------------------

/// The error for a theme name that is empty after trimming.
pub open spec fn empty_name_message() -> Seq<char> {
    "请输入皮肤名称"@
}

/// The error for a theme id that would escape the themes directory.
pub open spec fn invalid_id_message() -> Seq<char> {
    "皮肤标识无效"@
}

/// The trimmed theme name, or an error when nothing is left.
pub fn clean_theme_name(name: &str) -> (r: Result<String, String>)
    ensures
        match r {
            Ok(n) => trim_spec(name@).len() > 0 && n@ == trim_spec(name@),
            Err(e) => trim_spec(name@).len() == 0 && e@ == empty_name_message(),
        },
{
    let t = trim(name);
    if t.as_str().is_empty() {
        Err(String::from_str("请输入皮肤名称"))
    } else {
        Ok(t)
    }
}

/// An ASCII letter or digit.
pub open spec fn is_ascii_alnum(c: char) -> bool {
    let u = c as u32;
    (0x30 <= u <= 0x39) || (0x41 <= u <= 0x5A) || (0x61 <= u <= 0x7A)
}

/// A character kept in a theme id slug: ASCII letters and digits, `-` and `_`; anything
/// else becomes `-`.
pub open spec fn slug_char(c: char) -> char {
    if is_ascii_alnum(c) || c == '-' || c == '_' {
        c
    } else {
        '-'
    }
}

pub open spec fn slug_of(s: Seq<char>) -> Seq<char> {
    s.map_values(|c: char| slug_char(c))
}

pub open spec fn dash_fn() -> spec_fn(char) -> bool {
    |c: char| c == '-'
}

/// The id of a saved theme: the given id when it is not blank, otherwise one made of the
/// slug of the name, without leading and trailing dashes, and the process id.
pub open spec fn theme_id_for(id: Option<Seq<char>>, clean_name: Seq<char>, pid: u32) -> Seq<char> {
    let generated = "custom-"@ + trim_by(slug_of(clean_name), dash_fn()) + "-"@ + decimal(
        pid as nat,
    );
    match id {
        Some(v) => if trim_spec(v).len() > 0 {
            v
        } else {
            generated
        },
        None => generated,
    }
}

fn slug_char_exec(c: char) -> (r: char)
    ensures
        r == slug_char(c),
{
    let u = c as u32;
    if (0x30 <= u && u <= 0x39) || (0x41 <= u && u <= 0x5A) || (0x61 <= u && u <= 0x7A) || c
        == '-' || c == '_' {
        c
    } else {
        '-'
    }
}

/// The slug of a theme name, character by character.
pub fn theme_slug(name: &str) -> (r: Vec<char>)
    ensures
        r@ == slug_of(name@),
{
    let v = chars_of(name);
    let mut out: Vec<char> = Vec::new();
    let n = v.len();
    let mut i: usize = 0;
    while i < n
        invariant
            n == v@.len(),
            v@ == name@,
            i <= n,
            out@ == slug_of(v@.take(i as int)),
        decreases n - i,
    {
        out.push(slug_char_exec(v[i]));
        assert(out@ =~= slug_of(v@.take(i + 1)));
        i = i + 1;
    }
    assert(v@.take(n as int) =~= v@);
    out
}

/// The characters `from..to` of the slug of `name` (whose characters are `v`), as a string.
fn slug_string(name: &str, v: &Vec<char>, from: usize, to: usize) -> (r: String)
    requires
        v@ == name@,
        from <= to <= v@.len(),
    ensures
        r@ == slug_of(name@).subrange(from as int, to as int),
{
    let ghost slug = slug_of(name@);
    let mut r = String::new();
    let mut i: usize = from;
    while i < to
        invariant
            v@ == name@,
            slug == slug_of(name@),
            from <= i <= to,
            to <= v@.len(),
            r@ == slug.subrange(from as int, i as int),
        decreases to - i,
    {
        let ghost before = r@;
        if slug_char_exec(v[i]) == v[i] {
            let piece = substring(name, i, i + 1);
            r.append(piece.as_str());
            assert(piece@ =~= seq![slug[i as int]]);
        } else {
            proof {
                reveal_strlit("-");
            }
            r.append("-");
            assert("-"@ =~= seq![slug[i as int]]);
        }
        assert(r@ =~= before.push(slug[i as int]));
        assert(slug.subrange(from as int, i + 1) =~= slug.subrange(from as int, i as int).push(
            slug[i as int],
        ));
        i = i + 1;
    }
    r
}

/// The bounds `[a, b)` of what trimming dashes from `v` keeps.
fn trim_dash_bounds(v: &Vec<char>) -> (r: (usize, usize))
    ensures
        r.0 <= r.1 <= v@.len(),
        trim_by(v@, dash_fn()) == v@.subrange(r.0 as int, r.1 as int),
{
    let n = v.len();
    let mut a: usize = 0;
    while a < n && v[a] == '-'
        invariant
            a <= n,
            n == v@.len(),
            forall|i: int| 0 <= i < a ==> v@[i] == '-',
        decreases n - a,
    {
        a = a + 1;
    }
    let mut b: usize = n;
    while b > a && v[b - 1] == '-'
        invariant
            a <= b <= n,
            n == v@.len(),
            forall|i: int| b <= i < n ==> v@[i] == '-',
        decreases b,
    {
        b = b - 1;
    }
    proof {
        let p = dash_fn();
        lemma_trim_start_index(v@, p, a as int);
        let t = v@.subrange(a as int, n as int);
        assert forall|i: int| b - a <= i < t.len() implies p(t[i]) by {
            assert(t[i] == v@[i + a]);
        }
        if b > a {
            assert(t[b - a - 1] == v@[b - 1]);
        }
        lemma_trim_end_index(t, p, b - a);
        assert(t.subrange(0, b - a) =~= v@.subrange(a as int, b as int));
    }
    (a, b)
}

/// The id under which a theme is saved (see `theme_id_for`).
pub fn derive_theme_id(id: Option<String>, clean_name: &str, pid: u32) -> (r: String)
    ensures
        r@ == theme_id_for(crate::text::opt_text(id), clean_name@, pid),
{
    match id {
        Some(v) => {
            let t = trim(v.as_str());
            if !t.as_str().is_empty() {
                return v;
            }
        },
        None => {},
    }
    let slug = theme_slug(clean_name);
    let (a, b) = trim_dash_bounds(&slug);
    let chars = chars_of(clean_name);
    let core = slug_string(clean_name, &chars, a, b);
    let mut r = String::from_str("custom-");
    r.append(core.as_str());
    r.append("-");
    let num = decimal_string(pid as u128);
    r.append(num.as_str());
    r
}

/// Whether `sub` occurs in `s`.
pub open spec fn contains_text(s: Seq<char>, sub: Seq<char>) -> bool {
    exists|i: int| 0 <= i && i + sub.len() <= s.len() && #[trigger] s.subrange(i, i + sub.len()) == sub
}

/// A theme id that names a directory inside the themes directory: not empty, no `..`,
/// no `/` and no `\`.
pub open spec fn valid_theme_id(id: Seq<char>) -> bool {
    &&& id.len() > 0
    &&& !contains_text(id, seq!['.', '.'])
    &&& !id.contains('/')
    &&& !id.contains('\\')
}

/// Whether `id` is a valid theme id (see `valid_theme_id`).
pub fn is_valid_theme_id(id: &str) -> (b: bool)
    ensures
        b == valid_theme_id(id@),
{
    let v = chars_of(id);
    let n = v.len();
    if n == 0 {
        return false;
    }
    let mut i: usize = 0;
    while i < n
        invariant
            n == v@.len(),
            v@ == id@,
            i <= n,
            forall|j: int| 0 <= j < i ==> v@[j] != '/' && v@[j] != '\\',
            forall|j: int| 0 <= j < i && j + 1 < n ==> !(#[trigger] v@[j] == '.' && v@[j + 1] == '.'),
        decreases n - i,
    {
        if v[i] == '/' || v[i] == '\\' {
            assert(id@.contains(v@[i as int]));
            return false;
        }
        if i + 1 < n && v[i] == '.' && v[i + 1] == '.' {
            assert(v@.subrange(i as int, i + 2) =~= seq!['.', '.']);
            return false;
        }
        i = i + 1;
    }
    proof {
        let s = id@;
        if contains_text(s, seq!['.', '.']) {
            let j = choose|j: int|
                0 <= j && j + 2 <= s.len() && #[trigger] s.subrange(j, j + 2) == seq!['.', '.'];
            assert(s.subrange(j, j + 2)[0] == s[j]);
            assert(s.subrange(j, j + 2)[1] == s[j + 1]);
        }
        if s.contains('/') {
            let j = choose|j: int| 0 <= j < s.len() && s[j] == '/';
        }
        if s.contains('\\') {
            let j = choose|j: int| 0 <= j < s.len() && s[j] == '\\';
        }
    }
    true
}

// ---------------------------------------------------------------------------
// Animation files
// ---------------------------------------------------------------------------

/// `.webm`
pub open spec fn webm_ext() -> Seq<char> {
    seq!['.', 'w', 'e', 'b', 'm']
}

/// ASCII upper-case letters lowered; every other character unchanged.
pub open spec fn ascii_lower(c: char) -> char {
    if 0x41 <= (c as u32) <= 0x5A {
        ((c as u32) + 32) as char
    } else {
        c
    }
}

/// Whether a file name ends with `.webm`, ignoring ASCII case.
pub open spec fn is_webm_name(name: Seq<char>) -> bool {
    let l = name.map_values(|c: char| ascii_lower(c));
    l.len() >= 5 && l.subrange(l.len() - 5, l.len() as int) == webm_ext()
}

/// The error for a path with no usable file name.
pub open spec fn bad_file_name_message() -> Seq<char> {
    "动画文件名无效"@
}

/// The error for a file that is not a webm animation.
pub open spec fn not_webm_message(name: Seq<char>) -> Seq<char> {
    "仅支持 webm："@ + name
}

/// The character with an ASCII upper-case letter lowered.
pub fn ascii_lower_char(c: char) -> (r: char)
    ensures
        r == ascii_lower(c),
{
    if c >= 'A' && c <= 'Z' {
        let u = (c as u32) + 32;
        assert(0x61 <= u <= 0x7A);
        ((u as u8) as char)
    } else {
        c
    }
}

/// Whether `name` ends with `.webm`, ignoring ASCII case.
pub fn has_webm_extension(name: &str) -> (b: bool)
    ensures
        b == is_webm_name(name@),
{
    let v = chars_of(name);
    let n = v.len();
    if n < 5 {
        return false;
    }
    let ghost l = name@.map_values(|c: char| ascii_lower(c));
    let a = ascii_lower_char(v[n - 5]);
    let b = ascii_lower_char(v[n - 4]);
    let c = ascii_lower_char(v[n - 3]);
    let d = ascii_lower_char(v[n - 2]);
    let e = ascii_lower_char(v[n - 1]);
    let r = a == '.' && b == 'w' && c == 'e' && d == 'b' && e == 'm';
    proof {
        let t = l.subrange(n - 5, n as int);
        assert(t[0] == a && t[1] == b && t[2] == c && t[3] == d && t[4] == e);
        if r {
            assert(t =~= webm_ext());
        } else if t == webm_ext() {
            assert(t[0] == '.' && t[1] == 'w' && t[2] == 'e' && t[3] == 'b' && t[4] == 'm');
        }
    }
    r
}

/// Accepts a file name that ends with `.webm` (ignoring ASCII case); rejects a missing
/// name or another kind of file.
pub fn check_webm_name(name: Option<String>) -> (r: Result<String, String>)
    ensures
        match crate::text::opt_text(name) {
            None => r matches Err(e) && e@ == bad_file_name_message(),
            Some(n) => if is_webm_name(n) {
                r matches Ok(m) && m@ == n
            } else {
                r matches Err(e) && e@ == not_webm_message(n)
            },
        },
{
    match name {
        None => Err(String::from_str("动画文件名无效")),
        Some(n) => {
            if has_webm_extension(n.as_str()) {
                Ok(n)
            } else {
                let mut e = String::from_str("仅支持 webm：");
                e.append(n.as_str());
                Err(e)
            }
        },
    }
}

/// `s` without every trailing `.webm` (case-sensitive), as `trim_end_matches(".webm")`.
pub open spec fn strip_webm(s: Seq<char>) -> Seq<char>
    decreases s.len(),
{
    if s.len() >= 5 && s.subrange(s.len() - 5, s.len() as int) == webm_ext() {
        strip_webm(s.subrange(0, s.len() - 5))
    } else {
        s
    }
}

/// The name a copied file takes when the plain name is taken: `<stem>-<index>.webm`.
pub open spec fn renamed_webm_name(target_name: Seq<char>, index: nat) -> Seq<char> {
    strip_webm(target_name) + "-"@ + decimal(index) + ".webm"@
}

/// The length of what `strip_webm` keeps of `v[0..end]`.
fn strip_webm_len(v: &Vec<char>, end: usize) -> (k: usize)
    requires
        end <= v@.len(),
    ensures
        k <= end,
        strip_webm(v@.subrange(0, end as int)) == v@.subrange(0, k as int),
    decreases end,
{
    let ghost s = v@.subrange(0, end as int);
    if end >= 5 && v[end - 5] == '.' && v[end - 4] == 'w' && v[end - 3] == 'e' && v[end - 2] == 'b'
        && v[end - 1] == 'm' {
        assert(s.subrange(s.len() - 5, s.len() as int) =~= webm_ext());
        assert(s.subrange(0, s.len() - 5) =~= v@.subrange(0, end - 5));
        strip_webm_len(v, end - 5)
    } else {
        proof {
            if s.len() >= 5 && s.subrange(s.len() - 5, s.len() as int) == webm_ext() {
                let t = s.subrange(s.len() - 5, s.len() as int);
                assert(t[0] == v@[end - 5] && t[1] == v@[end - 4] && t[2] == v@[end - 3] && t[3]
                    == v@[end - 2] && t[4] == v@[end - 1]);
                assert(t[0] == '.' && t[1] == 'w' && t[2] == 'e' && t[3] == 'b' && t[4] == 'm');
            }
        }
        end
    }
}

/// `<stem>-<index>.webm`, where the stem is the target name without trailing `.webm`.
pub fn renamed_webm(target_name: &str, index: usize) -> (r: String)
    ensures
        r@ == renamed_webm_name(target_name@, index as nat),
{
    let v = chars_of(target_name);
    let k = strip_webm_len(&v, v.len());
    assert(v@.subrange(0, v@.len() as int) =~= v@);
    let mut r = substring(target_name, 0, k);
    r.append("-");
    let num = decimal_string(index as u128);
    r.append(num.as_str());
    r.append(".webm");
    r
}

/// The name of a chosen file copied for the editor: `<batch>-<index>-<name>`.
pub fn staged_file_name(batch: u128, index: usize, name: &str) -> (r: String)
    ensures
        r@ == decimal(batch as nat) + "-"@ + decimal(index as nat) + "-"@ + name@,
{
    let mut r = decimal_string(batch);
    r.append("-");
    let num = decimal_string(index as u128);
    r.append(num.as_str());
    r.append("-");
    r.append(name);
    r
}

/// What the file system shows about one chosen animation file.
pub struct FileProbe {
    /// The given path is absolute.
    pub source_absolute: bool,
    /// The given path exists.
    pub source_exists: bool,
    /// The given path is the file of that name in the theme directory.
    pub source_is_target: bool,
    /// The theme directory already has a file of that name.
    pub target_exists: bool,
    /// The given path, taken relative to the theme directory, exists.
    pub relative_exists: bool,
}

/// What to do with one chosen animation file.
pub enum FilePlan {
    /// The file already is in the theme directory under this name.
    Keep(String),
    /// Copy the file into the theme directory under this name.
    CopyAs(String),
    /// The file is given relative to the theme directory and is there, under this path.
    KeepRelative(String),
    /// The file does not exist; the error to report.
    Missing(String),
}

/// The error for a chosen file that does not exist.
pub open spec fn missing_file_message(path: Seq<char>) -> Seq<char> {
    "动画文件不存在："@ + path
}

/// Decides what to do with one chosen animation file, given by its trimmed path, its
/// accepted file name and its position in the list.
pub fn plan_animation_file(trimmed: &str, target_name: &str, index: usize, probe: &FileProbe) -> (r:
    FilePlan)
    ensures
        if probe.source_absolute && probe.source_exists {
            if probe.source_is_target {
                r matches FilePlan::Keep(n) && n@ == target_name@
            } else if probe.target_exists {
                r matches FilePlan::CopyAs(n) && n@ == renamed_webm_name(target_name@, index as nat)
            } else {
                r matches FilePlan::CopyAs(n) && n@ == target_name@
            }
        } else if !probe.source_absolute && probe.relative_exists {
            r matches FilePlan::KeepRelative(p) && p@ == trimmed@
        } else {
            r matches FilePlan::Missing(e) && e@ == missing_file_message(trimmed@)
        },
{
    if probe.source_absolute && probe.source_exists {
        if probe.source_is_target {
            FilePlan::Keep(String::from_str(target_name))
        } else if probe.target_exists {
            FilePlan::CopyAs(renamed_webm(target_name, index))
        } else {
            FilePlan::CopyAs(String::from_str(target_name))
        }
    } else if !probe.source_absolute && probe.relative_exists {
        FilePlan::KeepRelative(String::from_str(trimmed))
    } else {
        let mut e = String::from_str("动画文件不存在：");
        e.append(trimmed);
        FilePlan::Missing(e)
    }
}

/// One chosen animation file of the editor, after it was looked at.
pub enum PlannedFile {
    /// The entry is blank after trimming and is skipped.
    Blank,
    /// The file name was refused; the error to report.
    Refused(String),
    /// What to do with the file.
    Plan(FilePlan),
}

/// The names stored for one key: every non-blank entry in order gives its stored name,
/// and the first refused or missing file is the error.
pub open spec fn stored_names_spec(files: Seq<PlannedFile>) -> Result<Seq<Seq<char>>, Seq<char>>
    decreases files.len(),
{
    if files.len() == 0 {
        Ok(Seq::empty())
    } else {
        match stored_names_spec(files.drop_last()) {
            Err(e) => Err(e),
            Ok(acc) => match files.last() {
                PlannedFile::Blank => Ok(acc),
                PlannedFile::Refused(e) => Err(e@),
                PlannedFile::Plan(FilePlan::Missing(e)) => Err(e@),
                PlannedFile::Plan(FilePlan::Keep(n)) => Ok(acc.push(n@)),
                PlannedFile::Plan(FilePlan::CopyAs(n)) => Ok(acc.push(n@)),
                PlannedFile::Plan(FilePlan::KeepRelative(n)) => Ok(acc.push(n@)),
            },
        }
    }
}

/// The animations a saved theme stores: per key, in order, the stored names, keys with
/// none left out; the first error, key by key, is the error.
pub open spec fn stored_spec(es: Seq<(Seq<char>, Seq<PlannedFile>)>) -> Result<
    Seq<(Seq<char>, Seq<Seq<char>>)>,
    Seq<char>,
>
    decreases es.len(),
{
    if es.len() == 0 {
        Ok(Seq::empty())
    } else {
        match stored_spec(es.drop_last()) {
            Err(e) => Err(e),
            Ok(acc) => match stored_names_spec(es.last().1) {
                Err(e) => Err(e),
                Ok(names) => if names.len() == 0 {
                    Ok(acc)
                } else {
                    Ok(acc.push((es.last().0, names)))
                },
            },
        }
    }
}

pub open spec fn planned_view(v: Seq<(String, Vec<PlannedFile>)>) -> Seq<(Seq<char>, Seq<PlannedFile>)> {
    v.map_values(|e: (String, Vec<PlannedFile>)| (e.0@, e.1@))
}

pub open spec fn stored_view(v: Seq<(String, Vec<String>)>) -> Seq<(Seq<char>, Seq<Seq<char>>)> {
    v.map_values(|e: (String, Vec<String>)| (e.0@, strings_view(e.1@)))
}

/// The stored names of one key (see `stored_names_spec`).
fn stored_names(files: &Vec<PlannedFile>) -> (r: Result<Vec<String>, String>)
    ensures
        match stored_names_spec(files@) {
            Ok(names) => r matches Ok(v) && strings_view(v@) == names,
            Err(e) => r matches Err(x) && x@ == e,
        },
{
    let mut out: Vec<String> = Vec::new();
    let n = files.len();
    let mut i: usize = 0;
    assert(files@.take(0) =~= Seq::<PlannedFile>::empty());
    assert(strings_view(out@) =~= Seq::<Seq<char>>::empty());
    while i < n
        invariant
            n == files@.len(),
            i <= n,
            stored_names_spec(files@.take(i as int)) == Ok::<Seq<Seq<char>>, Seq<char>>(
                strings_view(out@),
            ),
        decreases n - i,
    {
        let ghost pre = files@.take(i + 1);
        assert(pre.drop_last() =~= files@.take(i as int));
        assert(pre.last() == files@[i as int]);
        let ghost before = strings_view(out@);
        let name = match &files[i] {
            PlannedFile::Blank => None,
            PlannedFile::Refused(e) => {
                proof {
                    lemma_stored_names_err_grows(files@, i + 1);
                }
                assert(files@.take(n as int) =~= files@);
                return Err(e.clone());
            },
            PlannedFile::Plan(FilePlan::Missing(e)) => {
                proof {
                    lemma_stored_names_err_grows(files@, i + 1);
                }
                assert(files@.take(n as int) =~= files@);
                return Err(e.clone());
            },
            PlannedFile::Plan(FilePlan::Keep(x)) => Some(x.clone()),
            PlannedFile::Plan(FilePlan::CopyAs(x)) => Some(x.clone()),
            PlannedFile::Plan(FilePlan::KeepRelative(x)) => Some(x.clone()),
        };
        match name {
            Some(x) => {
                out.push(x);
                assert(strings_view(out@) =~= before.push(out@[out@.len() - 1]@));
            },
            None => {},
        }
        i = i + 1;
    }
    assert(files@.take(n as int) =~= files@);
    Ok(out)
}

/// Once the names of a prefix are an error, so are those of every longer prefix.
proof fn lemma_stored_names_err_grows(files: Seq<PlannedFile>, k: int)
    requires
        0 <= k <= files.len(),
        stored_names_spec(files.take(k)) is Err,
    ensures
        stored_names_spec(files.take(files.len() as int)) == stored_names_spec(files.take(k)),
    decreases files.len() - k,
{
    if k < files.len() {
        assert(files.take(k + 1).drop_last() =~= files.take(k));
        lemma_stored_names_err_grows(files, k + 1);
    }
}

/// Once a prefix of the keys is an error, so is every longer prefix.
proof fn lemma_stored_err_grows(es: Seq<(Seq<char>, Seq<PlannedFile>)>, k: int)
    requires
        0 <= k <= es.len(),
        stored_spec(es.take(k)) is Err,
    ensures
        stored_spec(es.take(es.len() as int)) == stored_spec(es.take(k)),
    decreases es.len() - k,
{
    if k < es.len() {
        assert(es.take(k + 1).drop_last() =~= es.take(k));
        lemma_stored_err_grows(es, k + 1);
    }
}

/// What a saved theme stores, from the look at every chosen file (see `stored_spec`).
pub fn stored_animations(planned: &Vec<(String, Vec<PlannedFile>)>) -> (r: Result<
    Vec<(String, Vec<String>)>,
    String,
>)
    ensures
        match stored_spec(planned_view(planned@)) {
            Ok(s) => r matches Ok(v) && stored_view(v@) == s,
            Err(e) => r matches Err(x) && x@ == e,
        },
{
    let ghost es = planned_view(planned@);
    let mut out: Vec<(String, Vec<String>)> = Vec::new();
    let n = planned.len();
    let mut i: usize = 0;
    assert(es.take(0) =~= Seq::<(Seq<char>, Seq<PlannedFile>)>::empty());
    assert(stored_view(out@) =~= Seq::<(Seq<char>, Seq<Seq<char>>)>::empty());
    while i < n
        invariant
            n == planned@.len(),
            es == planned_view(planned@),
            i <= n,
            stored_spec(es.take(i as int)) == Ok::<Seq<(Seq<char>, Seq<Seq<char>>)>, Seq<char>>(
                stored_view(out@),
            ),
        decreases n - i,
    {
        let ghost pre = es.take(i + 1);
        assert(pre.drop_last() =~= es.take(i as int));
        assert(pre.last() == es[i as int]);
        assert(es[i as int] == (planned@[i as int].0@, planned@[i as int].1@));
        match stored_names(&planned[i].1) {
            Err(e) => {
                proof {
                    lemma_stored_err_grows(es, i + 1);
                }
                assert(es.take(n as int) =~= es);
                return Err(e);
            },
            Ok(names) => {
                if names.len() > 0 {
                    let ghost before = stored_view(out@);
                    let ghost ev = (planned@[i as int].0@, strings_view(names@));
                    out.push((planned[i].0.clone(), names));
                    assert(stored_view(out@) =~= before.push(ev));
                }
            },
        }
        i = i + 1;
    }
    assert(es.take(n as int) =~= es);
    Ok(out)
}

/// Accepts a valid theme id (see `valid_theme_id`); refuses any other with the error for
/// an invalid id.
pub fn check_theme_id(id: String) -> (r: Result<String, String>)
    ensures
        valid_theme_id(id@) ==> (r matches Ok(v) && v@ == id@),
        !valid_theme_id(id@) ==> (r matches Err(e) && e@ == invalid_id_message()),
{
    if is_valid_theme_id(id.as_str()) {
        Ok(id)
    } else {
        Err(String::from_str("皮肤标识无效"))
    }
}

/// Whether a looked-at file ends the saving: a refused name or a missing file.
pub open spec fn ends_saving(f: PlannedFile) -> bool {
    f is Refused || f matches PlannedFile::Plan(FilePlan::Missing(_))
}

/// The look at the chosen files while a theme is saved, key by key; it stops at the first
/// file that ends the saving.
pub struct SaveRun {
    planned: Vec<(String, Vec<PlannedFile>)>,
    stopped: bool,
}

/// A saving run seen as the files looked at, key by key, and whether it stopped.
pub struct SaveRunView {
    pub planned: Seq<(Seq<char>, Seq<PlannedFile>)>,
    pub stopped: bool,
}

impl View for SaveRun {
    type V = SaveRunView;

    closed spec fn view(&self) -> SaveRunView {
        SaveRunView { planned: planned_view(self.planned@), stopped: self.stopped }
    }
}

impl SaveRun {
    /// Nothing looked at yet.
    pub fn new() -> (r: Self)
        ensures
            r@.planned == Seq::<(Seq<char>, Seq<PlannedFile>)>::empty(),
            !r@.stopped,
    {
        let r = SaveRun { planned: Vec::new(), stopped: false };
        assert(planned_view(r.planned@) =~= Seq::<(Seq<char>, Seq<PlannedFile>)>::empty());
        r
    }

    /// Whether a file that ends the saving was seen: no further file is to be looked at.
    pub fn stopped(&self) -> (b: bool)
        ensures
            b == self@.stopped,
    {
        self.stopped
    }

    /// Starts the files of a key.
    pub fn begin_key(&mut self, key: String)
        ensures
            final(self)@.planned == old(self)@.planned.push((key@, Seq::<PlannedFile>::empty())),
            final(self)@.stopped == old(self)@.stopped,
    {
        let ghost before = planned_view(self.planned@);
        let mut planned = Vec::new();
        std::mem::swap(&mut planned, &mut self.planned);
        planned.push((key, Vec::new()));
        let ghost after = planned_view(planned@);
        assert(after =~= before.push((key@, Seq::<PlannedFile>::empty())));
        self.planned = planned;
    }

    /// Records a looked-at file under the current key; the run stops when the file ends the
    /// saving.
    pub fn record(&mut self, f: PlannedFile)
        requires
            old(self)@.planned.len() > 0,
        ensures
            final(self)@.planned == old(self)@.planned.update(
                old(self)@.planned.len() - 1,
                (
                    old(self)@.planned.last().0,
                    old(self)@.planned.last().1.push(f),
                ),
            ),
            final(self)@.stopped == (old(self)@.stopped || ends_saving(f)),
    {
        let ghost before = planned_view(self.planned@);
        let ghost fv = f;
        let ends = match &f {
            PlannedFile::Refused(_) => true,
            PlannedFile::Plan(FilePlan::Missing(_)) => true,
            _ => false,
        };
        let mut planned = Vec::new();
        std::mem::swap(&mut planned, &mut self.planned);
        let (key, mut files) = planned.pop().unwrap();
        files.push(f);
        planned.push((key, files));
        let ghost after = planned_view(planned@);
        let ghost last: int = before.len() - 1;
        assert(after =~= before.update(last, (before.last().0, before.last().1.push(fv))));
        self.planned = planned;
        self.stopped = self.stopped || ends;
    }

    /// What the saved theme stores (see `stored_animations`).
    pub fn finish(&self) -> (r: Result<Vec<(String, Vec<String>)>, String>)
        ensures
            match stored_spec(self@.planned) {
                Ok(s) => r matches Ok(v) && stored_view(v@) == s,
                Err(e) => r matches Err(x) && x@ == e,
            },
    {
        stored_animations(&self.planned)
    }
}

proof fn lemma_names_error(files: Seq<PlannedFile>, j: int)
    requires
        0 <= j < files.len(),
        ends_saving(files[j]),
    ensures
        stored_names_spec(files) is Err,
    decreases files.len(),
{
    if j == files.len() - 1 {
        if stored_names_spec(files.drop_last()) is Ok {
            assert(files.last() == files[j]);
        }
    } else {
        assert(files.drop_last()[j] == files[j]);
        lemma_names_error(files.drop_last(), j);
    }
}

/// Saving fails once any looked-at file ends it: a refused name or a missing file, under
/// any key, makes the stored animations an error.
pub proof fn lemma_stop_means_error(es: Seq<(Seq<char>, Seq<PlannedFile>)>, i: int, j: int)
    requires
        0 <= i < es.len(),
        0 <= j < es[i].1.len(),
        ends_saving(es[i].1[j]),
    ensures
        stored_spec(es) is Err,
    decreases es.len(),
{
    if i == es.len() - 1 {
        lemma_names_error(es[i].1, j);
        assert(es.last() == es[i]);
    } else {
        assert(es.drop_last()[i] == es[i]);
        lemma_stop_means_error(es.drop_last(), i, j);
    }
}

} // verus!
