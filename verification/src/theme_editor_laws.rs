//! Properties of the theme editor's rules.
use vstd::prelude::*;

use crate::text::{decimal, digit_char, trim_by, trim_end_by, trim_start_by};
use crate::theme_editor::{contains_text, dash_fn, slug_char, slug_of, theme_id_for, valid_theme_id};

verus! {

/// No character of `s` is `.`, `/` or `\`.
pub open spec fn path_safe(s: Seq<char>) -> bool {
    forall|i: int| 0 <= i < s.len() ==> #[trigger] s[i] != '.' && s[i] != '/' && s[i] != '\\'
}

proof fn lemma_trim_start_safe(s: Seq<char>, p: spec_fn(char) -> bool)
    requires
        path_safe(s),
    ensures
        path_safe(trim_start_by(s, p)),
    decreases s.len(),
{
    if s.len() > 0 && p(s[0]) {
        assert forall|i: int| 0 <= i < s.drop_first().len() implies #[trigger] s.drop_first()[i]
            != '.' && s.drop_first()[i] != '/' && s.drop_first()[i] != '\\' by {
            assert(s.drop_first()[i] == s[i + 1]);
        }
        lemma_trim_start_safe(s.drop_first(), p);
    }
}

proof fn lemma_trim_end_safe(s: Seq<char>, p: spec_fn(char) -> bool)
    requires
        path_safe(s),
    ensures
        path_safe(trim_end_by(s, p)),
    decreases s.len(),
{
    if s.len() > 0 && p(s.last()) {
        assert forall|i: int| 0 <= i < s.drop_last().len() implies #[trigger] s.drop_last()[i]
            != '.' && s.drop_last()[i] != '/' && s.drop_last()[i] != '\\' by {
            assert(s.drop_last()[i] == s[i]);
        }
        lemma_trim_end_safe(s.drop_last(), p);
    }
}

proof fn lemma_decimal_safe(n: nat)
    ensures
        path_safe(decimal(n)),
        decimal(n).len() > 0,
    decreases n,
{
    if n >= 10 {
        lemma_decimal_safe(n / 10);
        let d = decimal(n / 10);
        assert forall|i: int| 0 <= i < d.push(digit_char(n % 10)).len() implies #[trigger] d.push(
            digit_char(n % 10),
        )[i] != '.' && d.push(digit_char(n % 10))[i] != '/' && d.push(digit_char(n % 10))[i]
            != '\\' by {
            if i < d.len() {
                assert(d.push(digit_char(n % 10))[i] == d[i]);
            }
        }
    }
}

proof fn lemma_concat_safe(a: Seq<char>, b: Seq<char>)
    requires
        path_safe(a),
        path_safe(b),
    ensures
        path_safe(a + b),
{
    assert forall|i: int| 0 <= i < (a + b).len() implies #[trigger] (a + b)[i] != '.' && (a + b)[i]
        != '/' && (a + b)[i] != '\\' by {
        if i < a.len() {
            assert((a + b)[i] == a[i]);
        } else {
            assert((a + b)[i] == b[i - a.len()]);
        }
    }
}

/// A theme id made from a name is always accepted: when the editor gives no id (or a
/// blank one), the id derived from the name and the process id is a valid theme id, so
/// saving can be refused for its id only when the editor gave one.
pub proof fn lemma_generated_id_valid(id: Option<Seq<char>>, clean_name: Seq<char>, pid: u32)
    requires
        id matches Some(v) ==> crate::text::trim_spec(v).len() == 0,
    ensures
        valid_theme_id(theme_id_for(id, clean_name, pid)),
{
    let slug = slug_of(clean_name);
    assert forall|i: int| 0 <= i < slug.len() implies #[trigger] slug[i] != '.' && slug[i] != '/'
        && slug[i] != '\\' by {
        assert(slug[i] == slug_char(clean_name[i]));
    }
    lemma_trim_start_safe(slug, dash_fn());
    lemma_trim_end_safe(trim_start_by(slug, dash_fn()), dash_fn());
    let core = trim_by(slug, dash_fn());
    reveal_strlit("custom-");
    reveal_strlit("-");
    let head = "custom-"@;
    assert(path_safe(head)) by {
        assert forall|i: int| 0 <= i < head.len() implies #[trigger] head[i] != '.' && head[i]
            != '/' && head[i] != '\\' by {}
    }
    assert(path_safe("-"@)) by {
        assert forall|i: int| 0 <= i < "-"@.len() implies #[trigger] "-"@[i] != '.' && "-"@[i]
            != '/' && "-"@[i] != '\\' by {}
    }
    lemma_decimal_safe(pid as nat);
    lemma_concat_safe(head, core);
    lemma_concat_safe(head + core, "-"@);
    lemma_concat_safe(head + core + "-"@, decimal(pid as nat));
    let g = head + core + "-"@ + decimal(pid as nat);
    assert(theme_id_for(id, clean_name, pid) == g);
    assert(g.len() > 0);
    if contains_text(g, seq!['.', '.']) {
        let j = choose|j: int| 0 <= j && j + 2 <= g.len() && #[trigger] g.subrange(j, j + 2) == seq!['.', '.'];
        assert(g.subrange(j, j + 2)[0] == g[j]);
    }
    if g.contains('/') {
        let j = choose|j: int| 0 <= j < g.len() && g[j] == '/';
        assert(g[j] != '/');
    }
    if g.contains('\\') {
        let j = choose|j: int| 0 <= j < g.len() && g[j] == '\\';
        assert(g[j] != '\\');
    }
}

} // verus!
