//! Finding the DSH on this machine: the candidate addresses, in order of preference, and
//! the local listening ports read from `netstat -ano`.
use vstd::prelude::*;
use vstd::string::*;

use crate::rpc::{normalized_url, normalize_url};
use crate::sse::split_lines;
use crate::text::{
    chars_of, decimal, decimal_string, is_white_space, is_white_space_char, opt_text, strings_view,
};

verus! {

/// The address tried after `DSH_PET_URL`.
pub const DEFAULT_CANDIDATE: &'static str = "http://127.0.0.1:3080";

/// The `DSH_PET_URL` setting as a candidate: trimmed, without trailing slashes, if not
/// empty.
pub open spec fn env_candidate_spec(env: Option<Seq<char>>) -> Option<Seq<char>> {
    match env {
        Some(e) if normalized_url(e).len() > 0 => Some(normalized_url(e)),
        _ => None,
    }
}

/// The `DSH_PET_URL` setting as a candidate address, if it names one.
pub fn env_candidate(env: Option<String>) -> (r: Option<String>)
    ensures
        opt_text(r) == env_candidate_spec(opt_text(env)),
{
    match env {
        Some(e) => {
            let n = normalize_url(e.as_str());
            if n.as_str().is_empty() {
                None
            } else {
                Some(n)
            }
        },
        None => None,
    }
}

/// The id of a discovery probe: `discover-<ms>-<seq in hex>`.
pub fn next_discover_id(ids: &mut crate::rpc::RequestIds, ms: u128) -> (r: String)
    ensures
        r@ == "discover"@ + "-"@ + decimal(ms as nat) + "-"@ + crate::text::hex(old(ids).seq as nat),
        final(ids).seq == (if old(ids).seq == u64::MAX {
            0
        } else {
            old(ids).seq + 1
        }),
{
    ids.next("discover", ms)
}

/// The addresses to try first, in order: the `DSH_PET_URL` setting when it names one,
/// then the default address. The local listening ports come after these.
pub fn preferred_candidates(env: Option<String>) -> (r: Vec<String>)
    ensures
        strings_view(r@) == (match env_candidate_spec(opt_text(env)) {
            Some(e) => seq![e, DEFAULT_CANDIDATE@],
            None => seq![DEFAULT_CANDIDATE@],
        }),
{
    let mut r: Vec<String> = Vec::new();
    match env_candidate(env) {
        Some(e) => r.push(e),
        None => {},
    }
    r.push(String::from_str(DEFAULT_CANDIDATE));
    assert(strings_view(r@) =~= (match env_candidate_spec(opt_text(env)) {
        Some(e) => seq![e, DEFAULT_CANDIDATE@],
        None => seq![DEFAULT_CANDIDATE@],
    }));
    r
}

/// The address of a local port: `http://127.0.0.1:<port>`.
pub fn port_url(port: u16) -> (r: String)
    ensures
        r@ == "http://127.0.0.1:"@ + decimal(port as nat),
{
    let mut r = String::from_str("http://127.0.0.1:");
    let d = decimal_string(port as u128);
    r.append(d.as_str());
    r
}

/// Whether a probe found the DSH: the HTTP status is a success and `result.ok` is `true`.
pub fn probe_accepts(status_success: bool, ok: Option<bool>) -> (b: bool)
    ensures
        b == (status_success && ok == Some(true)),
{
    status_success && match ok {
        Some(v) => v,
        None => false,
    }
}

// ---------------------------------------------------------------------------
// Reading `netstat -ano`
// ---------------------------------------------------------------------------

/// A line without one trailing `\r`.
pub open spec fn strip_one_cr(l: Seq<char>) -> Seq<char> {
    if l.len() > 0 && l.last() == '\r' {
        l.drop_last()
    } else {
        l
    }
}

/// The lines of a text, as `str::lines` gives them: split at `\n`, a `\r` right before
/// a `\n` dropped, and no empty last line for a text that ends with `\n`.
pub open spec fn lines_of(s: Seq<char>) -> Seq<Seq<char>> {
    let pieces = split_lines(s);
    if s.len() == 0 {
        Seq::empty()
    } else {
        let body = if s.last() == '\n' {
            pieces.drop_last()
        } else {
            pieces
        };
        Seq::new(
            body.len(),
            |i: int|
                if i < pieces.len() - 1 {
                    strip_one_cr(body[i])
                } else {
                    body[i]
                },
        )
    }
}

/// The words of a text, as `str::split_whitespace` gives them: the maximal runs of
/// characters that are not white space.
pub open spec fn words(s: Seq<char>) -> Seq<Seq<char>>
    decreases s.len(),
{
    if s.len() == 0 {
        Seq::empty()
    } else {
        let w = words(s.drop_last());
        let c = s.last();
        if is_white_space(c) {
            w
        } else if s.len() >= 2 && !is_white_space(s[s.len() - 2]) {
            w.update(w.len() - 1, w.last().push(c))
        } else {
            w.push(seq![c])
        }
    }
}

/// ASCII upper-case letters lowered.
pub open spec fn lower(c: char) -> char {
    crate::theme_editor::ascii_lower(c)
}

/// Equal up to ASCII case (`eq_ignore_ascii_case`).
pub open spec fn eq_ignore_case(a: Seq<char>, b: Seq<char>) -> bool {
    a.len() == b.len() && forall|i: int| 0 <= i < a.len() ==> lower(#[trigger] a[i]) == lower(b[i])
}

/// `127.0.0.1:`
pub open spec fn loopback_prefix() -> Seq<char> {
    seq!['1', '2', '7', '.', '0', '.', '0', '.', '1', ':']
}

pub open spec fn is_ascii_digit(c: char) -> bool {
    0x30 <= (c as u32) <= 0x39
}

/// The value of a run of decimal digits.
pub open spec fn digits_value(d: Seq<char>) -> nat
    decreases d.len(),
{
    if d.len() == 0 {
        0
    } else {
        digits_value(d.drop_last()) * 10 + ((d.last() as u32) - 0x30) as nat
    }
}

/// The text after an optional leading `+`.
pub open spec fn digits_part(s: Seq<char>) -> Seq<char> {
    if s.len() > 0 && s[0] == '+' {
        s.drop_first()
    } else {
        s
    }
}

/// Every character is a decimal digit.
pub open spec fn all_digits(d: Seq<char>) -> bool {
    forall|i: int| 0 <= i < d.len() ==> is_ascii_digit(#[trigger] d[i])
}

/// A `u16` read as `str::parse::<u16>` reads it: an optional `+`, then one or more
/// decimal digits, with a value that fits.
pub open spec fn parse_u16_spec(s: Seq<char>) -> Option<u16> {
    let d = digits_part(s);
    if d.len() > 0 && all_digits(d) && digits_value(d) <= 65535 {
        Some(digits_value(d) as u16)
    } else {
        None
    }
}

/// The port of a `netstat` line that shows a TCP socket listening on 127.0.0.1, if any:
/// its first word is `TCP`, its fourth `LISTENING` (both in any case), and its second is
/// `127.0.0.1:<port>` with a port other than 0.
pub open spec fn listening_port(line: Seq<char>) -> Option<u16> {
    let parts = words(line);
    if parts.len() >= 4 && eq_ignore_case(parts[0], seq!['T', 'C', 'P']) && eq_ignore_case(
        parts[3],
        seq!['L', 'I', 'S', 'T', 'E', 'N', 'I', 'N', 'G'],
    ) && parts[1].len() >= 10 && parts[1].subrange(0, 10) == loopback_prefix() {
        match parse_u16_spec(parts[1].subrange(10, parts[1].len() as int)) {
            Some(p) if p != 0 => Some(p),
            _ => None,
        }
    } else {
        None
    }
}

pub open spec fn listening_port_fn() -> spec_fn(Seq<char>) -> Option<u16> {
    |l: Seq<char>| listening_port(l)
}

/// The listening ports that the lines show.
pub open spec fn ports_of(text: Seq<char>) -> Seq<u16> {
    lines_of(text).filter_map(listening_port_fn())
}

/// Strictly increasing.
pub open spec fn strictly_increasing(v: Seq<u16>) -> bool {
    forall|i: int, j: int| 0 <= i < j < v.len() ==> v[i] < v[j]
}

/// The pieces of a text between `\n`s.
fn split_pieces(v: &Vec<char>) -> (r: Vec<Vec<char>>)
    ensures
        r@.len() == split_lines(v@).len(),
        forall|i: int| 0 <= i < r@.len() ==> (#[trigger] r@[i])@ == split_lines(v@)[i],
{
    let mut out: Vec<Vec<char>> = Vec::new();
    let mut cur: Vec<char> = Vec::new();
    let n = v.len();
    let mut i: usize = 0;
    while i < n
        invariant
            n == v@.len(),
            i <= n,
            out@.len() + 1 == split_lines(v@.take(i as int)).len(),
            forall|k: int| 0 <= k < out@.len() ==> (#[trigger] out@[k])@ == split_lines(v@.take(i as int))[k],
            cur@ == split_lines(v@.take(i as int)).last(),
        decreases n - i,
    {
        let c = v[i];
        let ghost p = split_lines(v@.take(i as int));
        assert(v@.take(i + 1).drop_last() =~= v@.take(i as int));
        assert(v@.take(i + 1).last() == c);
        if c == '\n' {
            let mut done: Vec<char> = Vec::new();
            std::mem::swap(&mut done, &mut cur);
            out.push(done);
        } else {
            cur.push(c);
        }
        i = i + 1;
    }
    assert(v@.take(n as int) =~= v@);
    out.push(cur);
    out
}

/// The words of a line.
fn split_words(v: &Vec<char>) -> (r: Vec<Vec<char>>)
    ensures
        r@.len() == words(v@).len(),
        forall|i: int| 0 <= i < r@.len() ==> (#[trigger] r@[i])@ == words(v@)[i],
{
    let mut out: Vec<Vec<char>> = Vec::new();
    let mut cur: Vec<char> = Vec::new();
    let mut in_word = false;
    let n = v.len();
    let mut i: usize = 0;
    while i < n
        invariant
            n == v@.len(),
            i <= n,
            in_word == (i > 0 && !is_white_space(v@[i - 1])),
            in_word ==> words(v@.take(i as int)).len() == out@.len() + 1 && cur@ == words(
                v@.take(i as int),
            ).last(),
            !in_word ==> words(v@.take(i as int)).len() == out@.len() && cur@.len() == 0,
            forall|k: int| 0 <= k < out@.len() ==> (#[trigger] out@[k])@ == words(v@.take(i as int))[k],
        decreases n - i,
    {
        let c = v[i];
        let ghost w = words(v@.take(i as int));
        assert(v@.take(i + 1).drop_last() =~= v@.take(i as int));
        assert(v@.take(i + 1).last() == c);
        if i > 0 {
            assert(v@.take(i + 1)[i - 1] == v@[i - 1]);
        }
        if is_white_space_char(c) {
            if in_word {
                let mut done: Vec<char> = Vec::new();
            std::mem::swap(&mut done, &mut cur);
                out.push(done);
            }
            in_word = false;
        } else {
            cur.push(c);
            in_word = true;
        }
        i = i + 1;
    }
    assert(v@.take(n as int) =~= v@);
    if in_word {
        out.push(cur);
    }
    out
}

/// Whether `a` equals `b` up to ASCII case.
fn eq_ignore_case_exec(a: &Vec<char>, b: &[char]) -> (r: bool)
    ensures
        r == eq_ignore_case(a@, b@),
{
    if a.len() != b.len() {
        return false;
    }
    let n = a.len();
    let mut i: usize = 0;
    while i < n
        invariant
            n == a@.len(),
            n == b@.len(),
            i <= n,
            forall|k: int| 0 <= k < i ==> lower(#[trigger] a@[k]) == lower(b@[k]),
        decreases n - i,
    {
        if crate::theme_editor::ascii_lower_char(a[i]) != crate::theme_editor::ascii_lower_char(b[i]) {
            return false;
        }
        i = i + 1;
    }
    true
}

/// Reads a `u16` as `str::parse::<u16>` does, from `v[from..]`.
#[verifier::loop_isolation(false)]
fn parse_u16_from(v: &Vec<char>, from: usize) -> (r: Option<u16>)
    requires
        from <= v@.len(),
    ensures
        r == parse_u16_spec(v@.subrange(from as int, v@.len() as int)),
{
    let ghost s = v@.subrange(from as int, v@.len() as int);
    let n = v.len();
    let mut start = from;
    if start < n && v[start] == '+' {
        start = start + 1;
    }
    let ghost d = v@.subrange(start as int, n as int);
    assert(d == digits_part(s));
    if start == n {
        return None;
    }
    let mut value: u32 = 0;
    let mut i = start;
    while i < n
        invariant
            start <= i <= n,
            n == v@.len(),
            d == v@.subrange(start as int, n as int),
            forall|k: int| start <= k < i ==> is_ascii_digit(#[trigger] v@[k]),
            value as nat == digits_value(v@.subrange(start as int, i as int)),
            value <= 65535,
        decreases n - i,
    {
        let c = v[i];
        let u = c as u32;
        if u < 0x30 || u > 0x39 {
            assert(d[i - start] == c);
            proof {
                lemma_parse_rejects(s, (i - start) as int);
            }
            return None;
        }
        let next = value * 10 + (u - 0x30);
        assert(v@.subrange(start as int, i + 1).drop_last() =~= v@.subrange(start as int, i as int));
        if next > 65535 {
            proof {
                assert(d.take((i + 1 - start) as int) =~= v@.subrange(start as int, i + 1));
                if all_digits(d) {
                    lemma_digits_value_grows(d, (i + 1 - start) as int);
                }
            }
            return None;
        }
        value = next;
        i = i + 1;
    }
    assert(forall|k: int| 0 <= k < d.len() ==> #[trigger] d[k] == v@[k + start]);
    Some(value as u16)
}

/// A text whose digits part holds a character other than a digit is not a `u16`.
proof fn lemma_parse_rejects(s: Seq<char>, k: int)
    requires
        0 <= k < digits_part(s).len(),
        !is_ascii_digit(digits_part(s)[k]),
    ensures
        parse_u16_spec(s) is None,
{
}

/// A longer run of digits is worth at least as much as its beginning.
proof fn lemma_digits_value_grows(d: Seq<char>, k: int)
    requires
        0 <= k <= d.len(),
        all_digits(d),
    ensures
        digits_value(d) >= digits_value(d.take(k)),
    decreases d.len(),
{
    if k < d.len() {
        assert(d.drop_last().take(k) =~= d.take(k));
        lemma_digits_value_grows(d.drop_last(), k);
    } else {
        assert(d.take(k) =~= d);
    }
}

/// The port that a `netstat` line shows (see `listening_port`).
#[verifier::loop_isolation(false)]
fn line_port(line: &Vec<char>) -> (r: Option<u16>)
    ensures
        r == listening_port(line@),
{
    let parts = split_words(line);
    if parts.len() < 4 {
        return None;
    }
    let tcp: [char; 3] = ['T', 'C', 'P'];
    let listening: [char; 9] = ['L', 'I', 'S', 'T', 'E', 'N', 'I', 'N', 'G'];
    assert(tcp@ =~= seq!['T', 'C', 'P']);
    assert(listening@ =~= seq!['L', 'I', 'S', 'T', 'E', 'N', 'I', 'N', 'G']);
    if !eq_ignore_case_exec(&parts[0], tcp.as_slice()) || !eq_ignore_case_exec(
        &parts[3],
        listening.as_slice(),
    ) {
        return None;
    }
    let addr = &parts[1];
    if addr.len() < 10 {
        return None;
    }
    let pre: [char; 10] = ['1', '2', '7', '.', '0', '.', '0', '.', '1', ':'];
    assert(pre@ =~= loopback_prefix());
    let mut k: usize = 0;
    while k < 10
        invariant
            k <= 10,
            10 <= addr@.len(),
            pre@ == loopback_prefix(),
            forall|t: int| 0 <= t < k ==> addr@[t] == pre@[t],
        decreases 10 - k,
    {
        if addr[k] != pre[k] {
            assert(addr@.subrange(0, 10)[k as int] != loopback_prefix()[k as int]);
            return None;
        }
        k = k + 1;
    }
    assert(addr@.subrange(0, 10) =~= loopback_prefix());
    match parse_u16_from(addr, 10) {
        Some(p) => if p != 0 {
            Some(p)
        } else {
            None
        },
        None => None,
    }
}

/// Inserts `p` into a strictly increasing list, unless it is there already.
fn insert_sorted(v: &mut Vec<u16>, p: u16)
    requires
        strictly_increasing(old(v)@),
    ensures
        strictly_increasing(final(v)@),
        forall|q: u16| final(v)@.contains(q) <==> (old(v)@.contains(q) || q == p),
{
    let n = v.len();
    let mut i: usize = 0;
    while i < n && v[i] < p
        invariant
            v@ == old(v)@,
            strictly_increasing(v@),
            n == v@.len(),
            i <= n,
            forall|k: int| 0 <= k < i ==> v@[k] < p,
        decreases n - i,
    {
        i = i + 1;
    }
    if i < n && v[i] == p {
        return;
    }
    let ghost old_v = v@;
    v.insert(i, p);
    assert(v@ =~= old_v.subrange(0, i as int).push(p) + old_v.subrange(i as int, n as int));
    assert forall|a: int, b: int| 0 <= a < b < v@.len() implies v@[a] < v@[b] by {
        if i < n {
            assert(old_v[i as int] > p);
        }
        if b < i {
            assert(old_v[a] < old_v[b]);
        } else if b == i {
            assert(old_v[a] < p);
        } else if a < i {
            assert(old_v[a] < p);
            assert(old_v[i as int] <= old_v[b - 1]);
        } else if a == i {
            assert(old_v[i as int] <= old_v[b - 1]);
        } else {
            assert(old_v[a - 1] < old_v[b - 1]);
        }
    }
    assert forall|q: u16| v@.contains(q) <==> (old_v.contains(q) || q == p) by {
        if old_v.contains(q) {
            let k = choose|k: int| 0 <= k < old_v.len() && old_v[k] == q;
            if k < i {
                assert(v@[k] == q);
            } else {
                assert(v@[k + 1] == q);
            }
        }
        if q == p {
            assert(v@[i as int] == q);
        }
        if v@.contains(q) {
            let k = choose|k: int| 0 <= k < v@.len() && v@[k] == q;
            if k < i {
                assert(old_v[k] == q);
            } else if k > i {
                assert(old_v[k - 1] == q);
            }
        }
    }
}

/// The distinct ports on which `netstat -ano` shows a TCP socket listening on 127.0.0.1,
/// in increasing order.
pub fn parse_listening_ports(stdout: &str) -> (r: Vec<u16>)
    ensures
        strictly_increasing(r@),
        forall|p: u16| r@.contains(p) <==> ports_of(stdout@).contains(p),
{
    let text = chars_of(stdout);
    let pieces = split_pieces(&text);
    let ghost s = text@;
    let ghost lines = lines_of(s);
    let n = text.len();
    let mut out: Vec<u16> = Vec::new();
    if n == 0 {
        assert(lines =~= Seq::<Seq<char>>::empty());
        return out;
    }
    let ends_with_newline = text[n - 1] == '\n';
    let count = if ends_with_newline {
        pieces.len() - 1
    } else {
        pieces.len()
    };
    proof {
        crate::sse::lemma_split_lines_nonempty(s);
    }
    assert(count == lines.len());
    let mut i: usize = 0;
    while i < count
        invariant
            count == lines.len(),
            lines == lines_of(s),
            s == stdout@,
            pieces@.len() == split_lines(s).len(),
            forall|k: int| 0 <= k < pieces@.len() ==> (#[trigger] pieces@[k])@ == split_lines(s)[k],
            count <= pieces@.len(),
            i <= count,
            strictly_increasing(out@),
            forall|p: u16| out@.contains(p) <==> lines.take(i as int).filter_map(listening_port_fn()).contains(p),
        decreases count - i,
    {
        let piece = &pieces[i];
        let mut line: Vec<char> = Vec::new();
        let m = piece.len();
        let strip = i + 1 < pieces.len() && m > 0 && piece[m - 1] == '\r';
        let keep = if strip {
            m - 1
        } else {
            m
        };
        let mut j: usize = 0;
        while j < keep
            invariant
                keep <= m,
                m == piece@.len(),
                j <= keep,
                line@ == piece@.take(j as int),
            decreases keep - j,
        {
            line.push(piece[j]);
            assert(line@ =~= piece@.take(j + 1));
            j = j + 1;
        }
        assert(line@ == lines[i as int]) by {
            assert(piece@.take(keep as int) =~= (if strip {
                piece@.drop_last()
            } else {
                piece@
            }));
        }
        let port = line_port(&line);
        proof {
            lines.lemma_filter_map_take_succ(listening_port_fn(), i as int);
        }
        match port {
            Some(p) => {
                insert_sorted(&mut out, p);
            },
            None => {},
        }
        assert forall|q: u16| out@.contains(q) <==> lines.take(i + 1).filter_map(
            listening_port_fn(),
        ).contains(q) by {
            let prev = lines.take(i as int).filter_map(listening_port_fn());
            match port {
                Some(p) => {
                    if prev.push(p).contains(q) && q != p {
                        let k = choose|k: int| 0 <= k < prev.push(p).len() && prev.push(p)[k] == q;
                        assert(prev[k] == q);
                    }
                    if prev.contains(q) {
                        let k = choose|k: int| 0 <= k < prev.len() && prev[k] == q;
                        assert(prev.push(p)[k] == q);
                    }
                    if q == p {
                        assert(prev.push(p)[prev.len() as int] == q);
                    }
                    assert(lines.take(i + 1).filter_map(listening_port_fn()) =~= prev.push(p));
                },
                None => {
                    assert(lines.take(i + 1).filter_map(listening_port_fn()) =~= prev);
                },
            }
        }
        i = i + 1;
    }
    assert(lines.take(count as int) =~= lines);
    out
}

} // verus!
