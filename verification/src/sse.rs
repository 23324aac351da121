//! Server-sent events framing: raw bytes accumulate in a buffer, complete blocks (ended
//! by a blank line) are cut off, decoded as UTF-8, and the `data: ` lines of each block
//! are handed on.
use vstd::prelude::*;
use vstd::string::*;
use vstd::utf8::{decode_utf8, valid_utf8};

use crate::json::{frame_payload, json_parse, parse_json, payload_of, values_view, JsonValue, JsonView};
use crate::text::{chars_of, strings_view, substring, trim_end_by};

verus! {

/// The buffer is dropped whole when it grows beyond this many bytes.
pub const MAX_BUF_BYTES: usize = 1_048_576;

/// `needle` occurs in `haystack` at `i`.
pub open spec fn matches_at(haystack: Seq<u8>, needle: Seq<u8>, i: int) -> bool {
    0 <= i && i + needle.len() <= haystack.len() && haystack.subrange(i, i + needle.len()) == needle
}

/// The first position where `needle` occurs in `haystack`.
pub fn find_subslice(haystack: &[u8], needle: &[u8]) -> (r: Option<usize>)
    ensures
        match r {
            Some(i) => matches_at(haystack@, needle@, i as int) && forall|j: int|
                0 <= j < i ==> !matches_at(haystack@, needle@, j),
            None => forall|j: int| !matches_at(haystack@, needle@, j),
        },
{
    let h = haystack.len();
    let m = needle.len();
    if m == 0 {
        assert(haystack@.subrange(0, 0) =~= needle@);
        return Some(0);
    }
    if m > h {
        return None;
    }
    let mut i: usize = 0;
    while i <= h - m
        invariant
            h == haystack@.len(),
            m == needle@.len(),
            m > 0,
            m <= h,
            i <= h - m + 1,
            forall|j: int| 0 <= j < i ==> !matches_at(haystack@, needle@, j),
        decreases h - i,
    {
        let mut k: usize = 0;
        while k < m && haystack[i + k] == needle[k]
            invariant
                h == haystack@.len(),
                m == needle@.len(),
                i + m <= h,
                k <= m,
                forall|t: int| 0 <= t < k ==> haystack@[i + t] == needle@[t],
            decreases m - k,
        {
            k = k + 1;
        }
        if k == m {
            assert(haystack@.subrange(i as int, i + m) =~= needle@);
            return Some(i);
        }
        assert(!matches_at(haystack@, needle@, i as int)) by {
            if matches_at(haystack@, needle@, i as int) {
                assert(haystack@.subrange(i as int, i + m)[k as int] == haystack@[i + k]);
            }
        }
        i = i + 1;
    }
    None
}

/// `\r\n\r\n`
pub open spec fn crlf2() -> Seq<u8> {
    seq![13u8, 10u8, 13u8, 10u8]
}

/// `\n\n`
pub open spec fn lf2() -> Seq<u8> {
    seq![10u8, 10u8]
}

/// The end of the first complete block and the length of the blank line after it: a
/// CRLF blank line anywhere is preferred, otherwise an LF blank line.
#[verifier::opaque]
pub open spec fn separator_of(buf: Seq<u8>) -> Option<(int, int)> {
    if exists|i: int| matches_at(buf, crlf2(), i) {
        Some((choose|i: int| matches_at(buf, crlf2(), i) && forall|j: int| 0 <= j < i ==> !matches_at(buf, crlf2(), j), 4))
    } else if exists|i: int| matches_at(buf, lf2(), i) {
        Some((choose|i: int| matches_at(buf, lf2(), i) && forall|j: int| 0 <= j < i ==> !matches_at(buf, lf2(), j), 2))
    } else {
        None
    }
}

proof fn lemma_first_match_unique(h: Seq<u8>, n: Seq<u8>, i: int)
    requires
        matches_at(h, n, i),
        forall|j: int| 0 <= j < i ==> !matches_at(h, n, j),
    ensures
        (choose|k: int| matches_at(h, n, k) && forall|j: int| 0 <= j < k ==> !matches_at(h, n, j)) == i,
{
    let k = choose|k: int| matches_at(h, n, k) && forall|j: int| 0 <= j < k ==> !matches_at(h, n, j);
    assert(matches_at(h, n, k) && forall|j: int| 0 <= j < k ==> !matches_at(h, n, j));
    if k < i {
        assert(!matches_at(h, n, k));
    } else if k > i {
        assert(!matches_at(h, n, i));
    }
}

/// Finds the first complete block of the buffer (see `separator_of`).
pub fn find_separator(buf: &[u8]) -> (r: Option<(usize, usize)>)
    ensures
        match r {
            Some((e, l)) => separator_of(buf@) == Some((e as int, l as int)) && ((l == 4
                && matches_at(buf@, crlf2(), e as int)) || (l == 2 && matches_at(
                buf@,
                lf2(),
                e as int,
            ))),
            None => separator_of(buf@) is None,
        },
{
    reveal(separator_of);
    let crlf: [u8; 4] = [13u8, 10u8, 13u8, 10u8];
    assert(crlf@ =~= crlf2());
    match find_subslice(buf, crlf.as_slice()) {
        Some(i) => {
            proof {
                lemma_first_match_unique(buf@, crlf2(), i as int);
            }
            return Some((i, 4));
        },
        None => {},
    }
    let lf: [u8; 2] = [10u8, 10u8];
    assert(lf@ =~= lf2());
    match find_subslice(buf, lf.as_slice()) {
        Some(i) => {
            proof {
                lemma_first_match_unique(buf@, lf2(), i as int);
            }
            Some((i, 2))
        },
        None => None,
    }
}

/// The text split at each `\n` (as `str::split('\n')`: always at least one piece).
pub open spec fn split_lines(s: Seq<char>) -> Seq<Seq<char>>
    decreases s.len(),
{
    if s.len() == 0 {
        seq![Seq::empty()]
    } else {
        let p = split_lines(s.drop_last());
        if s.last() == '\n' {
            p.push(Seq::empty())
        } else {
            p.update(p.len() - 1, p.last().push(s.last()))
        }
    }
}

/// Splitting a text at `\n` gives at least one piece.
pub proof fn lemma_split_lines_nonempty(s: Seq<char>)
    ensures
        split_lines(s).len() >= 1,
    decreases s.len(),
{
    if s.len() > 0 {
        lemma_split_lines_nonempty(s.drop_last());
    }
}

pub open spec fn cr_fn() -> spec_fn(char) -> bool {
    |c: char| c == '\r'
}

/// `data: `
pub open spec fn data_prefix() -> Seq<char> {
    seq!['d', 'a', 't', 'a', ':', ' ']
}

/// The data of one line: the line without trailing `\r`, after a `data: ` prefix.
pub open spec fn line_data(line: Seq<char>) -> Option<Seq<char>> {
    let l = trim_end_by(line, cr_fn());
    if l.len() >= 6 && l.subrange(0, 6) == data_prefix() {
        Some(l.subrange(6, l.len() as int))
    } else {
        None
    }
}

pub open spec fn line_data_fn() -> spec_fn(Seq<char>) -> Option<Seq<char>> {
    |line: Seq<char>| line_data(line)
}

/// The data of every `data: ` line of a block, in order; a block that is not valid UTF-8
/// gives none.
pub open spec fn block_data(block: Seq<u8>) -> Seq<Seq<char>> {
    if valid_utf8(block) {
        split_lines(decode_utf8(block)).filter_map(line_data_fn())
    } else {
        Seq::empty()
    }
}

/// Cuts every complete block off the buffer: the data of the blocks in order, and what is
/// left of the buffer.
#[verifier::opaque]
pub open spec fn drain_spec(buf: Seq<u8>) -> (Seq<Seq<char>>, Seq<u8>)
    decreases buf.len(),
{
    match separator_of(buf) {
        None => (Seq::empty(), buf),
        Some((end, len)) => if 0 <= end && 2 <= len && end + len <= buf.len() {
            let rest = drain_spec(buf.subrange(end + len, buf.len() as int));
            (block_data(buf.subrange(0, end)) + rest.0, rest.1)
        } else {
            (Seq::empty(), buf)
        },
    }
}

/// One step of draining: with a complete block at the front, draining is taking that
/// block and draining the rest; without one, nothing is taken.
pub proof fn lemma_drain_step(buf: Seq<u8>)
    ensures
        match separator_of(buf) {
            None => drain_spec(buf) == (Seq::<Seq<char>>::empty(), buf),
            Some((end, len)) => (0 <= end && 2 <= len && end + len <= buf.len()) ==> drain_spec(buf)
                == (block_data(buf.subrange(0, end)) + drain_spec(
                buf.subrange(end + len, buf.len() as int),
            ).0, drain_spec(buf.subrange(end + len, buf.len() as int)).1),
        },
{
    reveal(drain_spec);
}

/// A complete block found in the buffer lies inside it.
pub proof fn lemma_separator_bounds(buf: Seq<u8>)
    ensures
        separator_of(buf) matches Some((end, len)) ==> 0 <= end && (len == 4 || len == 2) && end
            + len <= buf.len(),
{
    reveal(separator_of);
    if exists|i: int| matches_at(buf, crlf2(), i) {
        let w = choose|i: int| matches_at(buf, crlf2(), i);
        lemma_least_match_exists(buf, crlf2(), w);
        let e = choose|i: int|
            matches_at(buf, crlf2(), i) && forall|j: int| 0 <= j < i ==> !matches_at(buf, crlf2(), j);
        assert(matches_at(buf, crlf2(), e));
        assert(separator_of(buf) == Some((e, 4int)));
    } else if exists|i: int| matches_at(buf, lf2(), i) {
        let w = choose|i: int| matches_at(buf, lf2(), i);
        lemma_least_match_exists(buf, lf2(), w);
        let e = choose|i: int|
            matches_at(buf, lf2(), i) && forall|j: int| 0 <= j < i ==> !matches_at(buf, lf2(), j);
        assert(matches_at(buf, lf2(), e));
        assert(separator_of(buf) == Some((e, 2int)));
    }
}

/// The separator found is the first `\r\n\r\n` of the buffer or, when there is none, its
/// first `\n\n`; none is found only when neither occurs.
pub proof fn lemma_separator_first(buf: Seq<u8>)
    ensures
        match separator_of(buf) {
            Some((e, l)) => (l == 4 && matches_at(buf, crlf2(), e) && (forall|j: int|
                0 <= j < e ==> !matches_at(buf, crlf2(), j))) || (l == 2 && matches_at(buf, lf2(), e)
                && (forall|j: int| 0 <= j < e ==> !matches_at(buf, lf2(), j)) && (forall|j: int|
                !matches_at(buf, crlf2(), j))),
            None => (forall|j: int| !matches_at(buf, crlf2(), j)) && (forall|j: int|
                !matches_at(buf, lf2(), j)),
        },
{
    reveal(separator_of);
    if exists|i: int| matches_at(buf, crlf2(), i) {
        let w = choose|i: int| matches_at(buf, crlf2(), i);
        lemma_least_match_exists(buf, crlf2(), w);
    } else if exists|i: int| matches_at(buf, lf2(), i) {
        let w = choose|i: int| matches_at(buf, lf2(), i);
        lemma_least_match_exists(buf, lf2(), w);
    }
}

/// A first `\r\n\r\n`, or, when there is none, a first `\n\n`, is the separator found.
pub proof fn lemma_separator_is(buf: Seq<u8>, e: int, l: int)
    requires
        (l == 4 && matches_at(buf, crlf2(), e) && (forall|j: int|
            0 <= j < e ==> !matches_at(buf, crlf2(), j))) || (l == 2 && matches_at(buf, lf2(), e) && (
        forall|j: int| 0 <= j < e ==> !matches_at(buf, lf2(), j)) && (forall|j: int|
            !matches_at(buf, crlf2(), j))),
    ensures
        separator_of(buf) == Some((e, l)),
{
    reveal(separator_of);
    if l == 4 {
        lemma_first_match_unique(buf, crlf2(), e);
    } else {
        lemma_first_match_unique(buf, lf2(), e);
    }
}

/// When the needle occurs, it has a first occurrence.
proof fn lemma_least_match_exists(h: Seq<u8>, n: Seq<u8>, w: int)
    requires
        matches_at(h, n, w),
    ensures
        exists|i: int| matches_at(h, n, i) && forall|j: int| 0 <= j < i ==> !matches_at(h, n, j),
    decreases w,
{
    if exists|j: int| 0 <= j < w && matches_at(h, n, j) {
        let j = choose|j: int| 0 <= j < w && matches_at(h, n, j);
        lemma_least_match_exists(h, n, j);
    } else {
        assert(matches_at(h, n, w) && forall|j: int| 0 <= j < w ==> !matches_at(h, n, j));
    }
}

/// Draining leaves no complete block in the buffer: what stays is an unfinished block.
pub proof fn lemma_drain_leaves_no_block(buf: Seq<u8>)
    ensures
        separator_of(drain_spec(buf).1) is None,
    decreases buf.len(),
{
    lemma_separator_bounds(buf);
    lemma_drain_step(buf);
    match separator_of(buf) {
        None => {},
        Some((end, len)) => {
            lemma_drain_leaves_no_block(buf.subrange(end + len, buf.len() as int));
        },
    }
}

/// What draining leaves is no longer than the buffer it started from.
pub proof fn lemma_drain_rest_shorter(buf: Seq<u8>)
    ensures
        drain_spec(buf).1.len() <= buf.len(),
    decreases buf.len(),
{
    lemma_separator_bounds(buf);
    lemma_drain_step(buf);
    match separator_of(buf) {
        None => {},
        Some((end, len)) => {
            lemma_drain_rest_shorter(buf.subrange(end + len, buf.len() as int));
        },
    }
}

/// Decodes bytes as UTF-8 (`String::from_utf8`): the text when the bytes are valid UTF-8,
/// nothing otherwise.
#[verifier::external_body]
fn utf8_decode(bytes: Vec<u8>) -> (r: Option<String>)
    ensures
        match r {
            Some(s) => valid_utf8(bytes@) && s@ == decode_utf8(bytes@),
            None => !valid_utf8(bytes@),
        },
{
    String::from_utf8(bytes).ok()
}

/// The data of one line (see `line_data`); the line is `text[start..]` up to its length.
fn data_of_line(text: &str, start: usize, line: &Vec<char>) -> (r: Option<String>)
    requires
        start + line@.len() <= text@.len(),
        start + line@.len() <= usize::MAX,
        line@ == text@.subrange(start as int, start + line@.len()),
    ensures
        match line_data(line@) {
            Some(d) => r matches Some(s) && s@ == d,
            None => r is None,
        },
{
    let mut b: usize = line.len();
    while b > 0 && line[b - 1] == '\r'
        invariant
            b <= line@.len(),
            forall|i: int| b <= i < line@.len() ==> line@[i] == '\r',
        decreases b,
    {
        b = b - 1;
    }
    proof {
        crate::text::lemma_trim_end_index(line@, cr_fn(), b as int);
    }
    let ghost l = line@.subrange(0, b as int);
    if b >= 6 && line[0] == 'd' && line[1] == 'a' && line[2] == 't' && line[3] == 'a' && line[4]
        == ':' && line[5] == ' ' {
        assert(l.subrange(0, 6) =~= data_prefix());
        assert(l.subrange(6, l.len() as int) =~= line@.subrange(6, b as int));
        let d = substring(text, start + 6, start + b);
        assert(d@ =~= line@.subrange(6, b as int));
        Some(d)
    } else {
        proof {
            if l.len() >= 6 && l.subrange(0, 6) == data_prefix() {
                let p = l.subrange(0, 6);
                assert(p[0] == line@[0] && p[1] == line@[1] && p[2] == line@[2] && p[3] == line@[3]
                    && p[4] == line@[4] && p[5] == line@[5]);
            }
        }
        None
    }
}

/// The data of every `data: ` line of a block of text.
fn text_data(text: &String) -> (r: Vec<String>)
    ensures
        strings_view(r@) == split_lines(text@).filter_map(line_data_fn()),
{
    let chars = chars_of(text.as_str());
    let ghost s = text@;
    let mut out: Vec<String> = Vec::new();
    let mut line: Vec<char> = Vec::new();
    let mut start: usize = 0;
    let n = chars.len();
    let mut i: usize = 0;
    proof {
        lemma_split_lines_nonempty(s);
    }
    while i < n
        invariant
            n == s.len(),
            chars@ == s,
            s == text@,
            i <= n,
            start <= i,
            line@ == s.subrange(start as int, i as int),
            split_lines(s.take(i as int)).len() >= 1,
            line@ == split_lines(s.take(i as int)).last(),
            strings_view(out@) == split_lines(s.take(i as int)).drop_last().filter_map(line_data_fn()),
        decreases n - i,
    {
        let c = chars[i];
        let ghost p = split_lines(s.take(i as int));
        assert(s.take(i + 1).drop_last() =~= s.take(i as int));
        assert(s.take(i + 1).last() == c);
        if c == '\n' {
            let d = data_of_line(text.as_str(), start, &line);
            let ghost before = strings_view(out@);
            match d {
                Some(x) => {
                    out.push(x);
                },
                None => {},
            }
            proof {
                let q = split_lines(s.take(i + 1));
                assert(q == p.push(Seq::empty()));
                assert(q.drop_last() =~= p);
                assert(p.take(p.len() - 1) =~= p.drop_last());
                p.lemma_filter_map_take_succ(line_data_fn(), p.len() - 1);
                assert(p.take(p.len() as int) =~= p);
                assert(p[p.len() - 1] == line@);
                assert(strings_view(out@) =~= q.drop_last().filter_map(line_data_fn()));
            }
            line = Vec::new();
            start = i + 1;
        } else {
            line.push(c);
            assert(line@ =~= s.subrange(start as int, i + 1));
            proof {
                let q = split_lines(s.take(i + 1));
                assert(q == p.update(p.len() - 1, p.last().push(c)));
                assert(q.drop_last() =~= p.drop_last());
            }
        }
        i = i + 1;
    }
    assert(s.take(n as int) =~= s);
    let d = data_of_line(text.as_str(), start, &line);
    let ghost p = split_lines(s);
    proof {
        p.lemma_filter_map_take_succ(line_data_fn(), p.len() - 1);
        assert(p.take(p.len() - 1) =~= p.drop_last());
        assert(p.take(p.len() as int) =~= p);
    }
    match d {
        Some(x) => {
            let ghost before = strings_view(out@);
            out.push(x);
            assert(strings_view(out@) =~= before.push(x@));
        },
        None => {},
    }
    out
}

/// Cuts the first block `buf[..end]` and the blank line after it off the buffer and
/// returns the data of the block.
fn take_block(buf: &mut Vec<u8>, end: usize, len: usize) -> (r: Vec<String>)
    requires
        end + len <= old(buf)@.len(),
    ensures
        strings_view(r@) == block_data(old(buf)@.subrange(0, end as int)),
        final(buf)@ == old(buf)@.subrange(end + len, old(buf)@.len() as int),
{
    let ghost b0 = buf@;
    let n = buf.len();
    assert(end + len <= n);
    let mut block = buf.split_off(end + len);
    buf.truncate(end);
    std::mem::swap(buf, &mut block);
    assert(block@ =~= b0.subrange(0, end as int));
    assert(buf@ =~= b0.subrange(end + len, b0.len() as int));
    let ghost bv = block@;
    match utf8_decode(block) {
        Some(text) => text_data(&text),
        None => {
            assert(block_data(bv) =~= Seq::<Seq<char>>::empty());
            Vec::new()
        },
    }
}

/// Cuts every complete block off the buffer and returns the data of their `data: ` lines,
/// in order; what follows the last complete block stays in the buffer.
pub fn drain_frames(buf: &mut Vec<u8>) -> (r: Vec<String>)
    ensures
        strings_view(r@) == drain_spec(old(buf)@).0,
        final(buf)@ == drain_spec(old(buf)@).1,
{
    let ghost orig = buf@;
    let mut out: Vec<String> = Vec::new();
    loop
        invariant
            strings_view(out@) + drain_spec(buf@).0 == drain_spec(orig).0,
            drain_spec(buf@).1 == drain_spec(orig).1,
        ensures
            strings_view(out@) == drain_spec(orig).0,
            buf@ == drain_spec(orig).1,
        decreases buf@.len(),
    {
        let sep = find_separator(buf.as_slice());
        match sep {
            None => {
                proof {
                    lemma_drain_step(buf@);
                }
                assert(strings_view(out@) =~= drain_spec(orig).0);
                break ;
            },
            Some((end, len)) => {
                let ghost b0 = buf@;
                let data = take_block(buf, end, len);
                proof {
                    lemma_drain_step(b0);
                }
                let ghost before = strings_view(out@);
                let mut j: usize = 0;
                while j < data.len()
                    invariant
                        j <= data@.len(),
                        strings_view(out@) == before + strings_view(data@).take(j as int),
                    decreases data@.len() - j,
                {
                    let ghost o = strings_view(out@);
                    out.push(data[j].clone());
                    assert(strings_view(out@) =~= o.push(data@[j as int]@));
                    assert(strings_view(data@).take(j + 1) =~= strings_view(data@).take(j as int).push(
                        data@[j as int]@,
                    ));
                    j = j + 1;
                }
                assert(strings_view(data@).take(data@.len() as int) =~= strings_view(data@));
                assert(strings_view(out@) + drain_spec(buf@).0 =~= drain_spec(orig).0);
            },
        }
    }
    out
}

/// Adds a chunk of the stream to the buffer; drops the whole buffer when it grows beyond
/// `MAX_BUF_BYTES`, otherwise cuts off and returns the data of every complete block.
pub fn feed_chunk(buf: &mut Vec<u8>, chunk: &[u8]) -> (r: Vec<String>)
    ensures
        ({
            let joined = old(buf)@ + chunk@;
            if joined.len() > MAX_BUF_BYTES {
                r@.len() == 0 && final(buf)@.len() == 0
            } else {
                strings_view(r@) == drain_spec(joined).0 && final(buf)@ == drain_spec(joined).1
            }
        }),
        final(buf)@.len() <= MAX_BUF_BYTES,
{
    let ghost b0 = buf@;
    let m = chunk.len();
    let mut i: usize = 0;
    while i < m
        invariant
            m == chunk@.len(),
            i <= m,
            buf@ == b0 + chunk@.take(i as int),
        decreases m - i,
    {
        buf.push(chunk[i]);
        assert(buf@ =~= b0 + chunk@.take(i + 1));
        i = i + 1;
    }
    assert(chunk@.take(m as int) =~= chunk@);
    if buf.len() > MAX_BUF_BYTES {
        buf.clear();
        return Vec::new();
    }
    proof {
        lemma_drain_rest_shorter(buf@);
    }
    drain_frames(buf)
}

/// The event of one `data: ` line: the line parsed as JSON, then its payload (see
/// `payload_of`); a line that is not JSON gives none.
pub open spec fn event_of_data(data: Seq<char>) -> Option<JsonView> {
    match json_parse(data) {
        Some(v) => Some(payload_of(v)),
        None => None,
    }
}

pub open spec fn event_of_data_fn() -> spec_fn(Seq<char>) -> Option<JsonView> {
    |d: Seq<char>| event_of_data(d)
}

/// The events of a list of `data: ` lines, in order.
pub open spec fn events_of(datas: Seq<Seq<char>>) -> Seq<JsonView> {
    datas.filter_map(event_of_data_fn())
}

/// Decodes the `data: ` lines into events: each line that parses as JSON gives its payload
/// (or itself, see `payload_of`); the others are skipped.
pub fn decode_events(datas: Vec<String>) -> (r: Vec<JsonValue>)
    ensures
        values_view(r@) == events_of(strings_view(datas@)),
{
    let ghost ds = strings_view(datas@);
    let mut out: Vec<JsonValue> = Vec::new();
    let n = datas.len();
    let mut i: usize = 0;
    while i < n
        invariant
            n == ds.len(),
            ds == strings_view(datas@),
            i <= n,
            values_view(out@) == ds.take(i as int).filter_map(event_of_data_fn()),
        decreases n - i,
    {
        proof {
            ds.lemma_filter_map_take_succ(event_of_data_fn(), i as int);
        }
        assert(ds[i as int] == datas@[i as int]@);
        match parse_json(datas[i].as_str()) {
            Some(v) => {
                let e = frame_payload(v);
                let ghost before = values_view(out@);
                let ghost ev = e@;
                out.push(e);
                assert(values_view(out@) =~= before.push(ev));
            },
            None => {},
        }
        assert(values_view(out@) =~= ds.take(i + 1).filter_map(event_of_data_fn()));
        i = i + 1;
    }
    assert(ds.take(n as int) =~= ds);
    out
}

/// Cuts every complete block off the buffer and returns the events of their `data: `
/// lines, in order; what follows the last complete block stays in the buffer.
pub fn drain_events(buf: &mut Vec<u8>) -> (r: Vec<JsonValue>)
    ensures
        values_view(r@) == events_of(drain_spec(old(buf)@).0),
        final(buf)@ == drain_spec(old(buf)@).1,
{
    let datas = drain_frames(buf);
    decode_events(datas)
}

/// Adds a chunk of the stream to the buffer and returns the events of the blocks it
/// completes (see `feed_chunk` and `decode_events`).
pub fn feed_events(buf: &mut Vec<u8>, chunk: &[u8]) -> (r: Vec<JsonValue>)
    ensures
        ({
            let joined = old(buf)@ + chunk@;
            if joined.len() > MAX_BUF_BYTES {
                r@.len() == 0 && final(buf)@.len() == 0
            } else {
                values_view(r@) == events_of(drain_spec(joined).0) && final(buf)@ == drain_spec(
                    joined,
                ).1
            }
        }),
        final(buf)@.len() <= MAX_BUF_BYTES,
{
    let datas = feed_chunk(buf, chunk);
    let r = decode_events(datas);
    proof {
        if old(buf)@.len() + chunk@.len() > MAX_BUF_BYTES {
            assert(events_of(Seq::<Seq<char>>::empty()) =~= Seq::<JsonView>::empty());
        }
    }
    r
}

} // verus!
