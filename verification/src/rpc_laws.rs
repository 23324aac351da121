//! Properties of request ids.
use vstd::prelude::*;

use crate::text::{decimal, hex, hex_digit_char};

verus! {

proof fn lemma_hex_len(n: nat)
    ensures
        n < 16 ==> hex(n).len() == 1,
        n >= 16 ==> hex(n).len() >= 2,
    decreases n,
{
    if n >= 16 {
        lemma_hex_len(n / 16);
    }
}

proof fn lemma_hex_digit_injective(a: nat, b: nat)
    requires
        a < 16,
        b < 16,
        hex_digit_char(a) == hex_digit_char(b),
    ensures
        a == b,
{
}

/// Equal hexadecimal numerals are numerals of one number.
pub proof fn lemma_hex_injective(a: nat, b: nat)
    requires
        hex(a) == hex(b),
    ensures
        a == b,
    decreases a,
{
    lemma_hex_len(a);
    lemma_hex_len(b);
    if a < 16 && b < 16 {
        assert(hex(a)[0] == hex_digit_char(a));
        assert(hex(b)[0] == hex_digit_char(b));
        lemma_hex_digit_injective(a, b);
    } else if a >= 16 && b >= 16 {
        let ha = hex(a / 16).push(hex_digit_char(a % 16));
        let hb = hex(b / 16).push(hex_digit_char(b % 16));
        assert(ha.last() == hb.last());
        lemma_hex_digit_injective(a % 16, b % 16);
        assert(ha.drop_last() =~= hex(a / 16));
        assert(hb.drop_last() =~= hex(b / 16));
        lemma_hex_injective(a / 16, b / 16);
    }
}

/// Request ids taken at the same millisecond from counter values that differ are
/// different: `<prefix>-<ms>-<seq in hex>` never repeats until the counter comes back
/// around to the same value.
pub proof fn lemma_request_ids_distinct(prefix: Seq<char>, ms: nat, seq1: u64, seq2: u64)
    requires
        seq1 != seq2,
    ensures
        prefix + "-"@ + decimal(ms) + "-"@ + hex(seq1 as nat) != prefix + "-"@ + decimal(ms) + "-"@
            + hex(seq2 as nat),
{
    let p = prefix + "-"@ + decimal(ms) + "-"@;
    let i1 = p + hex(seq1 as nat);
    let i2 = p + hex(seq2 as nat);
    if i1 == i2 {
        assert(i1.subrange(p.len() as int, i1.len() as int) =~= hex(seq1 as nat));
        assert(i2.subrange(p.len() as int, i2.len() as int) =~= hex(seq2 as nat));
        lemma_hex_injective(seq1 as nat, seq2 as nat);
    }
}

} // verus!
