//! Random identifiers from `uuid`, and their text forms.
use vstd::prelude::*;
use crate::text::{is_lower, upper};

verus! {

/// A random version-4 UUID as its 128-bit value: `Uuid::new_v4().as_u128()`.
/// Nothing is claimed of the value.
#[verifier::external_body]
pub(crate) fn fresh_id() -> u128 {
    uuid::Uuid::new_v4().as_u128()
}

pub open spec fn nibble(v: u128, k: nat) -> u128 {
    (v >> (4 * k) as u128) & 15u128
}

pub open spec fn hex_char(n: u128) -> char {
    if n < 10 {
        (n + 48) as char
    } else {
        (n + 87) as char
    }
}

/// The lower-case hex digits of nibbles `hi - 1` down to `lo` of `v`.
pub open spec fn hex_run(v: u128, hi: nat, lo: nat) -> Seq<char>
    decreases hi,
{
    if hi <= lo {
        Seq::empty()
    } else {
        seq![hex_char(nibble(v, (hi - 1) as nat))] + hex_run(v, (hi - 1) as nat, lo)
    }
}

/// The hyphenated text of a UUID, as its `Display` writes it.
pub open spec fn uuid_text(v: u128) -> Seq<char> {
    hex_run(v, 32, 24) + seq!['-'] + hex_run(v, 24, 20) + seq!['-'] + hex_run(v, 20, 16) + seq![
        '-',
    ] + hex_run(v, 16, 12) + seq!['-'] + hex_run(v, 12, 0)
}

/// The first six hex digits of a UUID's simple form, upper-cased.
pub open spec fn code_text(v: u128) -> Seq<char> {
    hex_run(v, 32, 26).map_values(|c: char| upper(c))
}

fn push_hex_run(out: &mut String, v: u128, hi: u32, lo: u32)
    requires
        lo <= hi <= 32,
    ensures
        final(out)@ == old(out)@ + hex_run(v, hi as nat, lo as nat),
    decreases hi - lo,
{
    if hi > lo {
        let n: u128 = (v >> (4 * (hi - 1)) as u128) & 15u128;
        assert(n < 16) by (bit_vector)
            requires
                n == (v >> (4 * (hi - 1)) as u128) & 15u128,
        ;
        let c: char = if n < 10 {
            ((n as u8) + 48) as char
        } else {
            ((n as u8) + 87) as char
        };
        out.push(c);
        push_hex_run(out, v, hi - 1, lo);
        proof {
            assert(nibble(v, (hi - 1) as nat) == n);
            let a = old(out)@;
            assert(a.push(c) + hex_run(v, (hi - 1) as nat, lo as nat) =~= a + hex_run(
                v,
                hi as nat,
                lo as nat,
            ));
        }
    } else {
        assert(old(out)@ + Seq::<char>::empty() =~= old(out)@);
    }
}

/// The hyphenated text of a UUID value.
pub fn uuid_string(v: u128) -> (r: String)
    ensures
        r@ == uuid_text(v),
{
    let mut out = String::new();
    push_hex_run(&mut out, v, 32, 24);
    out.push('-');
    push_hex_run(&mut out, v, 24, 20);
    out.push('-');
    push_hex_run(&mut out, v, 20, 16);
    out.push('-');
    push_hex_run(&mut out, v, 16, 12);
    out.push('-');
    push_hex_run(&mut out, v, 12, 0);
    assert(out@ =~= uuid_text(v));
    out
}

/// The six-character join code taken from a UUID value.
pub fn code_string(v: u128) -> (r: String)
    ensures
        r@ == code_text(v),
{
    let mut raw = String::new();
    push_hex_run(&mut raw, v, 32, 26);
    assert(raw@ =~= hex_run(v, 32, 26));
    let n = raw.as_str().unicode_len();
    let mut out = String::new();
    let mut i: usize = 0;
    while i < n
        invariant
            n == raw@.len(),
            i <= n,
            out@ == raw@.take(i as int).map_values(|c: char| upper(c)),
        decreases n - i,
    {
        let c = raw.as_str().get_char(i);
        out.push(crate::text::upper_char(c));
        assert(raw@.take(i + 1).map_values(|c: char| upper(c)) =~= raw@.take(i as int).map_values(
            |c: char| upper(c),
        ).push(upper(c)));
        i = i + 1;
    }
    assert(raw@.take(n as int) =~= raw@);
    out
}

/// The value whose top 24 bits are `k` and whose other bits are zero.
pub open spec fn code_seed(k: u128) -> u128 {
    k << 104u128
}

proof fn lemma_hex_run_same(v: u128, w: u128, hi: nat, lo: nat)
    requires
        forall|k: nat| lo <= k < hi ==> #[trigger] nibble(v, k) == nibble(w, k),
    ensures
        hex_run(v, hi, lo) == hex_run(w, hi, lo),
    decreases hi,
{
    if hi > lo {
        lemma_hex_run_same(v, w, (hi - 1) as nat, lo);
        assert(nibble(v, (hi - 1) as nat) == nibble(w, (hi - 1) as nat));
    }
}

/// A join code depends only on the top 24 bits of the value it is taken
/// from.
pub proof fn lemma_code_text_top(v: u128)
    ensures
        v >> 104u128 < 0x100_0000,
        code_text(v) == code_text(code_seed(v >> 104u128)),
{
    let w = code_seed(v >> 104u128);
    assert(v >> 104u128 < 0x100_0000) by (bit_vector);
    assert(w == (v >> 104u128) << 104u128);
    assert((v >> 104u128) & 15u128 == (w >> 104u128) & 15u128) by (bit_vector)
        requires w == (v >> 104u128) << 104u128;
    assert((v >> 108u128) & 15u128 == (w >> 108u128) & 15u128) by (bit_vector)
        requires w == (v >> 104u128) << 104u128;
    assert((v >> 112u128) & 15u128 == (w >> 112u128) & 15u128) by (bit_vector)
        requires w == (v >> 104u128) << 104u128;
    assert((v >> 116u128) & 15u128 == (w >> 116u128) & 15u128) by (bit_vector)
        requires w == (v >> 104u128) << 104u128;
    assert((v >> 120u128) & 15u128 == (w >> 120u128) & 15u128) by (bit_vector)
        requires w == (v >> 104u128) << 104u128;
    assert((v >> 124u128) & 15u128 == (w >> 124u128) & 15u128) by (bit_vector)
        requires w == (v >> 104u128) << 104u128;
    assert forall|k: nat| 26 <= k < 32 implies #[trigger] nibble(v, k) == nibble(w, k) by {
        assert(k == 26 || k == 27 || k == 28 || k == 29 || k == 30 || k == 31);
    }
    lemma_hex_run_same(v, w, 32, 26);
}

proof fn lemma_hex_run_index(v: u128, hi: nat, lo: nat, i: int)
    requires
        lo <= hi,
        0 <= i < hi - lo,
    ensures
        hex_run(v, hi, lo).len() == hi - lo,
        hex_run(v, hi, lo)[i] == hex_char(nibble(v, (hi - 1 - i) as nat)),
    decreases hi,
{
    if hi > lo {
        if hi - 1 > lo || i > 0 {
            if i > 0 {
                lemma_hex_run_index(v, (hi - 1) as nat, lo, i - 1);
            } else {
                lemma_hex_run_len(v, (hi - 1) as nat, lo);
            }
        } else {
            lemma_hex_run_len(v, (hi - 1) as nat, lo);
        }
    }
}

proof fn lemma_hex_run_len(v: u128, hi: nat, lo: nat)
    requires
        lo <= hi,
    ensures
        hex_run(v, hi, lo).len() == hi - lo,
    decreases hi,
{
    if hi > lo {
        lemma_hex_run_len(v, (hi - 1) as nat, lo);
    }
}

proof fn lemma_upper_hex_injective(a: u128, b: u128)
    requires
        a < 16,
        b < 16,
        upper(hex_char(a)) == upper(hex_char(b)),
    ensures
        a == b,
{
    let ca = hex_char(a);
    let cb = hex_char(b);
    assert(ca as u32 == if a < 10 { a + 48 } else { a + 87 });
    assert(cb as u32 == if b < 10 { b + 48 } else { b + 87 });
    assert(upper(ca) as u32 == if a < 10 { a + 48 } else { a + 55 });
    assert(upper(cb) as u32 == if b < 10 { b + 48 } else { b + 55 });
}

proof fn lemma_same_code_nibble(v: u128, w: u128, i: int)
    requires
        0 <= i < 6,
        code_text(v) == code_text(w),
    ensures
        nibble(v, (31 - i) as nat) == nibble(w, (31 - i) as nat),
{
    let n = (31 - i) as nat;
    lemma_hex_run_index(v, 32, 26, i);
    lemma_hex_run_index(w, 32, 26, i);
    assert(code_text(v)[i] == upper(hex_run(v, 32, 26)[i]));
    assert(code_text(w)[i] == upper(hex_run(w, 32, 26)[i]));
    let sh = (4 * n) as u128;
    assert(nibble(v, n) == (v >> sh) & 15u128);
    assert(nibble(w, n) == (w >> sh) & 15u128);
    assert((v >> sh) & 15u128 < 16) by (bit_vector);
    assert((w >> sh) & 15u128 < 16) by (bit_vector);
    lemma_upper_hex_injective(nibble(v, n), nibble(w, n));
}

/// Different top 24 bits give different join codes.
proof fn lemma_code_seed_injective(k1: u128, k2: u128)
    requires
        k1 < 0x100_0000,
        k2 < 0x100_0000,
        code_text(code_seed(k1)) == code_text(code_seed(k2)),
    ensures
        k1 == k2,
{
    let v = code_seed(k1);
    let w = code_seed(k2);
    lemma_same_code_nibble(v, w, 0);
    lemma_same_code_nibble(v, w, 1);
    lemma_same_code_nibble(v, w, 2);
    lemma_same_code_nibble(v, w, 3);
    lemma_same_code_nibble(v, w, 4);
    lemma_same_code_nibble(v, w, 5);
    assert(nibble(v, 31) == nibble(w, 31));
    assert(nibble(v, 30) == nibble(w, 30));
    assert(nibble(v, 29) == nibble(w, 29));
    assert(nibble(v, 28) == nibble(w, 28));
    assert(nibble(v, 27) == nibble(w, 27));
    assert(nibble(v, 26) == nibble(w, 26));
    assert(k1 == k2) by (bit_vector)
        requires
            k1 < 0x100_0000,
            k2 < 0x100_0000,
            ((k1 << 104u128) >> 124u128) & 15u128 == ((k2 << 104u128) >> 124u128) & 15u128,
            ((k1 << 104u128) >> 120u128) & 15u128 == ((k2 << 104u128) >> 120u128) & 15u128,
            ((k1 << 104u128) >> 116u128) & 15u128 == ((k2 << 104u128) >> 116u128) & 15u128,
            ((k1 << 104u128) >> 112u128) & 15u128 == ((k2 << 104u128) >> 112u128) & 15u128,
            ((k1 << 104u128) >> 108u128) & 15u128 == ((k2 << 104u128) >> 108u128) & 15u128,
            ((k1 << 104u128) >> 104u128) & 15u128 == ((k2 << 104u128) >> 104u128) & 15u128,
    ;
}

/// A list of fewer texts than there are join codes leaves some join code
/// out.
pub proof fn lemma_free_code(codes: Seq<Seq<char>>)
    requires
        codes.len() < 0x100_0000,
    ensures
        exists|v: u128| !codes.contains(#[trigger] code_text(v)),
{
    if forall|v: u128| codes.contains(#[trigger] code_text(v)) {
        let x = vstd::set_lib::set_int_range(0, 0x100_0000);
        let f = |k: int| code_text(code_seed(k as u128));
        vstd::set_lib::lemma_int_range(0, 0x100_0000);
        assert(vstd::relations::injective_on(f, x)) by {
            assert forall|a: int, b: int| x.contains(a) && x.contains(b) && #[trigger] f(a) == #[trigger] f(b) implies a
                == b by {
                lemma_code_seed_injective(a as u128, b as u128);
            }
        }
        let y = x.map(f);
        vstd::set_lib::lemma_map_size(x, y, f);
        assert(y.subset_of(codes.to_set())) by {
            assert forall|c: Seq<char>| y.contains(c) implies codes.to_set().contains(c) by {
                let k = choose|k: int| x.contains(k) && f(k) == c;
                assert(codes.contains(code_text(code_seed(k as u128))));
            }
        }
        codes.lemma_cardinality_of_set();
        vstd::set_lib::lemma_len_subset(y, codes.to_set());
    }
}

} // verus!
