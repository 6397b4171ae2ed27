use vstd::prelude::*;
use vstd::arithmetic::power2::pow2;

verus! {

/// Byte `i` of `id`, counting from the least significant one: the order in
/// which a little-endian id lays out its sixteen bytes.
pub open spec fn le_byte(id: u128, i: nat) -> int {
    (id as int / pow2(8 * i) as int) % 256
}

/// The lowercase hexadecimal digit of `n` (0 to 15).
pub open spec fn hex_digit(n: int) -> char {
    if n < 10 {
        (n + 48) as char
    } else {
        (n + 87) as char
    }
}

/// The two lowercase hexadecimal digits of the byte `b`, high nibble first.
pub open spec fn byte_hex(b: int) -> Seq<char> {
    seq![hex_digit(b / 16), hex_digit(b % 16)]
}

/// The hex digits of the bytes `lo .. hi` of `id`, in byte order.
pub open spec fn hex_run(id: u128, lo: nat, hi: nat) -> Seq<char>
    decreases hi - lo,
{
    if lo >= hi {
        Seq::empty()
    } else {
        byte_hex(le_byte(id, lo)) + hex_run(id, (lo + 1) as nat, hi)
    }
}

/// The text under which a painter's strokes are stored: the id's bytes in
/// little-endian order, in lowercase hex, grouped 4-2-2-2-6 and joined by hyphens
/// (the hyphenated form of a UUID).
pub open spec fn user_id_text(id: u128) -> Seq<char> {
    hex_run(id, 0, 4) + seq!['-'] + hex_run(id, 4, 6) + seq!['-'] + hex_run(id, 6, 8)
        + seq!['-'] + hex_run(id, 8, 10) + seq!['-'] + hex_run(id, 10, 16)
}

/// Whether `id` carries the marks that every random (version 4) UUID carries:
/// the high nibble of byte 6 is 4 and the two high bits of byte 8 are `10`.
pub open spec fn is_random_uuid(id: u128) -> bool {
    &&& le_byte(id, 6) / 16 == 4
    &&& le_byte(id, 8) / 64 == 2
}

/// Formats `id` with `uuid::Uuid::from_u128_le` followed by `to_string`.
/// The uuid crate's `Display` writes the lowercase hyphenated form: the sixteen
/// bytes that `from_u128_le` takes from the integer (least significant first),
/// two hex digits each, with a hyphen after bytes 4, 6, 8 and 10; this is
/// what the contract claims.
#[verifier::external_body]
pub(crate) fn format_user_id(id: u128) -> (text: String)
    ensures
        text@ == user_id_text(id),
{
    uuid::Uuid::from_u128_le(id).to_string()
}

/// Draws a fresh id with `uuid::Uuid::new_v4` and reads it back with
/// `to_u128_le`. The bytes are random; the contract claims only the version
/// and variant bits that `new_v4` always sets.
#[verifier::external_body]
pub(crate) fn fresh_user_id() -> (id: u128)
    ensures
        is_random_uuid(id),
{
    uuid::Uuid::new_v4().to_u128_le()
}

/// The hex digits of bytes `lo .. hi` are two characters per byte, each a
/// lowercase hex digit.
pub proof fn lemma_hex_run_shape(id: u128, lo: nat, hi: nat)
    requires
        lo <= hi,
    ensures
        hex_run(id, lo, hi).len() == 2 * (hi - lo),
        forall|k: int|
            0 <= k < hex_run(id, lo, hi).len() ==> is_hex_char(#[trigger] hex_run(id, lo, hi)[k]),
    decreases hi - lo,
{
    if lo < hi {
        lemma_hex_run_shape(id, (lo + 1) as nat, hi);
        let b = le_byte(id, lo);
        assert(0 <= b < 256);
        assert(is_hex_char(hex_digit(b / 16)));
        assert(is_hex_char(hex_digit(b % 16)));
        let rest = hex_run(id, (lo + 1) as nat, hi);
        assert forall|k: int| 0 <= k < hex_run(id, lo, hi).len() implies is_hex_char(
            #[trigger] hex_run(id, lo, hi)[k],
        ) by {
            if k >= 2 {
                assert(hex_run(id, lo, hi)[k] == rest[k - 2]);
            }
        }
    }
}

/// A lowercase hexadecimal digit.
pub open spec fn is_hex_char(c: char) -> bool {
    ('0' <= c && c <= '9') || ('a' <= c && c <= 'f')
}

/// Every painter's id text is 36 characters long: lowercase hex digits with
/// hyphens at positions 8, 13, 18 and 23.
pub proof fn lemma_user_id_text_shape(id: u128)
    ensures
        user_id_text(id).len() == 36,
        forall|k: int|
            0 <= k < 36 ==> if k == 8 || k == 13 || k == 18 || k == 23 {
                #[trigger] user_id_text(id)[k] == '-'
            } else {
                ('0' <= user_id_text(id)[k] <= '9') || ('a' <= user_id_text(id)[k] <= 'f')
            },
{
    lemma_hex_run_shape(id, 0, 4);
    lemma_hex_run_shape(id, 4, 6);
    lemma_hex_run_shape(id, 6, 8);
    lemma_hex_run_shape(id, 8, 10);
    lemma_hex_run_shape(id, 10, 16);
    let t = user_id_text(id);
    let a = hex_run(id, 0, 4);
    let b = hex_run(id, 4, 6);
    let c = hex_run(id, 6, 8);
    let d = hex_run(id, 8, 10);
    let e = hex_run(id, 10, 16);
    assert forall|k: int| 0 <= k < 36 implies if k == 8 || k == 13 || k == 18 || k == 23 {
        #[trigger] t[k] == '-'
    } else {
        is_hex_char(t[k])
    } by {
        if k < 8 {
            assert(t[k] == a[k]);
        } else if 8 < k < 13 {
            assert(t[k] == b[k - 9]);
        } else if 13 < k < 18 {
            assert(t[k] == c[k - 14]);
        } else if 18 < k < 23 {
            assert(t[k] == d[k - 19]);
        } else if 23 < k {
            assert(t[k] == e[k - 24]);
        }
    }
}

/// Distinct digit values have distinct hex digits.
proof fn lemma_hex_digit_injective(x: int, y: int)
    requires
        0 <= x < 16,
        0 <= y < 16,
        hex_digit(x) == hex_digit(y),
    ensures
        x == y,
{
    assert(hex_digit(x) as int == if x < 10 { x + 48 } else { x + 87 });
    assert(hex_digit(y) as int == if y < 10 { y + 48 } else { y + 87 });
}

/// Equal hex runs come from ids whose bytes `lo .. hi` agree.
proof fn lemma_hex_run_injective(a: u128, b: u128, lo: nat, hi: nat)
    requires
        lo <= hi,
        hex_run(a, lo, hi) == hex_run(b, lo, hi),
    ensures
        forall|i: nat| lo <= i < hi ==> #[trigger] le_byte(a, i) == le_byte(b, i),
    decreases hi - lo,
{
    if lo < hi {
        let x = le_byte(a, lo);
        let y = le_byte(b, lo);
        let ra = hex_run(a, (lo + 1) as nat, hi);
        let rb = hex_run(b, (lo + 1) as nat, hi);
        assert(hex_run(a, lo, hi) == byte_hex(x) + ra);
        assert(hex_run(b, lo, hi) == byte_hex(y) + rb);
        assert(hex_run(a, lo, hi)[0] == hex_digit(x / 16));
        assert(hex_run(b, lo, hi)[0] == hex_digit(y / 16));
        assert(hex_run(a, lo, hi)[1] == hex_digit(x % 16));
        assert(hex_run(b, lo, hi)[1] == hex_digit(y % 16));
        lemma_hex_digit_injective(x / 16, y / 16);
        lemma_hex_digit_injective(x % 16, y % 16);
        assert(ra =~= hex_run(a, lo, hi).skip(2));
        assert(rb =~= hex_run(b, lo, hi).skip(2));
        lemma_hex_run_injective(a, b, (lo + 1) as nat, hi);
    }
}

/// Two ids whose low `k` bytes agree agree modulo `2^(8k)`.
proof fn lemma_low_bytes_agree(a: u128, b: u128, k: nat)
    requires
        forall|i: nat| i < k ==> #[trigger] le_byte(a, i) == le_byte(b, i),
    ensures
        a as int % pow2(8 * k) as int == b as int % pow2(8 * k) as int,
    decreases k,
{
    vstd::arithmetic::power2::lemma_pow2_pos(8 * k);
    if k == 0 {
        vstd::arithmetic::power2::lemma2_to64();
        assert(pow2(0) == 1);
    } else {
        let j = (k - 1) as nat;
        lemma_low_bytes_agree(a, b, j);
        let p = pow2(8 * j) as int;
        vstd::arithmetic::power2::lemma_pow2_pos(8 * j);
        vstd::arithmetic::power2::lemma_pow2_adds(8 * j, 8);
        vstd::arithmetic::power2::lemma2_to64();
        assert(8 * k == 8 * j + 8);
        assert(pow2(8 * k) as int == p * 256);
        vstd::arithmetic::div_mod::lemma_breakdown(a as int, p, 256);
        vstd::arithmetic::div_mod::lemma_breakdown(b as int, p, 256);
        assert(le_byte(a, j) == le_byte(b, j));
    }
}

/// Distinct painters are stored under distinct id texts: the text determines
/// the id.
pub proof fn lemma_user_id_text_injective(a: u128, b: u128)
    requires
        user_id_text(a) == user_id_text(b),
    ensures
        a == b,
{
    lemma_hex_run_shape(a, 0, 4);
    lemma_hex_run_shape(a, 4, 6);
    lemma_hex_run_shape(a, 6, 8);
    lemma_hex_run_shape(a, 8, 10);
    lemma_hex_run_shape(a, 10, 16);
    lemma_hex_run_shape(b, 0, 4);
    lemma_hex_run_shape(b, 4, 6);
    lemma_hex_run_shape(b, 6, 8);
    lemma_hex_run_shape(b, 8, 10);
    lemma_hex_run_shape(b, 10, 16);
    let ta = user_id_text(a);
    let tb = user_id_text(b);
    assert(hex_run(a, 0, 4) =~= ta.subrange(0, 8));
    assert(hex_run(b, 0, 4) =~= tb.subrange(0, 8));
    assert(hex_run(a, 4, 6) =~= ta.subrange(9, 13));
    assert(hex_run(b, 4, 6) =~= tb.subrange(9, 13));
    assert(hex_run(a, 6, 8) =~= ta.subrange(14, 18));
    assert(hex_run(b, 6, 8) =~= tb.subrange(14, 18));
    assert(hex_run(a, 8, 10) =~= ta.subrange(19, 23));
    assert(hex_run(b, 8, 10) =~= tb.subrange(19, 23));
    assert(hex_run(a, 10, 16) =~= ta.subrange(24, 36));
    assert(hex_run(b, 10, 16) =~= tb.subrange(24, 36));
    lemma_hex_run_injective(a, b, 0, 4);
    lemma_hex_run_injective(a, b, 4, 6);
    lemma_hex_run_injective(a, b, 6, 8);
    lemma_hex_run_injective(a, b, 8, 10);
    lemma_hex_run_injective(a, b, 10, 16);
    assert forall|i: nat| i < 16 implies #[trigger] le_byte(a, i) == le_byte(b, i) by {
        if i < 4 {
        } else if i < 6 {
        } else if i < 8 {
        } else if i < 10 {
        } else {
        }
    }
    lemma_low_bytes_agree(a, b, 16);
    vstd::arithmetic::power2::lemma2_to64();
    vstd::arithmetic::power2::lemma_pow2_adds(64, 64);
    assert(pow2(128) as int == 0x1_0000_0000_0000_0000_0000_0000_0000_0000);
    vstd::arithmetic::div_mod::lemma_small_mod(a as nat, pow2(128));
    vstd::arithmetic::div_mod::lemma_small_mod(b as nat, pow2(128));
}

/// The two hex digits of byte `i` sit at positions `2 * (i - lo)` and
/// `2 * (i - lo) + 1` of the run that starts at byte `lo`.
proof fn lemma_hex_run_at(id: u128, lo: nat, hi: nat, i: nat)
    requires
        lo <= i < hi,
    ensures
        hex_run(id, lo, hi).len() == 2 * (hi - lo),
        hex_run(id, lo, hi)[2 * (i - lo)] == hex_digit(le_byte(id, i) / 16),
        hex_run(id, lo, hi)[2 * (i - lo) + 1] == hex_digit(le_byte(id, i) % 16),
    decreases i - lo,
{
    lemma_hex_run_shape(id, lo, hi);
    let rest = hex_run(id, (lo + 1) as nat, hi);
    assert(hex_run(id, lo, hi) == byte_hex(le_byte(id, lo)) + rest);
    if i > lo {
        lemma_hex_run_at(id, (lo + 1) as nat, hi, i);
        assert(hex_run(id, lo, hi)[2 * (i - lo)] == rest[2 * (i - lo) - 2]);
        assert(hex_run(id, lo, hi)[2 * (i - lo) + 1] == rest[2 * (i - lo) - 1]);
    }
}

/// Where byte `i` of an id is written in its text: two characters per byte,
/// plus one for each hyphen before it.
pub open spec fn byte_position(i: int) -> int {
    2 * i + if i < 4 {
        0int
    } else if i < 6 {
        1int
    } else if i < 8 {
        2int
    } else if i < 10 {
        3int
    } else {
        4int
    }
}

/// The text of an id writes each of its sixteen bytes, least significant
/// first, as two lowercase hex digits, high nibble first: reading the two
/// digits of byte `i` back gives `(id / 256^i) % 256`.
pub proof fn lemma_user_id_text_bytes(id: u128, i: int)
    requires
        0 <= i < 16,
    ensures
        ({
            let t = user_id_text(id);
            let hi = t[byte_position(i)];
            let lo = t[byte_position(i) + 1];
            &&& ('0' <= hi <= '9' || 'a' <= hi <= 'f')
            &&& ('0' <= lo <= '9' || 'a' <= lo <= 'f')
            &&& (if hi <= '9' { hi as int - 48 } else { hi as int - 87 }) * 16 + (if lo <= '9' {
                lo as int - 48
            } else {
                lo as int - 87
            }) == (id as int / pow2(8 * (i as nat)) as int) % 256
        }),
{
    let t = user_id_text(id);
    let n = i as nat;
    lemma_hex_run_shape(id, 0, 4);
    lemma_hex_run_shape(id, 4, 6);
    lemma_hex_run_shape(id, 6, 8);
    lemma_hex_run_shape(id, 8, 10);
    lemma_hex_run_shape(id, 10, 16);
    let (lo_b, hi_b, start): (nat, nat, int) = if i < 4 {
        (0, 4, 0)
    } else if i < 6 {
        (4, 6, 9)
    } else if i < 8 {
        (6, 8, 14)
    } else if i < 10 {
        (8, 10, 19)
    } else {
        (10, 16, 24)
    };
    lemma_hex_run_at(id, lo_b, hi_b, n);
    let run = hex_run(id, lo_b, hi_b);
    assert(t[byte_position(i)] == run[2 * (n - lo_b)]);
    assert(t[byte_position(i) + 1] == run[2 * (n - lo_b) + 1]);
    let b = le_byte(id, n);
    assert(0 <= b < 256);
    let h = hex_digit(b / 16);
    let l = hex_digit(b % 16);
    assert(h as int == if b / 16 < 10 { b / 16 + 48 } else { b / 16 + 87 });
    assert(l as int == if b % 16 < 10 { b % 16 + 48 } else { b % 16 + 87 });
}

} // verus!
