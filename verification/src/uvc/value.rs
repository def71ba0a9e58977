//! Reading and writing control values in a control's data.

use crate::text::same;
use crate::uvc::table::{layout_ok, ControlDef};
use vstd::arithmetic::div_mod::*;
use vstd::prelude::*;

verus! {

/// 256 to the power `n`: how many values `n` bytes can hold.
pub open spec fn pow256(n: nat) -> nat
    decreases n,
{
    if n == 0 {
        1
    } else {
        256 * pow256((n - 1) as nat)
    }
}

/// The number that bytes spell, least significant byte first.
pub open spec fn le_value(bytes: Seq<u8>) -> nat
    decreases bytes.len(),
{
    if bytes.len() == 0 {
        0
    } else {
        bytes[0] as nat + 256 * le_value(bytes.drop_first())
    }
}

/// The `n` low bytes of an integer in two's complement, least significant
/// byte first.
pub open spec fn le_bytes(v: int, n: nat) -> Seq<u8>
    decreases n,
{
    if n == 0 {
        Seq::empty()
    } else {
        seq![(v % 256) as u8] + le_bytes(v / 256, (n - 1) as nat)
    }
}

/// The smallest value that a control's bytes can hold.
pub open spec fn value_min(def: ControlDef) -> int {
    if def.signed {
        -((pow256(def.len as nat) / 2) as int)
    } else {
        0
    }
}

/// The largest value that a control's bytes can hold.
pub open spec fn value_max(def: ControlDef) -> int {
    if def.signed {
        pow256(def.len as nat) / 2 - 1
    } else {
        pow256(def.len as nat) - 1
    }
}

/// The value of a control in `data`; none where the data is too short. A
/// value of eight bytes is taken as signed in any case.
pub open spec fn decode_spec(def: ControlDef, data: Seq<u8>) -> Option<i64> {
    let end = def.offset + def.len;
    if end > data.len() {
        None
    } else {
        let u = le_value(data.subrange(def.offset as int, end));
        let count = pow256(def.len as nat);
        if (def.signed || def.len == 8) && 2 * u >= count {
            Some((u - count) as i64)
        } else {
            Some(u as i64)
        }
    }
}

/// `data` with the bytes of a control's value replaced.
pub open spec fn encode_spec(def: ControlDef, value: int, data: Seq<u8>) -> Seq<u8> {
    data.take(def.offset as int) + le_bytes(value, def.len as nat) + data.skip(
        def.offset + def.len,
    )
}

proof fn lemma_pow256_values()
    ensures
        pow256(0) == 1,
        pow256(1) == 0x100,
        pow256(2) == 0x1_0000,
        pow256(3) == 0x100_0000,
        pow256(4) == 0x1_0000_0000,
        pow256(5) == 0x100_0000_0000,
        pow256(6) == 0x1_0000_0000_0000,
        pow256(7) == 0x100_0000_0000_0000,
        pow256(8) == 0x1_0000_0000_0000_0000,
{
    reveal_with_fuel(pow256, 9);
}

proof fn lemma_le_value_bound(bytes: Seq<u8>)
    ensures
        le_value(bytes) < pow256(bytes.len()),
    decreases bytes.len(),
{
    if bytes.len() > 0 {
        lemma_le_value_bound(bytes.drop_first());
    }
}

proof fn lemma_le_bytes_len(v: int, n: nat)
    ensures
        le_bytes(v, n).len() == n,
    decreases n,
{
    if n > 0 {
        lemma_le_bytes_len(v / 256, (n - 1) as nat);
    }
}

/// The low bytes of an integer do not change when a multiple of what they can
/// count is added.
proof fn lemma_le_bytes_shift(v: int, n: nat, k: nat)
    requires
        n <= k,
    ensures
        le_bytes(v + pow256(k), n) == le_bytes(v, n),
    decreases n,
{
    if n > 0 {
        let m = pow256((k - 1) as nat) as int;
        assert(v + pow256(k) == v + 256 * m);
        assert((v + 256 * m) % 256 == v % 256);
        assert((v + 256 * m) / 256 == v / 256 + m);
        lemma_le_bytes_shift(v / 256, (n - 1) as nat, (k - 1) as nat);
    }
}

/// Reading the low bytes of an integer back gives it modulo what the bytes
/// can count.
proof fn lemma_le_round_trip(v: int, n: nat)
    ensures
        le_value(le_bytes(v, n)) == v % (pow256(n) as int),
    decreases n,
{
    if n > 0 {
        let p = pow256((n - 1) as nat) as int;
        let q = v / 256;
        lemma_le_round_trip(q, (n - 1) as nat);
        assert(le_bytes(v, n).drop_first() =~= le_bytes(q, (n - 1) as nat));
        lemma_pow256_positive((n - 1) as nat);
        let s = q % p;
        let k = q / p;
        lemma_fundamental_div_mod(q, p);
        lemma_mod_bound(q, p);
        let r = 256 * s + v % 256;
        assert(v == k * (256 * p) + r) by (nonlinear_arith)
            requires
                v == 256 * q + v % 256,
                q == p * k + s,
                r == 256 * s + v % 256,
        ;
        lemma_fundamental_div_mod_converse(v, 256 * p, k, r);
    }
}

proof fn lemma_pow256_positive(n: nat)
    ensures
        pow256(n) >= 1,
    decreases n,
{
    if n > 0 {
        lemma_pow256_positive((n - 1) as nat);
    }
}

/// Reads a control value out of the control's data.
pub fn decode(def: &ControlDef, data: &[u8]) -> (r: Option<i64>)
    requires
        def.offset + def.len <= data.len() ==> def.len <= 8 && (def.signed ==> def.len > 0),
    ensures
        r == decode_spec(*def, data@),
{
    let o: usize = def.offset as usize;
    let n: usize = def.len as usize;
    if o + n > data.len() {
        return None;
    }
    let ghost bytes = data@.subrange(o as int, o + n);
    let mut u: u128 = 0;
    let mut count: u128 = 1;
    let mut i: usize = n;
    assert(bytes.skip(n as int) =~= Seq::empty());
    proof {
        lemma_pow256_values();
    }
    while i > 0
        invariant
            i <= n <= 8,
            o <= 255,
            o + n <= data.len(),
            bytes == data@.subrange(o as int, o + n),
            u == le_value(bytes.skip(i as int)),
            u < count,
            count == pow256((n - i) as nat),
            count <= 0x1_0000_0000_0000_0000,
        decreases i,
    {
        i = i - 1;
        proof {
            lemma_pow256_values();
            assert(bytes.skip(i as int).drop_first() =~= bytes.skip(i + 1));
            assert(bytes.skip(i as int)[0] == data@[o + i]);
            assert(pow256((n - i) as nat) == 256 * pow256((n - i - 1) as nat));
            assert(n - i == 1 || n - i == 2 || n - i == 3 || n - i == 4 || n - i == 5 || n - i == 6
                || n - i == 7 || n - i == 8);
        }
        u = u * 256 + data[o + i] as u128;
        count = count * 256;
    }
    assert(bytes.skip(0) =~= bytes);
    proof {
        lemma_pow256_values();
        assert(n == 0 || n == 1 || n == 2 || n == 3 || n == 4 || n == 5 || n == 6 || n == 7 || n
            == 8);
    }
    if (def.signed || n == 8) && 2 * u >= count {
        Some((u as i128 - count as i128) as i64)
    } else {
        Some(u as i64)
    }
}

/// Writes a control value into the control's data.
pub fn encode(def: &ControlDef, value: i64, data: &mut [u8])
    requires
        def.len <= 8,
        def.offset + def.len <= old(data)@.len(),
    ensures
        final(data)@ == encode_spec(*def, value as int, old(data)@),
{
    let o: usize = def.offset as usize;
    let n: usize = def.len as usize;
    let ghost before = data@;
    let mut u: u128 = if value >= 0 {
        value as u128
    } else {
        (value as i128 + 0x1_0000_0000_0000_0000i128) as u128
    };
    let ghost start = u as int;
    proof {
        lemma_pow256_values();
        lemma_le_bytes_shift(value as int, n as nat, 8);
        assert(le_bytes(start, n as nat) == le_bytes(value as int, n as nat));
        lemma_le_bytes_len(value as int, n as nat);
    }
    let mut i: usize = 0;
    assert(before.take(o as int) + before.subrange(o as int, before.len() as int) =~= before);
    assert(le_bytes(start, n as nat).take(0) + le_bytes(u as int, n as nat) =~= le_bytes(
        start,
        n as nat,
    ));
    while i < n
        invariant
            i <= n <= 8,
            o <= 255,
            data@.len() == before.len(),
            o + n <= before.len(),
            le_bytes(start, n as nat).len() == n,
            le_bytes(start, n as nat) == le_bytes(start, n as nat).take(i as int) + le_bytes(
                u as int,
                (n - i) as nat,
            ),
            forall|j: int| 0 <= j < o ==> data@[j] == before[j],
            forall|j: int|
                o <= j < o + i ==> data@[j] == le_bytes(start, n as nat)[j - o],
            forall|j: int| o + i <= j < before.len() ==> data@[j] == before[j],
        decreases n - i,
    {
        proof {
            let all = le_bytes(start, n as nat);
            let rest = le_bytes(u as int, (n - i) as nat);
            assert(rest == seq![(u % 256) as u8] + le_bytes(u as int / 256, (n - i - 1) as nat));
            assert(all[i as int] == rest[0]);
            assert(all =~= all.take(i + 1) + le_bytes(u as int / 256, (n - i - 1) as nat)) by {
                lemma_le_bytes_len(u as int / 256, (n - i - 1) as nat);
                assert forall|j: int| i + 1 <= j < n implies all[j] == le_bytes(
                    u as int / 256,
                    (n - i - 1) as nat,
                )[j - i - 1] by {
                    assert(all[j] == rest[j - i]);
                }
            }
        }
        data[o + i] = (u % 256) as u8;
        u = u / 256;
        i = i + 1;
    }
    assert(data@ =~= encode_spec(*def, value as int, before));
}

/// The mains frequency that a raw power line code stands for; any other
/// control shows its raw value.
pub open spec fn display_spec(def: ControlDef, raw: i64) -> i64 {
    if def.name@ == "powerline"@ && raw == 1 {
        50
    } else if def.name@ == "powerline"@ && raw == 2 {
        60
    } else {
        raw
    }
}

/// Translates the raw power line code back for `/controls`.
pub fn display_value(def: &ControlDef, raw: i64) -> (r: i64)
    ensures
        r == display_spec(*def, raw),
{
    if same(def.name, "powerline") {
        match raw {
            1 => 50,
            2 => 60,
            _ => raw,
        }
    } else {
        raw
    }
}

/// The automatic exposure mode to ask for: aperture priority (8) before plain
/// auto (2) before shutter priority (4), among the modes in the bitmap.
pub open spec fn auto_ae_mode_spec(supported: u8) -> Option<u8> {
    if supported & 8 != 0 {
        Some(8)
    } else if supported & 2 != 0 {
        Some(2)
    } else if supported & 4 != 0 {
        Some(4)
    } else {
        None
    }
}

/// Picks the AE mode bit to set for "automatic exposure" from the bitmap of
/// modes the camera supports (from GET_RES): aperture priority is what
/// webcams implement; plain auto is the fallback.
pub fn auto_ae_mode(supported: u8) -> (r: Option<u8>)
    ensures
        r == auto_ae_mode_spec(supported),
{
    if supported & 8 != 0 {
        Some(8)
    } else if supported & 2 != 0 {
        Some(2)
    } else if supported & 4 != 0 {
        Some(4)
    } else {
        None
    }
}

proof fn lemma_le_value_to_bytes(bytes: Seq<u8>)
    ensures
        le_bytes(le_value(bytes) as int, bytes.len()) == bytes,
    decreases bytes.len(),
{
    if bytes.len() > 0 {
        let rest = bytes.drop_first();
        lemma_le_value_to_bytes(rest);
        let v = le_value(bytes) as int;
        assert(v % 256 == bytes[0] as int);
        assert(v / 256 == le_value(rest) as int);
        assert(le_bytes(v, bytes.len()) =~= bytes);
    }
}

/// What is written is read back, for every value that the control's bytes can
/// hold; the data keeps its length and all bytes outside the value.
pub proof fn law_written_value_is_read_back(def: ControlDef, value: i64, data: Seq<u8>)
    requires
        1 <= def.len <= 8,
        value_min(def) <= value <= value_max(def),
        def.offset + def.len <= data.len(),
    ensures
        decode_spec(def, encode_spec(def, value as int, data)) == Some(value),
        encode_spec(def, value as int, data).len() == data.len(),
        forall|i: int|
            0 <= i < data.len() && !(def.offset <= i < def.offset + def.len) ==> encode_spec(
                def,
                value as int,
                data,
            )[i] == #[trigger] data[i],
{
    let n = def.len as nat;
    let v = value as int;
    let out = encode_spec(def, v, data);
    let count = pow256(n) as int;
    lemma_le_bytes_len(v, n);
    assert(out.subrange(def.offset as int, def.offset + def.len) =~= le_bytes(v, n));
    lemma_le_round_trip(v, n);
    lemma_pow256_values();
    assert(n == 1 || n == 2 || n == 3 || n == 4 || n == 5 || n == 6 || n == 7 || n == 8);
    if v < 0 {
        lemma_fundamental_div_mod_converse(v, count, -1, v + count);
    } else {
        lemma_small_mod(v as nat, count as nat);
    }
}

/// Writing one control leaves the value of another in the same data alone
/// where their bytes do not overlap (pan and tilt travel together).
pub proof fn law_other_value_is_kept(
    written: ControlDef,
    value: i64,
    other: ControlDef,
    data: Seq<u8>,
)
    requires
        written.offset + written.len <= data.len(),
        written.offset + written.len <= other.offset || other.offset + other.len <= written.offset,
    ensures
        decode_spec(other, encode_spec(written, value as int, data)) == decode_spec(other, data),
{
    lemma_le_bytes_len(value as int, written.len as nat);
    let out = encode_spec(written, value as int, data);
    let end = other.offset + other.len;
    assert(out.len() == data.len());
    if end <= data.len() {
        assert(out.subrange(other.offset as int, end) =~= data.subrange(other.offset as int, end));
    }
}

/// Writing the value that was read changes nothing, and a value that was read
/// is one that the control's bytes can hold.
pub proof fn law_read_value_writes_back(def: ControlDef, data: Seq<u8>)
    requires
        layout_ok(def),
        def.signed || def.len < 8,
    ensures
        match decode_spec(def, data) {
            Some(v) => {
                &&& def.offset + def.len <= data.len()
                &&& value_min(def) <= v <= value_max(def)
                &&& encode_spec(def, v as int, data) == data
            },
            None => def.offset + def.len > data.len(),
        },
{
    let end = def.offset + def.len;
    if end <= data.len() {
        let n = def.len as nat;
        let bytes = data.subrange(def.offset as int, end);
        let u = le_value(bytes);
        let v = decode_spec(def, data)->0;
        lemma_le_value_bound(bytes);
        lemma_le_value_to_bytes(bytes);
        lemma_pow256_values();
        assert(n == 1 || n == 2 || n == 3 || n == 4 || n == 5 || n == 6 || n == 7 || n == 8);
        if v < 0 {
            assert(v + pow256(n) == u);
            lemma_le_bytes_shift(v as int, n, n);
        }
        assert(encode_spec(def, v as int, data) =~= data);
    }
}

/// A mode picked for automatic exposure is one that the camera offers and is
/// not the manual mode; none is picked only where the camera offers no mode
/// but manual.
pub proof fn law_auto_ae_mode_is_offered(supported: u8)
    ensures
        match auto_ae_mode_spec(supported) {
            Some(m) => supported & m == m && m != 1,
            None => supported & 14 == 0,
        },
{
    assert(supported & 8 != 0 ==> supported & 8 == 8) by (bit_vector);
    assert(supported & 2 != 0 ==> supported & 2 == 2) by (bit_vector);
    assert(supported & 4 != 0 ==> supported & 4 == 4) by (bit_vector);
    assert(supported & 8 == 0 && supported & 2 == 0 && supported & 4 == 0 ==> supported & 14 == 0)
        by (bit_vector);
}

/// The bytes of a value stand in its control's data from the offset on, lowest
/// byte first, in two's complement; the bytes around them are kept.
pub proof fn law_bytes_of_a_value(def: ControlDef, v: i64, data: Seq<u8>, i: int)
    requires
        def.offset + def.len <= data.len(),
    ensures
        encode_spec(def, v as int, data).len() == data.len(),
        def.len > 0 ==> encode_spec(def, v as int, data)[def.offset as int] == v as int % 256,
        0 < i < def.len ==> encode_spec(def, v as int, data)[def.offset + i] == encode_spec(
            def,
            v as int / 256,
            data,
        )[def.offset + i - 1],
        0 <= i < data.len() && !(def.offset <= i < def.offset + def.len) ==> encode_spec(
            def,
            v as int,
            data,
        )[i] == data[i],
{
    let n = def.len as nat;
    lemma_le_bytes_len(v as int, n);
    lemma_le_bytes_len(v as int / 256, n);
    if 0 < i < def.len {
        lemma_le_bytes_prefix(v as int / 256, (n - 1) as nat, n, i - 1);
        assert(le_bytes(v as int, n)[i] == le_bytes(v as int / 256, (n - 1) as nat)[i - 1]);
    }
}

/// How many bytes are written does not matter for those that are.
proof fn lemma_le_bytes_prefix(v: int, m: nat, n: nat, i: int)
    requires
        0 <= i < m <= n,
    ensures
        le_bytes(v, m)[i] == le_bytes(v, n)[i],
    decreases m,
{
    lemma_le_bytes_len(v, m);
    lemma_le_bytes_len(v, n);
    if i > 0 {
        lemma_le_bytes_len(v / 256, (m - 1) as nat);
        lemma_le_bytes_len(v / 256, (n - 1) as nat);
        lemma_le_bytes_prefix(v / 256, (m - 1) as nat, (n - 1) as nat, i - 1);
    }
}

/// The control that holds all but the lowest byte of another one's value.
pub open spec fn upper_bytes(def: ControlDef) -> ControlDef {
    ControlDef { offset: (def.offset + 1) as u8, len: (def.len - 1) as u8, ..def }
}

/// A value is read from its bytes, lowest byte first: one byte counts up to
/// 255, or from 128 on downwards from zero where the control is signed; each
/// byte more counts 256 times as much. Data that is too short has no value.
pub proof fn law_value_of_bytes(def: ControlDef, data: Seq<u8>)
    requires
        1 <= def.len < 8,
        def.offset < 255,
    ensures
        def.offset + def.len > data.len() <==> decode_spec(def, data) is None,
        def.offset + def.len <= data.len() ==> {
            let low = data[def.offset as int];
            &&& def.len == 1 && !def.signed ==> decode_spec(def, data) == Some(low as i64)
            &&& def.len == 1 && def.signed ==> decode_spec(def, data) == Some(
                if low < 128 {
                    low as i64
                } else {
                    (low - 256) as i64
                },
            )
            &&& def.len > 1 ==> (decode_spec(upper_bytes(def), data) matches Some(high)
                && decode_spec(def, data) == Some((low + 256 * high) as i64))
        },
{
    let end = def.offset + def.len;
    if end <= data.len() {
        let bytes = data.subrange(def.offset as int, end);
        let rest = bytes.drop_first();
        lemma_pow256_values();
        lemma_le_value_bound(bytes);
        lemma_le_value_bound(rest);
        assert(bytes[0] == data[def.offset as int]);
        assert(rest =~= data.subrange(def.offset + 1, end));
        assert(le_value(bytes) == bytes[0] + 256 * le_value(rest));
        assert(pow256(def.len as nat) == 256 * pow256((def.len - 1) as nat));
        if def.len == 1 {
            assert(rest =~= Seq::empty());
            assert(le_value(rest) == 0);
        } else {
            let n = def.len;
            assert(n == 2 || n == 3 || n == 4 || n == 5 || n == 6 || n == 7);
        }
    }
}

/// Mains frequencies are shown in hertz; every other value is shown as it is.
pub proof fn law_shown_values(def: ControlDef, raw: i64)
    ensures
        def.name@ == "powerline"@ ==> display_spec(def, 1) == 50 && display_spec(def, 2) == 60,
        !(def.name@ == "powerline"@ && (raw == 1 || raw == 2)) ==> display_spec(def, raw) == raw,
{
}

/// Of the automatic exposure modes on offer, aperture priority is taken before
/// plain automatic and that before shutter priority; manual is never taken.
pub proof fn law_exposure_mode_preference(offered: u8)
    ensures
        auto_ae_mode_spec(offered) == (if (offered / 8) % 2 == 1 {
            Some(8u8)
        } else if (offered / 2) % 2 == 1 {
            Some(2u8)
        } else if (offered / 4) % 2 == 1 {
            Some(4u8)
        } else {
            None
        }),
{
    assert((offered & 8 != 0) == ((offered / 8) % 2 == 1)) by (bit_vector);
    assert((offered & 2 != 0) == ((offered / 2) % 2 == 1)) by (bit_vector);
    assert((offered & 4 != 0) == ((offered / 4) % 2 == 1)) by (bit_vector);
}

} // verus!
