//! Colour-space kernels: sRGB companding and the HSL / HSV hexcone
//! models, in exact fixed-point arithmetic.
//!
//! Working scales: hue lives on `[0, 1536)` (256 units per hexcone
//! sextant, so 1536 units are a full turn of 360 degrees); saturation on
//! `[0, 65536]` (65536 is full saturation); HSL lightness on `[0, 510]`
//! (the sum of the largest and smallest channel, so 510 is white); HSV
//! value on `[0, 255]`; linear light on `[0, 100000]` (100000 is full
//! intensity).  The scales are wide enough that converting a channel to
//! a colour space and back reproduces it exactly, which is proved below.

use vstd::prelude::*;
use vstd::arithmetic::div_mod::lemma_fundamental_div_mod;
use vstd::arithmetic::div_mod::lemma_fundamental_div_mod_converse;

verus! {

/// Division rounded to nearest (ties away from zero), on non-negative
/// arguments.
pub open spec fn round_div(a: int, b: int) -> int
    recommends
        0 <= a,
        0 < b,
{
    (2 * a + b) / (2 * b)
}

/// `round_div(a, b)` differs from the exact quotient `a / b` by at most
/// one half: `-b <= 2 * (a - round_div(a, b) * b) < b`.
pub proof fn lemma_round_div_char(a: int, b: int)
    requires
        0 <= a,
        0 < b,
    ensures
        -b <= 2 * (a - round_div(a, b) * b) < b,
        0 <= round_div(a, b),
{
    let q = round_div(a, b);
    let r = (2 * a + b) % (2 * b);
    lemma_fundamental_div_mod(2 * a + b, 2 * b);
    assert(2 * a + b == 2 * b * q + r);
    assert(0 <= r < 2 * b);
    assert(-b <= 2 * (a - q * b) < b && 0 <= q) by (nonlinear_arith)
        requires
            2 * a + b == 2 * b * q + r,
            0 <= r < 2 * b,
            0 <= a,
            0 < b,
    ;
}

/// Scaling `v` up by `k / d` with rounding and back down by `d / k`
/// with rounding is the identity whenever `v <= d < k`: the denominator
/// is small enough that no information is lost.
pub proof fn lemma_round_div_exact(v: int, d: int, k: int)
    requires
        0 <= v <= d,
        0 < d < k,
    ensures
        round_div(round_div(v * k, d) * d, k) == v,
{
    let q = round_div(v * k, d);
    lemma_round_div_char(v * k, d);
    assert(0 <= q * d) by (nonlinear_arith)
        requires
            0 <= q,
            0 < d,
    ;
    let w = round_div(q * d, k);
    lemma_round_div_char(q * d, k);
    assert(w == v) by (nonlinear_arith)
        requires
            -d <= 2 * (v * k - q * d) < d,
            -k <= 2 * (q * d - w * k) < k,
            0 < d < k,
            0 <= v,
            0 <= w,
    ;
}

/// `round_div(v * k, d)` stays within `[0, k]` when `v <= d`, and is at
/// least one when `1 <= v` and `d <= k`.
pub proof fn lemma_round_div_range(v: int, d: int, k: int)
    requires
        0 <= v <= d,
        0 < d,
        0 < k,
    ensures
        0 <= round_div(v * k, d) <= k,
        (1 <= v && d <= k) ==> 1 <= round_div(v * k, d),
{
    let q = round_div(v * k, d);
    lemma_round_div_char(v * k, d);
    assert(q <= k && ((1 <= v && d <= k) ==> 1 <= q)) by (nonlinear_arith)
        requires
            -d <= 2 * (v * k - q * d) < d,
            0 <= v <= d,
            0 < d,
            0 < k,
            0 <= q,
    ;
}

/// Rounded division, executable form.
pub fn round_div_u32(a: u32, b: u32) -> (r: u32)
    requires
        0 < b,
        2 * (a as int) + (b as int) <= u32::MAX,
        2 * (b as int) <= u32::MAX,
    ensures
        r as int == round_div(a as int, b as int),
{
    (2 * a + b) / (2 * b)
}

/// Linear light of an sRGB channel byte, scaled by 100000: entry `c` is
/// `round(100000 * f(c / 255))` where `f` is the sRGB inverse companding
/// curve, `f(s) = s / 12.92` for `s <= 0.04045` and
/// `f(s) = ((s + 0.055) / 1.055)^2.4` above.
#[verifier::opaque]
pub open spec fn srgb_linear(c: u8) -> u32 {
    match c {
        0u8 => 0u32, 1u8 => 30u32, 2u8 => 61u32, 3u8 => 91u32,
        4u8 => 121u32, 5u8 => 152u32, 6u8 => 182u32, 7u8 => 212u32,
        8u8 => 243u32, 9u8 => 273u32, 10u8 => 304u32, 11u8 => 335u32,
        12u8 => 368u32, 13u8 => 402u32, 14u8 => 439u32, 15u8 => 478u32,
        16u8 => 518u32, 17u8 => 561u32, 18u8 => 605u32, 19u8 => 651u32,
        20u8 => 700u32, 21u8 => 750u32, 22u8 => 802u32, 23u8 => 857u32,
        24u8 => 913u32, 25u8 => 972u32, 26u8 => 1033u32, 27u8 => 1096u32,
        28u8 => 1161u32, 29u8 => 1229u32, 30u8 => 1298u32, 31u8 => 1370u32,
        32u8 => 1444u32, 33u8 => 1521u32, 34u8 => 1600u32, 35u8 => 1681u32,
        36u8 => 1764u32, 37u8 => 1850u32, 38u8 => 1938u32, 39u8 => 2029u32,
        40u8 => 2122u32, 41u8 => 2217u32, 42u8 => 2315u32, 43u8 => 2416u32,
        44u8 => 2519u32, 45u8 => 2624u32, 46u8 => 2732u32, 47u8 => 2843u32,
        48u8 => 2956u32, 49u8 => 3071u32, 50u8 => 3190u32, 51u8 => 3310u32,
        52u8 => 3434u32, 53u8 => 3560u32, 54u8 => 3689u32, 55u8 => 3820u32,
        56u8 => 3955u32, 57u8 => 4092u32, 58u8 => 4231u32, 59u8 => 4374u32,
        60u8 => 4519u32, 61u8 => 4667u32, 62u8 => 4817u32, 63u8 => 4971u32,
        64u8 => 5127u32, 65u8 => 5286u32, 66u8 => 5448u32, 67u8 => 5613u32,
        68u8 => 5781u32, 69u8 => 5951u32, 70u8 => 6125u32, 71u8 => 6301u32,
        72u8 => 6480u32, 73u8 => 6663u32, 74u8 => 6848u32, 75u8 => 7036u32,
        76u8 => 7227u32, 77u8 => 7421u32, 78u8 => 7619u32, 79u8 => 7819u32,
        80u8 => 8022u32, 81u8 => 8228u32, 82u8 => 8438u32, 83u8 => 8650u32,
        84u8 => 8866u32, 85u8 => 9084u32, 86u8 => 9306u32, 87u8 => 9531u32,
        88u8 => 9759u32, 89u8 => 9990u32, 90u8 => 10224u32, 91u8 => 10462u32,
        92u8 => 10702u32, 93u8 => 10946u32, 94u8 => 11193u32, 95u8 => 11444u32,
        96u8 => 11697u32, 97u8 => 11954u32, 98u8 => 12214u32, 99u8 => 12477u32,
        100u8 => 12744u32, 101u8 => 13014u32, 102u8 => 13287u32, 103u8 => 13563u32,
        104u8 => 13843u32, 105u8 => 14126u32, 106u8 => 14413u32, 107u8 => 14703u32,
        108u8 => 14996u32, 109u8 => 15293u32, 110u8 => 15593u32, 111u8 => 15896u32,
        112u8 => 16203u32, 113u8 => 16513u32, 114u8 => 16827u32, 115u8 => 17144u32,
        116u8 => 17465u32, 117u8 => 17789u32, 118u8 => 18116u32, 119u8 => 18447u32,
        120u8 => 18782u32, 121u8 => 19120u32, 122u8 => 19462u32, 123u8 => 19807u32,
        124u8 => 20156u32, 125u8 => 20508u32, 126u8 => 20864u32, 127u8 => 21223u32,
        128u8 => 21586u32, 129u8 => 21953u32, 130u8 => 22323u32, 131u8 => 22697u32,
        132u8 => 23074u32, 133u8 => 23455u32, 134u8 => 23840u32, 135u8 => 24228u32,
        136u8 => 24620u32, 137u8 => 25016u32, 138u8 => 25415u32, 139u8 => 25818u32,
        140u8 => 26225u32, 141u8 => 26636u32, 142u8 => 27050u32, 143u8 => 27468u32,
        144u8 => 27889u32, 145u8 => 28315u32, 146u8 => 28744u32, 147u8 => 29177u32,
        148u8 => 29614u32, 149u8 => 30054u32, 150u8 => 30499u32, 151u8 => 30947u32,
        152u8 => 31399u32, 153u8 => 31855u32, 154u8 => 32314u32, 155u8 => 32778u32,
        156u8 => 33245u32, 157u8 => 33716u32, 158u8 => 34191u32, 159u8 => 34670u32,
        160u8 => 35153u32, 161u8 => 35640u32, 162u8 => 36131u32, 163u8 => 36625u32,
        164u8 => 37124u32, 165u8 => 37626u32, 166u8 => 38133u32, 167u8 => 38643u32,
        168u8 => 39157u32, 169u8 => 39676u32, 170u8 => 40198u32, 171u8 => 40724u32,
        172u8 => 41254u32, 173u8 => 41789u32, 174u8 => 42327u32, 175u8 => 42869u32,
        176u8 => 43415u32, 177u8 => 43966u32, 178u8 => 44520u32, 179u8 => 45079u32,
        180u8 => 45641u32, 181u8 => 46208u32, 182u8 => 46778u32, 183u8 => 47353u32,
        184u8 => 47932u32, 185u8 => 48515u32, 186u8 => 49102u32, 187u8 => 49693u32,
        188u8 => 50289u32, 189u8 => 50888u32, 190u8 => 51492u32, 191u8 => 52100u32,
        192u8 => 52712u32, 193u8 => 53328u32, 194u8 => 53948u32, 195u8 => 54572u32,
        196u8 => 55201u32, 197u8 => 55834u32, 198u8 => 56471u32, 199u8 => 57112u32,
        200u8 => 57758u32, 201u8 => 58408u32, 202u8 => 59062u32, 203u8 => 59720u32,
        204u8 => 60383u32, 205u8 => 61050u32, 206u8 => 61721u32, 207u8 => 62396u32,
        208u8 => 63076u32, 209u8 => 63760u32, 210u8 => 64448u32, 211u8 => 65141u32,
        212u8 => 65837u32, 213u8 => 66539u32, 214u8 => 67244u32, 215u8 => 67954u32,
        216u8 => 68669u32, 217u8 => 69387u32, 218u8 => 70110u32, 219u8 => 70838u32,
        220u8 => 71569u32, 221u8 => 72306u32, 222u8 => 73046u32, 223u8 => 73791u32,
        224u8 => 74540u32, 225u8 => 75294u32, 226u8 => 76052u32, 227u8 => 76815u32,
        228u8 => 77582u32, 229u8 => 78354u32, 230u8 => 79130u32, 231u8 => 79910u32,
        232u8 => 80695u32, 233u8 => 81485u32, 234u8 => 82279u32, 235u8 => 83077u32,
        236u8 => 83880u32, 237u8 => 84687u32, 238u8 => 85499u32, 239u8 => 86316u32,
        240u8 => 87137u32, 241u8 => 87962u32, 242u8 => 88792u32, 243u8 => 89627u32,
        244u8 => 90466u32, 245u8 => 91310u32, 246u8 => 92158u32, 247u8 => 93011u32,
        248u8 => 93869u32, 249u8 => 94731u32, 250u8 => 95597u32, 251u8 => 96469u32,
        252u8 => 97345u32, 253u8 => 98225u32, 254u8 => 99110u32,
        _ => 100000u32,
    }
}

/// Executable lookup of [`srgb_linear`].
pub fn srgb_linearize(c: u8) -> (r: u32)
    ensures
        r == srgb_linear(c),
        r <= 100000,
{
    proof {
        reveal(srgb_linear);
    }
    match c {
        0u8 => 0u32, 1u8 => 30u32, 2u8 => 61u32, 3u8 => 91u32,
        4u8 => 121u32, 5u8 => 152u32, 6u8 => 182u32, 7u8 => 212u32,
        8u8 => 243u32, 9u8 => 273u32, 10u8 => 304u32, 11u8 => 335u32,
        12u8 => 368u32, 13u8 => 402u32, 14u8 => 439u32, 15u8 => 478u32,
        16u8 => 518u32, 17u8 => 561u32, 18u8 => 605u32, 19u8 => 651u32,
        20u8 => 700u32, 21u8 => 750u32, 22u8 => 802u32, 23u8 => 857u32,
        24u8 => 913u32, 25u8 => 972u32, 26u8 => 1033u32, 27u8 => 1096u32,
        28u8 => 1161u32, 29u8 => 1229u32, 30u8 => 1298u32, 31u8 => 1370u32,
        32u8 => 1444u32, 33u8 => 1521u32, 34u8 => 1600u32, 35u8 => 1681u32,
        36u8 => 1764u32, 37u8 => 1850u32, 38u8 => 1938u32, 39u8 => 2029u32,
        40u8 => 2122u32, 41u8 => 2217u32, 42u8 => 2315u32, 43u8 => 2416u32,
        44u8 => 2519u32, 45u8 => 2624u32, 46u8 => 2732u32, 47u8 => 2843u32,
        48u8 => 2956u32, 49u8 => 3071u32, 50u8 => 3190u32, 51u8 => 3310u32,
        52u8 => 3434u32, 53u8 => 3560u32, 54u8 => 3689u32, 55u8 => 3820u32,
        56u8 => 3955u32, 57u8 => 4092u32, 58u8 => 4231u32, 59u8 => 4374u32,
        60u8 => 4519u32, 61u8 => 4667u32, 62u8 => 4817u32, 63u8 => 4971u32,
        64u8 => 5127u32, 65u8 => 5286u32, 66u8 => 5448u32, 67u8 => 5613u32,
        68u8 => 5781u32, 69u8 => 5951u32, 70u8 => 6125u32, 71u8 => 6301u32,
        72u8 => 6480u32, 73u8 => 6663u32, 74u8 => 6848u32, 75u8 => 7036u32,
        76u8 => 7227u32, 77u8 => 7421u32, 78u8 => 7619u32, 79u8 => 7819u32,
        80u8 => 8022u32, 81u8 => 8228u32, 82u8 => 8438u32, 83u8 => 8650u32,
        84u8 => 8866u32, 85u8 => 9084u32, 86u8 => 9306u32, 87u8 => 9531u32,
        88u8 => 9759u32, 89u8 => 9990u32, 90u8 => 10224u32, 91u8 => 10462u32,
        92u8 => 10702u32, 93u8 => 10946u32, 94u8 => 11193u32, 95u8 => 11444u32,
        96u8 => 11697u32, 97u8 => 11954u32, 98u8 => 12214u32, 99u8 => 12477u32,
        100u8 => 12744u32, 101u8 => 13014u32, 102u8 => 13287u32, 103u8 => 13563u32,
        104u8 => 13843u32, 105u8 => 14126u32, 106u8 => 14413u32, 107u8 => 14703u32,
        108u8 => 14996u32, 109u8 => 15293u32, 110u8 => 15593u32, 111u8 => 15896u32,
        112u8 => 16203u32, 113u8 => 16513u32, 114u8 => 16827u32, 115u8 => 17144u32,
        116u8 => 17465u32, 117u8 => 17789u32, 118u8 => 18116u32, 119u8 => 18447u32,
        120u8 => 18782u32, 121u8 => 19120u32, 122u8 => 19462u32, 123u8 => 19807u32,
        124u8 => 20156u32, 125u8 => 20508u32, 126u8 => 20864u32, 127u8 => 21223u32,
        128u8 => 21586u32, 129u8 => 21953u32, 130u8 => 22323u32, 131u8 => 22697u32,
        132u8 => 23074u32, 133u8 => 23455u32, 134u8 => 23840u32, 135u8 => 24228u32,
        136u8 => 24620u32, 137u8 => 25016u32, 138u8 => 25415u32, 139u8 => 25818u32,
        140u8 => 26225u32, 141u8 => 26636u32, 142u8 => 27050u32, 143u8 => 27468u32,
        144u8 => 27889u32, 145u8 => 28315u32, 146u8 => 28744u32, 147u8 => 29177u32,
        148u8 => 29614u32, 149u8 => 30054u32, 150u8 => 30499u32, 151u8 => 30947u32,
        152u8 => 31399u32, 153u8 => 31855u32, 154u8 => 32314u32, 155u8 => 32778u32,
        156u8 => 33245u32, 157u8 => 33716u32, 158u8 => 34191u32, 159u8 => 34670u32,
        160u8 => 35153u32, 161u8 => 35640u32, 162u8 => 36131u32, 163u8 => 36625u32,
        164u8 => 37124u32, 165u8 => 37626u32, 166u8 => 38133u32, 167u8 => 38643u32,
        168u8 => 39157u32, 169u8 => 39676u32, 170u8 => 40198u32, 171u8 => 40724u32,
        172u8 => 41254u32, 173u8 => 41789u32, 174u8 => 42327u32, 175u8 => 42869u32,
        176u8 => 43415u32, 177u8 => 43966u32, 178u8 => 44520u32, 179u8 => 45079u32,
        180u8 => 45641u32, 181u8 => 46208u32, 182u8 => 46778u32, 183u8 => 47353u32,
        184u8 => 47932u32, 185u8 => 48515u32, 186u8 => 49102u32, 187u8 => 49693u32,
        188u8 => 50289u32, 189u8 => 50888u32, 190u8 => 51492u32, 191u8 => 52100u32,
        192u8 => 52712u32, 193u8 => 53328u32, 194u8 => 53948u32, 195u8 => 54572u32,
        196u8 => 55201u32, 197u8 => 55834u32, 198u8 => 56471u32, 199u8 => 57112u32,
        200u8 => 57758u32, 201u8 => 58408u32, 202u8 => 59062u32, 203u8 => 59720u32,
        204u8 => 60383u32, 205u8 => 61050u32, 206u8 => 61721u32, 207u8 => 62396u32,
        208u8 => 63076u32, 209u8 => 63760u32, 210u8 => 64448u32, 211u8 => 65141u32,
        212u8 => 65837u32, 213u8 => 66539u32, 214u8 => 67244u32, 215u8 => 67954u32,
        216u8 => 68669u32, 217u8 => 69387u32, 218u8 => 70110u32, 219u8 => 70838u32,
        220u8 => 71569u32, 221u8 => 72306u32, 222u8 => 73046u32, 223u8 => 73791u32,
        224u8 => 74540u32, 225u8 => 75294u32, 226u8 => 76052u32, 227u8 => 76815u32,
        228u8 => 77582u32, 229u8 => 78354u32, 230u8 => 79130u32, 231u8 => 79910u32,
        232u8 => 80695u32, 233u8 => 81485u32, 234u8 => 82279u32, 235u8 => 83077u32,
        236u8 => 83880u32, 237u8 => 84687u32, 238u8 => 85499u32, 239u8 => 86316u32,
        240u8 => 87137u32, 241u8 => 87962u32, 242u8 => 88792u32, 243u8 => 89627u32,
        244u8 => 90466u32, 245u8 => 91310u32, 246u8 => 92158u32, 247u8 => 93011u32,
        248u8 => 93869u32, 249u8 => 94731u32, 250u8 => 95597u32, 251u8 => 96469u32,
        252u8 => 97345u32, 253u8 => 98225u32, 254u8 => 99110u32,
        _ => 100000u32,
    }
}

/// The linearisation table rises strictly: more sRGB signal is more
/// light.
pub proof fn lemma_srgb_adjacent(c: u8)
    requires
        c < 255,
    ensures
        srgb_linear(c) < srgb_linear((c + 1) as u8),
{
    reveal(srgb_linear);
}

/// Strict monotonicity of [`srgb_linear`] over any distance.
pub proof fn lemma_srgb_strict_mono(a: u8, b: u8)
    requires
        a < b,
    ensures
        srgb_linear(a) < srgb_linear(b),
    decreases b - a,
{
    if b == a + 1 {
        lemma_srgb_adjacent(a);
    } else {
        lemma_srgb_strict_mono(a, (b - 1) as u8);
        lemma_srgb_adjacent((b - 1) as u8);
    }
}

/// Distinct channel bytes have distinct linearisations.
pub proof fn lemma_srgb_injective(a: u8, b: u8)
    requires
        srgb_linear(a) == srgb_linear(b),
    ensures
        a == b,
{
    if a < b {
        lemma_srgb_strict_mono(a, b);
    } else if b < a {
        lemma_srgb_strict_mono(b, a);
    }
}

/// Absolute difference of two scaled linear-light values.
pub open spec fn lin_dist(a: u32, b: u32) -> int {
    if a >= b {
        a - b
    } else {
        b - a
    }
}

/// The byte among `0 ..= i` whose linearisation is nearest to `v`,
/// preferring the smaller byte on ties.
pub open spec fn compand_upto(v: u32, i: int) -> u8
    decreases i,
{
    if i <= 0 {
        0u8
    } else {
        let prev = compand_upto(v, i - 1);
        if lin_dist(srgb_linear(i as u8), v) < lin_dist(srgb_linear(prev), v) {
            i as u8
        } else {
            prev
        }
    }
}

/// The sRGB byte whose linearisation is nearest to the scaled linear
/// value `v` (smaller byte on ties).
pub open spec fn srgb_compand_spec(v: u32) -> u8 {
    compand_upto(v, 255)
}

/// Every byte up to `i` is no nearer to `v` than `compand_upto(v, i)`.
pub proof fn lemma_compand_upto_nearest(v: u32, i: int, c: u8)
    requires
        0 <= c <= i <= 255,
    ensures
        lin_dist(srgb_linear(c), v) >= lin_dist(srgb_linear(compand_upto(v, i)), v),
    decreases i,
{
    if i > 0 && c < i {
        lemma_compand_upto_nearest(v, i - 1, c);
    }
}

/// The companding search is exact on table values: the linearisation of
/// a byte compands back to that byte, so the linear round trip
/// reproduces every channel.
pub proof fn lemma_compand_roundtrip(c0: u8)
    ensures
        srgb_compand_spec(srgb_linear(c0)) == c0,
{
    let v = srgb_linear(c0);
    lemma_compand_upto_nearest(v, 255, c0);
    assert(lin_dist(srgb_linear(c0), v) == 0);
    assert(lin_dist(srgb_linear(srgb_compand_spec(v)), v) == 0);
    lemma_srgb_injective(srgb_compand_spec(v), c0);
}

/// Compand a scaled linear-light value back to an sRGB byte: the byte
/// whose linearisation is nearest to `v`.
pub fn srgb_compand(v: u32) -> (res: u8)
    ensures
        res == srgb_compand_spec(v),
{
    let mut best: u8 = 0;
    let mut best_d: u32 = {
        let t = srgb_linearize(0);
        if t >= v {
            t - v
        } else {
            v - t
        }
    };
    let mut i: u16 = 1;
    while i <= 255
        invariant
            1 <= i <= 256,
            best == compand_upto(v, i - 1),
            best_d == lin_dist(srgb_linear(best), v),
        decreases 256 - i,
    {
        let c = i as u8;
        let t = srgb_linearize(c);
        let d = if t >= v {
            t - v
        } else {
            v - t
        };
        if d < best_d {
            best = c;
            best_d = d;
        }
        i += 1;
    }
    best
}

/// Fixed-point HSL colour: hue on `[0, 1536)`, saturation on
/// `[0, 65536]`, lightness on `[0, 510]`.
#[derive(Clone, Copy, Debug, PartialEq, Eq, Structural)]
pub struct Hsl {
    pub h: u32,
    pub s: u32,
    pub l: u32,
}

/// Fixed-point HSV colour: hue on `[0, 1536)`, saturation on
/// `[0, 65536]`, value on `[0, 255]`.
#[derive(Clone, Copy, Debug, PartialEq, Eq, Structural)]
pub struct Hsv {
    pub h: u32,
    pub s: u32,
    pub v: u32,
}

pub open spec fn hsl_wf(c: Hsl) -> bool {
    c.h < 1536 && c.s <= 65536 && c.l <= 510
}

pub open spec fn hsv_wf(c: Hsv) -> bool {
    c.h < 1536 && c.s <= 65536 && c.v <= 255
}

pub open spec fn max3(a: u8, b: u8, c: u8) -> u8 {
    if a >= b && a >= c {
        a
    } else if b >= c {
        b
    } else {
        c
    }
}

pub open spec fn min3(a: u8, b: u8, c: u8) -> u8 {
    if a <= b && a <= c {
        a
    } else if b <= c {
        b
    } else {
        c
    }
}

/// HSL lightness component: the sum of the extreme channels.
pub open spec fn hsl_l(r: u8, g: u8, b: u8) -> int {
    max3(r, g, b) + min3(r, g, b)
}

/// Chroma: the spread between the extreme channels.
pub open spec fn chroma(r: u8, g: u8, b: u8) -> int {
    max3(r, g, b) - min3(r, g, b)
}

/// The denominator of the HSL saturation formula:
/// `min(lightness, 510 - lightness)` expressed piecewise.
pub open spec fn sat_denom(l: int) -> int {
    if l <= 255 {
        l
    } else {
        510 - l
    }
}

/// HSL saturation: chroma over the headroom the lightness leaves,
/// scaled to `[0, 65536]`; zero for achromatic colours.
pub open spec fn hsl_s(r: u8, g: u8, b: u8) -> int {
    let d = chroma(r, g, b);
    if d == 0 {
        0
    } else {
        round_div(d * 65536, sat_denom(hsl_l(r, g, b)))
    }
}

/// Hexcone hue on `[0, 1536)`: 256 units per sextant, sextant picked by
/// which channel is extreme; zero for achromatic colours.
pub open spec fn hue_fix(r: u8, g: u8, b: u8) -> int {
    let mx = max3(r, g, b);
    let d = chroma(r, g, b);
    if d == 0 {
        0
    } else if r == mx && g >= b {
        round_div((g - b) * 256, d)
    } else if r == mx {
        1536 - round_div((b - g) * 256, d)
    } else if g == mx && b >= r {
        512 + round_div((b - r) * 256, d)
    } else if g == mx {
        512 - round_div((r - b) * 256, d)
    } else if r >= g {
        1024 + round_div((r - g) * 256, d)
    } else {
        1024 - round_div((g - r) * 256, d)
    }
}

/// HSV saturation: chroma over the value, scaled to `[0, 65536]`.
pub open spec fn hsv_s(r: u8, g: u8, b: u8) -> int {
    let d = chroma(r, g, b);
    if d == 0 {
        0
    } else {
        round_div(d * 65536, max3(r, g, b) as int)
    }
}

/// Rebuild RGB channels from fixed-point hue, saturation and lightness:
/// recover the chroma from saturation and lightness, the base level
/// `m`, and place the channels by hexcone sextant.
pub open spec fn hsl_to_rgb_spec(h: int, s: int, l: int) -> (int, int, int) {
    let denom = sat_denom(l);
    let d = if denom == 0 {
        0
    } else {
        round_div(s * denom, 65536)
    };
    let m = (l - d) / 2;
    sextant_place(h, d, m)
}

/// Rebuild RGB channels from fixed-point hue, saturation and value.
pub open spec fn hsv_to_rgb_spec(h: int, s: int, v: int) -> (int, int, int) {
    let d = round_div(s * v, 65536);
    let m = v - d;
    sextant_place(h, d, m)
}

/// Place chroma `d` over base `m` according to hue: the largest channel
/// is `m + d`, the smallest `m`, and the middle channel interpolates.
pub open spec fn sextant_place(h: int, d: int, m: int) -> (int, int, int) {
    let sx = h / 256;
    let fr = h % 256;
    let xf = if sx % 2 == 0 {
        fr
    } else {
        256 - fr
    };
    let x = if d == 0 {
        0
    } else {
        round_div(xf * d, 256)
    };
    if sx == 0 {
        (m + d, m + x, m)
    } else if sx == 1 {
        (m + x, m + d, m)
    } else if sx == 2 {
        (m, m + d, m + x)
    } else if sx == 3 {
        (m, m + x, m + d)
    } else if sx == 4 {
        (m + x, m, m + d)
    } else {
        (m + d, m, m + x)
    }
}

pub fn max3e(a: u8, b: u8, c: u8) -> (m: u8)
    ensures
        m == max3(a, b, c),
{
    if a >= b && a >= c {
        a
    } else if b >= c {
        b
    } else {
        c
    }
}

pub fn min3e(a: u8, b: u8, c: u8) -> (m: u8)
    ensures
        m == min3(a, b, c),
{
    if a <= b && a <= c {
        a
    } else if b <= c {
        b
    } else {
        c
    }
}

/// Convert an RGB triple to fixed-point HSL.
pub fn rgb_to_hsl(r: u8, g: u8, b: u8) -> (c: Hsl)
    ensures
        hsl_wf(c),
        c.h as int == hue_fix(r, g, b),
        c.s as int == hsl_s(r, g, b),
        c.l as int == hsl_l(r, g, b),
{
    let mx = max3e(r, g, b);
    let mn = min3e(r, g, b);
    let l: u32 = mx as u32 + mn as u32;
    let d: u32 = (mx - mn) as u32;
    if d == 0 {
        Hsl { h: 0, s: 0, l }
    } else {
        let denom: u32 = if l <= 255 {
            l
        } else {
            510 - l
        };
        assert(1 <= denom <= 255 && d <= denom);
        proof {
            lemma_round_div_range(d as int, denom as int, 65536);
        }
        let s = round_div_u32(d * 65536, denom);
        let h: u32 = compute_hue(r, g, b, mx, d);
        Hsl { h, s, l }
    }
}

/// Hue of a chromatic triple whose maximum channel and chroma are given.
fn compute_hue(r: u8, g: u8, b: u8, mx: u8, d: u32) -> (h: u32)
    requires
        mx == max3(r, g, b),
        d == chroma(r, g, b),
        0 < d,
    ensures
        h as int == hue_fix(r, g, b),
        h < 1536,
{
    if r == mx && g >= b {
        proof {
            lemma_round_div_range((g - b) as int, d as int, 256);
        }
        round_div_u32((g - b) as u32 * 256, d)
    } else if r == mx {
        proof {
            lemma_round_div_range((b - g) as int, d as int, 256);
        }
        1536 - round_div_u32((b - g) as u32 * 256, d)
    } else if g == mx && b >= r {
        proof {
            lemma_round_div_range((b - r) as int, d as int, 256);
        }
        512 + round_div_u32((b - r) as u32 * 256, d)
    } else if g == mx {
        proof {
            lemma_round_div_range((r - b) as int, d as int, 256);
        }
        512 - round_div_u32((r - b) as u32 * 256, d)
    } else if r >= g {
        proof {
            lemma_round_div_range((r - g) as int, d as int, 256);
        }
        1024 + round_div_u32((r - g) as u32 * 256, d)
    } else {
        proof {
            lemma_round_div_range((g - r) as int, d as int, 256);
        }
        1024 - round_div_u32((g - r) as u32 * 256, d)
    }
}

/// Place chroma and base by sextant, executable form.
fn sextant_place_e(h: u32, d: u32, m: u32) -> (p: (u8, u8, u8))
    requires
        h < 1536,
        d <= 255,
        m + d <= 255,
    ensures
        (p.0 as int, p.1 as int, p.2 as int) == sextant_place(h as int, d as int, m as int),
{
    let sx = h / 256;
    let fr = h % 256;
    let xf = if sx % 2 == 0 {
        fr
    } else {
        256 - fr
    };
    let x: u32 = if d == 0 {
        0
    } else {
        proof {
            lemma_round_div_range(xf as int, 256, d as int);
            assert((xf as int) * (d as int) <= 256 * 255) by (nonlinear_arith)
                requires
                    xf <= 256u32,
                    d <= 255u32,
            ;
        }
        round_div_u32(xf * d, 256)
    };
    if sx == 0 {
        ((m + d) as u8, (m + x) as u8, m as u8)
    } else if sx == 1 {
        ((m + x) as u8, (m + d) as u8, m as u8)
    } else if sx == 2 {
        (m as u8, (m + d) as u8, (m + x) as u8)
    } else if sx == 3 {
        (m as u8, (m + x) as u8, (m + d) as u8)
    } else if sx == 4 {
        ((m + x) as u8, m as u8, (m + d) as u8)
    } else {
        ((m + d) as u8, m as u8, (m + x) as u8)
    }
}

/// Convert fixed-point HSL back to an RGB triple.
pub fn hsl_to_rgb(c: Hsl) -> (p: (u8, u8, u8))
    requires
        hsl_wf(c),
    ensures
        (p.0 as int, p.1 as int, p.2 as int) == hsl_to_rgb_spec(c.h as int, c.s as int, c.l as int),
{
    let denom: u32 = if c.l <= 255 {
        c.l
    } else {
        510 - c.l
    };
    let d: u32 = if denom == 0 {
        0
    } else {
        proof {
            lemma_round_div_range(c.s as int, 65536, denom as int);
            assert((c.s as int) * (denom as int) <= 65536 * 255) by (nonlinear_arith)
                requires
                    c.s <= 65536u32,
                    denom <= 255u32,
            ;
        }
        round_div_u32(c.s * denom, 65536)
    };
    assert(d <= denom && denom <= c.l);
    let m: u32 = (c.l - d) / 2;
    assert(m + d <= 255) by {
        assert(m == (c.l - d) / 2);
        assert((c.l - d) / 2 + d <= 255);
    };
    sextant_place_e(c.h, d, m)
}

/// Convert an RGB triple to fixed-point HSV.
pub fn rgb_to_hsv(r: u8, g: u8, b: u8) -> (c: Hsv)
    ensures
        hsv_wf(c),
        c.h as int == hue_fix(r, g, b),
        c.s as int == hsv_s(r, g, b),
        c.v as int == max3(r, g, b),
{
    let mx = max3e(r, g, b);
    let mn = min3e(r, g, b);
    let d: u32 = (mx - mn) as u32;
    if d == 0 {
        Hsv { h: 0, s: 0, v: mx as u32 }
    } else {
        proof {
            lemma_round_div_range(d as int, mx as int, 65536);
        }
        let s = round_div_u32(d * 65536, mx as u32);
        let h = compute_hue(r, g, b, mx, d);
        Hsv { h, s, v: mx as u32 }
    }
}

/// Convert fixed-point HSV back to an RGB triple.
pub fn hsv_to_rgb(c: Hsv) -> (p: (u8, u8, u8))
    requires
        hsv_wf(c),
    ensures
        (p.0 as int, p.1 as int, p.2 as int) == hsv_to_rgb_spec(c.h as int, c.s as int, c.v as int),
{
    let d: u32 = if c.v == 0 {
        proof {
            assert((c.s as int) * (c.v as int) == 0) by (nonlinear_arith)
                requires
                    c.v == 0u32,
            ;
            assert(round_div(0, 65536) == 0);
        }
        0
    } else {
        proof {
            lemma_round_div_range(c.s as int, 65536, c.v as int);
            assert((c.s as int) * (c.v as int) <= 65536 * 255) by (nonlinear_arith)
                requires
                    c.s <= 65536u32,
                    c.v <= 255u32,
            ;
        }
        round_div_u32(c.s * c.v, 65536)
    };
    let m: u32 = c.v - d;
    sextant_place_e(c.h, d, m)
}

/// Hue, chroma and base level identify the triple: placing the chroma
/// of a chromatic triple by its own hue over its smallest channel gives
/// the triple back.
pub proof fn lemma_sextant_recover(r: u8, g: u8, b: u8)
    requires
        chroma(r, g, b) > 0,
    ensures
        sextant_place(hue_fix(r, g, b), chroma(r, g, b), min3(r, g, b) as int) == (
            r as int,
            g as int,
            b as int,
        ),
{
    let mx = max3(r, g, b);
    let mn = min3(r, g, b) as int;
    let d = chroma(r, g, b);
    let h = hue_fix(r, g, b);
    if r == mx && g >= b {
        let v = g - b;
        let rd = round_div(v * 256, d);
        lemma_round_div_range(v, d, 256);
        lemma_round_div_exact(v, d, 256);
        if rd <= 255 {
            lemma_fundamental_div_mod_converse(h, 256, 0, rd);
        } else {
            lemma_fundamental_div_mod_converse(h, 256, 1, 0);
            lemma_round_div_char(v * 256, d);
            assert(v == d) by (nonlinear_arith)
                requires
                    -d <= 2 * (v * 256 - rd * d),
                    rd == 256,
                    0 < d <= 255,
                    v <= d,
            ;
        }
    } else if r == mx {
        let v = b - g;
        let rd = round_div(v * 256, d);
        lemma_round_div_range(v, d, 256);
        lemma_round_div_exact(v, d, 256);
        assert(1 <= rd);
        lemma_fundamental_div_mod_converse(h, 256, 5, h - 1280);
    } else if g == mx && b >= r {
        let v = b - r;
        let rd = round_div(v * 256, d);
        lemma_round_div_range(v, d, 256);
        lemma_round_div_exact(v, d, 256);
        if rd <= 255 {
            lemma_fundamental_div_mod_converse(h, 256, 2, rd);
        } else {
            lemma_fundamental_div_mod_converse(h, 256, 3, 0);
            lemma_round_div_char(v * 256, d);
            assert(v == d) by (nonlinear_arith)
                requires
                    -d <= 2 * (v * 256 - rd * d),
                    rd == 256,
                    0 < d <= 255,
                    v <= d,
            ;
        }
    } else if g == mx {
        let v = r - b;
        let rd = round_div(v * 256, d);
        lemma_round_div_range(v, d, 256);
        lemma_round_div_exact(v, d, 256);
        assert(1 <= rd);
        lemma_fundamental_div_mod_converse(h, 256, 1, h - 256);
    } else if r >= g {
        let v = r - g;
        let rd = round_div(v * 256, d);
        lemma_round_div_range(v, d, 256);
        lemma_round_div_exact(v, d, 256);
        if rd <= 255 {
            lemma_fundamental_div_mod_converse(h, 256, 4, rd);
        } else {
            lemma_fundamental_div_mod_converse(h, 256, 5, 0);
            lemma_round_div_char(v * 256, d);
            assert(v == d) by (nonlinear_arith)
                requires
                    -d <= 2 * (v * 256 - rd * d),
                    rd == 256,
                    0 < d <= 255,
                    v <= d,
            ;
        }
    } else {
        let v = g - r;
        let rd = round_div(v * 256, d);
        lemma_round_div_range(v, d, 256);
        lemma_round_div_exact(v, d, 256);
        assert(1 <= rd);
        lemma_fundamental_div_mod_converse(h, 256, 3, h - 768);
    }
}

/// HSL round trip: converting any RGB byte triple to fixed-point HSL
/// and back reproduces the triple exactly.
pub proof fn lemma_hsl_roundtrip(r: u8, g: u8, b: u8)
    ensures
        hsl_to_rgb_spec(hue_fix(r, g, b), hsl_s(r, g, b), hsl_l(r, g, b)) == (
            r as int,
            g as int,
            b as int,
        ),
{
    let mx = max3(r, g, b) as int;
    let mn = min3(r, g, b) as int;
    let d = chroma(r, g, b);
    let l = hsl_l(r, g, b);
    let denom = sat_denom(l);
    if d == 0 {
        assert(r == g && g == b);
        if denom != 0 {
            lemma_round_div_char(0 * denom, 65536);
            assert(0 * denom == 0);
        }
        lemma_fundamental_div_mod_converse(l, 2, mx, 0);
        lemma_fundamental_div_mod_converse(0, 256, 0, 0);
    } else {
        assert(1 <= denom <= 255 && d <= denom);
        let s = hsl_s(r, g, b);
        lemma_round_div_range(d, denom, 65536);
        lemma_round_div_exact(d, denom, 65536);
        assert(round_div(s * denom, 65536) == d);
        lemma_fundamental_div_mod_converse(l - d, 2, mn, 0);
        lemma_sextant_recover(r, g, b);
    }
}

/// HSV round trip: converting any RGB byte triple to fixed-point HSV
/// and back reproduces the triple exactly.
pub proof fn lemma_hsv_roundtrip(r: u8, g: u8, b: u8)
    ensures
        hsv_to_rgb_spec(hue_fix(r, g, b), hsv_s(r, g, b), max3(r, g, b) as int) == (
            r as int,
            g as int,
            b as int,
        ),
{
    let mx = max3(r, g, b) as int;
    let mn = min3(r, g, b) as int;
    let d = chroma(r, g, b);
    if d == 0 {
        lemma_round_div_char(0 * mx, 65536);
        assert(0 * mx == 0);
        lemma_fundamental_div_mod_converse(0, 256, 0, 0);
    } else {
        let s = hsv_s(r, g, b);
        lemma_round_div_range(d, mx, 65536);
        lemma_round_div_exact(d, mx, 65536);
        assert(round_div(s * mx, 65536) == d);
        lemma_sextant_recover(r, g, b);
    }
}

use crate::PhotonImage;
use crate::transform::ChannelMask;
use crate::transform::PixelOp;
use crate::transform::Space;
use crate::transform::apply_op;
use crate::transform::full_mask;
use crate::transform::lemma_map_identity;
use crate::transform::map_pixels;
use crate::transform::map_spec;

/// The hue of any triple lies on `[0, 1536)`.
pub proof fn lemma_hue_range(r: u8, g: u8, b: u8)
    ensures
        0 <= hue_fix(r, g, b) < 1536,
{
    let mx = max3(r, g, b);
    let d = chroma(r, g, b);
    if d != 0 {
        if r == mx && g >= b {
            lemma_round_div_range((g - b) as int, d, 256);
        } else if r == mx {
            lemma_round_div_range((b - g) as int, d, 256);
        } else if g == mx && b >= r {
            lemma_round_div_range((b - r) as int, d, 256);
        } else if g == mx {
            lemma_round_div_range((r - b) as int, d, 256);
        } else if r >= g {
            lemma_round_div_range((r - g) as int, d, 256);
        } else {
            lemma_round_div_range((g - r) as int, d, 256);
        }
    }
}

/// Rotate every pixel's hue by `degrees` in HSL space; saturation,
/// lightness and alpha are unchanged.
pub fn hue_rotate(img: &mut PhotonImage, degrees: u32)
    requires
        old(img).wf(),
    ensures
        final(img).wf(),
        final(img).spec_width() == old(img).spec_width(),
        final(img).spec_height() == old(img).spec_height(),
        final(img).data() == map_spec(old(img).data(), PixelOp::HueRotate(degrees), full_mask()),
{
    map_pixels(img, PixelOp::HueRotate(degrees), ChannelMask::all());
}

/// Adjust every pixel's saturation by a signed percentage, in HSL or
/// HSV space; alpha is unchanged.
pub fn saturate(img: &mut PhotonImage, space: Space, pct: i16)
    requires
        old(img).wf(),
    ensures
        final(img).wf(),
        final(img).spec_width() == old(img).spec_width(),
        final(img).spec_height() == old(img).spec_height(),
        final(img).data() == map_spec(
            old(img).data(),
            PixelOp::Saturate(space, pct),
            full_mask(),
        ),
{
    map_pixels(img, PixelOp::Saturate(space, pct), ChannelMask::all());
}

/// Raise every pixel's lightness (HSL) or value (HSV) by a signed
/// percentage; negative amounts darken; alpha is unchanged.
pub fn lighten(img: &mut PhotonImage, space: Space, pct: i16)
    requires
        old(img).wf(),
    ensures
        final(img).wf(),
        final(img).spec_width() == old(img).spec_width(),
        final(img).spec_height() == old(img).spec_height(),
        final(img).data() == map_spec(old(img).data(), PixelOp::Lighten(space, pct), full_mask()),
{
    map_pixels(img, PixelOp::Lighten(space, pct), ChannelMask::all());
}

/// Lower every pixel's lightness (HSL) or value (HSV) by a signed
/// percentage: the mirror of [`lighten`].
pub fn darken(img: &mut PhotonImage, space: Space, pct: i16)
    requires
        old(img).wf(),
    ensures
        final(img).wf(),
        final(img).spec_width() == old(img).spec_width(),
        final(img).spec_height() == old(img).spec_height(),
        final(img).data() == map_spec(
            old(img).data(),
            PixelOp::Lighten(space, negate_pct(pct)),
            full_mask(),
        ),
{
    let np: i16 = if pct == i16::MIN {
        i16::MAX
    } else {
        0 - pct
    };
    map_pixels(img, PixelOp::Lighten(space, np), ChannelMask::all());
}

/// The negation of a percentage, with the most negative value clipped
/// so it stays representable; magnitudes beyond 100 act as 100 anyway.
pub open spec fn negate_pct(pct: i16) -> i16 {
    if pct == i16::MIN {
        i16::MAX
    } else {
        (0 - pct) as i16
    }
}

/// Drop every pixel's saturation to zero in HSL space, leaving an
/// achromatic image; alpha is unchanged.
pub fn desaturate(img: &mut PhotonImage)
    requires
        old(img).wf(),
    ensures
        final(img).wf(),
        final(img).spec_width() == old(img).spec_width(),
        final(img).spec_height() == old(img).spec_height(),
        final(img).data() == map_spec(old(img).data(), PixelOp::Desaturate, full_mask()),
{
    map_pixels(img, PixelOp::Desaturate, ChannelMask::all());
}

/// Hue rotation moves hue only: the rotated pixel keeps the original
/// pixel's lightness (sum of extreme channels) and chroma (their
/// spread) exactly, for every angle.  Together with
/// [`lemma_hue_delta_additive`] this confines the effect of composing
/// two rotations against one combined rotation to the hue axis; the
/// per-channel additivity bound itself is exercised by the test suite.
pub proof fn lemma_hue_rotate_preserves_light_and_chroma(r: u8, g: u8, b: u8, deg: u32)
    ensures
        ({
            let t = crate::transform::apply_op(crate::transform::PixelOp::HueRotate(deg), r, g, b);
            hsl_l(t.0, t.1, t.2) == hsl_l(r, g, b) && chroma(t.0, t.1, t.2) == chroma(r, g, b)
        }),
{
    let mx = max3(r, g, b) as int;
    let mn = min3(r, g, b) as int;
    let d = chroma(r, g, b);
    let l = hsl_l(r, g, b);
    let s = hsl_s(r, g, b);
    let dd = ((deg % 360) as int) * 64;
    lemma_round_div_char(dd, 15);
    let delta = round_div(dd, 15);
    lemma_hue_range(r, g, b);
    let h2 = (hue_fix(r, g, b) + delta) % 1536;
    vstd::arithmetic::div_mod::lemma_mod_bound(hue_fix(r, g, b) + delta, 1536);
    let denom = sat_denom(l);
    if d == 0 {
        assert(r == g && g == b);
        if denom != 0 {
            lemma_round_div_char(0 * denom, 65536);
            assert(0 * denom == 0);
        }
        lemma_fundamental_div_mod_converse(l, 2, mx, 0);
        let t = sextant_place(h2, 0, mx);
        assert(t.0 == mx && t.1 == mx && t.2 == mx);
    } else {
        assert(1 <= denom <= 255 && d <= denom);
        lemma_round_div_range(d, denom, 65536);
        lemma_round_div_exact(d, denom, 65536);
        assert(round_div(s * denom, 65536) == d);
        lemma_fundamental_div_mod_converse(l - d, 2, mn, 0);
        let fr = h2 % 256;
        vstd::arithmetic::div_mod::lemma_mod_bound(h2, 256);
        let sx = h2 / 256;
        let xf: int = if sx % 2 == 0 {
            fr
        } else {
            256 - fr
        };
        lemma_round_div_range(xf, 256, d);
        let x = round_div(xf * d, 256);
        assert(0 <= x <= d);
        let t = sextant_place(h2, d, mn);
        assert(mn + d <= 255);
        let o0 = t.0 as u8;
        let o1 = t.1 as u8;
        let o2 = t.2 as u8;
        assert(max3(o0, o1, o2) == mn + d && min3(o0, o1, o2) == mn);
    }
}

/// The quantised rotation steps compose: for two angles that sum to
/// less than a turn, the fixed-point hue delta of the sum differs from
/// the sum of the two deltas by at most one hue unit (a 1536th of a
/// turn).  The per-channel additivity of whole rotations is checked on
/// concrete images in the test suite.
pub proof fn lemma_hue_delta_additive(alpha: u32, beta: u32)
    requires
        alpha + beta < 360,
    ensures
        -1 <= round_div(((alpha % 360) as int) * 64, 15) + round_div(
            ((beta % 360) as int) * 64,
            15,
        ) - round_div((((alpha + beta) % 360) as int) * 64, 15) <= 1,
{
    let a = (alpha % 360) as int;
    let b = (beta % 360) as int;
    let t = (((alpha + beta) as u32) % 360) as int;
    assert(a == alpha && b == beta && t == alpha + beta);
    let qa = round_div(a * 64, 15);
    let qb = round_div(b * 64, 15);
    let qs = round_div(t * 64, 15);
    lemma_round_div_char(a * 64, 15);
    lemma_round_div_char(b * 64, 15);
    lemma_round_div_char(t * 64, 15);
    assert(30 * (qa + qb - qs) == 2 * (t * 64 - qs * 15) - 2 * (a * 64 - qa * 15) - 2 * (b * 64
        - qb * 15) + 2 * (a * 64) + 2 * (b * 64) - 2 * (t * 64));
    assert(2 * (a * 64) + 2 * (b * 64) == 2 * (t * 64));
}

/// A full turn of the hue is the identity: rotating by any multiple of
/// 360 degrees leaves every byte of the image unchanged.
pub proof fn lemma_hue_rotate_full_turn(s: Seq<u8>, degrees: u32)
    requires
        s.len() % 4 == 0,
        degrees % 360 == 0,
    ensures
        map_spec(s, PixelOp::HueRotate(degrees), full_mask()) =~= s,
{
    assert forall|r: u8, g: u8, b: u8| #[trigger] apply_op(PixelOp::HueRotate(degrees), r, g, b)
        == (r, g, b) by {
        lemma_hue_range(r, g, b);
        let dd = ((degrees % 360) as int) * 64;
        assert(dd == 0);
        lemma_fundamental_div_mod_converse(2 * dd + 15, 30int, 0, 15);
        assert(2 * 15 == 30int);
        assert(round_div(dd, 15) == 0);
        assert((hue_fix(r, g, b) + 0) % 1536 == hue_fix(r, g, b)) by {
            lemma_fundamental_div_mod_converse(hue_fix(r, g, b), 1536, 0, hue_fix(r, g, b));
        };
        lemma_hsl_roundtrip(r, g, b);
    }
    lemma_map_identity(s, PixelOp::HueRotate(degrees));
}

} // verus!