//! Writing a position in degrees, minutes and seconds.
use vstd::prelude::*;
use vstd::string::*;

use crate::errors::GeocodingError;

verus! {

/// The largest number of decimal places a coordinate may have.
pub const MAX_SCALE: u32 = 28;

/// A decimal number: `mantissa / 10^scale`.
#[derive(Clone, Copy, Debug, PartialEq, Eq, Structural)]
pub struct Decimal {
    pub mantissa: i64,
    pub scale: u32,
}

impl Decimal {
    /// The number `num / 10^scale`.
    pub fn new(num: i64, scale: u32) -> (r: Decimal)
        ensures
            r.mantissa == num,
            r.scale == scale,
    {
        Decimal { mantissa: num, scale }
    }
}

/// A position: latitude and longitude in decimal degrees.
#[derive(Clone, Copy, Debug, PartialEq, Eq, Structural)]
pub struct LatLng {
    pub lat: Decimal,
    pub lng: Decimal,
}

pub open spec fn pow10(k: nat) -> nat
    decreases k,
{
    if k == 0 {
        1
    } else {
        10 * pow10((k - 1) as nat)
    }
}

/// The text that rust_decimal writes for `num / 10^scale` once normalized:
/// no trailing zeros in the fraction.
pub uninterp spec fn decimal_text_of(num: int, scale: nat) -> Seq<char>;

/// Relies on `rust_decimal::Decimal::from_i128_with_scale`, `normalize` and
/// its `Display`: the shortest text of `num / 10^scale`. The constructor
/// panics past the largest scale or past 96 bits.
#[verifier::external_body]
fn decimal_display(num: u128, scale: u32) -> (r: String)
    requires
        scale <= MAX_SCALE,
        num < 0x1_0000_0000_0000_0000_0000_0000,
    ensures
        r@ == decimal_text_of(num as int, scale as nat),
{
    rust_decimal::Decimal::from_i128_with_scale(num as i128, scale).normalize().to_string()
}

/// One coordinate in degrees, minutes and seconds, followed by its
/// hemisphere (`pos` or `neg`; nothing on the equator or prime meridian).
pub open spec fn dms_part(d: Decimal, pos: Seq<char>, neg: Seq<char>) -> Seq<char> {
    let p = pow10(d.scale as nat);
    let m = d.mantissa as int;
    let a = (if m < 0 { -m } else { m }) as nat;
    let minutes = (a % p) * 60;
    let seconds = (minutes % p) * 60;
    let hemisphere = if d.mantissa < 0 {
        neg
    } else if d.mantissa > 0 {
        pos
    } else {
        Seq::empty()
    };
    decimal_text_of((a / p) as int, 0) + "°"@ + decimal_text_of((minutes / p) as int, 0) + "'"@
        + decimal_text_of(seconds as int, d.scale as nat)
        + "\""@ + hemisphere
}

/// A position in degrees, minutes and seconds: latitude, then longitude.
pub open spec fn dms_text(p: LatLng) -> Seq<char> {
    dms_part(p.lat, " N"@, " S"@) + " "@ + dms_part(p.lng, " E"@, " W"@)
}

proof fn lemma_pow10_bound(k: nat)
    requires
        k <= 28,
    ensures
        1 <= pow10(k) <= pow10(28),
    decreases 28 - k,
{
    lemma_pow10_positive(k);
    if k < 28 {
        lemma_pow10_bound(k + 1);
        assert(pow10(k + 1) == 10 * pow10(k));
    }
}

proof fn lemma_pow10_positive(k: nat)
    ensures
        pow10(k) >= 1,
    decreases k,
{
    if k > 0 {
        lemma_pow10_positive((k - 1) as nat);
    }
}

proof fn lemma_pow10_28()
    ensures
        pow10(28) == 10000000000000000000000000000,
{
    reveal_with_fuel(pow10, 29);
}

/// One coordinate in degrees, minutes and seconds with its hemisphere.
fn dms_part_text(d: Decimal, pos: &str, neg: &str) -> (r: String)
    requires
        d.scale <= MAX_SCALE,
    ensures
        r@ == dms_part(d, pos@, neg@),
{
    let mut p: u128 = 1;
    let mut i: u32 = 0;
    proof {
        lemma_pow10_28();
    }
    while i < d.scale
        invariant
            i <= d.scale <= 28,
            p == pow10(i as nat),
            pow10(28) == 10000000000000000000000000000,
        decreases d.scale - i,
    {
        proof {
            lemma_pow10_bound((i + 1) as nat);
        }
        p = p * 10;
        i = i + 1;
    }
    proof {
        lemma_pow10_bound(d.scale as nat);
    }
    let a: u128 = if d.mantissa < 0 { (0 - (d.mantissa as i128)) as u128 } else { d.mantissa as u128 };
    assert(a < 10000000000000000000) by {
        assert(d.mantissa >= -9223372036854775808);
    }
    let minutes = (a % p) * 60;
    assert(minutes % p < p) by (nonlinear_arith)
        requires p > 0;
    let seconds = (minutes % p) * 60;
    let hemisphere = if d.mantissa < 0 {
        neg
    } else if d.mantissa > 0 {
        pos
    } else {
        proof {
            reveal_strlit("");
        }
        ""
    };
    assert(a % p <= a && a % p < p) by (nonlinear_arith)
        requires
            p > 0,
    ;
    assert(minutes % p <= minutes) by (nonlinear_arith)
        requires
            p > 0,
    ;
    assert(minutes / p < 60) by (nonlinear_arith)
        requires
            p > 0,
            minutes == (a % p) * 60,
            a % p < p,
    ;
    assert(seconds <= a * 3600) by (nonlinear_arith)
        requires
            seconds == (minutes % p) * 60,
            minutes % p <= minutes,
            minutes == (a % p) * 60,
            a % p <= a,
    ;
    assert(a / p <= a) by (nonlinear_arith)
        requires
            p > 0,
    ;
    let text = decimal_display(a / p, 0).concat("°").concat(decimal_display(minutes / p, 0).as_str()).concat(
        "'",
    ).concat(decimal_display(seconds, d.scale).as_str()).concat("\"").concat(hemisphere);
    proof {
        assert(text@ =~= dms_part(d, pos@, neg@));
    }
    text
}

/// Writing a position in degrees, minutes and seconds.
pub trait DecimalToDms {
    /// The text of the position, if its coordinates can be written.
    spec fn dms(&self) -> Option<Seq<char>>;

    fn to_dms(&self) -> (r: Result<String, GeocodingError>)
        ensures
            match self.dms() {
                Some(t) => r.is_ok() && r.unwrap()@ == t,
                None => r.is_err(),
            },
    ;
}

impl DecimalToDms for LatLng {
    /// Written when both coordinates have at most the largest number of
    /// decimal places.
    open spec fn dms(&self) -> Option<Seq<char>> {
        if self.lat.scale > MAX_SCALE || self.lng.scale > MAX_SCALE {
            None
        } else {
            Some(dms_text(*self))
        }
    }

    /// An invalid latitude or longitude when a coordinate has more decimal
    /// places than allowed.
    fn to_dms(&self) -> (r: Result<String, GeocodingError>) {
        if self.lat.scale > MAX_SCALE {
            return Err(GeocodingError::InvalidLatitude);
        }
        if self.lng.scale > MAX_SCALE {
            return Err(GeocodingError::InvalidLongitude);
        }
        let lat = dms_part_text(self.lat, " N", " S");
        let lng = dms_part_text(self.lng, " E", " W");
        let text = lat.concat(" ").concat(lng.as_str());
        Ok(text)
    }
}

} // verus!
