//! GPS coordinates: from the entries of the GPS directory to a position in
//! the notation of ISO 6709.
//!
//! The fractions are kept as they stand in the data. Decimal degrees are
//! computed exactly, as a quotient of whole numbers, and rounded once, to
//! the number of decimals that is written.

use vstd::prelude::*;
use crate::exif::{spec_lookup, Exif, FieldModel};
use crate::ifd::IfdOrigin;
use crate::tiff::{EntryValue, ValueModel};

verus! {

/// An unsigned fraction, as it stands in the data.
#[derive(Clone, Copy, Debug, PartialEq, Eq, Structural)]
pub struct URational {
    /// The numerator.
    pub num: u32,
    /// The denominator.
    pub den: u32,
}

/// An angle in degrees, minutes and seconds.
#[derive(Clone, Copy, Debug, PartialEq, Eq, Structural)]
pub struct LatLng {
    /// The degrees.
    pub degrees: URational,
    /// The minutes.
    pub minutes: URational,
    /// The seconds.
    pub seconds: URational,
}

/// A position as the GPS directory gives it.
#[derive(Clone, Copy, Debug, PartialEq, Eq, Structural)]
pub struct GPSInfo {
    /// `N` or `S`, as an ASCII code.
    pub latitude_ref: u8,
    /// The latitude.
    pub latitude: LatLng,
    /// `E` or `W`, as an ASCII code.
    pub longitude_ref: u8,
    /// The longitude.
    pub longitude: LatLng,
    /// Zero above sea level, one below.
    pub altitude_ref: u8,
    /// The altitude in metres.
    pub altitude: URational,
}

/// The tag of the latitude reference in the GPS directory.
pub const GPS_LATITUDE_REF: u16 = 1;

/// The tag of the latitude.
pub const GPS_LATITUDE: u16 = 2;

/// The tag of the longitude reference.
pub const GPS_LONGITUDE_REF: u16 = 3;

/// The tag of the longitude.
pub const GPS_LONGITUDE: u16 = 4;

/// The tag of the altitude reference.
pub const GPS_ALTITUDE_REF: u16 = 5;

/// The tag of the altitude.
pub const GPS_ALTITUDE: u16 = 6;

/// The number of decimals of a latitude or longitude.
pub const ANGLE_DECIMALS: usize = 5;

/// The number of decimals of an altitude that is not a whole number.
pub const ALTITUDE_DECIMALS: usize = 3;

/// The quotient `n / q` times `scale`, rounded to the nearest whole number;
/// a half is rounded up.
pub open spec fn spec_round_div(n: int, q: int, scale: int) -> int {
    (2 * n * scale + q) / (2 * q)
}

impl LatLng {
    /// Whether no denominator is zero.
    pub open spec fn spec_valid(self) -> bool {
        self.degrees.den != 0 && self.minutes.den != 0 && self.seconds.den != 0
    }

    /// The numerator of the angle in degrees, over [`LatLng::spec_den`]:
    /// degrees, plus minutes over 60, plus seconds over 3600.
    pub open spec fn spec_num(self) -> int {
        3600 * (self.degrees.num * self.minutes.den * self.seconds.den) + 60 * (self.minutes.num
            * self.degrees.den * self.seconds.den) + self.seconds.num * self.degrees.den
            * self.minutes.den
    }

    /// The denominator that goes with [`LatLng::spec_num`].
    pub open spec fn spec_den(self) -> int {
        3600 * (self.degrees.den * self.minutes.den * self.seconds.den)
    }

    /// The angle in hundred-thousandths of a degree, rounded.
    pub open spec fn spec_scaled(self) -> int {
        spec_round_div(self.spec_num(), self.spec_den(), 100_000)
    }
}

/// The decimal digits of `n`, with zeros in front to make at least `width`
/// of them, as ASCII codes.
pub open spec fn spec_padded(n: nat, width: nat) -> Seq<u8>
    decreases n, width,
{
    if n < 10 && width <= 1 {
        seq![(48 + n) as u8]
    } else {
        spec_padded(
            n / 10,
            if width > 0 {
                (width - 1) as nat
            } else {
                0
            },
        ) + seq![(48 + n % 10) as u8]
    }
}

/// The number `scaled / 10^decimals` written with `decimals` decimals and
/// at least `width` digits before the point.
pub open spec fn spec_decimal(scaled: nat, width: nat, decimals: nat) -> Seq<u8> {
    let unit: nat = if decimals == 5 {
        100_000
    } else {
        1_000
    };
    spec_padded(scaled / unit, width) + seq![46u8] + spec_padded(scaled % unit, decimals)
}

/// The sign character for a reference: plus when `positive`, else minus.
pub open spec fn spec_sign(positive: bool) -> u8 {
    if positive {
        43
    } else {
        45
    }
}

/// The nine characters `CRSWGS_84`.
pub open spec fn spec_crs() -> Seq<u8> {
    seq![0x43u8, 0x52u8, 0x53u8, 0x57u8, 0x47u8, 0x53u8, 0x5Fu8, 0x38u8, 0x34u8]
}

/// The altitude part of a position: nothing when the numerator is zero;
/// else the sign, plus above sea level and minus below, the altitude as a
/// whole number when it is one and with three decimals when it is not,
/// and `CRSWGS_84`.
pub open spec fn spec_altitude_part_of(altitude_ref: u8, a: URational) -> Seq<u8> {
    if a.num == 0 {
        Seq::empty()
    } else {
        let digits = if a.num % a.den == 0 {
            spec_padded((a.num / a.den) as nat, 1)
        } else {
            spec_decimal(spec_round_div(a.num as int, a.den as int, 1000) as nat, 1, 3)
        };
        seq![spec_sign(altitude_ref == 0)] + digits + spec_crs()
    }
}

impl GPSInfo {
    /// Whether no denominator is zero, so that the position is a number.
    pub open spec fn spec_valid(self) -> bool {
        self.latitude.spec_valid() && self.longitude.spec_valid() && self.altitude.den != 0
    }

    /// The altitude part of the position; see [`spec_altitude_part_of`].
    pub open spec fn spec_altitude_part(self) -> Seq<u8> {
        spec_altitude_part_of(self.altitude_ref, self.altitude)
    }

    /// The position in the notation of ISO 6709, as ASCII codes: the
    /// latitude with its sign, two digits before the point and five
    /// decimals; the longitude with its sign, three digits before the
    /// point and five decimals; the altitude part; and a solidus. The
    /// sign is plus for `N` and for `E`, and minus otherwise.
    pub open spec fn spec_iso6709(self) -> Seq<u8> {
        seq![spec_sign(self.latitude_ref == 0x4E)] + spec_decimal(
            self.latitude.spec_scaled() as nat,
            2,
            5,
        ) + seq![spec_sign(self.longitude_ref == 0x45)] + spec_decimal(
            self.longitude.spec_scaled() as nat,
            3,
            5,
        ) + self.spec_altitude_part() + seq![0x2Fu8]
    }
}

/// The characters that the ASCII codes `bytes` stand for.
pub open spec fn spec_chars(bytes: Seq<u8>) -> Seq<char> {
    Seq::new(bytes.len(), |i: int| bytes[i] as char)
}

/// Whether every one of `bytes` is an ASCII code.
pub open spec fn spec_is_ascii(bytes: Seq<u8>) -> bool {
    forall|i: int| 0 <= i < bytes.len() ==> #[trigger] bytes[i] < 128
}

/// The first component of the fractions in `v`, and so on: the angle that
/// three fractions stand for.
pub open spec fn spec_angle(v: ValueModel) -> Option<LatLng> {
    match v {
        ValueModel::Rational(q) => if q.len() == 3 {
            Some(
                LatLng {
                    degrees: URational { num: q[0].0, den: q[0].1 },
                    minutes: URational { num: q[1].0, den: q[1].1 },
                    seconds: URational { num: q[2].0, den: q[2].1 },
                },
            )
        } else {
            None
        },
        _ => None,
    }
}

/// The first character of a text value.
pub open spec fn spec_ref_char(v: ValueModel) -> Option<u8> {
    match v {
        ValueModel::Ascii(t) => if t.len() >= 1 {
            Some(t[0])
        } else {
            None
        },
        _ => None,
    }
}

/// The altitude that `fields` give: the single fraction under the altitude
/// tag, and zero where there is none.
pub open spec fn spec_altitude(fields: Seq<FieldModel>) -> URational {
    match spec_lookup(fields, IfdOrigin::Gps, GPS_ALTITUDE) {
        Some(ValueModel::Rational(q)) => if q.len() == 1 {
            URational { num: q[0].0, den: q[0].1 }
        } else {
            URational { num: 0, den: 1 }
        },
        _ => URational { num: 0, den: 1 },
    }
}

/// The altitude reference that `fields` give: the single byte under its
/// tag, and zero, above sea level, where there is none.
pub open spec fn spec_altitude_ref(fields: Seq<FieldModel>) -> u8 {
    match spec_lookup(fields, IfdOrigin::Gps, GPS_ALTITUDE_REF) {
        Some(ValueModel::Byte(b)) => if b.len() == 1 {
            b[0]
        } else {
            0
        },
        _ => 0,
    }
}

/// The position that the GPS entries among `fields` give. There is one
/// when latitude and longitude are there, each as three fractions, each
/// with a reference character.
pub open spec fn spec_gps_info(fields: Seq<FieldModel>) -> Option<GPSInfo> {
    match (
        spec_lookup(fields, IfdOrigin::Gps, GPS_LATITUDE_REF),
        spec_lookup(fields, IfdOrigin::Gps, GPS_LATITUDE),
        spec_lookup(fields, IfdOrigin::Gps, GPS_LONGITUDE_REF),
        spec_lookup(fields, IfdOrigin::Gps, GPS_LONGITUDE),
    ) {
        (Some(lat_ref), Some(lat), Some(lon_ref), Some(lon)) => match (
            spec_ref_char(lat_ref),
            spec_angle(lat),
            spec_ref_char(lon_ref),
            spec_angle(lon),
        ) {
            (Some(latitude_ref), Some(latitude), Some(longitude_ref), Some(longitude)) => Some(
                GPSInfo {
                    latitude_ref,
                    latitude,
                    longitude_ref,
                    longitude,
                    altitude_ref: spec_altitude_ref(fields),
                    altitude: spec_altitude(fields),
                },
            ),
            _ => None,
        },
        _ => None,
    }
}

/// Multiplies three 32-bit numbers.
fn mul3(a: u32, b: u32, c: u32) -> (r: u128)
    ensures
        r == a * b * c,
        r <= 0xFFFF_FFFF * 0xFFFF_FFFF * 0xFFFF_FFFF,
        (a > 0 && b > 0 && c > 0) ==> r > 0,
{
    assert(a * b <= 0xFFFF_FFFF * 0xFFFF_FFFF) by (nonlinear_arith)
        requires
            a <= 0xFFFF_FFFF,
            b <= 0xFFFF_FFFF,
    ;
    let ab: u64 = (a as u64) * (b as u64);
    assert(a * b * c <= 0xFFFF_FFFF * 0xFFFF_FFFF * 0xFFFF_FFFF) by (nonlinear_arith)
        requires
            a * b <= 0xFFFF_FFFF * 0xFFFF_FFFF,
            0 <= a * b,
            c <= 0xFFFF_FFFF,
    ;
    assert((a > 0 && b > 0 && c > 0) ==> a * b * c > 0) by (nonlinear_arith);
    (ab as u128) * (c as u128)
}

/// Appends the decimal digits of `n` to `out`, with zeros in front to make
/// at least `width` of them.
fn push_padded(out: &mut Vec<u8>, n: u128, width: usize)
    ensures
        final(out)@ == old(out)@ + spec_padded(n as nat, width as nat),
    decreases n, width,
{
    if n < 10 && width <= 1 {
        out.push(48 + n as u8);
    } else {
        let ghost before = out@;
        let less: usize = if width > 0 {
            width - 1
        } else {
            0
        };
        push_padded(out, n / 10, less);
        out.push(48 + (n % 10) as u8);
        assert(out@ =~= before + spec_padded(n as nat, width as nat));
    }
}

/// Appends `scaled / 10^decimals` to `out`, with `decimals` decimals and
/// at least `width` digits before the point; `decimals` is 5 or 3.
fn push_decimal(out: &mut Vec<u8>, scaled: u128, width: usize, decimals: usize)
    requires
        decimals == 5 || decimals == 3,
    ensures
        final(out)@ == old(out)@ + spec_decimal(scaled as nat, width as nat, decimals as nat),
{
    let ghost before = out@;
    let unit: u128 = if decimals == 5 {
        100_000
    } else {
        1_000
    };
    push_padded(out, scaled / unit, width);
    out.push(46);
    push_padded(out, scaled % unit, decimals);
    assert(out@ =~= before + spec_decimal(scaled as nat, width as nat, decimals as nat));
}

/// Appends the sign character to `out`.
fn push_sign(out: &mut Vec<u8>, positive: bool)
    ensures
        final(out)@ == old(out)@ + seq![spec_sign(positive)],
{
    let ghost before = out@;
    out.push(
        if positive {
            43
        } else {
            45
        },
    );
    assert(out@ =~= before + seq![spec_sign(positive)]);
}

/// Appends `CRSWGS_84` to `out`.
fn push_crs(out: &mut Vec<u8>)
    ensures
        final(out)@ == old(out)@ + spec_crs(),
{
    let ghost before = out@;
    out.push(0x43);
    out.push(0x52);
    out.push(0x53);
    out.push(0x57);
    out.push(0x47);
    out.push(0x53);
    out.push(0x5F);
    out.push(0x38);
    out.push(0x34);
    assert(out@ =~= before + spec_crs());
}

/// Appends the altitude part of a position to `out`.
fn push_altitude(out: &mut Vec<u8>, altitude_ref: u8, a: URational)
    requires
        a.den != 0,
    ensures
        final(out)@ == old(out)@ + spec_altitude_part_of(altitude_ref, a),
{
    let ghost before = out@;
    if a.num != 0 {
        push_sign(out, altitude_ref == 0);
        let ghost signed = out@;
        if a.num % a.den == 0 {
            push_padded(out, (a.num / a.den) as u128, 1);
        } else {
            let num: u128 = a.num as u128;
            let den: u128 = a.den as u128;
            push_decimal(out, (2 * num * 1000 + den) / (2 * den), 1, 3);
        }
        let ghost numbered = out@;
        push_crs(out);
        assert(out@ =~= before + spec_altitude_part_of(altitude_ref, a));
    } else {
        assert(out@ =~= before + Seq::<u8>::empty());
    }
}

/// Digits are ASCII codes.
proof fn lemma_padded_is_ascii(n: nat, width: nat)
    ensures
        spec_is_ascii(spec_padded(n, width)),
    decreases n, width,
{
    if !(n < 10 && width <= 1) {
        lemma_padded_is_ascii(
            n / 10,
            if width > 0 {
                (width - 1) as nat
            } else {
                0
            },
        );
    }
}

/// String::from_utf8_lossy, on bytes that are all ASCII codes: the string
/// has one character for each byte, the character with that code.
#[verifier::external_body]
fn ascii_to_string(bytes: &[u8]) -> (r: String)
    requires
        spec_is_ascii(bytes@),
    ensures
        r@ == spec_chars(bytes@),
{
    String::from_utf8_lossy(bytes).into_owned()
}

impl LatLng {
    /// Returns the angle in hundred-thousandths of a degree, rounded;
    /// `None` when a denominator is zero.
    pub fn scaled(&self) -> (r: Option<u128>)
        ensures
            r.is_some() <==> self.spec_valid(),
            r matches Some(v) ==> v == self.spec_scaled(),
    {
        let d = self.degrees;
        let m = self.minutes;
        let s = self.seconds;
        if d.den == 0 || m.den == 0 || s.den == 0 {
            return None;
        }
        let n: u128 = 3600 * mul3(d.num, m.den, s.den) + 60 * mul3(m.num, d.den, s.den) + mul3(
            s.num,
            d.den,
            m.den,
        );
        let q: u128 = 3600 * mul3(d.den, m.den, s.den);
        Some((2 * n * 100_000 + q) / (2 * q))
    }
}

impl GPSInfo {
    /// Writes the position in the notation of ISO 6709, as ASCII codes;
    /// `None` when a denominator is zero.
    pub fn iso6709_bytes(&self) -> (r: Option<Vec<u8>>)
        ensures
            r.is_some() <==> self.spec_valid(),
            r matches Some(v) ==> v@ == self.spec_iso6709(),
    {
        let lat = match self.latitude.scaled() {
            None => {
                return None;
            },
            Some(v) => v,
        };
        let lon = match self.longitude.scaled() {
            None => {
                return None;
            },
            Some(v) => v,
        };
        if self.altitude.den == 0 {
            return None;
        }
        let mut out: Vec<u8> = Vec::new();
        push_sign(&mut out, self.latitude_ref == 0x4E);
        push_decimal(&mut out, lat, 2, 5);
        push_sign(&mut out, self.longitude_ref == 0x45);
        push_decimal(&mut out, lon, 3, 5);
        push_altitude(&mut out, self.altitude_ref, self.altitude);
        out.push(0x2F);
        assert(out@ =~= self.spec_iso6709());
        Some(out)
    }

    /// Writes the position in the notation of ISO 6709; `None` when a
    /// denominator is zero.
    pub fn format_iso6709(&self) -> (r: Option<String>)
        ensures
            r.is_some() <==> self.spec_valid(),
            r matches Some(text) ==> text@ == spec_chars(self.spec_iso6709()),
    {
        match self.iso6709_bytes() {
            None => None,
            Some(bytes) => {
                proof {
                    lemma_iso6709_is_ascii(*self);
                }
                Some(ascii_to_string(bytes.as_slice()))
            },
        }
    }
}

/// A position is written in ASCII codes only.
pub proof fn lemma_iso6709_is_ascii(info: GPSInfo)
    ensures
        spec_is_ascii(info.spec_iso6709()),
{
    let lat = info.latitude.spec_scaled() as nat;
    let lon = info.longitude.spec_scaled() as nat;
    lemma_padded_is_ascii(lat / 100_000, 2);
    lemma_padded_is_ascii(lat % 100_000, 5);
    lemma_padded_is_ascii(lon / 100_000, 3);
    lemma_padded_is_ascii(lon % 100_000, 5);
    let a = info.altitude;
    if a.num != 0 {
        if a.num % a.den == 0 {
            lemma_padded_is_ascii((a.num / a.den) as nat, 1);
        } else {
            let r = spec_round_div(a.num as int, a.den as int, 1000) as nat;
            lemma_padded_is_ascii(r / 1000, 1);
            lemma_padded_is_ascii(r % 1000, 3);
        }
    }
    assert(spec_is_ascii(spec_crs()));
    assert(spec_is_ascii(info.spec_altitude_part()));
}

/// Returns the angle that the three fractions in `v` stand for.
fn angle_of(v: &EntryValue) -> (r: Option<LatLng>)
    ensures
        r == spec_angle(v@),
{
    match v {
        EntryValue::Rational(q) => if q.len() == 3 {
            Some(
                LatLng {
                    degrees: URational { num: q[0].0, den: q[0].1 },
                    minutes: URational { num: q[1].0, den: q[1].1 },
                    seconds: URational { num: q[2].0, den: q[2].1 },
                },
            )
        } else {
            None
        },
        _ => None,
    }
}

/// Returns the first character of a text value.
fn ref_char_of(v: &EntryValue) -> (r: Option<u8>)
    ensures
        r == spec_ref_char(v@),
{
    match v {
        EntryValue::Ascii(t) => if t.len() >= 1 {
            Some(t[0])
        } else {
            None
        },
        _ => None,
    }
}

impl Exif {
    /// Returns the position that the GPS entries give, if they give one.
    pub fn get_gps_info(&self) -> (r: Option<GPSInfo>)
        ensures
            r == spec_gps_info(self@),
    {
        let latitude_ref = match self.get(IfdOrigin::Gps, GPS_LATITUDE_REF) {
            None => {
                return None;
            },
            Some(v) => ref_char_of(v),
        };
        let latitude = match self.get(IfdOrigin::Gps, GPS_LATITUDE) {
            None => {
                return None;
            },
            Some(v) => angle_of(v),
        };
        let longitude_ref = match self.get(IfdOrigin::Gps, GPS_LONGITUDE_REF) {
            None => {
                return None;
            },
            Some(v) => ref_char_of(v),
        };
        let longitude = match self.get(IfdOrigin::Gps, GPS_LONGITUDE) {
            None => {
                return None;
            },
            Some(v) => angle_of(v),
        };
        let altitude = match self.get(IfdOrigin::Gps, GPS_ALTITUDE) {
            Some(EntryValue::Rational(q)) => if q.len() == 1 {
                URational { num: q[0].0, den: q[0].1 }
            } else {
                URational { num: 0, den: 1 }
            },
            _ => URational { num: 0, den: 1 },
        };
        let altitude_ref = match self.get(IfdOrigin::Gps, GPS_ALTITUDE_REF) {
            Some(EntryValue::Byte(b)) => if b.len() == 1 {
                b[0]
            } else {
                0
            },
            _ => 0,
        };
        match (latitude_ref, latitude, longitude_ref, longitude) {
            (Some(latitude_ref), Some(latitude), Some(longitude_ref), Some(longitude)) => Some(
                GPSInfo {
                    latitude_ref,
                    latitude,
                    longitude_ref,
                    longitude,
                    altitude_ref,
                    altitude,
                },
            ),
            _ => None,
        }
    }
}

} // verus!
