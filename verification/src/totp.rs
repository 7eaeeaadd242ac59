//! The OTP engine: counter encoding, HMAC-SHA1 dynamic truncation and
//! fixed-width decimal formatting (RFC 4226, applied with time-based
//! counters per RFC 6238).

use vstd::prelude::*;

verus! {

// ---------------------------------------------------------------------------
// Fixed-width decimal formatting
// ---------------------------------------------------------------------------

/// The character standing for a single decimal digit value.
pub open spec fn digit_char(d: nat) -> char {
    if d == 0 {
        '0'
    } else if d == 1 {
        '1'
    } else if d == 2 {
        '2'
    } else if d == 3 {
        '3'
    } else if d == 4 {
        '4'
    } else if d == 5 {
        '5'
    } else if d == 6 {
        '6'
    } else if d == 7 {
        '7'
    } else if d == 8 {
        '8'
    } else {
        '9'
    }
}

/// Whether a character is an ASCII decimal digit.
pub open spec fn is_digit(c: char) -> bool {
    48 <= c as u32 && c as u32 <= 57
}

/// The low `width` decimal digits of `v`, most significant first: the
/// rendering of `v % 10^width`, left-padded with zeroes to exactly
/// `width` characters.
pub open spec fn spec_decimal(v: nat, width: nat) -> Seq<char>
    decreases width,
{
    if width == 0 {
        Seq::<char>::empty()
    } else {
        spec_decimal(v / 10, (width - 1) as nat).push(digit_char(v % 10))
    }
}

/// A fixed-width decimal rendering has exactly `width` characters, all of
/// them ASCII digits.
pub proof fn lemma_decimal_shape(v: nat, width: nat)
    ensures
        spec_decimal(v, width).len() == width,
        forall|i: int| 0 <= i < width ==> is_digit(#[trigger] spec_decimal(v, width)[i]),
    decreases width,
{
    if width > 0 {
        lemma_decimal_shape(v / 10, (width - 1) as nat);
    }
}

/// Fixed-width decimal rendering of `v`: keeps exactly the low `width`
/// digits, zero-padded on the left.
pub fn dec_str(v: u32, width: u8) -> (r: String)
    ensures
        r@ == spec_decimal(v as nat, width as nat),
    decreases width,
{
    if width == 0 {
        let r = String::new();
        proof {
            assert(r@ =~= spec_decimal(v as nat, 0));
        }
        r
    } else {
        let rest = dec_str(v / 10, width - 1);
        let d = v % 10;
        let ds: &str = if d == 0 {
            "0"
        } else if d == 1 {
            "1"
        } else if d == 2 {
            "2"
        } else if d == 3 {
            "3"
        } else if d == 4 {
            "4"
        } else if d == 5 {
            "5"
        } else if d == 6 {
            "6"
        } else if d == 7 {
            "7"
        } else if d == 8 {
            "8"
        } else {
            "9"
        };
        proof {
            reveal_strlit("0");
            reveal_strlit("1");
            reveal_strlit("2");
            reveal_strlit("3");
            reveal_strlit("4");
            reveal_strlit("5");
            reveal_strlit("6");
            reveal_strlit("7");
            reveal_strlit("8");
            reveal_strlit("9");
            assert(ds@ =~= seq![digit_char((v % 10) as nat)]);
        }
        let r = rest.concat(ds);
        proof {
            assert(r@ =~= spec_decimal(v as nat, width as nat));
        }
        r
    }
}

// ---------------------------------------------------------------------------
// Counter encoding
// ---------------------------------------------------------------------------

/// An 8-byte big-endian counter block, as HOTP hashes it: the counter is
/// held in the low-order 4 bytes, the high-order 4 bytes are zero.
pub struct Bytes(pub [u8; 8]);

/// The 8-byte big-endian encoding of a 32-bit counter.
pub open spec fn spec_counter_bytes(v: u32) -> Seq<u8> {
    seq![
        0u8,
        0u8,
        0u8,
        0u8,
        (v >> 24) as u8,
        ((v >> 16) & 0xff) as u8,
        ((v >> 8) & 0xff) as u8,
        (v & 0xff) as u8,
    ]
}

impl Bytes {
    /// Encode a 32-bit counter as 8 big-endian bytes, lower index holding
    /// the more significant value; for example 1 becomes
    /// `[0, 0, 0, 0, 0, 0, 0, 1]`.
    pub fn from(v: u32) -> (r: Bytes)
        ensures
            r.0@ == spec_counter_bytes(v),
    {
        proof {
            assert((v >> 24) <= 0xff && ((v >> 16) & 0xff) <= 0xff && ((v >> 8) & 0xff) <= 0xff
                && (v & 0xff) <= 0xff) by (bit_vector);
        }
        let x: [u8; 8] = [
            0u8,
            0u8,
            0u8,
            0u8,
            (v >> 24) as u8,
            ((v >> 16) & 0xff) as u8,
            ((v >> 8) & 0xff) as u8,
            (v & 0xff) as u8,
        ];
        let r = Bytes(x);
        proof {
            assert(r.0@ =~= spec_counter_bytes(v));
        }
        r
    }
}

// ---------------------------------------------------------------------------
// HMAC-SHA1 (trusted) and dynamic truncation
// ---------------------------------------------------------------------------

/// The HMAC-SHA1 tag of `msg` under `key`: a function of the two byte
/// sequences alone, computed by an outside crate.
pub uninterp spec fn hmac_sha1_of(key: Seq<u8>, msg: Seq<u8>) -> Seq<u8>;

/// Relies on ring::hmac::Key::new and ring::hmac::sign with the
/// HMAC_SHA1_FOR_LEGACY_USE_ONLY algorithm: the tag is a function of the
/// key and message bytes alone, 20 bytes long (the SHA-1 digest width).
/// The two calls fail only on inputs beyond SHA-1's 2^61-byte limit,
/// which no value held in memory reaches.
#[verifier::external_body]
fn hmac_sha1(key: &[u8], msg: &[u8]) -> (r: Vec<u8>)
    ensures
        r@ == hmac_sha1_of(key@, msg@),
        r@.len() == 20,
{
    let k = ring::hmac::Key::new(ring::hmac::HMAC_SHA1_FOR_LEGACY_USE_ONLY, key);
    ring::hmac::sign(&k, msg).as_ref().to_vec()
}

/// RFC 4226 dynamic truncation: the low nibble of the last tag byte picks
/// a 4-byte window, read as a big-endian 31-bit integer.
pub open spec fn spec_truncate(tag: Seq<u8>) -> u32
    recommends
        tag.len() == 20,
{
    let off = (tag[19] & 0x0f) as int;
    (((tag[off] & 0x7f) as u32) << 24) | ((tag[off + 1] as u32) << 16) | (
    (tag[off + 2] as u32) << 8) | (tag[off + 3] as u32)
}

/// Select the 31-bit dynamic-truncation value from a 20-byte HMAC tag.
pub fn truncate_tag(tag: &Vec<u8>) -> (h: u32)
    requires
        tag@.len() == 20,
    ensures
        h == spec_truncate(tag@),
{
    let last = tag[19];
    let offset = (last & 0x0f) as usize;
    proof {
        assert((last & 0x0f) < 16) by (bit_vector);
    }
    let h: u32 = (((tag[offset] & 0x7f) as u32) << 24) | ((tag[offset + 1] as u32) << 16) | (
    (tag[offset + 2] as u32) << 8) | (tag[offset + 3] as u32);
    h
}

// ---------------------------------------------------------------------------
// The validated configuration
// ---------------------------------------------------------------------------

/// The mathematical model of a `TOTPSpec`.
pub struct TotpSpecView {
    pub secret: Seq<u8>,
    pub period: u32,
    pub digits: u8,
    pub algorithm: Seq<char>,
    pub issuer: Seq<char>,
}

impl TotpSpecView {
    /// The invariant every constructed configuration satisfies: a positive
    /// period and a digit count of 6, 7 or 8.
    pub open spec fn wf(self) -> bool {
        &&& self.period >= 1
        &&& (self.digits == 6 || self.digits == 7 || self.digits == 8)
    }
}

/// The default configuration: empty secret, 30-second period, 6 digits,
/// SHA1, no issuer.
pub open spec fn spec_default() -> TotpSpecView {
    TotpSpecView {
        secret: Seq::<u8>::empty(),
        period: 30,
        digits: 6,
        algorithm: "SHA1"@,
        issuer: Seq::<char>::empty(),
    }
}

/// A validated TOTP configuration: the shared secret in raw bytes, the
/// seconds per time step, the code width, and two informational labels.
#[derive(Debug)]
pub struct TOTPSpec {
    secret: Vec<u8>,
    period: u32,
    digits: u8,
    algorithm: String,
    issuer: String,
}

impl View for TOTPSpec {
    type V = TotpSpecView;

    closed spec fn view(&self) -> TotpSpecView {
        TotpSpecView {
            secret: self.secret@,
            period: self.period,
            digits: self.digits,
            algorithm: self.algorithm@,
            issuer: self.issuer@,
        }
    }
}

impl TOTPSpec {
    /// The default configuration.
    pub fn default() -> (r: TOTPSpec)
        ensures
            r@ == spec_default(),
            r@.wf(),
    {
        TOTPSpec {
            secret: Vec::new(),
            period: 30,
            digits: 6,
            algorithm: String::from_str("SHA1"),
            issuer: String::new(),
        }
    }

    /// Construct a configuration directly from its fields, applying the
    /// same normalisation the URI parser applies: a period below 1 is
    /// replaced by 30, a digit count outside 6..=8 by 6.
    pub fn build(secret: Vec<u8>, period: u32, digits: u8, algorithm: String, issuer: String) -> (
        r: TOTPSpec)
        ensures
            r@.secret == secret@,
            r@.period == if period < 1 { 30u32 } else { period },
            r@.digits == if digits < 6 || digits > 8 { 6u8 } else { digits },
            r@.algorithm == algorithm@,
            r@.issuer == issuer@,
            r@.wf(),
    {
        TOTPSpec {
            secret,
            period: if period < 1 { 30 } else { period },
            digits: if digits < 6 || digits > 8 { 6 } else { digits },
            algorithm,
            issuer,
        }
    }

    /// The configuration with its secret replaced.
    pub fn with_secret(self, secret: Vec<u8>) -> (r: TOTPSpec)
        ensures
            r@ == (TotpSpecView { secret: secret@, ..self@ }),
    {
        TOTPSpec { secret, ..self }
    }

    /// The configuration with its period replaced.
    pub fn with_period(self, period: u32) -> (r: TOTPSpec)
        ensures
            r@ == (TotpSpecView { period: period, ..self@ }),
    {
        TOTPSpec { period, ..self }
    }

    /// The configuration with its digit count replaced.
    pub fn with_digits(self, digits: u8) -> (r: TOTPSpec)
        ensures
            r@ == (TotpSpecView { digits: digits, ..self@ }),
    {
        TOTPSpec { digits, ..self }
    }

    /// The configuration with its algorithm label replaced.
    pub fn with_algorithm(self, algorithm: String) -> (r: TOTPSpec)
        ensures
            r@ == (TotpSpecView { algorithm: algorithm@, ..self@ }),
    {
        TOTPSpec { algorithm, ..self }
    }

    /// The configuration with its issuer label replaced.
    pub fn with_issuer(self, issuer: String) -> (r: TOTPSpec)
        ensures
            r@ == (TotpSpecView { issuer: issuer@, ..self@ }),
    {
        TOTPSpec { issuer, ..self }
    }

    /// The raw shared secret.
    pub fn secret(&self) -> (r: &Vec<u8>)
        ensures
            r@ == self@.secret,
    {
        &self.secret
    }

    /// Seconds per time step.
    pub fn period(&self) -> (r: u32)
        ensures
            r == self@.period,
    {
        self.period
    }

    /// The width of the generated code.
    pub fn digits(&self) -> (r: u8)
        ensures
            r == self@.digits,
    {
        self.digits
    }

    /// The algorithm label carried in the URI. Informational: the engine
    /// always computes HMAC with SHA1, whatever this field holds.
    pub fn algorithm(&self) -> (r: &String)
        ensures
            r@ == self@.algorithm,
    {
        &self.algorithm
    }

    /// The issuer label carried in the URI. Informational only.
    pub fn issuer(&self) -> (r: &String)
        ensures
            r@ == self@.issuer,
    {
        &self.issuer
    }

    /// Read the current time and generate the code for the current time
    /// step.
    pub fn get_otp(&self) -> (r: String)
        requires
            self@.wf(),
        ensures
            exists|t: u64| r@ == spec_otp(self@, #[trigger] spec_counter(t, self@.period)),
            r@.len() == self@.digits,
            forall|i: int| 0 <= i < r@.len() ==> is_digit(#[trigger] r@[i]),
    {
        let c = get_counter_as_bytes(self);
        let r = get_otp(self, c);
        proof {
            let t = choose|t: u64| c == spec_counter(t, self@.period);
            assert(r@ == spec_otp(self@, spec_counter(t, self@.period)));
        }
        r
    }
}

// ---------------------------------------------------------------------------
// The OTP computation
// ---------------------------------------------------------------------------

/// The OTP code for a configuration and counter: the dynamic-truncation
/// value of the HMAC-SHA1 tag over the big-endian counter block, reduced
/// modulo 10^digits and zero-padded to exactly `digits` characters.
pub open spec fn spec_otp(s: TotpSpecView, counter: u32) -> Seq<char> {
    spec_decimal(
        spec_truncate(hmac_sha1_of(s.secret, spec_counter_bytes(counter))) as nat,
        s.digits as nat,
    )
}

/// Compute the OTP for a configuration and an explicit counter value.
/// Only SHA1 is performed, whatever the configuration's algorithm label
/// says. The result has exactly `digits` characters, all ASCII digits.
pub fn get_otp(spec: &TOTPSpec, counter: u32) -> (r: String)
    ensures
        r@ == spec_otp(spec@, counter),
        r@.len() == spec@.digits,
        forall|i: int| 0 <= i < r@.len() ==> is_digit(#[trigger] r@[i]),
{
    let bytes = Bytes::from(counter);
    let tag = hmac_sha1(spec.secret().as_slice(), bytes.0.as_slice());
    let h = truncate_tag(&tag);
    let r = dec_str(h, spec.digits());
    proof {
        lemma_decimal_shape(h as nat, spec@.digits as nat);
    }
    r
}

/// The time-step counter: the low 32 bits of the Unix time, divided by
/// the period.
pub open spec fn spec_counter(t: u64, period: u32) -> u32
    recommends
        period >= 1,
{
    (((t as int) % 0x1_0000_0000) / (period as int)) as u32
}

/// Compute the time-step counter for a given Unix time in seconds.
pub fn counter_at(t: u64, period: u32) -> (c: u32)
    requires
        period >= 1,
    ensures
        c == spec_counter(t, period),
{
    let low = (t % 0x1_0000_0000) as u32;
    low / period
}

/// Relies on std::time::SystemTime::now and duration_since of the Unix
/// epoch: the seconds since the epoch, 0 if the clock stands before it.
/// Nothing can be promised of a clock reading.
#[verifier::external_body]
fn unix_now_secs() -> u64 {
    match std::time::SystemTime::now().duration_since(std::time::UNIX_EPOCH) {
        Ok(d) => d.as_secs(),
        Err(_) => 0,
    }
}

/// Get the counter value at the current time: the interval number whose
/// HMAC the HOTP core will hash.
pub fn get_counter_as_bytes(spec: &TOTPSpec) -> (c: u32)
    requires
        spec@.wf(),
    ensures
        exists|t: u64| c == spec_counter(t, spec@.period),
{
    let t = unix_now_secs();
    counter_at(t, spec.period())
}

// ---------------------------------------------------------------------------
// Laws of the engine
// ---------------------------------------------------------------------------

/// For every configuration and counter, the OTP code has exactly
/// `digits` characters and every one of them is an ASCII digit.
pub proof fn lemma_otp_shape(s: TotpSpecView, counter: u32)
    ensures
        spec_otp(s, counter).len() == s.digits,
        forall|i: int| 0 <= i < spec_otp(s, counter).len() ==> is_digit(
            #[trigger] spec_otp(s, counter)[i],
        ),
{
    lemma_decimal_shape(
        spec_truncate(hmac_sha1_of(s.secret, spec_counter_bytes(counter))) as nat,
        s.digits as nat,
    );
}

/// Determinism: two OTP computations over the same configuration and the
/// same counter yield the same code.
pub proof fn lemma_otp_deterministic(s: TotpSpecView, counter: u32, r1: Seq<char>, r2: Seq<char>)
    requires
        r1 == spec_otp(s, counter),
        r2 == spec_otp(s, counter),
    ensures
        r1 == r2,
{
}

} // verus!
