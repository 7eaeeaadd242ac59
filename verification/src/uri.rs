//! The URI config parser: turns an `otpauth://totp/...` authenticator URI
//! into a validated `TOTPSpec`, applying the defaults and the
//! normalisation rules for each recognised query key.

use vstd::prelude::*;

use crate::totp::{digit_char, is_digit, spec_decimal, spec_default, TOTPSpec, TotpSpecView};
use vstd::arithmetic::div_mod::lemma_breakdown;
use vstd::arithmetic::power::{lemma_pow_positive, pow};

verus! {

/// Why a URI was rejected: a host other than `totp`, a secret that is not
/// valid Base32, or a period or digit count that is not a decimal number
/// in range.
#[derive(Clone, Copy, Debug, PartialEq, Eq, Structural)]
pub enum TotpError {
    UnsupportedScheme,
    InvalidSecret,
    InvalidPeriod,
    InvalidDigits,
}

// ---------------------------------------------------------------------------
// Decimal parsing
// ---------------------------------------------------------------------------

/// The numeric value of an ASCII digit character.
pub open spec fn digit_value(c: char) -> nat
    recommends
        is_digit(c),
{
    (c as u32 - 48) as nat
}

/// The value of a digit string, most significant digit first.
pub open spec fn spec_digits_val(s: Seq<char>) -> nat
    decreases s.len(),
{
    if s.len() == 0 {
        0
    } else {
        spec_digits_val(s.drop_last()) * 10 + digit_value(s.last())
    }
}

/// Whether every character of `s` is an ASCII digit.
pub open spec fn spec_all_digits(s: Seq<char>) -> bool {
    forall|i: int| 0 <= i < s.len() ==> is_digit(#[trigger] s[i])
}

/// What parsing a decimal `u32` returns: the value of a non-empty
/// all-digit string that fits, nothing otherwise.
pub open spec fn spec_parse_u32(s: Seq<char>) -> Option<u32> {
    if s.len() > 0 && spec_all_digits(s) && spec_digits_val(s) <= u32::MAX {
        Some(spec_digits_val(s) as u32)
    } else {
        None
    }
}

/// What parsing a decimal `u8` returns.
pub open spec fn spec_parse_u8(s: Seq<char>) -> Option<u8> {
    if s.len() > 0 && spec_all_digits(s) && spec_digits_val(s) <= u8::MAX {
        Some(spec_digits_val(s) as u8)
    } else {
        None
    }
}

/// A digit string is worth at least as much as any of its prefixes.
proof fn lemma_digits_val_monotone(s: Seq<char>, i: int)
    requires
        0 <= i <= s.len(),
    ensures
        spec_digits_val(s.take(i)) <= spec_digits_val(s),
    decreases s.len() - i,
{
    if i < s.len() {
        assert(s.take(i + 1).drop_last() =~= s.take(i));
        assert(s.take(i + 1).last() == s[i]);
        lemma_digits_val_monotone(s, i + 1);
    } else {
        assert(s.take(i) =~= s);
    }
}

/// Parse a decimal `u32`: the value of a non-empty all-digit string that
/// fits in 32 bits, `None` otherwise.
pub fn parse_u32(s: &str) -> (r: Option<u32>)
    ensures
        r == spec_parse_u32(s@),
{
    let n = s.unicode_len();
    if n == 0 {
        return None;
    }
    let mut acc: u64 = 0;
    let mut i: usize = 0;
    proof {
        assert(s@.take(0) =~= Seq::<char>::empty());
    }
    while i < n
        invariant
            i <= n,
            n == s@.len(),
            acc == spec_digits_val(s@.take(i as int)),
            acc <= u32::MAX,
            spec_all_digits(s@.take(i as int)),
        decreases n - i,
    {
        let c = s.get_char(i);
        let u = c as u32;
        if u < 48 || u > 57 {
            proof {
                assert(!is_digit(s@[i as int]));
                assert(!spec_all_digits(s@));
            }
            return None;
        }
        let d = (u - 48) as u64;
        let next = acc * 10 + d;
        proof {
            assert(s@.take(i as int + 1).drop_last() =~= s@.take(i as int));
            assert(s@.take(i as int + 1).last() == s@[i as int]);
            assert(next == spec_digits_val(s@.take(i as int + 1)));
            assert(spec_all_digits(s@.take(i as int + 1)));
        }
        if next > 0xffff_ffff {
            proof {
                if spec_all_digits(s@) {
                    lemma_digits_val_monotone(s@, i as int + 1);
                }
            }
            return None;
        }
        acc = next;
        i = i + 1;
    }
    proof {
        assert(s@.take(n as int) =~= s@);
    }
    Some(acc as u32)
}

/// Parse a decimal `u8`: the value of a non-empty all-digit string that
/// fits in 8 bits, `None` otherwise.
pub fn parse_u8(s: &str) -> (r: Option<u8>)
    ensures
        r == spec_parse_u8(s@),
{
    match parse_u32(s) {
        Some(v) => if v <= 255 {
            Some(v as u8)
        } else {
            None
        },
        None => None,
    }
}

// ---------------------------------------------------------------------------
// Base32 padding and decoding
// ---------------------------------------------------------------------------

/// How many pad characters bring a length up to a multiple of 8.
pub open spec fn spec_pad_len(n: nat) -> nat {
    if n % 8 == 0 {
        0
    } else {
        (8 - n % 8) as nat
    }
}

/// `s` right-padded with `=` until its length is a multiple of 8.
pub open spec fn spec_pad32(s: Seq<char>) -> Seq<char> {
    s + Seq::new(spec_pad_len(s.len()), |i: int| '=')
}

/// The padded string keeps `s` as a prefix, adds fewer than 8 pad
/// characters, and its length is a multiple of 8.
pub proof fn lemma_pad_shape(s: Seq<char>)
    ensures
        spec_pad32(s).len() % 8 == 0,
        s.len() <= spec_pad32(s).len() < s.len() + 8,
        spec_pad32(s).take(s.len() as int) == s,
        forall|i: int| s.len() <= i < spec_pad32(s).len() ==> spec_pad32(s)[i] == '=',
{
    assert(spec_pad32(s).take(s.len() as int) =~= s);
    let n = s.len();
    if n % 8 != 0 {
        assert((n + (8 - n % 8)) % 8 == 0) by (nonlinear_arith);
    }
}

/// Pad the secret to a length divisible by 8, for it to be decoded as
/// Base32.
pub fn pad_string_to_base32(s: &mut String)
    ensures
        final (s)@ == spec_pad32(old(s)@),
{
    let n = s.unicode_len();
    let pad: usize = if n % 8 == 0 {
        0
    } else {
        8 - n % 8
    };
    let mut k: usize = 0;
    proof {
        assert(s@ =~= old(s)@ + Seq::new(0, |i: int| '='));
    }
    while k < pad
        invariant
            k <= pad,
            pad == spec_pad_len(old(s)@.len()),
            s@ == old(s)@ + Seq::new(k as nat, |i: int| '='),
        decreases pad - k,
    {
        s.append("=");
        proof {
            reveal_strlit("=");
            assert("="@ =~= seq!['=']);
            assert(s@ =~= old(s)@ + Seq::new((k + 1) as nat, |i: int| '='));
        }
        k = k + 1;
    }
    proof {
        assert(s@ =~= spec_pad32(old(s)@));
    }
}

/// The Base32 (RFC 4648) decoding of `s`, if `s` is a valid padded
/// Base32 text: a function of the characters alone, computed by an
/// outside crate.
pub uninterp spec fn base32_decoded(s: Seq<char>) -> Option<Seq<u8>>;

/// Relies on data_encoding::BASE32.decode over the UTF-8 bytes of `s`:
/// whether decoding succeeds, and the decoded bytes, are a function of
/// the characters alone.
#[verifier::external_body]
fn base32_decode(s: &str) -> (r: Option<Vec<u8>>)
    ensures
        (r is Some) == (base32_decoded(s@) is Some),
        r matches Some(v) ==> Some(v@) == base32_decoded(s@),
{
    data_encoding::BASE32.decode(s.as_bytes()).ok()
}

// ---------------------------------------------------------------------------
// URI decomposition (trusted) and the parsing rules (verified)
// ---------------------------------------------------------------------------

/// The host and percent-decoded query pairs of a URI, in their given
/// order, if the text is a syntactically valid URI: a function of the
/// text alone, computed by an outside crate.
pub uninterp spec fn uri_parts_of(s: Seq<char>) -> Option<(Seq<char>, Seq<(Seq<char>, Seq<char>)>)>;

/// Relies on url::Url::parse, Url::host_str and Url::query_pairs: a
/// syntactically valid URI yields its host name (an absent host is
/// reported as the empty name) and its percent-decoded query pairs in
/// their given order.
#[verifier::external_body]
fn parse_uri_parts(s: &str) -> (r: Option<(String, Vec<(String, String)>)>)
    ensures
        (r is Some) == (uri_parts_of(s@) is Some),
        r matches Some(p) ==> Some((p.0@, p.1.deep_view())) == uri_parts_of(s@),
{
    match url::Url::parse(s) {
        Ok(u) => {
            let host = match u.host_str() {
                Some(h) => h.to_owned(),
                None => String::new(),
            };
            let pairs = u.query_pairs().map(|(k, v)| (k.into_owned(), v.into_owned())).collect();
            Some((host, pairs))
        },
        Err(_) => None,
    }
}

/// What one query pair does to the configuration built so far:
/// recognised keys overwrite their field (after padding and decoding the
/// secret, parsing and normalising period and digits), unrecognised keys
/// change nothing.
pub open spec fn spec_apply_pair(st: TotpSpecView, key: Seq<char>, val: Seq<char>) -> Result<
    TotpSpecView,
    TotpError,
> {
    if key == "secret"@ {
        match base32_decoded(spec_pad32(val)) {
            Some(b) => Ok(TotpSpecView { secret: b, ..st }),
            None => Err(TotpError::InvalidSecret),
        }
    } else if key == "period"@ {
        match spec_parse_u32(val) {
            Some(p) => Ok(
                TotpSpecView {
                    period: if p < 1 {
                        30u32
                    } else {
                        p
                    },
                    ..st
                },
            ),
            None => Err(TotpError::InvalidPeriod),
        }
    } else if key == "digits"@ {
        match spec_parse_u8(val) {
            Some(d) => Ok(
                TotpSpecView {
                    digits: if d < 6 || d > 8 {
                        6u8
                    } else {
                        d
                    },
                    ..st
                },
            ),
            None => Err(TotpError::InvalidDigits),
        }
    } else if key == "algorithm"@ {
        Ok(TotpSpecView { algorithm: val, ..st })
    } else if key == "issuer"@ {
        Ok(TotpSpecView { issuer: val, ..st })
    } else {
        Ok(st)
    }
}

/// The query pairs folded over the configuration in order: the last
/// occurrence of a key wins, the first failing pair decides the error.
pub open spec fn spec_from_pairs(st: TotpSpecView, pairs: Seq<(Seq<char>, Seq<char>)>) -> Result<
    TotpSpecView,
    TotpError,
>
    decreases pairs.len(),
{
    if pairs.len() == 0 {
        Ok(st)
    } else {
        match spec_apply_pair(st, pairs[0].0, pairs[0].1) {
            Ok(st2) => spec_from_pairs(st2, pairs.drop_first()),
            Err(e) => Err(e),
        }
    }
}

/// What parsing a decomposed URI returns: only the host `totp` is
/// accepted; the query pairs are then applied in order to the default
/// configuration.
pub open spec fn spec_from_parts(host: Seq<char>, pairs: Seq<(Seq<char>, Seq<char>)>) -> Result<
    TotpSpecView,
    TotpError,
> {
    if host != "totp"@ {
        Err(TotpError::UnsupportedScheme)
    } else {
        spec_from_pairs(spec_default(), pairs)
    }
}

/// Apply one query pair to the configuration built so far.
fn apply_pair(spec: TOTPSpec, key: &String, val: &String) -> (r: Result<TOTPSpec, TotpError>)
    ensures
        r matches Ok(c) ==> spec_apply_pair(spec@, key@, val@) == Ok::<TotpSpecView, TotpError>(
            c@,
        ),
        r matches Err(e) ==> spec_apply_pair(spec@, key@, val@) == Err::<TotpSpecView, TotpError>(
            e,
        ),
{
    if *key == String::from_str("secret") {
        let mut padded = val.clone();
        pad_string_to_base32(&mut padded);
        match base32_decode(padded.as_str()) {
            Some(b) => Ok(spec.with_secret(b)),
            None => Err(TotpError::InvalidSecret),
        }
    } else if *key == String::from_str("period") {
        match parse_u32(val.as_str()) {
            Some(p) => Ok(
                spec.with_period(
                    if p < 1 {
                        30
                    } else {
                        p
                    },
                ),
            ),
            None => Err(TotpError::InvalidPeriod),
        }
    } else if *key == String::from_str("digits") {
        match parse_u8(val.as_str()) {
            Some(d) => Ok(
                spec.with_digits(
                    if d < 6 || d > 8 {
                        6
                    } else {
                        d
                    },
                ),
            ),
            None => Err(TotpError::InvalidDigits),
        }
    } else if *key == String::from_str("algorithm") {
        Ok(spec.with_algorithm(val.clone()))
    } else if *key == String::from_str("issuer") {
        Ok(spec.with_issuer(val.clone()))
    } else {
        Ok(spec)
    }
}

impl TOTPSpec {
    /// Build a configuration from a URI already decomposed into its host
    /// and query pairs: the host must be literally `totp`; the pairs are
    /// applied to the defaults in order, the last occurrence of a key
    /// winning.
    pub fn from_parts(host: &str, pairs: &Vec<(String, String)>) -> (r: Result<TOTPSpec, TotpError>)
        ensures
            r matches Ok(s) ==> spec_from_parts(host@, pairs.deep_view()) == Ok::<
                TotpSpecView,
                TotpError,
            >(s@),
            r matches Err(e) ==> spec_from_parts(host@, pairs.deep_view()) == Err::<
                TotpSpecView,
                TotpError,
            >(e),
            r matches Ok(s) ==> s@.wf(),
    {
        if !(String::from_str(host) == String::from_str("totp")) {
            return Err(TotpError::UnsupportedScheme);
        }
        assert(host@ == "totp"@);
        let ghost all = pairs.deep_view();
        let mut cur = TOTPSpec::default();
        let mut i: usize = 0;
        proof {
            assert(all.skip(0) =~= all);
        }
        while i < pairs.len()
            invariant
                i <= pairs.len(),
                host@ == "totp"@,
                all == pairs.deep_view(),
                spec_from_pairs(spec_default(), all) == spec_from_pairs(cur@, all.skip(i as int)),
            decreases pairs.len() - i,
        {
            let p = &pairs[i];
            let next = apply_pair(cur, &p.0, &p.1);
            proof {
                assert(all[i as int] == (pairs@[i as int].0@, pairs@[i as int].1@));
                assert(all.skip(i as int)[0] == all[i as int]);
                assert(all.skip(i as int).drop_first() =~= all.skip(i as int + 1));
            }
            match next {
                Ok(c) => {
                    cur = c;
                },
                Err(e) => {
                    proof {
                        assert(all.skip(i as int).len() > 0);
                        assert(spec_apply_pair(cur@, all[i as int].0, all[i as int].1)
                            == Err::<TotpSpecView, TotpError>(e));
                        assert(spec_from_pairs(cur@, all.skip(i as int)) == Err::<
                            TotpSpecView,
                            TotpError,
                        >(e));
                    }
                    return Err(e);
                },
            }
            i = i + 1;
        }
        proof {
            assert(all.skip(pairs.len() as int) =~= Seq::<(Seq<char>, Seq<char>)>::empty());
            lemma_pairs_wf(spec_default(), all);
        }
        Ok(cur)
    }

    /// Build a configuration from an authenticator URI. A text that is
    /// not a valid URI is rejected as an unsupported scheme; a valid one
    /// is decomposed and parsed as `from_parts` says.
    pub fn new(uri: &str) -> (r: Result<TOTPSpec, TotpError>)
        ensures
            uri_parts_of(uri@) is None ==> (r matches Err(e) && e == TotpError::UnsupportedScheme),
            uri_parts_of(uri@) matches Some(p) ==> {
                &&& (r matches Ok(s) ==> spec_from_parts(p.0, p.1) == Ok::<TotpSpecView, TotpError>(
                    s@,
                ))
                &&& (r matches Err(e) ==> spec_from_parts(p.0, p.1) == Err::<
                    TotpSpecView,
                    TotpError,
                >(e))
            },
            r matches Ok(s) ==> s@.wf(),
    {
        match parse_uri_parts(uri) {
            Some(parts) => TOTPSpec::from_parts(parts.0.as_str(), &parts.1),
            None => Err(TotpError::UnsupportedScheme),
        }
    }
}

// ---------------------------------------------------------------------------
// Laws of the parser
// ---------------------------------------------------------------------------

/// Folding query pairs never rejects a URI for its scheme: that error
/// belongs to the host check alone.
proof fn lemma_pairs_no_scheme_err(st: TotpSpecView, pairs: Seq<(Seq<char>, Seq<char>)>)
    ensures
        spec_from_pairs(st, pairs) != Err::<TotpSpecView, TotpError>(TotpError::UnsupportedScheme),
    decreases pairs.len(),
{
    if pairs.len() > 0 {
        match spec_apply_pair(st, pairs[0].0, pairs[0].1) {
            Ok(st2) => {
                lemma_pairs_no_scheme_err(st2, pairs.drop_first());
            },
            Err(_) => {
            },
        }
    }
}

/// Host validation: a decomposed URI is rejected as an unsupported
/// scheme exactly when its host is not literally `totp`.
pub proof fn lemma_host_rejected(host: Seq<char>, pairs: Seq<(Seq<char>, Seq<char>)>)
    ensures
        (spec_from_parts(host, pairs) == Err::<TotpSpecView, TotpError>(
            TotpError::UnsupportedScheme,
        )) <==> host != "totp"@,
{
    if host == "totp"@ {
        lemma_pairs_no_scheme_err(spec_default(), pairs);
    }
}

/// Applying query pairs preserves well-formedness: the period stays
/// positive and the digit count stays in {6, 7, 8}.
proof fn lemma_pairs_wf(st: TotpSpecView, pairs: Seq<(Seq<char>, Seq<char>)>)
    requires
        st.wf(),
    ensures
        spec_from_pairs(st, pairs) matches Ok(s2) ==> s2.wf(),
    decreases pairs.len(),
{
    if pairs.len() > 0 {
        match spec_apply_pair(st, pairs[0].0, pairs[0].1) {
            Ok(st2) => {
                assert(st2.wf());
                lemma_pairs_wf(st2, pairs.drop_first());
            },
            Err(_) => {
            },
        }
    }
}

/// The decimal rendering carries the value: read back as a digit string,
/// a `width`-wide rendering of `v` is worth exactly `v` modulo 10^width.
pub proof fn lemma_decimal_round_trip(v: nat, width: nat)
    ensures
        spec_digits_val(spec_decimal(v, width)) == (v as int) % pow(10, width),
    decreases width,
{
    reveal(pow);
    let s = spec_decimal(v, width);
    if width == 0 {
        assert(pow(10, 0) == 1);
        assert((v as int) % 1 == 0);
    } else {
        let w1 = (width - 1) as nat;
        lemma_decimal_round_trip(v / 10, w1);
        lemma_pow_positive(10, w1);
        lemma_breakdown(v as int, 10, pow(10, w1));
        assert(pow(10, width) == 10 * pow(10, w1));
        assert(s.drop_last() =~= spec_decimal(v / 10, w1));
        assert(s.last() == digit_char(v % 10));
        assert(digit_value(digit_char(v % 10)) == v % 10);
    }
}

/// Every successfully parsed configuration is well-formed, whatever the
/// URI's query holds: out-of-range digit counts and periods have been
/// replaced by their defaults, never accepted.
pub proof fn lemma_parsed_wf(host: Seq<char>, pairs: Seq<(Seq<char>, Seq<char>)>)
    ensures
        spec_from_parts(host, pairs) matches Ok(s) ==> s.wf(),
{
    if host == "totp"@ {
        lemma_pairs_wf(spec_default(), pairs);
    }
}

} // verus!
