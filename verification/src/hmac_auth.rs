//! Signatures of webhook deliveries and of calls between the services.

use vstd::prelude::*;
use vstd::string::*;

use crate::decimal;
use crate::foreign;
use crate::text;

verus! {

/// Why a signature was not accepted.
#[derive(Debug, Clone, Copy, PartialEq, Eq, Structural)]
pub enum HmacError {
    MissingSignature,
    MissingTimestamp,
    BadTimestamp,
    TimestampSkew,
    UnsupportedScheme,
    SignatureMismatch,
}

impl HmacError {
    pub open spec fn message(self) -> Seq<char> {
        match self {
            HmacError::MissingSignature => "missing signature header"@,
            HmacError::MissingTimestamp => "missing timestamp header"@,
            HmacError::BadTimestamp => "bad timestamp"@,
            HmacError::TimestampSkew => "timestamp outside skew window"@,
            HmacError::UnsupportedScheme => "unsupported signature scheme"@,
            HmacError::SignatureMismatch => "signature mismatch"@,
        }
    }

    /// The error in words.
    pub fn to_text(&self) -> (r: String)
        ensures
            r@ == self.message(),
    {
        let s = match self {
            HmacError::MissingSignature => "missing signature header",
            HmacError::MissingTimestamp => "missing timestamp header",
            HmacError::BadTimestamp => "bad timestamp",
            HmacError::TimestampSkew => "timestamp outside skew window",
            HmacError::UnsupportedScheme => "unsupported signature scheme",
            HmacError::SignatureMismatch => "signature mismatch",
        };
        s.to_owned()
    }
}

/// The bytes of a text.
pub open spec fn bytes_of(s: Seq<char>) -> Seq<u8> {
    vstd::utf8::encode_utf8(s)
}

/// The code of a payload under a secret.
pub open spec fn digest(secret: Seq<char>, payload: Seq<u8>) -> Seq<u8> {
    foreign::hmac_sha256_of(bytes_of(secret), payload)
}

/// A signature header: the scheme, then the digest in hexadecimal.
pub open spec fn signature(secret: Seq<char>, payload: Seq<u8>) -> Seq<char> {
    "sha256="@ + foreign::hex_text(digest(secret, payload))
}

/// What is signed for a call between the services: the time, a colon and the
/// body.
pub open spec fn stamped(timestamp: int, body: Seq<u8>) -> Seq<u8> {
    bytes_of(decimal::decimal(timestamp)) + seq![58u8] + body
}

/// A header names the supported scheme.
pub open spec fn has_scheme(header: Seq<char>) -> bool {
    text::begins_with(header, "sha256="@)
}

/// The part of a header after the scheme.
pub open spec fn header_hex(header: Seq<char>) -> Seq<char> {
    header.skip("sha256="@.len() as int)
}

/// A text holds a digest of 32 bytes in hexadecimal, in either case.
pub open spec fn spells(hex: Seq<char>, d: Seq<u8>) -> bool {
    &&& foreign::is_hex_text(hex, 32)
    &&& foreign::hex_bytes(hex) == d
}

/// What becomes of a header that was sent for a payload.
pub open spec fn header_verdict(
    secret: Seq<char>,
    payload: Seq<u8>,
    header: Seq<char>,
) -> Result<(), HmacError> {
    if !has_scheme(header) {
        Err(HmacError::UnsupportedScheme)
    } else if spells(header_hex(header), digest(secret, payload)) {
        Ok(())
    } else {
        Err(HmacError::SignatureMismatch)
    }
}

/// What becomes of a webhook delivery.
pub open spec fn github_verdict(
    secret: Seq<char>,
    body: Seq<u8>,
    header: Option<Seq<char>>,
) -> Result<(), HmacError> {
    match header {
        None => Err(HmacError::MissingSignature),
        Some(h) => header_verdict(secret, body, h),
    }
}

/// The distance between two times.
pub open spec fn distance(a: int, b: int) -> int {
    if a < b {
        b - a
    } else {
        a - b
    }
}

/// What becomes of a call between the services that arrives at time `now`.
pub open spec fn internal_verdict(
    key: Seq<char>,
    body: Seq<u8>,
    header: Option<Seq<char>>,
    timestamp: Option<Seq<char>>,
    skew_seconds: int,
    now: int,
) -> Result<(), HmacError> {
    match (header, timestamp) {
        (None, _) => Err(HmacError::MissingSignature),
        (Some(h), None) => Err(HmacError::MissingTimestamp),
        (Some(h), Some(t)) => match decimal::bounded(
            decimal::signed_value(t),
            i64::MIN as int,
            i64::MAX as int,
        ) {
            None => Err(HmacError::BadTimestamp),
            Some(ts) => if distance(now, ts) > skew_seconds {
                Err(HmacError::TimestampSkew)
            } else {
                header_verdict(key, stamped(ts, body), h)
            },
        },
    }
}

/// The view of an optional text.
pub open spec fn opt_text(v: Option<&str>) -> Option<Seq<char>> {
    match v {
        Some(s) => Some(s@),
        None => None,
    }
}

/// The digest of a payload in hexadecimal.
fn hmac_digest_hex(secret: &str, payload: &[u8]) -> (r: String)
    ensures
        r@ == foreign::hex_text(digest(secret@, payload@)),
        digest(secret@, payload@).len() == 32,
{
    foreign::hex_encode(foreign::hmac_sha256(secret.as_bytes(), payload).as_slice())
}

fn sign(secret: &str, payload: &[u8]) -> (r: String)
    ensures
        r@ == signature(secret@, payload@),
        header_verdict(secret@, payload@, r@) == Ok::<(), HmacError>(()),
{
    let mut r = "sha256=".to_owned();
    r.append(hmac_digest_hex(secret, payload).as_str());
    proof {
        let d = digest(secret@, payload@);
        law_hex_reads_back(d);
        assert(r@.subrange(0, "sha256="@.len() as int) == "sha256="@);
        assert(header_hex(r@) == foreign::hex_text(d));
    }
    r
}

/// The signature header of a webhook delivery; it is accepted for the body
/// that it was made for.
pub fn hmac_sign(secret: &str, body: &[u8]) -> (r: String)
    ensures
        r@ == signature(secret@, body@),
        github_verdict(secret@, body@, Some(r@)) == Ok::<(), HmacError>(()),
{
    sign(secret, body)
}

/// The bytes that are signed for a call at a time: the time in decimal digits, a
/// colon and the body.
pub fn timestamped_payload(timestamp: i64, body: &[u8]) -> (r: Vec<u8>)
    ensures
        r@ == stamped(timestamp as int, body@),
{
    let t = decimal::decimal_i64(timestamp);
    let mut payload: Vec<u8> = Vec::new();
    payload.extend_from_slice(t.as_str().as_bytes());
    payload.push(58u8);
    payload.extend_from_slice(body);
    assert(payload@ =~= stamped(timestamp as int, body@));
    payload
}

/// The signature header of a call between the services, bound to its time; it
/// is accepted with that time and for the body that it was made for, as long
/// as the time lies within the window.
pub fn hmac_sign_with_timestamp(secret: &str, body: &[u8], timestamp: i64) -> (r: String)
    ensures
        r@ == signature(secret@, stamped(timestamp as int, body@)),
        forall|skew: int, now: int|
            distance(now, timestamp as int) <= skew ==> #[trigger] internal_verdict(
                secret@,
                body@,
                Some(r@),
                Some(decimal::decimal(timestamp as int)),
                skew,
                now,
            ) == Ok::<(), HmacError>(()),
{
    proof {
        decimal::law_decimal_reads_back(timestamp as int);
    }
    sign(secret, timestamped_payload(timestamp, body).as_slice())
}

/// The part of a header after the scheme.
fn signature_hex<'a>(header: &'a str) -> (r: Result<&'a str, HmacError>)
    ensures
        match r {
            Ok(hex) => has_scheme(header@) && hex@ == header_hex(header@),
            Err(e) => !has_scheme(header@) && e == HmacError::UnsupportedScheme,
        },
{
    match text::strip_prefix(header, "sha256=") {
        Some(rest) => Ok(rest),
        None => Err(HmacError::UnsupportedScheme),
    }
}

fn verify_header(secret: &str, payload: &[u8], header: &str) -> (r: Result<(), HmacError>)
    ensures
        r == header_verdict(secret@, payload@, header@),
{
    let provided = match signature_hex(header) {
        Ok(hex) => hex,
        Err(e) => return Err(e),
    };
    let expected = hmac_digest_hex(secret, payload);
    proof {
        law_hex_reads_back(digest(secret@, payload@));
        lemma_match_is_equality_of_bytes(provided@, expected@);
    }
    if signatures_match(provided, expected.as_str()) {
        Ok(())
    } else {
        Err(HmacError::SignatureMismatch)
    }
}

/// Two texts stand for the same digest: each is made of 64 hexadecimal digits,
/// and they are equal but for the case of the digits.
pub open spec fn texts_match(a: Seq<char>, b: Seq<char>) -> bool {
    &&& foreign::is_hex_text(a, 32)
    &&& foreign::is_hex_text(b, 32)
    &&& text::same_but_case(a, b)
}

proof fn lemma_match_is_equality_of_bytes(a: Seq<char>, b: Seq<char>)
    ensures
        texts_match(a, b) <==> foreign::is_hex_text(a, 32) && foreign::is_hex_text(b, 32)
            && foreign::hex_bytes(a) == foreign::hex_bytes(b),
{
    if foreign::is_hex_text(a, 32) && foreign::is_hex_text(b, 32) {
        let x = foreign::hex_bytes(a);
        let y = foreign::hex_bytes(b);
        if text::same_but_case(a, b) {
            assert forall|i: int| 0 <= i < 64 implies foreign::hex_digit_value(#[trigger] a[i])
                == foreign::hex_digit_value(b[i]) by {
                assert(text::ascii_lower(a[i]) == text::ascii_lower(b[i]));
                assert(foreign::is_hex_digit(a[i]) && foreign::is_hex_digit(b[i]));
            }
            assert(x =~= y);
        }
        if x == y {
            assert forall|i: int| 0 <= i < 64 implies text::ascii_lower(#[trigger] a[i])
                == text::ascii_lower(b[i]) by {
                let k = i / 2;
                assert(x[k] == y[k]);
                assert(foreign::is_hex_digit(a[2 * k]) && foreign::is_hex_digit(a[2 * k + 1]));
                assert(foreign::is_hex_digit(b[2 * k]) && foreign::is_hex_digit(b[2 * k + 1]));
                assert(foreign::hex_digit_value(a[2 * k]) == foreign::hex_digit_value(b[2 * k]));
                assert(foreign::hex_digit_value(a[2 * k + 1]) == foreign::hex_digit_value(
                    b[2 * k + 1],
                ));
                assert(i == 2 * k || i == 2 * k + 1);
            }
        }
    }
}

/// Whether two texts stand for the same digest, compared in constant time.
pub fn signatures_match(provided_hex: &str, expected_hex: &str) -> (r: bool)
    ensures
        r == texts_match(provided_hex@, expected_hex@),
{
    proof {
        lemma_match_is_equality_of_bytes(provided_hex@, expected_hex@);
    }
    match (decode_digest(provided_hex), decode_digest(expected_hex)) {
        (Some(provided), Some(expected)) => foreign::ct_eq(
            provided.as_slice(),
            expected.as_slice(),
        ),
        _ => false,
    }
}

/// Decoding ignores the case of the digits and turns malformed text away, so
/// that the comparison runs over digests of equal length.
fn decode_digest(hex_text: &str) -> (r: Option<Vec<u8>>)
    ensures
        r is Some <==> foreign::is_hex_text(hex_text@, 32),
        r matches Some(d) ==> d@ == foreign::hex_bytes(hex_text@),
{
    let mut d: Vec<u8> = vec![0u8; 32];
    if foreign::hex_decode_to_slice(hex_text, &mut d) {
        Some(d)
    } else {
        None
    }
}

/// Checks the signature of a webhook delivery.
pub fn verify_github_signature(secret: &str, body: &[u8], signature_header: Option<&str>) -> (r:
    Result<(), HmacError>)
    ensures
        r == github_verdict(secret@, body@, opt_text(signature_header)),
{
    match signature_header {
        Some(h) => verify_header(secret, body, h),
        None => Err(HmacError::MissingSignature),
    }
}

/// Checks the signature of a call between the services that arrives at time
/// `now`.
pub fn verify_internal_signature_at(
    key: &str,
    body: &[u8],
    signature_header: Option<&str>,
    timestamp_header: Option<&str>,
    skew_seconds: u64,
    now: i64,
) -> (r: Result<(), HmacError>)
    ensures
        r == internal_verdict(
            key@,
            body@,
            opt_text(signature_header),
            opt_text(timestamp_header),
            skew_seconds as int,
            now as int,
        ),
{
    let header = match signature_header {
        Some(h) => h,
        None => return Err(HmacError::MissingSignature),
    };
    let stamp = match timestamp_header {
        Some(t) => t,
        None => return Err(HmacError::MissingTimestamp),
    };
    let timestamp: i64 = match decimal::parse_i64(stamp) {
        Some(t) => t,
        None => return Err(HmacError::BadTimestamp),
    };
    let apart: i128 = if now < timestamp {
        timestamp as i128 - now as i128
    } else {
        now as i128 - timestamp as i128
    };
    if apart > skew_seconds as i128 {
        return Err(HmacError::TimestampSkew);
    }
    verify_header(key, timestamped_payload(timestamp, body).as_slice(), header)
}

/// Checks the signature of a call between the services against the clock.
pub fn verify_internal_signature(
    key: &str,
    body: &[u8],
    signature_header: Option<&str>,
    timestamp_header: Option<&str>,
    skew_seconds: u64,
) -> (r: Result<(), HmacError>)
    ensures
        exists|now: i64|
            now >= 0 && r == #[trigger] internal_verdict(
                key@,
                body@,
                opt_text(signature_header),
                opt_text(timestamp_header),
                skew_seconds as int,
                now as int,
            ),
{
    let now: i64 = foreign::unix_seconds();
    verify_internal_signature_at(
        key,
        body,
        signature_header,
        timestamp_header,
        skew_seconds,
        now,
    )
}

/// Bytes that were written in hexadecimal read back as they were.
pub proof fn law_hex_reads_back(data: Seq<u8>)
    ensures
        foreign::is_hex_text(foreign::hex_text(data), data.len()),
        foreign::hex_bytes(foreign::hex_text(data)) == data,
{
    let s = foreign::hex_text(data);
    assert forall|i: int| 0 <= i < s.len() implies foreign::is_hex_digit(#[trigger] s[i]) by {
        let b = data[i / 2];
        assert(b / 16 < 16 && b % 16 < 16);
    }
    assert forall|i: int| 0 <= i < data.len() implies foreign::hex_bytes(s)[i] == data[i] by {
        assert((2 * i) / 2 == i && (2 * i + 1) / 2 == i);
        assert((2 * i) % 2 == 0 && (2 * i + 1) % 2 == 1);
        let b = data[i];
        assert(foreign::hex_digit_value(s[2 * i]) == b / 16);
        assert(foreign::hex_digit_value(s[2 * i + 1]) == b % 16);
    }
    assert(foreign::hex_bytes(s) =~= data);
}

/// The case of the digits of a signature does not matter.
pub proof fn law_signature_case_is_ignored(
    secret: Seq<char>,
    payload: Seq<u8>,
    a: Seq<char>,
    b: Seq<char>,
)
    requires
        has_scheme(a),
        has_scheme(b),
        text::same_but_case(header_hex(a), header_hex(b)),
    ensures
        header_verdict(secret, payload, a) == header_verdict(secret, payload, b),
{
    let x = header_hex(a);
    let y = header_hex(b);
    assert forall|i: int| 0 <= i < x.len() implies foreign::is_hex_digit(x[i])
        == foreign::is_hex_digit(y[i]) && (foreign::is_hex_digit(x[i])
        ==> foreign::hex_digit_value(x[i]) == foreign::hex_digit_value(y[i])) by {
        assert(text::ascii_lower(x[i]) == text::ascii_lower(y[i]));
    }
    if foreign::is_hex_text(x, 32) {
        assert(forall|i: int| 0 <= i < y.len() ==> foreign::is_hex_digit(x[i]) && foreign::is_hex_digit(#[trigger] y[i]));
        assert(foreign::hex_bytes(x) =~= foreign::hex_bytes(y));
    } else if foreign::is_hex_text(y, 32) {
        assert(forall|i: int| 0 <= i < x.len() ==> foreign::is_hex_digit(y[i]) && foreign::is_hex_digit(#[trigger] x[i]));
    }
}

/// It does not matter which of two signature texts comes first, and a malformed
/// one matches nothing, not even itself.
pub proof fn law_signature_match_is_symmetric(a: Seq<char>, b: Seq<char>)
    ensures
        texts_match(a, b) == texts_match(b, a),
        texts_match(a, a) == foreign::is_hex_text(a, 32),
        !foreign::is_hex_text(a, 32) ==> !texts_match(a, b) && !texts_match(b, a),
{
}

/// A call whose time lies further before the epoch than the window is wide is
/// refused, however the clock stands.
pub proof fn law_times_before_the_epoch_are_refused(
    key: Seq<char>,
    body: Seq<u8>,
    header: Seq<char>,
    timestamp: Seq<char>,
    skew_seconds: int,
    now: int,
)
    requires
        now >= 0,
        decimal::bounded(
            decimal::signed_value(timestamp),
            i64::MIN as int,
            i64::MAX as int,
        ) matches Some(ts) && ts < -skew_seconds,
    ensures
        internal_verdict(key, body, Some(header), Some(timestamp), skew_seconds, now) == Err::<
            (),
            HmacError,
        >(HmacError::TimestampSkew),
{
}

proof fn lemma_stamp_has_no_colon(timestamp: int)
    ensures
        bytes_of(decimal::decimal(timestamp)).len() == decimal::decimal(timestamp).len(),
        forall|i: int|
            0 <= i < decimal::decimal(timestamp).len() ==> {
                &&& #[trigger] bytes_of(decimal::decimal(timestamp))[i] != 58u8
                &&& bytes_of(decimal::decimal(timestamp))[i] == decimal::decimal(timestamp)[i] as u8
            },
{
    let t = decimal::decimal(timestamp);
    let m = if timestamp < 0 {
        (-timestamp) as nat
    } else {
        timestamp as nat
    };
    decimal::law_decimal_nat_reads_back(m);
    assert forall|i: int| 0 <= i < t.len() implies (t[i] == '-' || decimal::is_digit(
        #[trigger] t[i],
    )) by {
        if timestamp < 0 && i > 0 {
            assert(t[i] == decimal::decimal_nat(m)[i - 1]);
        }
    }
    assert(vstd::utf8::is_ascii_chars(t));
    vstd::utf8::is_ascii_chars_encode_utf8(t);
}

/// What is signed determines the time and the body: a signature cannot be
/// moved to another time or to another body without another digest.
pub proof fn law_stamped_injective(t1: int, body1: Seq<u8>, t2: int, body2: Seq<u8>)
    requires
        stamped(t1, body1) == stamped(t2, body2),
    ensures
        t1 == t2,
        body1 == body2,
{
    let d1 = decimal::decimal(t1);
    let d2 = decimal::decimal(t2);
    lemma_stamp_has_no_colon(t1);
    lemma_stamp_has_no_colon(t2);
    let p1 = stamped(t1, body1);
    let p2 = stamped(t2, body2);
    assert(p1[d1.len() as int] == 58u8);
    assert(p2[d2.len() as int] == 58u8);
    if d1.len() < d2.len() {
        assert(p2[d1.len() as int] == bytes_of(d2)[d1.len() as int]);
    }
    if d2.len() < d1.len() {
        assert(p1[d2.len() as int] == bytes_of(d1)[d2.len() as int]);
    }
    assert(d1.len() == d2.len());
    assert(bytes_of(d1) =~= p1.take(d1.len() as int));
    assert(bytes_of(d2) =~= p2.take(d2.len() as int));
    vstd::utf8::encode_utf8_decode_utf8(d1);
    vstd::utf8::encode_utf8_decode_utf8(d2);
    decimal::law_decimal_injective(t1, t2);
    assert(body1 =~= p1.skip(d1.len() as int + 1));
    assert(body2 =~= p2.skip(d2.len() as int + 1));
}

/// A webhook delivery is accepted exactly where its header is the scheme and,
/// in whatever case, the digest of its body under the secret; else what is wrong
/// with the header is told.
pub proof fn law_signed_deliveries(secret: Seq<char>, body: Seq<u8>, header: Option<Seq<char>>)
    requires
        foreign::hmac_sha256_of(vstd::utf8::encode_utf8(secret), body).len() == 32,
    ensures
        ({
            let d = foreign::hmac_sha256_of(vstd::utf8::encode_utf8(secret), body);
            let r = github_verdict(secret, body, header);
            let scheme = header is Some && exists|rest: Seq<char>|
                header->0 == #[trigger] ("sha256="@ + rest);
            &&& r is Ok <==> header is Some && exists|hex: Seq<char>|
                header->0 == #[trigger] ("sha256="@ + hex) && text::same_but_case(
                    hex,
                    foreign::hex_text(d),
                )
            &&& header is None ==> r == Err::<(), HmacError>(HmacError::MissingSignature)
            &&& header is Some && !scheme ==> r == Err::<(), HmacError>(
                HmacError::UnsupportedScheme,
            )
            &&& scheme && !(r is Ok) ==> r == Err::<(), HmacError>(HmacError::SignatureMismatch)
        }),
{
    let d = foreign::hmac_sha256_of(vstd::utf8::encode_utf8(secret), body);
    let t = foreign::hex_text(d);
    law_hex_reads_back(d);
    if header is Some {
        let h = header->0;
        text::law_standing_in_is_being_a_part(h, "sha256="@);
        if has_scheme(h) {
            let hex = header_hex(h);
            assert(h =~= "sha256="@ + hex);
            lemma_match_is_equality_of_bytes(hex, t);
            if exists|x: Seq<char>|
                h == #[trigger] ("sha256="@ + x) && text::same_but_case(x, t) {
                let x = choose|x: Seq<char>|
                    h == #[trigger] ("sha256="@ + x) && text::same_but_case(x, t);
                assert(header_hex("sha256="@ + x) =~= x);
                lemma_case_of_hex(x, t);
            }
        }
    }
}

proof fn lemma_case_of_hex(a: Seq<char>, b: Seq<char>)
    requires
        foreign::is_hex_text(b, 32),
        text::same_but_case(a, b),
    ensures
        foreign::is_hex_text(a, 32),
{
    text::law_case_of_ascii_letters_alone_is_ignored(a, b);
    assert forall|i: int| 0 <= i < a.len() implies foreign::is_hex_digit(#[trigger] a[i]) by {
        assert(foreign::is_hex_digit(b[i]));
    }
}

/// A call between the services is accepted exactly where it carries a signature
/// and a time, the time is a number and lies within the window, and the signature
/// is that of the time, a colon and the body; else the first thing that is wrong
/// is told.
pub proof fn law_signed_calls(
    key: Seq<char>,
    body: Seq<u8>,
    header: Option<Seq<char>>,
    timestamp: Option<Seq<char>>,
    skew: int,
    now: int,
)
    ensures
        ({
            let r = internal_verdict(key, body, header, timestamp, skew, now);
            let ts = decimal::bounded(
                decimal::signed_value(timestamp->0),
                i64::MIN as int,
                i64::MAX as int,
            );
            let near = now - ts->0 <= skew && ts->0 - now <= skew;
            let signed = vstd::utf8::encode_utf8(decimal::decimal(ts->0)) + seq![58u8] + body;
            &&& header is None ==> r == Err::<(), HmacError>(HmacError::MissingSignature)
            &&& header is Some && timestamp is None ==> r == Err::<(), HmacError>(
                HmacError::MissingTimestamp,
            )
            &&& header is Some && timestamp is Some && ts is None ==> r == Err::<(), HmacError>(
                HmacError::BadTimestamp,
            )
            &&& header is Some && timestamp is Some && ts is Some && !near ==> r == Err::<
                (),
                HmacError,
            >(HmacError::TimestampSkew)
            &&& header is Some && timestamp is Some && ts is Some && near ==> r == github_verdict(
                key,
                signed,
                header,
            )
        }),
{
}

/// The header of a signature is the scheme and the digest of the payload under
/// the secret, in hexadecimal digits.
pub proof fn law_signatures(secret: Seq<char>, payload: Seq<u8>)
    ensures
        signature(secret, payload) == "sha256="@ + foreign::hex_text(
            foreign::hmac_sha256_of(vstd::utf8::encode_utf8(secret), payload),
        ),
{
}

/// Each error is told in its own words.
pub proof fn law_errors_in_words()
    ensures
        HmacError::MissingSignature.message() == "missing signature header"@,
        HmacError::MissingTimestamp.message() == "missing timestamp header"@,
        HmacError::BadTimestamp.message() == "bad timestamp"@,
        HmacError::TimestampSkew.message() == "timestamp outside skew window"@,
        HmacError::UnsupportedScheme.message() == "unsupported signature scheme"@,
        HmacError::SignatureMismatch.message() == "signature mismatch"@,
{
}

} // verus!
