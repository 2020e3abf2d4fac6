//! The signing pipeline's building blocks: canonical serialization of
//! parameter maps, timestamp capture, pre-signature string construction,
//! HMAC-SHA256 signing with base64 output, and authentication header
//! assembly.

use crate::exceptions::BitgetError;
use crate::params::ParamMap;
use base64::Engine;
use hmac::KeyInit;
use hmac::Mac;
use vstd::prelude::*;

verus! {

/// The `k=v` pairs of an entry list joined with `&`, in entry order.
pub open spec fn query_pairs_of(entries: Seq<(Seq<char>, Seq<char>)>) -> Seq<char>
    decreases entries.len(),
{
    if entries.len() == 0 {
        Seq::empty()
    } else if entries.len() == 1 {
        entries[0].0 + seq!['='] + entries[0].1
    } else {
        entries[0].0 + seq!['='] + entries[0].1 + seq!['&'] + query_pairs_of(entries.drop_first())
    }
}

/// Appending one entry extends the joined pairs at the end.
pub proof fn lemma_query_pairs_push(entries: Seq<(Seq<char>, Seq<char>)>, e: (Seq<char>, Seq<char>))
    ensures
        query_pairs_of(entries.push(e)) == if entries.len() == 0 {
            e.0 + seq!['='] + e.1
        } else {
            query_pairs_of(entries) + seq!['&'] + e.0 + seq!['='] + e.1
        },
    decreases entries.len(),
{
    let t = entries.push(e);
    if entries.len() == 0 {
        assert(t[0] == e);
        assert(query_pairs_of(t) =~= e.0 + seq!['='] + e.1);
    } else {
        lemma_query_pairs_push(entries.drop_first(), e);
        assert(t.drop_first() =~= entries.drop_first().push(e));
        assert(t[0] == entries[0]);
        if entries.len() == 1 {
            assert(entries.drop_first().len() == 0);
            assert(query_pairs_of(t) =~= query_pairs_of(entries) + seq!['&'] + e.0 + seq!['=']
                + e.1);
        } else {
            assert(query_pairs_of(t) =~= query_pairs_of(entries) + seq!['&'] + e.0 + seq!['=']
                + e.1);
        }
    }
}

/// Join the parameters as `k1=v1&k2=v2...` in stored (ascending key)
/// order, with no prefix.
pub fn build_query(params: &ParamMap) -> (r: String)
    ensures
        r@ == query_pairs_of(params.entries_view()),
{
    let ghost entries = params.entries_view();
    let n = params.len();
    let mut s = String::new();
    let mut i: usize = 0;
    while i < n
        invariant
            n == entries.len(),
            0 <= i <= n,
            entries == params.entries_view(),
            s@ == query_pairs_of(entries.take(i as int)),
        decreases n - i,
    {
        if i > 0 {
            s.append("&");
        }
        s.append(params.key_at(i).as_str());
        s.append("=");
        s.append(params.value_at(i).as_str());
        proof {
            reveal_strlit("&");
            reveal_strlit("=");
            lemma_query_pairs_push(entries.take(i as int), entries[i as int]);
            assert(entries.take(i as int).push(entries[i as int]) =~= entries.take(i + 1));
            assert(s@ =~= query_pairs_of(entries.take(i + 1)));
        }
        i = i + 1;
    }
    proof {
        assert(entries.take(n as int) =~= entries);
    }
    s
}

/// The canonical query-string form of a parameter map: empty for an empty
/// map, otherwise `?` followed by the joined pairs in ascending key order.
pub open spec fn query_string_of(entries: Seq<(Seq<char>, Seq<char>)>) -> Seq<char> {
    if entries.len() == 0 {
        Seq::empty()
    } else {
        seq!['?'] + query_pairs_of(entries)
    }
}

/// Serialize the parameters as a URL query string: `?k1=v1&k2=v2...` with
/// keys in ascending lexicographic order, or the empty string for an
/// empty map (no lone `?`).
pub fn parse_params_to_str(params: &ParamMap) -> (r: String)
    ensures
        r@ == query_string_of(params.entries_view()),
{
    if params.is_empty() {
        String::new()
    } else {
        let mut s = String::from_str("?");
        s.append(build_query(params).as_str());
        proof {
            reveal_strlit("?");
            assert(s@ =~= query_string_of(params.entries_view()));
        }
        s
    }
}

/// The JSON string literal (quotes and escapes included) that the
/// serializer produces for a given character sequence.
pub uninterp spec fn json_string_of(s: Seq<char>) -> Seq<char>;

/// Relies on serde_json::to_string for &str: a JSON string literal whose
/// contents are the input with JSON escaping; a function of the
/// characters alone. Serializing a bare string cannot fail.
#[verifier::external_body]
pub(crate) fn json_quote(s: &str) -> (r: String)
    ensures
        r@ == json_string_of(s@),
{
    serde_json::to_string(s).unwrap_or_default()
}

/// The members of a JSON object built from an entry list, in entry
/// order: `"k0":v0,"k1":v1,...` with each key and value serialized as a
/// JSON string.
pub open spec fn json_members_of(entries: Seq<(Seq<char>, Seq<char>)>) -> Seq<char>
    decreases entries.len(),
{
    if entries.len() == 0 {
        Seq::empty()
    } else if entries.len() == 1 {
        json_string_of(entries[0].0) + seq![':'] + json_string_of(entries[0].1)
    } else {
        json_string_of(entries[0].0) + seq![':'] + json_string_of(entries[0].1) + seq![',']
            + json_members_of(entries.drop_first())
    }
}

/// Appending one entry extends the members at the end.
pub proof fn lemma_json_members_push(entries: Seq<(Seq<char>, Seq<char>)>, e: (Seq<char>, Seq<char>))
    ensures
        json_members_of(entries.push(e)) == if entries.len() == 0 {
            json_string_of(e.0) + seq![':'] + json_string_of(e.1)
        } else {
            json_members_of(entries) + seq![','] + json_string_of(e.0) + seq![':']
                + json_string_of(e.1)
        },
    decreases entries.len(),
{
    let t = entries.push(e);
    if entries.len() == 0 {
        assert(t[0] == e);
        assert(json_members_of(t) =~= json_string_of(e.0) + seq![':'] + json_string_of(e.1));
    } else {
        lemma_json_members_push(entries.drop_first(), e);
        assert(t.drop_first() =~= entries.drop_first().push(e));
        assert(t[0] == entries[0]);
        assert(json_members_of(t) =~= json_members_of(entries) + seq![','] + json_string_of(e.0)
            + seq![':'] + json_string_of(e.1));
    }
}

/// The JSON object form of a parameter map: `{}` for an empty map,
/// otherwise the members in ascending key order between braces. This is
/// the exact body the dispatcher sends for POST, so the signature covers
/// these very bytes.
pub open spec fn json_body_of(entries: Seq<(Seq<char>, Seq<char>)>) -> Seq<char> {
    seq!['{'] + json_members_of(entries) + seq!['}']
}

/// Serialize the parameters as a JSON object with keys in ascending
/// lexicographic order; the empty map serializes as `{}`.
pub fn params_to_json(params: &ParamMap) -> (r: String)
    ensures
        r@ == json_body_of(params.entries_view()),
{
    let ghost entries = params.entries_view();
    let n = params.len();
    let mut s = String::from_str("{");
    proof {
        reveal_strlit("{");
        assert(s@ =~= seq!['{'] + json_members_of(entries.take(0)));
    }
    let mut i: usize = 0;
    while i < n
        invariant
            n == entries.len(),
            0 <= i <= n,
            entries == params.entries_view(),
            s@ == seq!['{'] + json_members_of(entries.take(i as int)),
        decreases n - i,
    {
        if i > 0 {
            s.append(",");
        }
        s.append(json_quote(params.key_at(i).as_str()).as_str());
        s.append(":");
        s.append(json_quote(params.value_at(i).as_str()).as_str());
        proof {
            reveal_strlit(",");
            reveal_strlit(":");
            lemma_json_members_push(entries.take(i as int), entries[i as int]);
            assert(entries.take(i as int).push(entries[i as int]) =~= entries.take(i + 1));
            assert(s@ =~= seq!['{'] + json_members_of(entries.take(i + 1)));
        }
        i = i + 1;
    }
    s.append("}");
    proof {
        reveal_strlit("{");
        reveal_strlit("}");
        assert(entries.take(n as int) =~= entries);
        assert(s@ =~= json_body_of(entries));
    }
    s
}

/// A mapping extended by one entry when an optional value is present.
pub open spec fn with_opt(
    m: Map<Seq<char>, Seq<char>>,
    k: Seq<char>,
    v: Option<Seq<char>>,
) -> Map<Seq<char>, Seq<char>> {
    match v {
        Some(x) => m.insert(k, x),
        None => m,
    }
}

/// Concatenation of the fields that make up the string to be signed.
pub open spec fn prehash_of(
    timestamp: Seq<char>,
    method: Seq<char>,
    request_path: Seq<char>,
    body: Seq<char>,
) -> Seq<char> {
    timestamp + method + request_path + body
}

/// Build the exact byte-for-byte string that the signer consumes:
/// timestamp, method, path (with query for GET) and body, concatenated
/// with no delimiters.
pub fn pre_hash(timestamp: &str, method: &str, request_path: &str, body: &str) -> (r: String)
    ensures
        r@ == prehash_of(timestamp@, method@, request_path@, body@),
{
    let mut s = String::from_str(timestamp);
    s.append(method);
    s.append(request_path);
    s.append(body);
    s
}

/// The HMAC-SHA256 digest over a message, keyed with a secret; both are
/// taken as character sequences (hashed over their UTF-8 bytes).
pub uninterp spec fn hmac_sha256_of(secret: Seq<char>, message: Seq<char>) -> Seq<u8>;

/// Relies on hmac::Hmac<sha2::Sha256>: new_from_slice (which accepts keys
/// of any length), update and finalize. The 32-byte digest is a function
/// of key and message alone.
#[verifier::external_body]
fn hmac_sha256(secret: &str, message: &str) -> (r: Vec<u8>)
    ensures
        r@ == hmac_sha256_of(secret@, message@),
        r@.len() == 32,
{
    let mut mac = match hmac::Hmac::<sha2::Sha256>::new_from_slice(secret.as_bytes()) {
        Ok(m) => m,
        Err(_) => return Vec::new(),
    };
    mac.update(message.as_bytes());
    mac.finalize().into_bytes().to_vec()
}

/// The standard (padded) base64 rendering of a byte sequence.
pub uninterp spec fn base64_of(bytes: Seq<u8>) -> Seq<char>;

/// Relies on base64::engine::general_purpose::STANDARD.encode: standard
/// alphabet with padding, four output characters for every three input
/// bytes; a function of the bytes alone.
#[verifier::external_body]
fn base64_encode(bytes: &[u8]) -> (r: String)
    requires
        bytes@.len() <= 0x1000000,
    ensures
        r@ == base64_of(bytes@),
        r@.len() == 4 * ((bytes@.len() + 2) / 3),
{
    base64::engine::general_purpose::STANDARD.encode(bytes)
}

/// What the signer produces: the base64 rendering of the HMAC-SHA256
/// digest of the message under the secret.
pub open spec fn signature_of(secret: Seq<char>, message: Seq<char>) -> Seq<char> {
    base64_of(hmac_sha256_of(secret, message))
}

/// Sign a pre-signature string with HMAC-SHA256 and base64-encode the
/// digest. A pure function of its two inputs; never fails.
pub fn sign(pre_hash: &str, secret: &str) -> (r: Result<String, BitgetError>)
    ensures
        r is Ok,
        r matches Ok(s) ==> s@ == signature_of(secret@, pre_hash@),
{
    let digest = hmac_sha256(secret, pre_hash);
    Ok(base64_encode(digest.as_slice()))
}

/// The signature schemes the exchange recognizes. Only HMAC-SHA256 is
/// implemented; the asymmetric RSA scheme is recognized but unsupported.
#[derive(Clone, Copy, PartialEq, Eq, Structural)]
pub enum SignScheme {
    HmacSha256,
    Rsa,
}

/// Sign under an explicitly chosen scheme. Any scheme other than
/// HMAC-SHA256 fails with a distinct error and never falls back to
/// HMAC-SHA256.
pub fn sign_with_scheme(scheme: SignScheme, pre_hash: &str, secret: &str) -> (r: Result<
    String,
    BitgetError,
>)
    ensures
        r is Ok <==> scheme == SignScheme::HmacSha256,
        r matches Ok(s) ==> s@ == signature_of(secret@, pre_hash@),
        scheme != SignScheme::HmacSha256 ==> r == Err::<String, BitgetError>(
            BitgetError::UnsupportedScheme,
        ),
{
    match scheme {
        SignScheme::HmacSha256 => sign(pre_hash, secret),
        SignScheme::Rsa => Err(BitgetError::UnsupportedScheme),
    }
}

/// The authentication header set: content type plus the four
/// credential-derived headers, in this fixed order.
pub open spec fn header_model(
    api_key: Seq<char>,
    signature: Seq<char>,
    timestamp: Seq<char>,
    passphrase: Seq<char>,
) -> Seq<(Seq<char>, Seq<char>)> {
    seq![
        ("Content-Type"@, "application/json"@),
        ("ACCESS-KEY"@, api_key),
        ("ACCESS-SIGN"@, signature),
        ("ACCESS-TIMESTAMP"@, timestamp),
        ("ACCESS-PASSPHRASE"@, passphrase),
    ]
}

/// The views of a header list's name-value pairs.
pub open spec fn header_views(headers: Seq<(String, String)>) -> Seq<(Seq<char>, Seq<char>)> {
    headers.map_values(|h: (String, String)| (h.0@, h.1@))
}

/// Assemble the authentication headers. All four credential-derived
/// values are always present; no key material beyond the derived
/// signature appears in any header.
pub fn get_header(api_key: &str, sign: &str, timestamp: &str, passphrase: &str) -> (r: Vec<
    (String, String),
>)
    ensures
        header_views(r@) == header_model(api_key@, sign@, timestamp@, passphrase@),
{
    let mut v: Vec<(String, String)> = Vec::new();
    v.push((String::from_str("Content-Type"), String::from_str("application/json")));
    v.push((String::from_str("ACCESS-KEY"), String::from_str(api_key)));
    v.push((String::from_str("ACCESS-SIGN"), String::from_str(sign)));
    v.push((String::from_str("ACCESS-TIMESTAMP"), String::from_str(timestamp)));
    v.push((String::from_str("ACCESS-PASSPHRASE"), String::from_str(passphrase)));
    proof {
        assert(header_views(v@) =~= header_model(api_key@, sign@, timestamp@, passphrase@));
    }
    v
}

/// Law: the canonical encodings depend only on the denoted mapping.
/// Two well-formed parameter maps with the same mapping have the same
/// entries, the same query string and the same JSON body, however they
/// were built.
pub proof fn lemma_encode_canonical(p1: ParamMap, p2: ParamMap)
    requires
        p1.wf(),
        p2.wf(),
        p1.as_map() == p2.as_map(),
    ensures
        p1.entries_view() == p2.entries_view(),
        query_string_of(p1.entries_view()) == query_string_of(p2.entries_view()),
        json_body_of(p1.entries_view()) == json_body_of(p2.entries_view()),
{
    crate::params::lemma_sorted_canonical(p1.entries_view(), p2.entries_view());
}

/// Law: the pre-signature string is a pure function of its four parts.
/// Any two results meeting `pre_hash`'s contract on equal inputs are
/// equal byte for byte.
pub proof fn lemma_pre_hash_deterministic(
    timestamp: Seq<char>,
    method: Seq<char>,
    request_path: Seq<char>,
    body: Seq<char>,
    r1: Seq<char>,
    r2: Seq<char>,
)
    requires
        r1 == prehash_of(timestamp, method, request_path, body),
        r2 == prehash_of(timestamp, method, request_path, body),
    ensures
        r1 == r2,
{
}

/// Law: the signature is a pure function of pre-signature string and
/// secret; no hidden state or randomness enters. Any two results
/// meeting `sign`'s contract on equal inputs are equal.
pub proof fn lemma_sign_deterministic(
    secret: Seq<char>,
    message: Seq<char>,
    r1: Seq<char>,
    r2: Seq<char>,
)
    requires
        r1 == signature_of(secret, message),
        r2 == signature_of(secret, message),
    ensures
        r1 == r2,
{
}

/// The character at which a decimal digit prints.
pub open spec fn digit_char(d: nat) -> char {
    ((d + 48) as u8) as char
}

/// The decimal numeral of a natural number, most significant digit first,
/// with no leading zeros (zero itself prints as `0`).
pub open spec fn dec_str(n: nat) -> Seq<char>
    decreases n,
{
    if n < 10 {
        seq![digit_char(n)]
    } else {
        dec_str(n / 10).push(digit_char(n % 10))
    }
}

/// The decimal numeral of an integer: a leading `-` for negatives.
pub open spec fn dec_str_int(n: int) -> Seq<char> {
    if n >= 0 {
        dec_str(n as nat)
    } else {
        seq!['-'] + dec_str((-n) as nat)
    }
}

/// The one-character string of a decimal digit.
fn digit_str(d: u64) -> (r: &'static str)
    requires
        d < 10,
    ensures
        r@ == seq![digit_char(d as nat)],
{
    proof {
        reveal_strlit("0");
        reveal_strlit("1");
        reveal_strlit("2");
        reveal_strlit("3");
        reveal_strlit("4");
        reveal_strlit("5");
        reveal_strlit("6");
        reveal_strlit("7");
        reveal_strlit("8");
        reveal_strlit("9");
    }
    match d {
        0 => "0",
        1 => "1",
        2 => "2",
        3 => "3",
        4 => "4",
        5 => "5",
        6 => "6",
        7 => "7",
        8 => "8",
        _ => "9",
    }
}

/// Print an unsigned number in decimal.
pub fn u64_to_dec(n: u64) -> (r: String)
    ensures
        r@ == dec_str(n as nat),
    decreases n,
{
    if n < 10 {
        String::from_str(digit_str(n))
    } else {
        let mut s = u64_to_dec(n / 10);
        s.append(digit_str(n % 10));
        proof {
            assert(s@ =~= dec_str(n as nat));
        }
        s
    }
}

/// Print a signed number in decimal, with a leading `-` when negative.
pub fn i64_to_dec(n: i64) -> (r: String)
    ensures
        r@ == dec_str_int(n as int),
{
    if n >= 0 {
        u64_to_dec(n as u64)
    } else {
        let mag: u64 = if n == i64::MIN {
            9223372036854775808u64
        } else {
            (-n) as u64
        };
        proof {
            assert(mag as int == -(n as int));
        }
        let mut s = String::from_str("-");
        s.append(u64_to_dec(mag).as_str());
        proof {
            reveal_strlit("-");
            assert(s@ =~= dec_str_int(n as int));
        }
        s
    }
}

/// Relies on chrono::Utc::now().timestamp_millis(): the current UTC time
/// in milliseconds since the Unix epoch. Nothing is assumed of the value;
/// callers treat every reading as valid.
#[verifier::external_body]
fn now_millis() -> (r: i64) {
    chrono::Utc::now().timestamp_millis()
}

/// The current UTC time in milliseconds since the Unix epoch, as a
/// decimal string.
pub fn get_timestamp() -> (r: String)
    ensures
        exists|ms: int| i64::MIN <= ms <= i64::MAX && r@ == dec_str_int(ms),
{
    let ms = now_millis();
    let r = i64_to_dec(ms);
    proof {
        assert(r@ == dec_str_int(ms as int));
    }
    r
}

} // verus!
