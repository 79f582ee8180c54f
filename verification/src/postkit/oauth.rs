//! OAuth 1.0a request signing (HMAC-SHA1) for the X API.

use crate::postkit::providers::X;
use crate::sorting::{insert_sorted, seq_le, sort_stable, stable_sort, chars_le, Ordered};
use crate::text::{chars_of, dec, decimal, push_chars, push_str, string_of};
use base64::Engine;
use hmac::Mac;
use rand::Rng;
use vstd::prelude::*;

verus! {

// ─── Percent-encoding (RFC 3986 unreserved set) ──────────────────────────────

/// Bytes left as they are: ASCII letters, digits and `-._~`.
pub open spec fn unreserved(b: u8) -> bool {
    (65 <= b <= 90) || (97 <= b <= 122) || (48 <= b <= 57) || b == 45 || b == 46 || b == 95 || b
        == 126
}

/// Upper-case hexadecimal digit for `d < 16`.
pub open spec fn hex_digit(d: u8) -> char {
    if d < 10 {
        ((d + 48) as u8) as char
    } else {
        ((d + 55) as u8) as char
    }
}

/// One byte percent-encoded.
pub open spec fn pct_byte(b: u8) -> Seq<char> {
    if unreserved(b) {
        seq![b as char]
    } else {
        seq!['%', hex_digit(b / 16), hex_digit(b % 16)]
    }
}

/// Bytes percent-encoded one by one.
pub open spec fn pct_bytes(bs: Seq<u8>) -> Seq<char>
    decreases bs.len(),
{
    if bs.len() == 0 {
        Seq::empty()
    } else {
        pct_bytes(bs.drop_last()) + pct_byte(bs.last())
    }
}

/// The UTF-8 bytes of `s` percent-encoded, every byte outside the unreserved
/// set written as `%XY` (what `utf8_percent_encode` does with that set).
pub open spec fn pct(s: Seq<char>) -> Seq<char> {
    pct_bytes(vstd::utf8::encode_utf8(s))
}

fn hex(d: u8) -> (c: char)
    requires
        d < 16,
    ensures
        c == hex_digit(d),
{
    if d < 10 {
        (d + 48) as char
    } else {
        (d + 55) as char
    }
}

/// Percent-encodes `s` (see [`pct`]).
pub fn percent_encode(s: &str) -> (r: String)
    ensures
        r@ == pct(s@),
{
    let bytes = s.as_bytes();
    let mut v: Vec<char> = Vec::new();
    let mut i: usize = 0;
    while i < bytes.len()
        invariant
            i <= bytes@.len(),
            v@ == pct_bytes(bytes@.subrange(0, i as int)),
        decreases bytes@.len() - i,
    {
        let b = bytes[i];
        let ghost before = v@;
        if (65 <= b && b <= 90) || (97 <= b && b <= 122) || (48 <= b && b <= 57) || b == 45 || b
            == 46 || b == 95 || b == 126 {
            v.push(b as char);
        } else {
            v.push('%');
            v.push(hex(b / 16));
            v.push(hex(b % 16));
        }
        proof {
            let t = bytes@.subrange(0, i + 1);
            assert(t.drop_last() =~= bytes@.subrange(0, i as int));
            assert(v@ =~= before + pct_byte(b));
        }
        i = i + 1;
    }
    assert(bytes@.subrange(0, bytes@.len() as int) =~= bytes@);
    string_of(v.as_slice())
}

// ─── Outside primitives ──────────────────────────────────────────────────────

/// HMAC-SHA1 of `msg` under `key`.
pub uninterp spec fn hmac_sha1(key: Seq<u8>, msg: Seq<u8>) -> Seq<u8>;

/// The Base64 digit for a six-bit value `v`: `A`–`Z`, `a`–`z`, `0`–`9`,
/// `+`, `/` (the standard alphabet of RFC 4648).
pub open spec fn b64_digit(v: int) -> char {
    if v < 26 {
        (65 + v) as char
    } else if v < 52 {
        (97 + v - 26) as char
    } else if v < 62 {
        (48 + v - 52) as char
    } else if v == 62 {
        '+'
    } else {
        '/'
    }
}

/// Standard Base64 of `bytes` with `=` padding (RFC 4648, section 4): each
/// three bytes become four digits; a last one or two bytes become two or
/// three digits followed by `==` or `=`.
pub open spec fn base64_standard(bytes: Seq<u8>) -> Seq<char>
    decreases bytes.len(),
{
    if bytes.len() == 0 {
        Seq::empty()
    } else if bytes.len() == 1 {
        let a = bytes[0] as int;
        seq![b64_digit(a / 4), b64_digit((a % 4) * 16), '=', '=']
    } else if bytes.len() == 2 {
        let (a, b) = (bytes[0] as int, bytes[1] as int);
        seq![b64_digit(a / 4), b64_digit((a % 4) * 16 + b / 16), b64_digit((b % 16) * 4), '=']
    } else {
        let (a, b, c) = (bytes[0] as int, bytes[1] as int, bytes[2] as int);
        seq![
            b64_digit(a / 4),
            b64_digit((a % 4) * 16 + b / 16),
            b64_digit((b % 16) * 4 + c / 64),
            b64_digit(c % 64),
        ] + base64_standard(bytes.skip(3))
    }
}

/// Unicode upper case of `s`, as `str::to_uppercase` gives it.
pub uninterp spec fn unicode_upper(s: Seq<char>) -> Seq<char>;

/// `Hmac::<Sha1>::new_from_slice(key)`, `update(msg)`, `finalize`: the
/// HMAC-SHA1 tag. HMAC takes keys of any length, so the key is never refused.
#[verifier::external_body]
fn hmac_sha1_tag(key: &[u8], msg: &[u8]) -> (r: Vec<u8>)
    ensures
        r@ == hmac_sha1(key@, msg@),
{
    let mut mac = hmac::Hmac::<sha1::Sha1>::new_from_slice(key).unwrap();
    mac.update(msg);
    mac.finalize().into_bytes().to_vec()
}

/// `base64::engine::general_purpose::STANDARD.encode(bytes)`: standard
/// padded Base64 (see [`base64_standard`]).
#[verifier::external_body]
fn base64_encode(bytes: &[u8]) -> (r: String)
    ensures
        r@ == base64_standard(bytes@),
{
    base64::engine::general_purpose::STANDARD.encode(bytes)
}

/// `str::to_uppercase`.
#[verifier::external_body]
fn to_uppercase(s: &str) -> (r: String)
    ensures
        r@ == unicode_upper(s@),
{
    s.to_uppercase()
}

/// `SystemTime::now` as whole seconds since the Unix epoch. The value depends
/// on the clock, so nothing is claimed of it.
#[verifier::external_body]
fn unix_time_secs() -> u64 {
    std::time::SystemTime::now().duration_since(std::time::UNIX_EPOCH).map(|d| d.as_secs()).unwrap_or(0)
}

/// Whether `c` is an ASCII letter or digit.
pub open spec fn is_ascii_alnum(c: char) -> bool {
    ('a' <= c && c <= 'z') || ('A' <= c && c <= 'Z') || ('0' <= c && c <= '9')
}

/// `len` characters drawn with `rand::thread_rng` from `Alphanumeric`, which
/// rand documents as uniform over ASCII letters and digits. The characters
/// are random; only their number and kind are claimed.
#[verifier::external_body]
fn random_alphanumeric(len: usize) -> (r: String)
    ensures
        r@.len() == len,
        forall|i: int| 0 <= i < len ==> is_ascii_alnum(#[trigger] r@[i]),
{
    rand::thread_rng().sample_iter(&rand::distributions::Alphanumeric).take(len).map(char::from).collect()
}

// ─── Parameters ──────────────────────────────────────────────────────────────

/// A request parameter (already percent-encoded when it enters the
/// signature base).
#[derive(Debug)]
pub struct Param {
    pub key: String,
    pub value: String,
}

/// Order of parameter pairs: by key, then by value.
pub open spec fn pair_le(a: (Seq<char>, Seq<char>), b: (Seq<char>, Seq<char>)) -> bool {
    if a.0 == b.0 {
        seq_le(a.1, b.1)
    } else {
        seq_le(a.0, b.0)
    }
}

impl Ordered for Param {
    open spec fn ord_le(self, other: Self) -> bool {
        pair_le((self.key@, self.value@), (other.key@, other.value@))
    }

    fn le(&self, other: &Self) -> (r: bool) {
        if self.key == other.key {
            chars_le(chars_of(self.value.as_str()).as_slice(), chars_of(other.value.as_str()).as_slice())
        } else {
            chars_le(chars_of(self.key.as_str()).as_slice(), chars_of(other.key.as_str()).as_slice())
        }
    }
}

pub open spec fn param_view(p: Param) -> (Seq<char>, Seq<char>) {
    (p.key@, p.value@)
}

pub open spec fn params_view(ps: Seq<Param>) -> Seq<(Seq<char>, Seq<char>)> {
    ps.map_values(|p: Param| param_view(p))
}

/// `pairs` with `x` inserted after the last pair not above it.
pub open spec fn insert_pair(s: Seq<(Seq<char>, Seq<char>)>, x: (Seq<char>, Seq<char>)) -> Seq<
    (Seq<char>, Seq<char>),
>
    decreases s.len(),
{
    if s.len() == 0 {
        seq![x]
    } else if pair_le(s.last(), x) {
        s.push(x)
    } else {
        insert_pair(s.drop_last(), x).push(s.last())
    }
}

/// The pairs sorted by key, then value (stable).
pub open spec fn sort_pairs(s: Seq<(Seq<char>, Seq<char>)>) -> Seq<(Seq<char>, Seq<char>)>
    decreases s.len(),
{
    if s.len() == 0 {
        s
    } else {
        insert_pair(sort_pairs(s.drop_last()), s.last())
    }
}

proof fn lemma_insert_view(s: Seq<Param>, x: Param)
    ensures
        params_view(insert_sorted(s, x)) == insert_pair(params_view(s), param_view(x)),
    decreases s.len(),
{
    if s.len() > 0 {
        assert(params_view(s.drop_last()) =~= params_view(s).drop_last());
        if !s.last().ord_le(x) {
            lemma_insert_view(s.drop_last(), x);
            assert(params_view(insert_sorted(s.drop_last(), x).push(s.last())) =~= params_view(
                insert_sorted(s.drop_last(), x),
            ).push(param_view(s.last())));
        } else {
            assert(params_view(s.push(x)) =~= params_view(s).push(param_view(x)));
        }
    } else {
        assert(params_view(seq![x]) =~= seq![param_view(x)]);
    }
}

proof fn lemma_sort_view(s: Seq<Param>)
    ensures
        params_view(stable_sort(s)) == sort_pairs(params_view(s)),
    decreases s.len(),
{
    if s.len() > 0 {
        lemma_sort_view(s.drop_last());
        lemma_insert_view(stable_sort(s.drop_last()), s.last());
        assert(params_view(s.drop_last()) =~= params_view(s).drop_last());
    }
}

/// `k1=v1&k2=v2&…`.
pub open spec fn join_params(ps: Seq<(Seq<char>, Seq<char>)>) -> Seq<char>
    decreases ps.len(),
{
    if ps.len() == 0 {
        Seq::empty()
    } else if ps.len() == 1 {
        ps[0].0 + seq!['='] + ps[0].1
    } else {
        join_params(ps.drop_last()) + seq!['&'] + ps.last().0 + seq!['='] + ps.last().1
    }
}

/// Each pair with key and value percent-encoded.
pub open spec fn encode_pairs(ps: Seq<(Seq<char>, Seq<char>)>) -> Seq<(Seq<char>, Seq<char>)> {
    ps.map_values(|p: (Seq<char>, Seq<char>)| (pct(p.0), pct(p.1)))
}

/// The OAuth protocol parameters of a request.
pub open spec fn oauth_fields(
    api_key: Seq<char>,
    nonce: Seq<char>,
    timestamp: Seq<char>,
    token: Seq<char>,
) -> Seq<(Seq<char>, Seq<char>)> {
    seq![
        ("oauth_consumer_key"@, api_key),
        ("oauth_nonce"@, nonce),
        ("oauth_signature_method"@, "HMAC-SHA1"@),
        ("oauth_timestamp"@, timestamp),
        ("oauth_token"@, token),
        ("oauth_version"@, "1.0"@),
    ]
}

/// The signature base string: upper-cased method, encoded URL and encoded
/// sorted parameter string, joined by `&`.
pub open spec fn signature_base(
    method: Seq<char>,
    url: Seq<char>,
    params: Seq<(Seq<char>, Seq<char>)>,
) -> Seq<char> {
    unicode_upper(method) + seq!['&'] + pct(url) + seq!['&'] + pct(
        join_params(sort_pairs(encode_pairs(params))),
    )
}

/// The `Authorization` header value for a request signed at `timestamp`
/// with `nonce`, as OAuth 1.0a (HMAC-SHA1) defines it.
pub open spec fn oauth_header_for(
    x: X,
    method: Seq<char>,
    url: Seq<char>,
    extra: Seq<(Seq<char>, Seq<char>)>,
    timestamp: Seq<char>,
    nonce: Seq<char>,
) -> Seq<char> {
    let params = oauth_fields(x.api_key@, nonce, timestamp, x.access_token@) + extra;
    let base = signature_base(method, url, params);
    let key = pct(x.api_secret@) + seq!['&'] + pct(x.access_token_secret@);
    let sig = pct(
        base64_standard(
            hmac_sha1(vstd::utf8::encode_utf8(key), vstd::utf8::encode_utf8(base)),
        ),
    );
    "OAuth oauth_consumer_key=\""@ + pct(x.api_key@) + "\", oauth_nonce=\""@ + pct(nonce)
        + "\", oauth_signature=\""@ + sig
        + "\", oauth_signature_method=\"HMAC-SHA1\", oauth_timestamp=\""@ + timestamp
        + "\", oauth_token=\""@ + pct(x.access_token@) + "\", oauth_version=\"1.0\""@
}

pub open spec fn str_pairs_view(ps: Seq<(String, String)>) -> Seq<(Seq<char>, Seq<char>)> {
    ps.map_values(|p: (String, String)| (p.0@, p.1@))
}

fn encoded_param(k: &str, v: &str) -> (p: Param)
    ensures
        param_view(p) == (pct(k@), pct(v@)),
{
    Param { key: percent_encode(k), value: percent_encode(v) }
}

fn join_param_list(ps: &Vec<Param>) -> (r: Vec<char>)
    ensures
        r@ == join_params(params_view(ps@)),
{
    let mut v: Vec<char> = Vec::new();
    let mut i: usize = 0;
    while i < ps.len()
        invariant
            i <= ps@.len(),
            v@ == join_params(params_view(ps@.subrange(0, i as int))),
        decreases ps@.len() - i,
    {
        let ghost before = v@;
        if i > 0 {
            v.push('&');
        }
        push_str(&mut v, ps[i].key.as_str());
        v.push('=');
        push_str(&mut v, ps[i].value.as_str());
        proof {
            let t = params_view(ps@.subrange(0, i + 1));
            assert(t.drop_last() =~= params_view(ps@.subrange(0, i as int)));
            assert(t.last() == param_view(ps@[i as int]));
            if i == 0 {
                assert(v@ =~= join_params(t));
            } else {
                assert(v@ =~= join_params(t));
            }
        }
        i = i + 1;
    }
    assert(ps@.subrange(0, ps@.len() as int) =~= ps@);
    v
}

/// The protocol fields followed by the extra pairs, each percent-encoded.
fn encoded_params(
    api_key: &str,
    nonce: &str,
    ts: &str,
    token: &str,
    extra: &Vec<(String, String)>,
) -> (r: Vec<Param>)
    ensures
        params_view(r@) == encode_pairs(oauth_fields(api_key@, nonce@, ts@, token@) + str_pairs_view(extra@)),
{
    let ghost fields = oauth_fields(api_key@, nonce@, ts@, token@);
    let ghost all = fields + str_pairs_view(extra@);
    let mut params: Vec<Param> = Vec::new();
    params.push(encoded_param("oauth_consumer_key", api_key));
    params.push(encoded_param("oauth_nonce", nonce));
    params.push(encoded_param("oauth_signature_method", "HMAC-SHA1"));
    params.push(encoded_param("oauth_timestamp", ts));
    params.push(encoded_param("oauth_token", token));
    params.push(encoded_param("oauth_version", "1.0"));
    assert(params_view(params@) =~= encode_pairs(all.subrange(0, 6)));
    let mut i: usize = 0;
    while i < extra.len()
        invariant
            i <= extra@.len(),
            all == oauth_fields(api_key@, nonce@, ts@, token@) + str_pairs_view(extra@),
            params_view(params@) == encode_pairs(all.subrange(0, 6 + i)),
        decreases extra@.len() - i,
    {
        let ghost before = params@;
        let p = encoded_param(extra[i].0.as_str(), extra[i].1.as_str());
        params.push(p);
        proof {
            assert(all[6 + i] == (extra@[i as int].0@, extra@[i as int].1@));
            assert(params_view(params@) =~= params_view(before).push(param_view(p)));
            assert(encode_pairs(all.subrange(0, 6 + i + 1)) =~= encode_pairs(
                all.subrange(0, 6 + i),
            ).push((pct(all[6 + i].0), pct(all[6 + i].1))));
        }
        i = i + 1;
    }
    assert(all.subrange(0, 6 + extra@.len() as int) =~= all);
    params
}

/// The signature base string of a request with these (unencoded) parameters.
fn base_string(method: &str, url: &str, params: Vec<Param>, Ghost(all): Ghost<Seq<(Seq<char>, Seq<char>)>>) -> (r: String)
    requires
        params_view(params@) == encode_pairs(all),
    ensures
        r@ == signature_base(method@, url@, all),
{
    let ghost unsorted = params@;
    let sorted = sort_stable(params);
    proof {
        lemma_sort_view(unsorted);
    }
    let param_string = join_param_list(&sorted);
    let upper = to_uppercase(method);
    let mut base: Vec<char> = chars_of(upper.as_str());
    base.push('&');
    let enc_url = percent_encode(url);
    push_str(&mut base, enc_url.as_str());
    base.push('&');
    let enc_params = percent_encode(string_of(param_string.as_slice()).as_str());
    push_str(&mut base, enc_params.as_str());
    string_of(base.as_slice())
}

/// The percent-encoded Base64 HMAC-SHA1 signature of `base` under the key
/// `pct(secret)&pct(token_secret)`.
fn signature(secret: &str, token_secret: &str, base: &str) -> (r: String)
    ensures
        r@ == pct(
            base64_standard(
                hmac_sha1(
                    vstd::utf8::encode_utf8(pct(secret@) + seq!['&'] + pct(token_secret@)),
                    vstd::utf8::encode_utf8(base@),
                ),
            ),
        ),
{
    let mut key: Vec<char> = chars_of(percent_encode(secret).as_str());
    key.push('&');
    push_str(&mut key, percent_encode(token_secret).as_str());
    let key_s = string_of(key.as_slice());
    assert(key_s@ =~= pct(secret@) + seq!['&'] + pct(token_secret@));
    let tag = hmac_sha1_tag(key_s.as_str().as_bytes(), base.as_bytes());
    let b64 = base64_encode(tag.as_slice());
    percent_encode(b64.as_str())
}

/// The header text around its already encoded parts.
fn assemble_header(api_key: &str, nonce: &str, sig: &str, ts: &[char], token: &str) -> (r: String)
    ensures
        r@ == "OAuth oauth_consumer_key=\""@ + pct(api_key@) + "\", oauth_nonce=\""@ + pct(nonce@)
            + "\", oauth_signature=\""@ + sig@
            + "\", oauth_signature_method=\"HMAC-SHA1\", oauth_timestamp=\""@ + ts@
            + "\", oauth_token=\""@ + pct(token@) + "\", oauth_version=\"1.0\""@,
{
    let mut h: Vec<char> = chars_of("OAuth oauth_consumer_key=\"");
    push_str(&mut h, percent_encode(api_key).as_str());
    push_str(&mut h, "\", oauth_nonce=\"");
    push_str(&mut h, percent_encode(nonce).as_str());
    push_str(&mut h, "\", oauth_signature=\"");
    push_str(&mut h, sig);
    push_str(&mut h, "\", oauth_signature_method=\"HMAC-SHA1\", oauth_timestamp=\"");
    push_chars(&mut h, ts);
    push_str(&mut h, "\", oauth_token=\"");
    push_str(&mut h, percent_encode(token).as_str());
    push_str(&mut h, "\", oauth_version=\"1.0\"");
    string_of(h.as_slice())
}

impl X {
    /// The `Authorization` header for a request signed at `timestamp` with
    /// `nonce` (see [`oauth_header_for`]). `extra` holds the query or form
    /// parameters that enter the signature.
    pub fn oauth_header_at(
        &self,
        method: &str,
        url: &str,
        extra: &Vec<(String, String)>,
        timestamp: u64,
        nonce: &str,
    ) -> (r: String)
        ensures
            r@ == oauth_header_for(*self, method@, url@, str_pairs_view(extra@), dec(timestamp as nat), nonce@),
    {
        let ts_chars = decimal(timestamp);
        let ts = string_of(ts_chars.as_slice());
        let params = encoded_params(self.api_key.as_str(), nonce, ts.as_str(), self.access_token.as_str(), extra);
        let ghost all = oauth_fields(self.api_key@, nonce@, ts@, self.access_token@) + str_pairs_view(extra@);
        let base_s = base_string(method, url, params, Ghost(all));
        let sig = signature(self.api_secret.as_str(), self.access_token_secret.as_str(), base_s.as_str());
        assemble_header(self.api_key.as_str(), nonce, sig.as_str(), ts_chars.as_slice(), self.access_token.as_str())
    }

    /// The `Authorization` header for a request signed now with a fresh
    /// 32-character nonce. The time and the nonce come from the clock and a
    /// random source, so the result is stated for some such pair.
    pub fn oauth_header(&self, method: &str, url: &str, extra: &Vec<(String, String)>) -> (r: String)
        ensures
            exists|ts: u64, nonce: Seq<char>|
                nonce.len() == 32 && (forall|i: int| 0 <= i < 32 ==> is_ascii_alnum(
                    #[trigger] nonce[i],
                )) && r@ == oauth_header_for(
                    *self,
                    method@,
                    url@,
                    str_pairs_view(extra@),
                    dec(ts as nat),
                    nonce,
                ),
    {
        let ts = unix_time_secs();
        let nonce = random_alphanumeric(32);
        let r = self.oauth_header_at(method, url, extra, ts, nonce.as_str());
        assert(nonce@.len() == 32 && (forall|i: int| 0 <= i < 32 ==> is_ascii_alnum(
            #[trigger] nonce@[i],
        )));
        r
    }
}

} // verus!
