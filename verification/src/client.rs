//! The Upbit REST client's own logic: API-key normalisation, the exchange-key
//! check before signing, the `Authorization` header, and the request URLs.

use vstd::prelude::*;
use vstd::utf8::encode_utf8;

use crate::auth::issue_upbit_jwt;
use crate::text::{
    i32_text, is_blank, join_strs, str_chars, string_from_chars,
    strip_trailing_chars, trim_chars, trim_str,
};

verus! {

#[verifier::external_type_specification]
#[verifier::external_body]
pub struct ExHttpClient(reqwest::Client);

#[verifier::external_type_specification]
#[verifier::external_body]
pub struct ExHttpError(reqwest::Error);

#[verifier::external_type_specification]
#[verifier::external_body]
pub struct ExStatusCode(reqwest::StatusCode);

#[verifier::external_type_specification]
#[verifier::external_body]
pub struct ExJsonError(serde_json::Error);

/// `reqwest::Client::clone`, which hands out another handle to the same
/// connection pool; nothing is claimed of the result.
pub assume_specification[ <reqwest::Client as Clone>::clone ](c: &reqwest::Client) -> (res: reqwest::Client);

/// Base URL of the Upbit open API.
pub const BASE_URL: &'static str = "https://api.upbit.com";

/// Errors of the Upbit client.
#[derive(Debug)]
pub enum UpbitError {
    /// The HTTP request failed.
    Request(reqwest::Error),
    /// No market was given.
    EmptyMarkets,
    /// The access key or the secret key is missing.
    AuthorizationError,
    /// The JWT could not be issued.
    Jwt(jsonwebtoken::errors::Error),
    /// JSON (de)serialisation failed.
    SerdeJson(serde_json::Error),
    /// The API answered with a status other than success.
    ApiError { status: reqwest::StatusCode, body: Option<String> },
}

// ---------------------------------------------------------------- URLs

/// A base URL without its trailing `/`s.
pub open spec fn api_base(base: Seq<char>) -> Seq<char> {
    crate::text::strip_trailing(base, '/')
}

/// The views of a list of market codes.
pub open spec fn market_views(markets: Seq<&str>) -> Seq<Seq<char>> {
    markets.map_values(|m: &str| m@)
}

/// Ticker URL: `{base}/v1/ticker?markets={m1,m2,..}`.
pub open spec fn ticker_url_text(base: Seq<char>, markets: Seq<Seq<char>>) -> Seq<char> {
    api_base(base) + "/v1/ticker?markets="@ + crate::text::join_with(markets, ","@)
}

/// Order-book URL: `{base}/v1/orderbook?markets={m1,m2,..}&count=10`.
pub open spec fn order_book_url_text(base: Seq<char>, markets: Seq<Seq<char>>) -> Seq<char> {
    api_base(base) + "/v1/orderbook?markets="@ + crate::text::join_with(markets, ","@)
        + "&count=10"@
}

/// Minute-candle URL: `{base}/v1/candles/minutes/{unit}?market={market}&count={count}`.
pub open spec fn minute_candle_url_text(base: Seq<char>, unit: int, market: Seq<char>, count: int) -> Seq<
    char,
> {
    api_base(base) + "/v1/candles/minutes/"@ + crate::text::int_text(unit) + "?market="@ + market
        + "&count="@ + crate::text::int_text(count)
}

/// The base URL without trailing `/`s, as a string.
fn base_without_slash(base: &str) -> (res: String)
    ensures
        res@ == api_base(base@),
{
    let chars = str_chars(base);
    let kept = strip_trailing_chars(&chars, '/');
    string_from_chars(kept.as_slice())
}

/// `{base}/v1/ticker?markets=...`, the markets joined by `,`; a `/` at the end
/// of `base` is ignored.
pub fn ticker_url(base: &str, markets: &[&str]) -> (res: String)
    ensures
        res@ == ticker_url_text(base@, market_views(markets@)),
{
    let mut url = base_without_slash(base);
    url.append("/v1/ticker?markets=");
    let joined = join_strs(markets, ",");
    url.append(joined.as_str());
    url
}

/// `{base}/v1/orderbook?markets=...&count=10` (ten price levels).
pub fn order_book_url(base: &str, markets: &[&str]) -> (res: String)
    ensures
        res@ == order_book_url_text(base@, market_views(markets@)),
{
    let mut url = base_without_slash(base);
    url.append("/v1/orderbook?markets=");
    let joined = join_strs(markets, ",");
    url.append(joined.as_str());
    url.append("&count=10");
    url
}

/// `{base}/v1/candles/minutes/{unit}?market={market}&count={count}`.
pub fn minute_candle_url(base: &str, unit: i32, market: String, count: i32) -> (res: String)
    ensures
        res@ == minute_candle_url_text(base@, unit as int, market@, count as int),
{
    let mut url = base_without_slash(base);
    url.append("/v1/candles/minutes/");
    let u = i32_text(unit);
    url.append(u.as_str());
    url.append("?market=");
    url.append(market.as_str());
    url.append("&count=");
    let c = i32_text(count);
    url.append(c.as_str());
    url
}

/// `{base}/v1/accounts`.
pub fn my_balance_url(base: &str) -> (res: String)
    ensures
        res@ == api_base(base@) + "/v1/accounts"@,
{
    let mut url = base_without_slash(base);
    url.append("/v1/accounts");
    url
}

/// `{base}/v1/market/all` (every market).
pub fn market_all_url(base: &str) -> (res: String)
    ensures
        res@ == api_base(base@) + "/v1/market/all"@,
{
    let mut url = base_without_slash(base);
    url.append("/v1/market/all");
    url
}

/// `{base}/v1/orders`.
pub fn order_url(base: &str) -> (res: String)
    ensures
        res@ == api_base(base@) + "/v1/orders"@,
{
    let mut url = base_without_slash(base);
    url.append("/v1/orders");
    url
}

/// `n` slashes.
pub open spec fn slashes(n: nat) -> Seq<char> {
    Seq::new(n, |i: int| '/')
}

/// Any number of `/`s at the end of the base URL changes no request URL.
pub proof fn lemma_trailing_slash_ignored(base: Seq<char>, n: nat)
    ensures
        api_base(base + slashes(n)) == api_base(base),
    decreases n,
{
    if n > 0 {
        assert((base + slashes(n)).drop_last() =~= base + slashes((n - 1) as nat));
        lemma_trailing_slash_ignored(base, (n - 1) as nat);
    } else {
        assert(base + slashes(0) =~= base);
    }
}

/// A base URL already stripped of its trailing `/`s gives the same request URLs:
/// a client made with `with_base_url(b)` asks what one made with `b` without its
/// trailing `/`s asks.
pub proof fn lemma_api_base_idempotent(base: Seq<char>)
    ensures
        api_base(api_base(base)) == api_base(base),
    decreases base.len(),
{
    if base.len() > 0 && base.last() == '/' {
        lemma_api_base_idempotent(base.drop_last());
    }
}

/// Whether an HTTP status is a success (200 to 299), as `StatusCode::is_success` decides.
pub open spec fn success_status(code: int) -> bool {
    200 <= code <= 299
}

/// Whether a response with this status is read as a result; any other status
/// is an `ApiError` carrying the body.
pub fn is_success_status(code: u16) -> (res: bool)
    ensures
        res == success_status(code as int),
{
    200 <= code && code <= 299
}

// ---------------------------------------------------------------- keys

/// Whether `t` is wrapped in a matching pair of `'` or `"`.
pub open spec fn quote_wrapped(t: Seq<char>) -> bool {
    &&& t.len() >= 2
    &&& (t[0] == '\'' && t.last() == '\'') || (t[0] == '"' && t.last() == '"')
}

/// Whether `c` is removed from the start of a key: whitespace or a byte-order mark.
pub open spec fn key_padding(c: char) -> bool {
    crate::text::is_white_space(c) || c == '\u{feff}'
}

/// `s` without the whitespace and byte-order marks that it starts with.
pub open spec fn strip_key_start(s: Seq<char>) -> Seq<char>
    decreases s.len(),
{
    if s.len() > 0 && key_padding(s[0]) {
        strip_key_start(s.drop_first())
    } else {
        s
    }
}

/// `s` without leading whitespace and byte-order marks and without trailing whitespace.
pub open spec fn key_trim(s: Seq<char>) -> Seq<char> {
    crate::text::trim_end_ws(strip_key_start(s))
}

/// Repeatedly removes a wrapping pair of quotes, together with the whitespace
/// and byte-order marks just inside them.
pub open spec fn unquote(t: Seq<char>) -> Seq<char>
    decreases t.len(),
{
    if quote_wrapped(t) {
        proof {
            lemma_key_trim_shape(t.subrange(1, t.len() - 1));
        }
        unquote(key_trim(t.subrange(1, t.len() - 1)))
    } else {
        t
    }
}

/// A key as given on the command line or in a file, cleaned: whitespace,
/// byte-order marks and wrapping quotes removed (also inside the quotes);
/// `None` when nothing is left.
pub open spec fn normalized_key(s: Seq<char>) -> Option<Seq<char>> {
    let t = unquote(key_trim(s));
    if t.len() == 0 {
        None
    } else {
        Some(t)
    }
}

/// `normalized_key` over an optional key.
pub open spec fn normalized_opt(k: Option<String>) -> Option<Seq<char>> {
    match k {
        Some(s) => normalized_key(s@),
        None => None,
    }
}

/// The view of an optional string.
pub open spec fn opt_view(k: Option<String>) -> Option<Seq<char>> {
    match k {
        Some(s) => Some(s@),
        None => None,
    }
}

/// Stripping the start leaves a suffix that starts with neither whitespace nor
/// a byte-order mark.
pub proof fn lemma_strip_key_start_suffix(s: Seq<char>)
    ensures
        strip_key_start(s).len() <= s.len(),
        strip_key_start(s) == s.subrange(s.len() - strip_key_start(s).len(), s.len() as int),
        strip_key_start(s).len() > 0 ==> !key_padding(strip_key_start(s)[0]),
    decreases s.len(),
{
    if s.len() > 0 && key_padding(s[0]) {
        lemma_strip_key_start_suffix(s.drop_first());
        assert(s.drop_first().subrange(
            s.drop_first().len() - strip_key_start(s).len(),
            s.drop_first().len() as int,
        ) =~= s.subrange(s.len() - strip_key_start(s).len(), s.len() as int));
    } else {
        assert(s.subrange(0, s.len() as int) =~= s);
    }
}

/// A key-trimmed text is no longer than the original, and is empty or starts
/// with neither whitespace nor a byte-order mark and does not end with whitespace.
pub proof fn lemma_key_trim_shape(s: Seq<char>)
    ensures
        key_trim(s).len() <= s.len(),
        key_trim(s).len() > 0 ==> !key_padding(key_trim(s)[0]) && !crate::text::is_white_space(
            key_trim(s).last(),
        ),
{
    lemma_strip_key_start_suffix(s);
    let t = strip_key_start(s);
    crate::text::lemma_trim_end_prefix(t);
    if key_trim(s).len() > 0 {
        assert(key_trim(s)[0] == t.subrange(0, key_trim(s).len() as int)[0]);
    }
}

/// Text that is empty, or starts with neither whitespace nor a byte-order mark
/// and does not end with whitespace, is left as it is by key trimming.
pub proof fn lemma_key_trim_fixed(t: Seq<char>)
    requires
        t.len() == 0 || (!key_padding(t[0]) && !crate::text::is_white_space(t.last())),
    ensures
        key_trim(t) == t,
{
}

/// Whether `t` is a key as normalisation leaves it: not empty, starting with
/// neither whitespace nor a byte-order mark, not ending with whitespace, and not
/// wrapped in quotes.
pub open spec fn clean_key(t: Seq<char>) -> bool {
    &&& t.len() > 0
    &&& !key_padding(t[0])
    &&& !crate::text::is_white_space(t.last())
    &&& !quote_wrapped(t)
}

impl UpbitPublicClient {
    /// Removes whitespace, byte-order marks and wrapping quotes (that a shell or
    /// IDE may leave in a key); `None` when nothing is left.
    fn normalize_api_key_value(s: String) -> (res: Option<String>)
        ensures
            opt_view(res) == normalized_key(s@),
    {
        let chars = str_chars(s.as_str());
        let mut t = key_trim_chars(&chars);
        loop
            invariant
                unquote(t@) == unquote(key_trim(s@)),
            ensures
                !quote_wrapped(t@),
                unquote(t@) == t@,
                unquote(t@) == unquote(key_trim(s@)),
            decreases t.len(),
        {
            if t.len() < 2 {
                break;
            }
            let first = t[0];
            let last = t[t.len() - 1];
            let strip = (first == '\'' && last == '\'') || (first == '"' && last == '"');
            if !strip {
                break;
            }
            let inner = crate::text::sub_chars(&t, 1, t.len() - 1);
            proof {
                lemma_key_trim_shape(inner@);
            }
            t = key_trim_chars(&inner);
        }
        if t.len() == 0 {
            None
        } else {
            Some(string_from_chars(t.as_slice()))
        }
    }
}

/// `v` without leading whitespace and byte-order marks and without trailing whitespace.
fn key_trim_chars(v: &Vec<char>) -> (res: Vec<char>)
    ensures
        res@ == key_trim(v@),
{
    let mut i: usize = 0;
    assert(v@.subrange(0, v.len() as int) =~= v@);
    while i < v.len() && (crate::text::is_whitespace_char(v[i]) || v[i] == '\u{feff}')
        invariant
            i <= v.len(),
            strip_key_start(v@) == strip_key_start(v@.subrange(i as int, v.len() as int)),
        decreases v.len() - i,
    {
        assert(v@.subrange(i as int, v.len() as int).drop_first() =~= v@.subrange(
            i + 1,
            v.len() as int,
        ));
        i = i + 1;
    }
    let rest = crate::text::sub_chars(v, i, v.len());
    assert(crate::text::trim_start_ws(rest@) == rest@);
    trim_chars(&rest)
}

/// Unquoting key-trimmed text gives a text that key trimming leaves as it is
/// and that is not wrapped in quotes.
pub proof fn lemma_unquote_clean(t: Seq<char>)
    requires
        t.len() == 0 || (!key_padding(t[0]) && !crate::text::is_white_space(t.last())),
    ensures
        unquote(t).len() == 0 || (!key_padding(unquote(t)[0]) && !crate::text::is_white_space(
            unquote(t).last(),
        )),
        !quote_wrapped(unquote(t)),
    decreases t.len(),
{
    if quote_wrapped(t) {
        let inner = t.subrange(1, t.len() - 1);
        lemma_key_trim_shape(inner);
        lemma_unquote_clean(key_trim(inner));
    }
}

/// A normalised key is not empty, starts with neither whitespace nor a
/// byte-order mark, does not end with whitespace and is not wrapped in quotes.
pub proof fn lemma_normalized_key_clean(s: Seq<char>)
    ensures
        normalized_key(s) matches Some(t) ==> clean_key(t) && t[0] != '\u{feff}'
            && crate::text::trim_ws(t) == t,
{
    lemma_key_trim_shape(s);
    lemma_unquote_clean(key_trim(s));
    if normalized_key(s) is Some {
        let t = normalized_key(s)->Some_0;
        crate::text::lemma_trim_fixed(t);
    }
}

/// Normalising a normalised key again leaves it as it is.
pub proof fn lemma_normalized_key_stable(s: Seq<char>)
    ensures
        normalized_key(s) matches Some(t) ==> normalized_key(t) == Some(t),
{
    lemma_normalized_key_clean(s);
    if normalized_key(s) is Some {
        let t = normalized_key(s)->Some_0;
        lemma_key_trim_fixed(t);
        assert(unquote(t) == t);
    }
}

// ---------------------------------------------------------------- client

/// The Upbit client: an HTTP client, the API base URL, and the optional keys of
/// the Exchange API (both are needed to sign a request).
#[derive(Clone)]
pub struct UpbitPublicClient {
    /// The HTTP client that requests go through.
    pub client: reqwest::Client,
    /// The base URL that requests go to.
    pub url: String,
    /// Exchange API access key; with `secret_key`, signs the JWT.
    pub access_key: Option<String>,
    pub secret_key: Option<String>,
}

/// Seconds after which an HTTP request to the API times out.
pub const HTTP_TIMEOUT_SECS: u64 = 15;

/// Calls `reqwest::Client::builder().timeout(Duration::from_secs(timeout_secs)).build()`.
/// Whether building succeeds is left unsaid: it fails when the TLS backend
/// cannot be set up or the system resolver configuration cannot be loaded.
#[verifier::external_body]
fn build_http_client(timeout_secs: u64) -> (res: Result<reqwest::Client, reqwest::Error>) {
    reqwest::Client::builder().timeout(std::time::Duration::from_secs(timeout_secs)).build()
}

/// A key of the Exchange API as signing uses it: trimmed, and present only when
/// not blank.
pub open spec fn exchange_key(k: Option<String>) -> Option<Seq<char>> {
    match k {
        Some(s) => if crate::text::blank(s@) {
            None
        } else {
            Some(crate::text::trim_ws(s@))
        },
        None => None,
    }
}

fn normalize_opt(k: Option<String>) -> (res: Option<String>)
    ensures
        opt_view(res) == normalized_opt(k),
{
    match k {
        Some(s) => UpbitPublicClient::normalize_api_key_value(s),
        None => None,
    }
}

fn exchange_key_of(k: &Option<String>) -> (res: Option<String>)
    ensures
        opt_view(res) == exchange_key(*k),
{
    match k {
        Some(s) => {
            if is_blank(s.as_str()) {
                None
            } else {
                Some(trim_str(s.as_str()))
            }
        },
        None => None,
    }
}

impl UpbitPublicClient {
    /// A client for the Upbit API. Both keys are optional and are normalised
    /// (see `normalized_key`); with both present the Exchange API can be signed.
    pub fn new(access_key: Option<String>, secret_key: Option<String>) -> (res: Result<
        UpbitPublicClient,
        reqwest::Error,
    >)
        ensures
            res matches Ok(c) ==> {
                &&& c.url@ == BASE_URL@
                &&& opt_view(c.access_key) == normalized_opt(access_key)
                &&& opt_view(c.secret_key) == normalized_opt(secret_key)
            },
    {
        let client = build_http_client(HTTP_TIMEOUT_SECS)?;
        let access_key = normalize_opt(access_key);
        let secret_key = normalize_opt(secret_key);
        Ok(UpbitPublicClient {
            client,
            url: String::from_str(BASE_URL),
            access_key,
            secret_key,
        })
    }

    /// A client for another base URL (a proxy or a test server); the keys are
    /// kept as given. A `/` at the end of the URL is ignored by the requests.
    pub fn with_base_url(
        base_url: String,
        access_key: Option<String>,
        secret_key: Option<String>,
    ) -> (res: Result<Self, reqwest::Error>)
        ensures
            res matches Ok(c) ==> {
                &&& c.url@ == base_url@
                &&& c.access_key == access_key
                &&& c.secret_key == secret_key
            },
    {
        let client = build_http_client(HTTP_TIMEOUT_SECS)?;
        Ok(Self { client, url: base_url, access_key, secret_key })
    }

    /// The trimmed access and secret keys, or `AuthorizationError` when either
    /// is missing or blank.
    fn exchange_keys(&self) -> (res: Result<(String, String), UpbitError>)
        ensures
            match res {
                Ok((a, s)) => exchange_key(self.access_key) == Some(a@) && exchange_key(
                    self.secret_key,
                ) == Some(s@),
                Err(e) => e is AuthorizationError && (exchange_key(self.access_key) is None
                    || exchange_key(self.secret_key) is None),
            },
    {
        let access = match exchange_key_of(&self.access_key) {
            Some(a) => a,
            None => return Err(UpbitError::AuthorizationError),
        };
        let secret = match exchange_key_of(&self.secret_key) {
            Some(s) => s,
            None => return Err(UpbitError::AuthorizationError),
        };
        Ok((access, secret))
    }

    /// The `Authorization` value of an Exchange API request: `Bearer ` and a
    /// JWT over `query_string` (empty for a request without parameters).
    /// `AuthorizationError` exactly when a key is missing or blank; with both
    /// keys the header is always given.
    pub fn authorization_header(&self, query_string: &str) -> (res: Result<String, UpbitError>)
        ensures
            res matches Err(UpbitError::AuthorizationError) <==> (exchange_key(self.access_key) is None
                || exchange_key(self.secret_key) is None),
            exchange_key(self.access_key) is Some && exchange_key(self.secret_key) is Some
                ==> res is Ok,
            res matches Err(e) ==> e is AuthorizationError,
            res matches Ok(h) ==> exists|nonce: Seq<char>|
                #![trigger crate::auth::claims_text(exchange_key(self.access_key)->Some_0, nonce, query_string@)]
                crate::auth::uuid_text(nonce) && h@ == "Bearer "@ + crate::auth::hs512_token(
                    crate::auth::claims_text(
                        exchange_key(self.access_key)->Some_0,
                        nonce,
                        query_string@,
                    ),
                    encode_utf8(exchange_key(self.secret_key)->Some_0),
                ),
    {
        let (access_key, secret_key) = self.exchange_keys()?;
        match issue_upbit_jwt(access_key.as_str(), secret_key.as_str(), query_string) {
            Ok(jwt) => {
                let mut h = String::from_str("Bearer ");
                h.append(jwt.as_str());
                proof {
                    let nonce = choose|nonce: Seq<char>|
                        #![trigger crate::auth::claims_text(access_key@, nonce, query_string@)]
                        crate::auth::uuid_text(nonce) && jwt@ == crate::auth::hs512_token(
                            crate::auth::claims_text(access_key@, nonce, query_string@),
                            encode_utf8(secret_key@),
                        );
                    assert(h@ == "Bearer "@ + crate::auth::hs512_token(
                        crate::auth::claims_text(
                            exchange_key(self.access_key)->Some_0,
                            nonce,
                            query_string@,
                        ),
                        encode_utf8(exchange_key(self.secret_key)->Some_0),
                    ));
                }
                Ok(h)
            },
            Err(e) => Err(UpbitError::Jwt(e)),
        }
    }

    /// The order-book URL for `pair`, or `EmptyMarkets` when no market is given.
    pub fn order_book_request_url(&self, pair: &[&str]) -> (res: Result<String, UpbitError>)
        ensures
            pair@.len() == 0 ==> res matches Err(UpbitError::EmptyMarkets),
            pair@.len() > 0 ==> (res matches Ok(u) && u@ == order_book_url_text(
                self.url@,
                market_views(pair@),
            )),
    {
        if pair.len() == 0 {
            return Err(UpbitError::EmptyMarkets);
        }
        Ok(order_book_url(self.url.as_str(), pair))
    }
}

} // verus!
