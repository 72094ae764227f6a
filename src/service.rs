use vstd::prelude::*;
use crate::account::{Account, deserialized_account};
use crate::json::{
    JsonValue, object, text_field, literal_field, parse_object, find_member, same_chars,
};
use crate::text::{chars_of, string_of};

verus! {

/// Base address of the identity provider's account service.
pub const APS_ENDPOINT: &'static str = "https://account-public-service-prod.ol.epicgames.com";

/// Browser address that hands out an authorization code; the client id follows it.
pub const EGL_URL_REDIRBASE: &'static str = "https://www.epicgames.com/id/api/redirect?clientId=";

/// A registered application of the identity provider: its client id and secret.
#[derive(Clone, Copy)]
pub struct AccountPublicService {
    pub client_id: &'static str,
    pub client_secret: &'static str,
}

/// A short-lived code minted from a credential, to be traded for a credential
/// of a dependent service.
#[derive(Clone, Debug, PartialEq, Eq)]
pub struct ExchangeCode {
    pub code: String,
    pub creating_client_id: String,
    pub expires_in_seconds: u32,
}

/// Why a call to the identity provider did not give what was asked.
#[derive(Clone, Debug, PartialEq, Eq)]
pub enum ExchangeError {
    /// The provider answered with a status outside 2xx.
    ExchangeRejected { status: u16, body: String },
    /// The provider answered 2xx with a body of the wrong shape.
    ProtocolMismatch,
    /// The request did not complete.
    Transport,
    /// The request did not complete in time.
    TransportTimeout,
}

/// Mathematical view of an [`ExchangeError`].
pub enum ExchangeErrorView {
    ExchangeRejected { status: u16, body: Seq<char> },
    ProtocolMismatch,
    Transport,
    TransportTimeout,
}

impl View for ExchangeError {
    type V = ExchangeErrorView;

    open spec fn view(&self) -> ExchangeErrorView {
        match self {
            ExchangeError::ExchangeRejected { status, body } => ExchangeErrorView::ExchangeRejected {
                status: *status,
                body: body@,
            },
            ExchangeError::ProtocolMismatch => ExchangeErrorView::ProtocolMismatch,
            ExchangeError::Transport => ExchangeErrorView::Transport,
            ExchangeError::TransportTimeout => ExchangeErrorView::TransportTimeout,
        }
    }
}

pub open spec fn is_success(status: u16) -> bool {
    200 <= status && status < 300
}

/// The form fields of a token request: the grant type, the token type, and the
/// token under `code` for an authorization code, under the grant type's own
/// name otherwise.
pub open spec fn token_form_fields(grant_type: Seq<char>, token: Option<Seq<char>>) -> Seq<
    (Seq<char>, Seq<char>),
> {
    let base = seq![("grant_type"@, grant_type), ("token_type"@, "eg1"@)];
    match token {
        Some(t) => base.push(
            (if grant_type == "authorization_code"@ { "code"@ } else { grant_type }, t),
        ),
        None => base,
    }
}

pub open spec fn str_opt_view(o: Option<&str>) -> Option<Seq<char>> {
    match o {
        Some(t) => Some(t@),
        None => None,
    }
}

pub open spec fn pairs_view(v: Seq<(String, String)>) -> Seq<(Seq<char>, Seq<char>)> {
    v.map_values(|p: (String, String)| (p.0@, p.1@))
}

/// The decimal value of a run of digits.
pub open spec fn decimal_value(s: Seq<char>) -> int
    decreases s.len(),
{
    if s.len() == 0 {
        0
    } else {
        decimal_value(s.drop_last()) * 10 + (s.last() as int - '0' as int)
    }
}

pub open spec fn all_digits(s: Seq<char>) -> bool {
    forall|i: int| 0 <= i < s.len() ==> '0' <= #[trigger] s[i] && s[i] <= '9'
}

/// The `u32` a literal denotes, if it is a plain decimal that fits.
pub open spec fn literal_u32(s: Seq<char>) -> Option<u32> {
    if s.len() > 0 && all_digits(s) && decimal_value(s) <= u32::MAX {
        Some(decimal_value(s) as u32)
    } else {
        None
    }
}

/// Mathematical view of an [`ExchangeCode`]: code, creating client, lifetime.
pub open spec fn exchange_code_view(c: ExchangeCode) -> (Seq<char>, Seq<char>, u32) {
    (c.code@, c.creating_client_id@, c.expires_in_seconds)
}

/// The exchange code that JSON text `s` holds, if it holds one.
pub open spec fn deserialized_exchange_code(s: Seq<char>) -> Option<(Seq<char>, Seq<char>, u32)> {
    match object(s) {
        Some(ms) => {
            let code = text_field(ms, "code"@);
            let client = text_field(ms, "creatingClientId"@);
            let ttl = literal_field(ms, "expiresInSeconds"@);
            if code is Some && client is Some && ttl is Some && literal_u32(ttl->0) is Some {
                Some((code->0, client->0, literal_u32(ttl->0)->0))
            } else {
                None
            }
        },
        None => None,
    }
}

fn concat(a: &str, b: &str) -> (r: String)
    ensures
        r@ == a@ + b@,
{
    let mut v = chars_of(a);
    let mut w = chars_of(b);
    v.append(&mut w);
    string_of(&v)
}

fn parse_u32(s: &Vec<char>) -> (r: Option<u32>)
    ensures
        r == literal_u32(s@),
{
    if s.len() == 0 {
        return None;
    }
    let mut v: u32 = 0;
    let mut i: usize = 0;
    while i < s.len()
        invariant
            0 < s@.len(),
            i <= s@.len(),
            all_digits(s@.subrange(0, i as int)),
            v as int == decimal_value(s@.subrange(0, i as int)),
        decreases s@.len() - i,
    {
        let c = s[i];
        assert(s@.subrange(0, i + 1).drop_last() =~= s@.subrange(0, i as int));
        if !('0' <= c && c <= '9') {
            assert(!all_digits(s@));
            return None;
        }
        let d = c as u32 - '0' as u32;
        if v > (u32::MAX - d) / 10 {
            proof {
                let p = s@.subrange(0, i + 1);
                assert(all_digits(p));
                assert(decimal_value(p) == v * 10 + d);
                assert(v * 10 + d > u32::MAX) by (nonlinear_arith)
                    requires
                        v > (u32::MAX - d) / 10,
                        d <= 9,
                {
                }
                lemma_decimal_prefix(s@, i as int + 1);
            }
            return None;
        }
        v = v * 10 + d;
        i = i + 1;
    }
    assert(s@.subrange(0, s@.len() as int) =~= s@);
    Some(v)
}

/// A run of digits is worth at least any of its prefixes.
proof fn lemma_decimal_prefix(s: Seq<char>, n: int)
    requires
        0 <= n <= s.len(),
        all_digits(s.subrange(0, n)),
    ensures
        decimal_value(s) >= decimal_value(s.subrange(0, n)) || !all_digits(s),
    decreases s.len(),
{
    if s.len() > n && all_digits(s) {
        lemma_decimal_prefix(s.drop_last(), n);
        assert(s.drop_last().subrange(0, n) =~= s.subrange(0, n));
        assert(decimal_value(s.drop_last()) >= 0) by {
            lemma_decimal_nonneg(s.drop_last());
        };
    } else if s.len() == n {
        assert(s.subrange(0, n) =~= s);
    }
}

proof fn lemma_decimal_nonneg(s: Seq<char>)
    requires
        all_digits(s),
    ensures
        decimal_value(s) >= 0,
    decreases s.len(),
{
    if s.len() > 0 {
        lemma_decimal_nonneg(s.drop_last());
    }
}

impl AccountPublicService {
    pub fn new(client: &'static str, secret: &'static str) -> (r: AccountPublicService)
        ensures
            r.client_id == client,
            r.client_secret == secret,
    {
        AccountPublicService { client_id: client, client_secret: secret }
    }

    /// The address where a user signs in to obtain an authorization code for this application.
    pub fn get_redirect_url(&self) -> (r: String)
        ensures
            r@ == EGL_URL_REDIRBASE@ + self.client_id@,
    {
        concat(EGL_URL_REDIRBASE, self.client_id)
    }

    /// The token endpoint.
    pub fn token_url(&self) -> (r: String)
        ensures
            r@ == APS_ENDPOINT@ + "/account/api/oauth/token"@,
    {
        concat(APS_ENDPOINT, "/account/api/oauth/token")
    }

    /// The verification endpoint.
    pub fn verify_url(&self) -> (r: String)
        ensures
            r@ == APS_ENDPOINT@ + "/account/api/oauth/verify"@,
    {
        concat(APS_ENDPOINT, "/account/api/oauth/verify")
    }

    /// The exchange-code endpoint.
    pub fn exchange_url(&self) -> (r: String)
        ensures
            r@ == APS_ENDPOINT@ + "/account/api/oauth/exchange"@,
    {
        concat(APS_ENDPOINT, "/account/api/oauth/exchange")
    }

    /// The form body of a token request for `grant_type` carrying `token`.
    pub fn token_form(&self, grant_type: &str, token: Option<&str>) -> (r: Vec<(String, String)>)
        ensures
            pairs_view(r@) == token_form_fields(grant_type@, str_opt_view(token)),
    {
        let mut r: Vec<(String, String)> = Vec::new();
        r.push((string_of(&chars_of("grant_type")), string_of(&chars_of(grant_type))));
        r.push((string_of(&chars_of("token_type")), string_of(&chars_of("eg1"))));
        match token {
            Some(t) => {
                let is_code = same_chars(&chars_of(grant_type), &chars_of("authorization_code"));
                let name = if is_code {
                    string_of(&chars_of("code"))
                } else {
                    string_of(&chars_of(grant_type))
                };
                r.push((name, string_of(&chars_of(t))));
            },
            None => {},
        }
        assert(pairs_view(r@) =~= token_form_fields(grant_type@, str_opt_view(token)));
        r
    }
}

/// Interprets the token endpoint's answer: a credential on 2xx with a
/// well-formed body, `ProtocolMismatch` on 2xx otherwise, `ExchangeRejected`
/// with the status and body on any other status.
pub fn exchange_outcome(status: u16, body: &str) -> (r: Result<Account, ExchangeError>)
    ensures
        is_success(status) ==> match deserialized_account(body@) {
            Some(a) => r is Ok && r->Ok_0@ == a,
            None => r is Err && r->Err_0@ == ExchangeErrorView::ProtocolMismatch,
        },
        !is_success(status) ==> r is Err && r->Err_0@ == (ExchangeErrorView::ExchangeRejected {
            status,
            body: body@,
        }),
{
    if 200 <= status && status < 300 {
        match Account::from_json(body) {
            Ok(a) => Ok(a),
            Err(_) => Err(ExchangeError::ProtocolMismatch),
        }
    } else {
        Err(ExchangeError::ExchangeRejected { status, body: string_of(&chars_of(body)) })
    }
}

/// Interprets the verification endpoint's answer: valid only on a 2xx status;
/// `None` stands for a request that did not complete.
pub fn verify_outcome(status: Option<u16>) -> (r: bool)
    ensures
        r == (status is Some && is_success(status->0)),
{
    match status {
        Some(s) => 200 <= s && s < 300,
        None => false,
    }
}

impl ExchangeCode {
    /// Reads an exchange code from JSON text; extra members are ignored.
    pub fn from_json(text: &str) -> (r: Option<ExchangeCode>)
        ensures
            match r {
                Some(c) => deserialized_exchange_code(text@) == Some(exchange_code_view(c)),
                None => deserialized_exchange_code(text@) is None,
            },
    {
        let chars = chars_of(text);
        let ms = match parse_object(&chars) {
            Some(ms) => ms,
            None => {
                return None;
            },
        };
        let code = find_member(&ms, &chars_of("code"));
        let client = find_member(&ms, &chars_of("creatingClientId"));
        let ttl = find_member(&ms, &chars_of("expiresInSeconds"));
        match (code, client, ttl) {
            (Some(JsonValue::Text(c)), Some(JsonValue::Text(k)), Some(JsonValue::Literal(t))) => {
                match parse_u32(&t) {
                    Some(n) => Some(
                        ExchangeCode {
                            code: string_of(&c),
                            creating_client_id: string_of(&k),
                            expires_in_seconds: n,
                        },
                    ),
                    None => None,
                }
            },
            _ => None,
        }
    }
}

/// Interprets the exchange-code endpoint's answer, as [`exchange_outcome`] does.
pub fn exchange_code_outcome(status: u16, body: &str) -> (r: Result<ExchangeCode, ExchangeError>)
    ensures
        is_success(status) ==> match deserialized_exchange_code(body@) {
            Some(c) => r is Ok && exchange_code_view(r->Ok_0) == c,
            None => r is Err && r->Err_0@ == ExchangeErrorView::ProtocolMismatch,
        },
        !is_success(status) ==> r is Err && r->Err_0@ == (ExchangeErrorView::ExchangeRejected {
            status,
            body: body@,
        }),
{
    if 200 <= status && status < 300 {
        match ExchangeCode::from_json(body) {
            Some(c) => Ok(c),
            None => Err(ExchangeError::ProtocolMismatch),
        }
    } else {
        Err(ExchangeError::ExchangeRejected { status, body: string_of(&chars_of(body)) })
    }
}

} // verus!
