use crate::config::Params;
use crate::json::{json_text_field, text_field};
use vstd::prelude::*;
use vstd::string::*;

verus! {

/// The authorization URL the user is sent to: the provider's endpoint with a
/// fixed scope, a fixed provider selection, the client id and the redirect URI,
/// always in this order.
pub open spec fn authorization_url(
    auth_uri: Seq<char>,
    client_id: Seq<char>,
    redirect_uri: Seq<char>,
) -> Seq<char> {
    auth_uri + "/?response_type=code&client_id="@ + client_id
        + "&scope=info%20accounts%20balance%20cards%20transactions%20direct_debits%20standing_orders%20offline_access"@
        + "&redirect_uri="@ + redirect_uri
        + "&providers=uk-ob-all%20uk-oauth-all%20uk-cs-mock"@
}

/// The authorization URL is a function of the three configured values alone:
/// equal configurations give the identical URL, parameter order included.
pub proof fn lemma_authorization_url_deterministic(p: Params, q: Params)
    requires
        p.auth_uri@ == q.auth_uri@,
        p.client_id@ == q.client_id@,
        p.redirect_uri@ == q.redirect_uri@,
    ensures
        authorization_url(p.auth_uri@, p.client_id@, p.redirect_uri@) == authorization_url(q.auth_uri@, q.client_id@, q.redirect_uri@),
{
}

pub fn encoded_url(params: &Params) -> (r: String)
    ensures
        r@ == authorization_url(params.auth_uri@, params.client_id@, params.redirect_uri@),
{
    let mut url = String::from_str(params.auth_uri.as_str());
    url.append("/?response_type=code&client_id=");
    url.append(params.client_id.as_str());
    url.append(
        "&scope=info%20accounts%20balance%20cards%20transactions%20direct_debits%20standing_orders%20offline_access",
    );
    url.append("&redirect_uri=");
    url.append(params.redirect_uri.as_str());
    url.append("&providers=uk-ob-all%20uk-oauth-all%20uk-cs-mock");
    url
}

/// The query of the OAuth callback: the authorization code handed back.
#[derive(Debug, Clone)]
pub struct AuthRequest {
    pub code: String,
}

/// The only field of the token endpoint's reply that the service keeps.
#[derive(Debug, Clone)]
pub struct Token {
    pub access_token: String,
}

/// A refused code exchange: the provider's status and body, kept for diagnostics.
#[derive(Debug, Clone)]
pub struct ExchangeFailure {
    pub status: u16,
    pub body: String,
}

/// Field `i` of a form is the pair `(k, v)`.
pub open spec fn field_is(form: Seq<(String, String)>, i: int, k: Seq<char>, v: Seq<char>) -> bool {
    form[i].0@ == k && form[i].1@ == v
}

/// The form-encoded body of the authorization-code grant, in this order:
/// grant type, client id, client secret, redirect URI and the code.
pub fn token_request_form(params: &Params, code: &str) -> (r: Vec<(String, String)>)
    ensures
        r@.len() == 5,
        field_is(r@, 0, "grant_type"@, "authorization_code"@),
        field_is(r@, 1, "client_id"@, params.client_id@),
        field_is(r@, 2, "client_secret"@, params.client_secret@),
        field_is(r@, 3, "redirect_uri"@, params.redirect_uri@),
        field_is(r@, 4, "code"@, code@),
{
    let mut form: Vec<(String, String)> = Vec::new();
    form.push((String::from_str("grant_type"), String::from_str("authorization_code")));
    form.push((String::from_str("client_id"), String::from_str(params.client_id.as_str())));
    form.push(
        (String::from_str("client_secret"), String::from_str(params.client_secret.as_str())),
    );
    form.push(
        (String::from_str("redirect_uri"), String::from_str(params.redirect_uri.as_str())),
    );
    form.push((String::from_str("code"), String::from_str(code)));
    form
}

/// Whether an HTTP status is a success (2xx).
pub open spec fn is_success(status: u16) -> bool {
    200 <= status && status < 300
}

/// What the code exchange yields for the provider's reply: the access token
/// when the status is a success and the body holds a string `access_token`,
/// else the status and body unchanged.
pub fn access_token_from_reply(status: u16, body: &str) -> (r: Result<Token, ExchangeFailure>)
    ensures
        r is Ok <==> is_success(status) && json_text_field(body@, "access_token"@) is Some,
        r matches Ok(t) ==> json_text_field(body@, "access_token"@) == Some(t.access_token@),
        r matches Err(e) ==> e.status == status && e.body@ == body@,
{
    if 200 <= status && status < 300 {
        match text_field(body, "access_token") {
            Some(t) => {
                return Ok(Token { access_token: t });
            },
            None => {},
        }
    }
    Err(ExchangeFailure { status, body: String::from_str(body) })
}

} // verus!
