use std::sync::Arc;
use vstd::prelude::*;

verus! {

/// Settings read once at start-up and shared read-only by every request.
#[derive(Debug, Clone)]
pub struct Config {
    pub host: String,
    pub port: i32,
    pub database_url: String,
    pub secret_key: String,
    pub jwt_secret: String,
    pub client_id: String,
    pub client_secret: String,
    pub token_uri: String,
    pub redirect_uri: String,
    pub auth_uri: String,
    pub api_uri: String,
}

/// What the OAuth exchange with the upstream provider needs.
#[derive(Debug, Clone)]
pub struct Params {
    pub client_id: Arc<String>,
    pub client_secret: Arc<String>,
    pub token_uri: Arc<String>,
    pub redirect_uri: Arc<String>,
    pub auth_uri: Arc<String>,
    pub api_uri: Arc<String>,
}

/// The two secrets used for hashing passwords and signing bearer tokens.
#[derive(Debug, Clone)]
pub struct CryptoService {
    pub key: Arc<String>,
    pub jwt_secret: Arc<String>,
}

impl Config {
    pub fn hashing(&self) -> (r: CryptoService)
        ensures
            r.key@ == self.secret_key@,
            r.jwt_secret@ == self.jwt_secret@,
    {
        CryptoService {
            key: Arc::new(self.secret_key.clone()),
            jwt_secret: Arc::new(self.jwt_secret.clone()),
        }
    }

    pub fn params(&self) -> (r: Params)
        ensures
            r.client_id@ == self.client_id@,
            r.client_secret@ == self.client_secret@,
            r.token_uri@ == self.token_uri@,
            r.redirect_uri@ == self.redirect_uri@,
            r.auth_uri@ == self.auth_uri@,
            r.api_uri@ == self.api_uri@,
    {
        Params {
            client_id: Arc::new(self.client_id.clone()),
            client_secret: Arc::new(self.client_secret.clone()),
            token_uri: Arc::new(self.token_uri.clone()),
            redirect_uri: Arc::new(self.redirect_uri.clone()),
            auth_uri: Arc::new(self.auth_uri.clone()),
            api_uri: Arc::new(self.api_uri.clone()),
        }
    }
}

} // verus!
