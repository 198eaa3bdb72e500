//! Server configuration from environment values, with the checks on the
//! session secret (hex, at least 64 bytes) and the defaults of the optional
//! settings.
use vstd::prelude::*;

use crate::crypto::{hex_decode, hex_decode_spec, utf8};
use crate::error::lit;

verus! {

/// The settings the server starts with.
pub struct Config {
    pub database_url: String,
    pub bind_addr: String,
    pub s3_endpoint: String,
    pub s3_access_key: String,
    pub s3_secret_key: String,
    pub s3_bucket: String,
    pub nats_url: Option<String>,
    pub session_secret: Vec<u8>,
    pub public_base_url: String,
}

/// The environment values the configuration reads (`None` when unset or not
/// Unicode).
pub struct ConfigVars {
    pub session_secret: Option<String>,
    pub database_url: Option<String>,
    pub bind_addr: Option<String>,
    pub s3_endpoint: Option<String>,
    pub s3_access_key: Option<String>,
    pub s3_secret_key: Option<String>,
    pub s3_bucket: Option<String>,
    pub nats_url: Option<String>,
    pub public_base_url: Option<String>,
}

/// The message when `SESSION_SECRET` is unset.
pub open spec fn secret_missing() -> Seq<char> {
    "SESSION_SECRET required (hex-encoded ≥ 64 bytes). Generate with: openssl rand -hex 64"@
}

/// The value of a setting, or its default.
pub open spec fn or_default(v: Option<String>, d: Seq<char>) -> Seq<char> {
    match v {
        Some(s) => s@,
        None => d,
    }
}

/// Why the configuration is refused, checked in this order: the session
/// secret (unset, not hex, shorter than 64 bytes), then the required
/// `DATABASE_URL`, `S3_ENDPOINT`, `S3_ACCESS_KEY` and `S3_SECRET_KEY`.
pub open spec fn config_error(v: ConfigVars) -> Option<Seq<char>> {
    match v.session_secret {
        None => Some(secret_missing()),
        Some(s) => match hex_decode_spec(utf8(s@)) {
            None => Some("SESSION_SECRET must be hex"@),
            Some(b) => if b.len() < 64 {
                Some("SESSION_SECRET must be ≥ 64 bytes"@)
            } else if v.database_url is None {
                Some("DATABASE_URL required"@)
            } else if v.s3_endpoint is None {
                Some("S3_ENDPOINT required"@)
            } else if v.s3_access_key is None {
                Some("S3_ACCESS_KEY required"@)
            } else if v.s3_secret_key is None {
                Some("S3_SECRET_KEY required"@)
            } else {
                None
            },
        },
    }
}

/// Builds the configuration: refused with the message of `config_error`,
/// else every value as given, with the defaults `0.0.0.0:8080` for the bind
/// address, `simu-uploads` for the bucket and `http://localhost:3000` for the
/// public base URL, and the session secret's bytes.
pub fn config_from_vars(v: ConfigVars) -> (r: Result<Config, String>)
    ensures
        match config_error(v) {
            Some(m) => r matches Err(e) && e@ == m,
            None => r matches Ok(c) && {
                &&& c.database_url == v.database_url->0
                &&& c.bind_addr@ == or_default(v.bind_addr, "0.0.0.0:8080"@)
                &&& c.s3_endpoint == v.s3_endpoint->0
                &&& c.s3_access_key == v.s3_access_key->0
                &&& c.s3_secret_key == v.s3_secret_key->0
                &&& c.s3_bucket@ == or_default(v.s3_bucket, "simu-uploads"@)
                &&& c.nats_url == v.nats_url
                &&& hex_decode_spec(utf8(v.session_secret->0@)) == Some(c.session_secret@)
                &&& c.public_base_url@ == or_default(v.public_base_url, "http://localhost:3000"@)
            },
        },
{
    let secret_hex = match &v.session_secret {
        None => {
            return Err(
                lit(
                    "SESSION_SECRET required (hex-encoded ≥ 64 bytes). Generate with: openssl rand -hex 64",
                ),
            )
        },
        Some(s) => s,
    };
    let secret = match hex_decode(secret_hex.as_str()) {
        None => return Err(lit("SESSION_SECRET must be hex")),
        Some(b) => b,
    };
    if secret.len() < 64 {
        return Err(lit("SESSION_SECRET must be ≥ 64 bytes"));
    }
    let ConfigVars {
        session_secret: _,
        database_url,
        bind_addr,
        s3_endpoint,
        s3_access_key,
        s3_secret_key,
        s3_bucket,
        nats_url,
        public_base_url,
    } = v;
    let database_url = match database_url {
        None => return Err(lit("DATABASE_URL required")),
        Some(s) => s,
    };
    let s3_endpoint = match s3_endpoint {
        None => return Err(lit("S3_ENDPOINT required")),
        Some(s) => s,
    };
    let s3_access_key = match s3_access_key {
        None => return Err(lit("S3_ACCESS_KEY required")),
        Some(s) => s,
    };
    let s3_secret_key = match s3_secret_key {
        None => return Err(lit("S3_SECRET_KEY required")),
        Some(s) => s,
    };
    let bind_addr = match bind_addr {
        Some(s) => s,
        None => lit("0.0.0.0:8080"),
    };
    let s3_bucket = match s3_bucket {
        Some(s) => s,
        None => lit("simu-uploads"),
    };
    let public_base_url = match public_base_url {
        Some(s) => s,
        None => lit("http://localhost:3000"),
    };
    Ok(Config {
        database_url,
        bind_addr,
        s3_endpoint,
        s3_access_key,
        s3_secret_key,
        s3_bucket,
        nats_url,
        session_secret: secret,
        public_base_url,
    })
}

/// The configuration is accepted exactly when the session secret is hex of
/// at least 64 bytes and the database URL and the three object-store
/// settings are all set; a missing secret is reported before anything else.
pub proof fn lemma_config_accepted(v: ConfigVars)
    ensures
        config_error(v) is None <==> (v.session_secret matches Some(s) && hex_decode_spec(utf8(s@)) matches Some(b) && b.len()
            >= 64 && v.database_url is Some && v.s3_endpoint is Some && v.s3_access_key is Some && v.s3_secret_key is Some),
        v.session_secret is None ==> config_error(v) == Some(secret_missing()),
{
}

} // verus!
