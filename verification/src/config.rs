//! Server configuration from its settings, with the defaults of a local
//! development setup.

use vstd::prelude::*;
use crate::text::{chars_of, str_eq, trim, trimmed};

verus! {

/// The server configuration.
pub struct Config {
    pub db_url: String,
    pub db_namespace: String,
    pub db_database: String,
    pub db_username: String,
    pub db_password: String,
    pub server_port: u16,
    pub upload_dir: String,
    /// Path of the database's data file.
    pub db_path: String,
    pub enable_docs: bool,
    /// JWKS URI of the identity provider.
    pub oauth2_jwks_url: String,
    /// Issuer URL of the identity provider.
    pub oauth2_issuer: String,
    /// Canonical URI of the tool server, used as the token audience.
    pub mcp_canonical_uri: String,
    /// Base URL of the notes service's API.
    pub tack_api_url: String,
}

/// The settings as found (`None` when unset). The database user and
/// password are the contents of their secret files when those are set.
pub struct ConfigSources {
    pub db_url: Option<String>,
    pub db_namespace: Option<String>,
    pub db_database: Option<String>,
    pub db_username: Option<String>,
    pub db_password: Option<String>,
    pub port: Option<String>,
    pub upload_dir: Option<String>,
    pub db_path: Option<String>,
    pub enable_docs: Option<String>,
    pub oauth2_jwks_url: Option<String>,
    pub oauth2_issuer: Option<String>,
    pub mcp_canonical_uri: Option<String>,
    pub tack_api_url: Option<String>,
}

/// The tool server's protected-resource settings.
pub struct McpConfig {
    /// Canonical URI of this resource server (the token audience).
    pub canonical_uri: String,
    /// Issuer URL of the authorization server.
    pub authorization_server: String,
    /// JWKS URI published in the resource metadata.
    pub jwks_url: String,
}

/// The value of a decimal digit string.
pub open spec fn digits_value(s: Seq<char>) -> int
    decreases s.len(),
{
    if s.len() == 0 {
        0
    } else {
        digits_value(s.drop_last()) * 10 + (s.last() as int - 48)
    }
}

/// Whether every character is an ASCII digit.
pub open spec fn all_digits(s: Seq<char>) -> bool {
    forall|i: int| 0 <= i < s.len() ==> '0' <= #[trigger] s[i] <= '9'
}

/// The digits of a number string: without a leading `+`.
pub open spec fn unsigned_digits(s: Seq<char>) -> Seq<char> {
    if s.len() > 0 && s[0] == '+' { s.drop_first() } else { s }
}

/// What `u16::from_str` accepts: an optional `+`, then at least one digit,
/// with a value that fits in 16 bits.
pub open spec fn parsed_u16(s: Seq<char>) -> Option<u16> {
    let d = unsigned_digits(s);
    if d.len() > 0 && all_digits(d) && digits_value(d) <= 65535 {
        Some(digits_value(d) as u16)
    } else {
        None
    }
}

/// Parses a port number as `u16::from_str` does.
pub fn parse_u16(s: &str) -> (r: Option<u16>)
    ensures
        r == parsed_u16(s@),
{
    let cs = chars_of(s);
    let start: usize = if cs.len() > 0 && cs[0] == '+' { 1 } else { 0 };
    let ghost d = unsigned_digits(s@);
    proof {
        assert(d =~= s@.skip(start as int));
    }
    if start >= cs.len() {
        return None;
    }
    let mut value: u32 = 0;
    let mut i: usize = start;
    while i < cs.len()
        invariant
            cs@ == s@,
            d == s@.skip(start as int),
            d == unsigned_digits(s@),
            start <= i <= cs.len(),
            start < cs.len(),
            all_digits(s@.subrange(start as int, i as int)),
            value as int == digits_value(s@.subrange(start as int, i as int)),
            value <= 65535,
        decreases cs.len() - i,
    {
        let c = cs[i];
        proof {
            assert(s@.subrange(start as int, i + 1).drop_last() =~= s@.subrange(start as int, i as int));
        }
        if c < '0' || c > '9' {
            proof {
                assert(d[i - start] == s@[i as int]);
                assert(!all_digits(d));
            }
            return None;
        }
        let v: u32 = value * 10 + (c as u32 - 48);
        if v > 65535 {
            proof {
                assert(d.subrange(0, (i + 1 - start) as int) =~= s@.subrange(start as int, i + 1));
                assert(d[i - start] == s@[i as int]);
                if all_digits(d) {
                    lemma_digits_value_grows(d, (i + 1 - start) as int);
                    assert(digits_value(s@.subrange(start as int, i + 1)) == v);
                    assert(digits_value(d) >= v);
                }
            }
            return None;
        }
        value = v;
        i = i + 1;
    }
    proof {
        assert(s@.subrange(start as int, cs.len() as int) =~= d);
    }
    Some(value as u16)
}

/// A digit string has a non-negative value.
proof fn lemma_digits_value_nonneg(d: Seq<char>)
    requires
        all_digits(d),
    ensures
        digits_value(d) >= 0,
    decreases d.len(),
{
    if d.len() > 0 {
        assert(all_digits(d.drop_last())) by {
            assert forall|i: int| 0 <= i < d.drop_last().len() implies '0' <= #[trigger] d.drop_last()[i] <= '9' by {
                assert(d.drop_last()[i] == d[i]);
            }
        }
        lemma_digits_value_nonneg(d.drop_last());
        assert('0' <= d[d.len() - 1] <= '9');
    }
}

/// A digit string is worth at least any of its prefixes.
pub(crate) proof fn lemma_digits_value_grows(d: Seq<char>, k: int)
    requires
        0 <= k <= d.len(),
        all_digits(d),
    ensures
        digits_value(d) >= digits_value(d.subrange(0, k)),
    decreases d.len() - k,
{
    if k == d.len() {
        assert(d.subrange(0, k) =~= d);
    } else {
        let p = d.drop_last();
        assert(all_digits(p)) by {
            assert forall|i: int| 0 <= i < p.len() implies '0' <= #[trigger] p[i] <= '9' by {
                assert(p[i] == d[i]);
            }
        }
        lemma_digits_value_grows(p, k);
        assert(p.subrange(0, k) =~= d.subrange(0, k));
        lemma_digits_value_nonneg(p);
        assert('0' <= d[d.len() - 1] <= '9');
    }
}

/// What `bool::from_str` accepts: exactly `true` or `false`.
pub open spec fn parsed_bool(s: Seq<char>) -> Option<bool> {
    if s == "true"@ {
        Some(true)
    } else if s == "false"@ {
        Some(false)
    } else {
        None
    }
}

/// Parses a flag as `bool::from_str` does.
pub fn parse_bool(s: &str) -> (r: Option<bool>)
    ensures
        r == parsed_bool(s@),
{
    if str_eq(s, "true") {
        Some(true)
    } else if str_eq(s, "false") {
        Some(false)
    } else {
        None
    }
}

/// A setting, or its default when unset.
fn or_default(v: Option<String>, default: &str) -> (r: String)
    ensures
        r@ == (match v {
            Some(s) => s@,
            None => default@,
        }),
{
    match v {
        Some(s) => s,
        None => default.to_owned(),
    }
}

/// A setting by its characters, or the default.
pub open spec fn setting(v: Option<String>, default: Seq<char>) -> Seq<char> {
    match v {
        Some(s) => s@,
        None => default,
    }
}

impl Config {
    /// The configuration of the given settings: each unset setting takes
    /// its default; the port is 3000 unless set to a valid port number; the
    /// API docs are on unless the flag reads `false`.
    pub fn from_sources(src: ConfigSources) -> (c: Config)
        ensures
            c.db_url@ == setting(src.db_url, "ws://localhost:8000"@),
            c.db_namespace@ == setting(src.db_namespace, "clann"@),
            c.db_database@ == setting(src.db_database, "ancestry"@),
            c.db_username@ == setting(src.db_username, "root"@),
            c.db_password@ == setting(src.db_password, "secret"@),
            c.server_port == (match src.port {
                Some(p) => match parsed_u16(p@) {
                    Some(v) => v,
                    None => 3000u16,
                },
                None => 3000u16,
            }),
            c.upload_dir@ == setting(src.upload_dir, "./uploads"@),
            c.db_path@ == setting(src.db_path, "/opt/ullav/clann/data.db"@),
            c.enable_docs == (match parsed_bool(setting(src.enable_docs, "true"@)) {
                Some(b) => b,
                None => true,
            }),
            c.oauth2_jwks_url@ == setting(src.oauth2_jwks_url, "http://localhost:8081/oauth2/jwks"@),
            c.oauth2_issuer@ == setting(src.oauth2_issuer, "http://localhost:8081"@),
            c.mcp_canonical_uri@ == setting(src.mcp_canonical_uri, "http://localhost:3000"@),
            c.tack_api_url@ == setting(src.tack_api_url, "http://localhost:8087"@),
    {
        let server_port = match &src.port {
            Some(p) => match parse_u16(p.as_str()) {
                Some(v) => v,
                None => 3000,
            },
            None => 3000,
        };
        let docs = or_default(src.enable_docs, "true");
        let enable_docs = match parse_bool(docs.as_str()) {
            Some(b) => b,
            None => true,
        };
        Config {
            db_url: or_default(src.db_url, "ws://localhost:8000"),
            db_namespace: or_default(src.db_namespace, "clann"),
            db_database: or_default(src.db_database, "ancestry"),
            db_username: or_default(src.db_username, "root"),
            db_password: or_default(src.db_password, "secret"),
            server_port,
            upload_dir: or_default(src.upload_dir, "./uploads"),
            db_path: or_default(src.db_path, "/opt/ullav/clann/data.db"),
            enable_docs,
            oauth2_jwks_url: or_default(src.oauth2_jwks_url, "http://localhost:8081/oauth2/jwks"),
            oauth2_issuer: or_default(src.oauth2_issuer, "http://localhost:8081"),
            mcp_canonical_uri: or_default(src.mcp_canonical_uri, "http://localhost:3000"),
            tack_api_url: or_default(src.tack_api_url, "http://localhost:8087"),
        }
    }
}


/// A secret setting: the trimmed contents of its secret file when that is
/// set (the file takes priority), otherwise the plain setting.
pub fn secret_setting(file_contents: Option<String>, plain: Option<String>) -> (r: Option<String>)
    ensures
        match file_contents {
            Some(c) => r is Some && r->0@ == trimmed(c@),
            None => r == plain,
        },
{
    match file_contents {
        Some(c) => Some(trim(c.as_str())),
        None => plain,
    }
}

} // verus!
