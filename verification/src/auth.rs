//! Authentication: OIDC provider settings and presets, the authorize URL, identities from
//! ID-token claims, password hashing, RBAC object paths and the combination of role checks.

use vstd::prelude::*;

use crate::model::opt_view;
use crate::text::{comma_items, comma_separated, join, join_seq, owned, strings_view};
use argon2::{PasswordHasher, PasswordVerifier};
use vstd::utf8::encode_utf8;

verus! {

/// Identity provider presets.
#[derive(Clone, Copy, Debug, PartialEq, Eq, Structural)]
pub enum OidcPreset {
    Keycloak,
    Okta,
    AzureAd,
    Generic,
}

/// OIDC provider configuration (Keycloak, Okta, Azure AD presets).
#[derive(Debug)]
pub struct OidcConfig {
    pub issuer_url: String,
    pub client_id: String,
    pub client_secret_env: String,
    pub redirect_uri: String,
    pub scopes: Vec<String>,
    pub preset: Option<OidcPreset>,
}

/// Scopes asked for when none are configured.
pub open spec fn standard_scopes() -> Seq<Seq<char>> {
    seq!["openid"@, "profile"@, "email"@]
}

/// Setting that names the environment variable holding the client secret, by default.
pub open spec fn standard_secret_env() -> Seq<char> {
    "AMBIENTOR_OIDC_CLIENT_SECRET"@
}

fn standard_scope_list() -> (r: Vec<String>)
    ensures
        strings_view(r@) == standard_scopes(),
{
    let mut v: Vec<String> = Vec::new();
    v.push(owned("openid"));
    v.push(owned("profile"));
    v.push(owned("email"));
    assert(strings_view(v@) =~= standard_scopes());
    v
}

/// Whether a configuration is a preset one for the given issuer, client and redirect.
pub open spec fn preset_config(
    c: OidcConfig,
    issuer_url: Seq<char>,
    client_id: Seq<char>,
    redirect_uri: Seq<char>,
    preset: OidcPreset,
) -> bool {
    &&& c.issuer_url@ == issuer_url
    &&& c.client_id@ == client_id
    &&& c.client_secret_env@ == standard_secret_env()
    &&& c.redirect_uri@ == redirect_uri
    &&& strings_view(c.scopes@) == standard_scopes()
    &&& c.preset == Some(preset)
}

impl OidcConfig {
    /// Keycloak realm as identity provider.
    pub fn keycloak(issuer_url: String, client_id: String, redirect_uri: String) -> (r: Self)
        ensures
            preset_config(r, issuer_url@, client_id@, redirect_uri@, OidcPreset::Keycloak),
    {
        OidcConfig {
            issuer_url,
            client_id,
            client_secret_env: owned("AMBIENTOR_OIDC_CLIENT_SECRET"),
            redirect_uri,
            scopes: standard_scope_list(),
            preset: Some(OidcPreset::Keycloak),
        }
    }

    /// Okta as identity provider.
    pub fn okta(issuer_url: String, client_id: String, redirect_uri: String) -> (r: Self)
        ensures
            preset_config(r, issuer_url@, client_id@, redirect_uri@, OidcPreset::Okta),
    {
        OidcConfig {
            issuer_url,
            client_id,
            client_secret_env: owned("AMBIENTOR_OIDC_CLIENT_SECRET"),
            redirect_uri,
            scopes: standard_scope_list(),
            preset: Some(OidcPreset::Okta),
        }
    }

    /// Azure AD tenant as identity provider.
    pub fn azure_ad(tenant_id: &str, client_id: String, redirect_uri: String) -> (r: Self)
        ensures
            preset_config(
                r,
                "https://login.microsoftonline.com/"@ + tenant_id@ + "/v2.0"@,
                client_id@,
                redirect_uri@,
                OidcPreset::AzureAd,
            ),
    {
        let mut issuer_url = owned("https://login.microsoftonline.com/");
        issuer_url.append(tenant_id);
        issuer_url.append("/v2.0");
        OidcConfig {
            issuer_url,
            client_id,
            client_secret_env: owned("AMBIENTOR_OIDC_CLIENT_SECRET"),
            redirect_uri,
            scopes: standard_scope_list(),
            preset: Some(OidcPreset::AzureAd),
        }
    }
}

/// Words of a text: the maximal runs of characters other than white space.
pub open spec fn words_from(s: Seq<char>, cur: Seq<char>) -> Seq<Seq<char>>
    decreases s.len(),
{
    if s.len() == 0 {
        if cur.len() > 0 {
            seq![cur]
        } else {
            Seq::empty()
        }
    } else if crate::plans::is_white_space(s[0]) {
        (if cur.len() > 0 {
            seq![cur]
        } else {
            Seq::empty()
        }) + words_from(s.drop_first(), Seq::empty())
    } else {
        words_from(s.drop_first(), cur.push(s[0]))
    }
}

/// Words of a text separated by white space.
pub open spec fn words(s: Seq<char>) -> Seq<Seq<char>> {
    words_from(s, Seq::empty())
}

/// Words of a text separated by white space.
pub fn split_words(s: &str) -> (r: Vec<String>)
    ensures
        strings_view(r@) == words(s@),
{
    let cs = crate::text::chars_of(s);
    let n = cs.len();
    let mut out: Vec<String> = Vec::new();
    let mut start: usize = 0;
    let mut i: usize = 0;
    proof {
        assert(s@.subrange(0, s@.len() as int) =~= s@);
        assert(s@.subrange(0, 0) =~= Seq::<char>::empty());
        assert(strings_view(out@) + words(s@) =~= words(s@));
    }
    while i < n
        invariant
            cs@ == s@,
            n == s@.len(),
            start <= i <= n,
            strings_view(out@) + words_from(s@.subrange(i as int, n as int), s@.subrange(start as int, i as int)) == words(s@),
        decreases n - i,
    {
        let ghost rest = s@.subrange(i as int, n as int);
        let ghost cur = s@.subrange(start as int, i as int);
        let ghost before = strings_view(out@);
        proof {
            assert(rest[0] == s@[i as int]);
            assert(rest.drop_first() =~= s@.subrange(i + 1, n as int));
        }
        if crate::plans::white_space(cs[i]) {
            let ghost kept: Seq<Seq<char>> = if cur.len() > 0 { seq![cur] } else { Seq::empty() };
            if start < i {
                out.push(crate::text::substring(s, start, i));
                proof {
                    assert(strings_view(out@) =~= before + kept);
                }
            } else {
                proof {
                    assert(strings_view(out@) =~= before + kept);
                }
            }
            proof {
                assert(s@.subrange(i + 1, i + 1) =~= Seq::<char>::empty());
                assert(before + (kept + words_from(s@.subrange(i + 1, n as int), Seq::empty())) =~= (before + kept)
                    + words_from(s@.subrange(i + 1, n as int), Seq::empty()));
            }
            start = i + 1;
        } else {
            proof {
                assert(cur.push(s@[i as int]) =~= s@.subrange(start as int, i + 1));
            }
        }
        i += 1;
    }
    let ghost before = strings_view(out@);
    let ghost cur = s@.subrange(start as int, n as int);
    proof {
        assert(s@.subrange(n as int, n as int) =~= Seq::<char>::empty());
    }
    if start < n {
        out.push(crate::text::substring(s, start, n));
        proof {
            assert(strings_view(out@) =~= before + seq![cur]);
        }
    } else {
        proof {
            assert(strings_view(out@) =~= before);
        }
    }
    out
}

/// Provider settings as read from configuration: issuer, client and redirect are needed;
/// the client secret variable defaults to `AMBIENTOR_OIDC_CLIENT_SECRET` and the scopes,
/// given as words, to `openid profile email`. No preset.
pub fn oidc_config_from_settings(
    issuer_url: Option<String>,
    client_id: Option<String>,
    redirect_uri: Option<String>,
    client_secret_env: Option<String>,
    scopes: Option<String>,
) -> (r: Option<OidcConfig>)
    ensures
        (issuer_url is Some && client_id is Some && redirect_uri is Some) <==> r is Some,
        r matches Some(c) ==> {
            &&& Some(c.issuer_url@) == opt_view(issuer_url)
            &&& Some(c.client_id@) == opt_view(client_id)
            &&& Some(c.redirect_uri@) == opt_view(redirect_uri)
            &&& c.client_secret_env@ == match client_secret_env {
                Some(e) => e@,
                None => standard_secret_env(),
            }
            &&& strings_view(c.scopes@) == match scopes {
                Some(s) => words(s@),
                None => standard_scopes(),
            }
            &&& c.preset is None
        },
{
    let issuer_url = match issuer_url {
        Some(v) => v,
        None => return None,
    };
    let client_id = match client_id {
        Some(v) => v,
        None => return None,
    };
    let redirect_uri = match redirect_uri {
        Some(v) => v,
        None => return None,
    };
    let client_secret_env = match client_secret_env {
        Some(e) => e,
        None => owned("AMBIENTOR_OIDC_CLIENT_SECRET"),
    };
    let scopes = match scopes {
        Some(s) => split_words(s.as_str()),
        None => standard_scope_list(),
    };
    Some(OidcConfig { issuer_url, client_id, client_secret_env, redirect_uri, scopes, preset: None })
}

/// Roles for first-time OIDC users as configured: the comma-separated items, trimmed,
/// empty ones left out; none when nothing is configured.
pub fn default_roles_from_setting(setting: Option<&str>) -> (r: Vec<String>)
    ensures
        strings_view(r@) == match setting {
            Some(s) => comma_items(s@),
            None => Seq::empty(),
        },
{
    match setting {
        Some(s) => comma_separated(s),
        None => {
            let v: Vec<String> = Vec::new();
            assert(strings_view(v@) =~= Seq::<Seq<char>>::empty());
            v
        },
    }
}

/// Whether a byte stays as it is in a URL component: ASCII letters and digits, `-`, `.`,
/// `_` and `~`.
pub open spec fn url_safe_byte(b: u8) -> bool {
    (48 <= b <= 57) || (65 <= b <= 90) || (97 <= b <= 122) || b == 45 || b == 46 || b == 95 || b == 126
}

/// Upper-case hexadecimal digit of a number below sixteen.
pub open spec fn hex_digit(d: u8) -> char {
    if d < 10 {
        (48 + d) as char
    } else {
        (55 + d) as char
    }
}

/// Percent-encoding of bytes: safe bytes as themselves, every other byte as `%` and two
/// upper-case hexadecimal digits.
pub open spec fn percent_encoded(bytes: Seq<u8>) -> Seq<char>
    decreases bytes.len(),
{
    if bytes.len() == 0 {
        Seq::empty()
    } else {
        let b = bytes[0];
        (if url_safe_byte(b) {
            seq![b as char]
        } else {
            seq!['%', hex_digit(b / 16), hex_digit(b % 16)]
        }) + percent_encoded(bytes.drop_first())
    }
}

/// Percent-encode a text's UTF-8 bytes for a URL query.
///
/// Calls `urlencoding::encode`, which keeps ASCII alphanumerics and `-`, `_`, `.`, `~` and
/// writes every other byte as `%` with two upper-case hexadecimal digits; the contract
/// states exactly that.
#[verifier::external_body]
fn url_encode(s: &str) -> (r: String)
    ensures
        r@ == percent_encoded(encode_utf8(s@)),
{
    urlencoding::encode(s).into_owned()
}

/// A text without the given character repeated at its end.
pub open spec fn without_trailing(s: Seq<char>, c: char) -> Seq<char>
    decreases s.len(),
{
    if s.len() > 0 && s.last() == c {
        without_trailing(s.drop_last(), c)
    } else {
        s
    }
}

fn trim_trailing_slashes(s: &str) -> (r: String)
    ensures
        r@ == without_trailing(s@, '/'),
{
    let cs = crate::text::chars_of(s);
    let mut n = cs.len();
    proof {
        assert(s@.subrange(0, s@.len() as int) =~= s@);
    }
    while n > 0 && cs[n - 1] == '/'
        invariant
            cs@ == s@,
            n <= s@.len(),
            without_trailing(s@.subrange(0, n as int), '/') == without_trailing(s@, '/'),
        decreases n,
    {
        proof {
            assert(s@.subrange(0, n as int).drop_last() =~= s@.subrange(0, n - 1));
        }
        n -= 1;
    }
    crate::text::substring(s, 0, n)
}

/// Manual authorize URL of a provider (no discovery, no PKCE).
pub open spec fn authorize_url_text(c: OidcConfig, state: Seq<char>) -> Seq<char> {
    without_trailing(c.issuer_url@, '/') + "/authorize?client_id="@ + c.client_id@ + "&redirect_uri="@
        + percent_encoded(encode_utf8(c.redirect_uri@)) + "&response_type=code&scope="@ + percent_encoded(
        encode_utf8(join_seq(strings_view(c.scopes@), " "@)),
    ) + "&state="@ + state
}

/// Legacy manual authorize URL (no discovery/PKCE).
pub fn authorize_url(config: &OidcConfig, state: &str) -> (r: String)
    ensures
        r@ == authorize_url_text(*config, state@),
{
    let mut u = trim_trailing_slashes(config.issuer_url.as_str());
    u.append("/authorize?client_id=");
    u.append(config.client_id.as_str());
    u.append("&redirect_uri=");
    let redirect = url_encode(config.redirect_uri.as_str());
    u.append(redirect.as_str());
    u.append("&response_type=code&scope=");
    let scopes = join(&config.scopes, " ");
    let scope = url_encode(scopes.as_str());
    u.append(scope.as_str());
    u.append("&state=");
    u.append(state);
    u
}

/// Errors of the OIDC login flow.
#[derive(Debug)]
pub enum OidcError {
    NotConfigured(String),
    Discovery(String),
    InvalidIssuer(String),
    InvalidRedirect(String),
    TokenExchange(String),
    InvalidState,
    MissingIdToken,
}

impl OidcError {
    /// Text of the error.
    pub fn message(&self) -> (r: String)
        ensures
            r@ == match self {
                OidcError::NotConfigured(m) => "OIDC not configured: "@ + m@,
                OidcError::Discovery(m) => "discovery failed: "@ + m@,
                OidcError::InvalidIssuer(m) => "invalid issuer URL: "@ + m@,
                OidcError::InvalidRedirect(m) => "invalid redirect URL: "@ + m@,
                OidcError::TokenExchange(m) => "token exchange failed: "@ + m@,
                OidcError::InvalidState => "invalid or expired login state"@,
                OidcError::MissingIdToken => "missing id token"@,
            },
    {
        match self {
            OidcError::NotConfigured(m) => {
                let mut s = owned("OIDC not configured: ");
                s.append(m.as_str());
                s
            },
            OidcError::Discovery(m) => {
                let mut s = owned("discovery failed: ");
                s.append(m.as_str());
                s
            },
            OidcError::InvalidIssuer(m) => {
                let mut s = owned("invalid issuer URL: ");
                s.append(m.as_str());
                s
            },
            OidcError::InvalidRedirect(m) => {
                let mut s = owned("invalid redirect URL: ");
                s.append(m.as_str());
                s
            },
            OidcError::TokenExchange(m) => {
                let mut s = owned("token exchange failed: ");
                s.append(m.as_str());
                s
            },
            OidcError::InvalidState => owned("invalid or expired login state"),
            OidcError::MissingIdToken => owned("missing id token"),
        }
    }
}

/// A user identified by the provider.
#[derive(Debug)]
pub struct OidcIdentity {
    pub subject: String,
    pub username: String,
    pub email: Option<String>,
}

/// User name of an ID token: the preferred user name, else the e-mail, else `oidc-` and
/// the subject.
pub fn username_from_claims(preferred_username: Option<String>, email: Option<String>, subject: &str) -> (r: String)
    ensures
        r@ == match preferred_username {
            Some(u) => u@,
            None => match email {
                Some(e) => e@,
                None => "oidc-"@ + subject@,
            },
        },
{
    match preferred_username {
        Some(u) => u,
        None => match email {
            Some(e) => e,
            None => {
                let mut s = owned("oidc-");
                s.append(subject);
                s
            },
        },
    }
}

/// Stored user name of an OIDC user.
pub fn oidc_db_username(subject: &str) -> (r: String)
    ensures
        r@ == "oidc:"@ + subject@,
{
    let mut s = owned("oidc:");
    s.append(subject);
    s
}

/// Roles of an OIDC user: the configured default roles, or `viewer` when none are.
pub fn oidc_login_roles(default_roles: &Vec<String>) -> (r: Vec<String>)
    ensures
        strings_view(r@) == if default_roles@.len() == 0 {
            seq!["viewer"@]
        } else {
            strings_view(default_roles@)
        },
{
    let mut out: Vec<String> = Vec::new();
    if default_roles.len() == 0 {
        out.push(owned("viewer"));
        assert(strings_view(out@) =~= seq!["viewer"@]);
        return out;
    }
    let mut i: usize = 0;
    while i < default_roles.len()
        invariant
            i <= default_roles@.len(),
            strings_view(out@) == strings_view(default_roles@.take(i as int)),
        decreases default_roles@.len() - i,
    {
        let ghost before = out@;
        out.push(default_roles[i].clone());
        proof {
            assert(default_roles@.take(i + 1) =~= default_roles@.take(i as int).push(default_roles@[i as int]));
            assert(strings_view(out@) =~= strings_view(before).push(default_roles@[i as int]@));
            assert(strings_view(default_roles@.take(i + 1)) =~= strings_view(default_roles@.take(i as int)).push(
                default_roles@[i as int]@,
            ));
        }
        i += 1;
    }
    assert(default_roles@.take(default_roles@.len() as int) =~= default_roles@);
    out
}

/// Errors of password hashing and checking.
#[derive(Debug)]
pub enum PasswordError {
    Hash(String),
    Invalid,
}

impl PasswordError {
    /// Text of the error.
    pub fn message(&self) -> (r: String)
        ensures
            r@ == match self {
                PasswordError::Hash(m) => "hash error: "@ + m@,
                PasswordError::Invalid => "invalid credentials"@,
            },
    {
        match self {
            PasswordError::Hash(m) => {
                let mut s = owned("hash error: ");
                s.append(m.as_str());
                s
            },
            PasswordError::Invalid => owned("invalid credentials"),
        }
    }
}

/// Why a text is no PHC password hash string, when it is none.
pub uninterp spec fn phc_parse_error(hash: Seq<char>) -> Option<Seq<char>>;

/// Whether Argon2 accepts a password for a PHC hash string, with the parameters it holds.
pub uninterp spec fn argon2_accepts(password: Seq<char>, hash: Seq<char>) -> bool;

/// Parse a PHC password hash string.
///
/// Calls `password_hash::PasswordHash::new`; the result is a function of the text.
#[verifier::external_body]
fn phc_check(hash: &str) -> (r: Option<String>)
    ensures
        opt_view(r) == phc_parse_error(hash@),
{
    match password_hash::PasswordHash::new(hash) {
        Ok(_) => None,
        Err(e) => Some(e.to_string()),
    }
}

/// Check a password against a PHC hash string that parses.
///
/// Calls `Verifier::verify_password` of `argon2::Argon2::default()`, which uses the
/// parameters and salt of the hash string; the result is a function of the two texts.
#[verifier::external_body]
fn argon2_verify(password: &str, hash: &str) -> (r: bool)
    requires
        phc_parse_error(hash@) is None,
    ensures
        r == argon2_accepts(password@, hash@),
{
    match password_hash::PasswordHash::new(hash) {
        Ok(parsed) => argon2::Argon2::default().verify_password(password.as_bytes(), &parsed).is_ok(),
        Err(_) => false,
    }
}

/// Hash a password with Argon2 and a fresh random salt.
///
/// Calls `SaltString::generate` with the operating system's generator and
/// `PasswordHasher::hash_password` of `argon2::Argon2::default()`, then writes the PHC
/// string. The hash depends on the random salt, so only what holds of every outcome is
/// stated: as the crate documents, the PHC string parses back and verifies the password.
/// Drawing the salt panics when the operating system yields no random bytes, which depends
/// on the machine and on no argument.
#[verifier::external_body]
fn argon2_hash(password: &str) -> (r: Result<String, String>)
    ensures
        r matches Ok(h) ==> phc_parse_error(h@) is None && argon2_accepts(password@, h@),
{
    let salt = password_hash::SaltString::generate(&mut password_hash::rand_core::OsRng);
    match argon2::Argon2::default().hash_password(password.as_bytes(), &salt) {
        Ok(h) => Ok(h.to_string()),
        Err(e) => Err(e.to_string()),
    }
}

/// Whether a password verifies against a stored hash: the hash parses and Argon2 accepts.
pub open spec fn password_verifies(password: Seq<char>, hash: Seq<char>) -> bool {
    phc_parse_error(hash) is None && argon2_accepts(password, hash)
}

/// Hash a password for storage.
pub fn hash_password(password: &str) -> (r: Result<String, PasswordError>)
    ensures
        r matches Ok(h) ==> password_verifies(password@, h@),
        r matches Err(e) ==> e is Hash,
{
    match argon2_hash(password) {
        Ok(h) => Ok(h),
        Err(m) => Err(PasswordError::Hash(m)),
    }
}

/// Check a password against a stored hash: a hash that does not parse is refused with its
/// parse error, a wrong password as invalid.
pub fn verify_password(password: &str, hash: &str) -> (r: Result<(), PasswordError>)
    ensures
        match phc_parse_error(hash@) {
            Some(m) => r matches Err(PasswordError::Hash(t)) && t@ == m,
            None => (r is Ok) == argon2_accepts(password@, hash@) && (r is Err ==> r == Err::<(), PasswordError>(PasswordError::Invalid)),
        },
{
    match phc_check(hash) {
        Some(m) => Err(PasswordError::Hash(m)),
        None => if argon2_verify(password, hash) {
            Ok(())
        } else {
            Err(PasswordError::Invalid)
        },
    }
}

/// A random version-4 UUID in its hyphenated text form.
///
/// Calls `uuid::Uuid::new_v4` and formats the result with `to_string`, which writes the
/// 36-character hyphenated form. The value is random: nothing more is stated of it. The
/// call panics when the operating system yields no random bytes, which depends on the
/// machine and on no argument.
#[verifier::external_body]
fn random_uuid_text() -> (r: String)
    ensures
        r@.len() == 36,
{
    uuid::Uuid::new_v4().to_string()
}

/// Password hash stored for a user who signs in through OIDC: the hash of a random UUID,
/// so that no known password signs that user in locally. A hashing failure is a database
/// error carrying the hashing error's text.
pub fn oidc_placeholder_hash() -> (r: Result<String, AuthError>)
    ensures
        r matches Ok(h) ==> exists|p: Seq<char>| p.len() == 36 && password_verifies(p, h@),
        r matches Err(e) ==> e matches AuthError::Db(m) && exists|t: Seq<char>| m@ == "hash error: "@ + t,
{
    let secret = random_uuid_text();
    match hash_password(secret.as_str()) {
        Ok(h) => {
            assert(password_verifies(secret@, h@));
            Ok(h)
        },
        Err(e) => {
            let m = e.message();
            Err(AuthError::Db(m))
        },
    }
}

/// Declares `uuid::Uuid` so that a user record can carry its id.
#[verifier::external_type_specification]
#[verifier::external_body]
pub struct ExUuid(uuid::Uuid);

/// A stored user.
#[derive(Debug)]
pub struct UserRecord {
    pub id: uuid::Uuid,
    pub username: String,
    pub password_hash: String,
    pub roles: Vec<String>,
}

/// Outcome of a local sign-in given the user looked up by name: a lookup failure is a
/// database error; an unknown user, a stored hash that does not parse and a wrong password
/// are all invalid credentials; otherwise the user signs in.
pub fn check_login(found: Result<Option<UserRecord>, String>, password: &str) -> (r: Result<UserRecord, AuthError>)
    ensures
        match found {
            Err(m) => r matches Err(AuthError::Db(t)) && t == m,
            Ok(None) => r matches Err(AuthError::InvalidCredentials),
            Ok(Some(u)) => if phc_parse_error(u.password_hash@) is None && argon2_accepts(password@, u.password_hash@) {
                r == Ok::<UserRecord, AuthError>(u)
            } else {
                r matches Err(AuthError::InvalidCredentials)
            },
        },
{
    let user = match found {
        Err(m) => return Err(AuthError::Db(m)),
        Ok(None) => return Err(AuthError::InvalidCredentials),
        Ok(Some(u)) => u,
    };
    match verify_password(password, user.password_hash.as_str()) {
        Ok(()) => Ok(user),
        Err(_) => Err(AuthError::InvalidCredentials),
    }
}

/// A policy of the access model: a subject (a role), the namespaces it holds in, the
/// objects and actions it covers (as patterns) and its effect.
#[derive(Debug)]
pub struct PolicyRule {
    pub subject: String,
    pub domain: String,
    pub object: String,
    pub action: String,
    pub effect: String,
}

/// Fields of a policy.
pub open spec fn policy_fields(p: PolicyRule) -> (Seq<char>, Seq<char>, Seq<char>, Seq<char>, Seq<char>) {
    (p.subject@, p.domain@, p.object@, p.action@, p.effect@)
}

/// The policies a new access model starts with: administrators of the platform and of
/// clusters, migration operators (also under the name `operator`) who approve, execute and
/// read rollouts and read and export plans, viewers who read everything, and auditors who
/// read the audit log. Every one allows; the `operator` rows are an alias.
pub open spec fn default_policy_table() -> Seq<(Seq<char>, Seq<char>, Seq<char>, Seq<char>, Seq<char>)> {
    seq![
        ("platform-admin"@, "*"@, "*"@, ".*"@, "allow"@),
        ("mesh-admin"@, "*"@, "cluster/*"@, ".*"@, "allow"@),
        ("migration-operator"@, "*"@, "rollout/*"@, "approve|execute|read"@, "allow"@),
        ("migration-operator"@, "*"@, "plan/*"@, "read|export"@, "allow"@),
        ("operator"@, "*"@, "rollout/*"@, "approve|execute|read"@, "allow"@),
        ("operator"@, "*"@, "plan/*"@, "read|export"@, "allow"@),
        ("viewer"@, "*"@, "*"@, "read"@, "allow"@),
        ("auditor"@, "*"@, "audit/*"@, "read"@, "allow"@),
    ]
}

fn push_policy(out: &mut Vec<PolicyRule>, subject: &str, domain: &str, object: &str, action: &str, effect: &str)
    ensures
        final(out)@.len() == old(out)@.len() + 1,
        forall|i: int| 0 <= i < old(out)@.len() ==> final(out)@[i] == old(out)@[i],
        policy_fields(final(out)@[old(out)@.len() as int]) == (subject@, domain@, object@, action@, effect@),
{
    out.push(PolicyRule {
        subject: owned(subject),
        domain: owned(domain),
        object: owned(object),
        action: owned(action),
        effect: owned(effect),
    });
}

/// The policies a new access model is seeded with, in order.
pub fn default_policies() -> (r: Vec<PolicyRule>)
    ensures
        r@.map_values(|p: PolicyRule| policy_fields(p)) == default_policy_table(),
{
    let mut out: Vec<PolicyRule> = Vec::new();
    push_policy(&mut out, "platform-admin", "*", "*", ".*", "allow");
    push_policy(&mut out, "mesh-admin", "*", "cluster/*", ".*", "allow");
    push_policy(&mut out, "migration-operator", "*", "rollout/*", "approve|execute|read", "allow");
    push_policy(&mut out, "migration-operator", "*", "plan/*", "read|export", "allow");
    push_policy(&mut out, "operator", "*", "rollout/*", "approve|execute|read", "allow");
    push_policy(&mut out, "operator", "*", "plan/*", "read|export", "allow");
    push_policy(&mut out, "viewer", "*", "*", "read", "allow");
    push_policy(&mut out, "auditor", "*", "audit/*", "read", "allow");
    assert(out@.map_values(|p: PolicyRule| policy_fields(p)) =~= default_policy_table());
    out
}

/// Errors of the role-based access check.
#[derive(Debug)]
pub enum RbacError {
    Casbin(String),
}

/// Errors of the authentication service.
#[derive(Debug)]
pub enum AuthError {
    InvalidCredentials,
    Db(String),
    Token(String),
    Rbac(String),
}

impl AuthError {
    /// Text of the error.
    pub fn message(&self) -> (r: String)
        ensures
            r@ == match self {
                AuthError::InvalidCredentials => "invalid credentials"@,
                AuthError::Db(e) => "database error: "@ + e@,
                AuthError::Token(e) => "token error: "@ + e@,
                AuthError::Rbac(e) => "rbac error: "@ + e@,
            },
    {
        match self {
            AuthError::InvalidCredentials => owned("invalid credentials"),
            AuthError::Db(e) => {
                let mut s = owned("database error: ");
                s.append(e.as_str());
                s
            },
            AuthError::Token(e) => {
                let mut s = owned("token error: ");
                s.append(e.as_str());
                s
            },
            AuthError::Rbac(e) => {
                let mut s = owned("rbac error: ");
                s.append(e.as_str());
                s
            },
        }
    }
}

/// Build an object path for Casbin (`keyMatch` patterns).
/// Namespace is enforced via the Casbin domain argument, not duplicated in the path.
pub fn object_in_namespace(_namespace: &str, kind: &str, name: &str) -> (r: String)
    ensures
        r@ == kind@ + "/"@ + name@,
{
    let mut s = owned(kind);
    s.append("/");
    s.append(name);
    s
}

/// Object pattern of a kind, for policies.
pub fn object_pattern(kind: &str, pattern: &str) -> (r: String)
    ensures
        r@ == kind@ + "/"@ + pattern@,
{
    let mut s = owned(kind);
    s.append("/");
    s.append(pattern);
    s
}

/// Outcome of the role checks, in order: the first that fails or allows decides.
pub open spec fn roles_outcome(ds: Seq<Result<bool, String>>) -> Option<Result<bool, Seq<char>>>
    decreases ds.len(),
{
    if ds.len() == 0 {
        None
    } else {
        match ds[0] {
            Err(m) => Some(Err(m@)),
            Ok(true) => Some(Ok(true)),
            Ok(false) => roles_outcome(ds.subrange(1, ds.len() as int)),
        }
    }
}

/// The role checks decide only through a check that fails or allows: they leave the decision
/// to the user's own check exactly when every role check denies, whatever the number of roles;
/// otherwise the first check that does not deny decides, an allowing one with `Ok(true)` and a
/// failing one with its message.
pub proof fn law_roles_outcome(ds: Seq<Result<bool, String>>)
    ensures
        roles_outcome(ds) is None <==> (forall|i: int| 0 <= i < ds.len() ==> #[trigger] ds[i] == Ok::<bool, String>(false)),
        forall|k: int|
            0 <= k < ds.len() && #[trigger] ds[k] != Ok::<bool, String>(false)
                && (forall|j: int| 0 <= j < k ==> ds[j] == Ok::<bool, String>(false)) ==> roles_outcome(ds) == match ds[k] {
                Ok(b) => Some(Ok::<bool, Seq<char>>(b)),
                Err(m) => Some(Err::<bool, Seq<char>>(m@)),
            },
    decreases ds.len(),
{
    if ds.len() > 0 {
        let rest = ds.subrange(1, ds.len() as int);
        law_roles_outcome(rest);
        assert forall|i: int| 0 <= i < rest.len() implies rest[i] == ds[i + 1] by {}
        if roles_outcome(ds) is None {
            assert(ds[0] == Ok::<bool, String>(false));
            assert forall|i: int| 0 <= i < ds.len() implies #[trigger] ds[i] == Ok::<bool, String>(false) by {
                if i > 0 {
                    assert(rest[i - 1] == ds[i]);
                }
            }
        }
        if forall|i: int| 0 <= i < ds.len() ==> #[trigger] ds[i] == Ok::<bool, String>(false) {
            assert(ds[0] == Ok::<bool, String>(false));
            assert forall|i: int| 0 <= i < rest.len() implies #[trigger] rest[i] == Ok::<bool, String>(false) by {
                assert(ds[i + 1] == Ok::<bool, String>(false));
            }
        }
        assert forall|k: int|
            0 <= k < ds.len() && #[trigger] ds[k] != Ok::<bool, String>(false)
                && (forall|j: int| 0 <= j < k ==> ds[j] == Ok::<bool, String>(false)) implies roles_outcome(ds) == match ds[k] {
                Ok(b) => Some(Ok::<bool, Seq<char>>(b)),
                Err(m) => Some(Err::<bool, Seq<char>>(m@)),
            } by {
            if k > 0 {
                assert(ds[0] == Ok::<bool, String>(false));
                assert(rest[k - 1] == ds[k]);
                assert forall|j: int| 0 <= j < k - 1 implies rest[j] == Ok::<bool, String>(false) by {
                    assert(ds[j + 1] == Ok::<bool, String>(false));
                }
            }
        }
    }
}

/// Whether a user may act: the checks of the user's roles in order, then the check of the
/// user itself; the first check that fails or allows decides, and a failed check is an
/// RBAC error.
pub fn authorization(role_checks: &Vec<Result<bool, String>>, user_check: &Result<bool, String>) -> (r: Result<bool, AuthError>)
    ensures
        match roles_outcome(role_checks@) {
            Some(Ok(b)) => r == Ok::<bool, AuthError>(b),
            Some(Err(m)) => r matches Err(AuthError::Rbac(t)) && t@ == m,
            None => match user_check {
                Ok(b) => r == Ok::<bool, AuthError>(*b),
                Err(m) => r matches Err(AuthError::Rbac(t)) && t@ == m@,
            },
        },
        (forall|i: int| 0 <= i < role_checks@.len() ==> #[trigger] role_checks@[i] == Ok::<bool, String>(false)) ==> match user_check {
            Ok(b) => r == Ok::<bool, AuthError>(*b),
            Err(m) => r matches Err(AuthError::Rbac(t)) && t@ == m@,
        },
{
    let mut i: usize = 0;
    proof {
        law_roles_outcome(role_checks@);
        assert(role_checks@.subrange(0, role_checks@.len() as int) =~= role_checks@);
    }
    while i < role_checks.len()
        invariant
            i <= role_checks@.len(),
            roles_outcome(role_checks@) == roles_outcome(role_checks@.subrange(i as int, role_checks@.len() as int)),
        decreases role_checks@.len() - i,
    {
        let ghost rest = role_checks@.subrange(i as int, role_checks@.len() as int);
        proof {
            assert(rest[0] == role_checks@[i as int]);
            assert(rest.subrange(1, rest.len() as int) =~= role_checks@.subrange(i + 1, role_checks@.len() as int));
        }
        match &role_checks[i] {
            Err(m) => return Err(AuthError::Rbac(m.clone())),
            Ok(true) => return Ok(true),
            Ok(false) => {},
        }
        i += 1;
    }
    proof {
        assert(role_checks@.subrange(i as int, role_checks@.len() as int) =~= Seq::<Result<bool, String>>::empty());
    }
    match user_check {
        Ok(b) => Ok(*b),
        Err(m) => Err(AuthError::Rbac(m.clone())),
    }
}

} // verus!
