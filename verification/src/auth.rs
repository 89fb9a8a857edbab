use vstd::prelude::*;

use crate::text::{chars_of, concat_strs, lower, opt_string_view, owned, trim, trim_string};

verus! {

/// Why an auth-session operation failed.
pub enum AuthSessionError {
    MissingConfig(String),
    NotSignedIn,
    Network(String),
    Firebase(String),
    Io(String),
    Crypto(String),
    Serde(String),
}

/// The message shown for an error.
pub open spec fn error_message(e: AuthSessionError) -> Seq<char> {
    match e {
        AuthSessionError::MissingConfig(k) => "missing firebase configuration: "@ + k@,
        AuthSessionError::NotSignedIn => "not signed in"@,
        AuthSessionError::Network(m) => "network error: "@ + m@,
        AuthSessionError::Firebase(m) => "firebase error: "@ + m@,
        AuthSessionError::Io(m) => "io error: "@ + m@,
        AuthSessionError::Crypto(m) => "crypto error: "@ + m@,
        AuthSessionError::Serde(m) => "serde error: "@ + m@,
    }
}

impl AuthSessionError {
    /// The message shown to the user.
    pub fn to_user_string(&self) -> (r: String)
        ensures
            r@ == error_message(*self),
    {
        match self {
            AuthSessionError::MissingConfig(k) => concat_strs("missing firebase configuration: ", k.as_str()),
            AuthSessionError::NotSignedIn => owned("not signed in"),
            AuthSessionError::Network(m) => concat_strs("network error: ", m.as_str()),
            AuthSessionError::Firebase(m) => concat_strs("firebase error: ", m.as_str()),
            AuthSessionError::Io(m) => concat_strs("io error: ", m.as_str()),
            AuthSessionError::Crypto(m) => concat_strs("crypto error: ", m.as_str()),
            AuthSessionError::Serde(m) => concat_strs("serde error: ", m.as_str()),
        }
    }
}

/// A flavor setting: the compile-time value when it is set and not blank, otherwise the
/// runtime environment value when that is set and not blank; trimmed either way.
pub open spec fn flavor_value(compile_time: Option<Seq<char>>, runtime: Option<Seq<char>>) -> Option<Seq<char>> {
    match compile_time {
        Some(c) if trim(c).len() > 0 => Some(trim(c)),
        _ => match runtime {
            Some(r) if trim(r).len() > 0 => Some(trim(r)),
            _ => None,
        },
    }
}

pub open spec fn opt_str(o: Option<&str>) -> Option<Seq<char>> {
    match o {
        Some(s) => Some(s@),
        None => None,
    }
}

fn nonblank_trimmed(s: &str) -> (r: Option<String>)
    ensures
        opt_string_view(r) == (if trim(s@).len() > 0 { Some(trim(s@)) } else { None }),
{
    let t = trim_string(s);
    if t.as_str().unicode_len() > 0 {
        Some(t)
    } else {
        None
    }
}

/// The value of a flavor setting, from its compile-time and runtime values.
pub fn read_flavor_value(compile_time: Option<&str>, runtime: Option<&str>) -> (r: Option<String>)
    ensures
        opt_string_view(r) == flavor_value(opt_str(compile_time), opt_str(runtime)),
{
    if let Some(c) = compile_time {
        if let Some(v) = nonblank_trimmed(c) {
            return Some(v);
        }
    }
    match runtime {
        Some(r) => nonblank_trimmed(r),
        None => None,
    }
}

/// The Firebase project the session talks to.
pub struct FirebaseConfig {
    pub api_key: String,
    pub project_id: String,
    pub use_emulators: bool,
}

/// The flavor settings as read: `VITE_FIREBASE_API_KEY`, `VITE_FIREBASE_PROJECT_ID`,
/// `VITE_FLAVOR` and `VITE_USE_EMULATORS`.
pub struct FlavorSettings {
    pub api_key: Option<String>,
    pub project_id: Option<String>,
    pub flavor: Option<String>,
    pub use_emulators: Option<String>,
}

/// `s` equals `t` ignoring ASCII case.
pub open spec fn eq_ignore_ascii_case(s: Seq<char>, t: Seq<char>) -> bool {
    lower(s) == lower(t)
}

/// Emulators are used with the `emulators` flavor, or with the `dev` flavor (the default)
/// when `VITE_USE_EMULATORS` is `true` in any case.
pub open spec fn uses_emulators(flavor: Option<Seq<char>>, flag: Option<Seq<char>>) -> bool {
    let f = match flavor {
        Some(f) => f,
        None => "dev"@,
    };
    let on = match flag {
        Some(v) => eq_ignore_ascii_case(trim(v), "true"@),
        None => false,
    };
    f == "emulators"@ || (f == "dev"@ && on)
}

pub open spec fn config_result(s: FlavorSettings) -> Result<(Seq<char>, Seq<char>, bool), Seq<char>> {
    match (s.api_key, s.project_id) {
        (None, _) => Err("VITE_FIREBASE_API_KEY"@),
        (Some(_), None) => Err("VITE_FIREBASE_PROJECT_ID"@),
        (Some(k), Some(p)) => Ok((k@, p@, uses_emulators(opt_string_view(s.flavor), opt_string_view(s.use_emulators)))),
    }
}

fn str_equal(a: &str, b: &str) -> (r: bool)
    ensures
        r == (a@ == b@),
{
    let x = chars_of(a);
    let y = chars_of(b);
    crate::text::chars_equal(x.as_slice(), y.as_slice())
}

impl FirebaseConfig {
    /// The configuration from the flavor settings; a missing API key or project id is an
    /// error naming the setting.
    pub fn from_env(settings: FlavorSettings) -> (r: Result<FirebaseConfig, AuthSessionError>)
        ensures
            match r {
                Ok(c) => config_result(settings) == Ok::<(Seq<char>, Seq<char>, bool), Seq<char>>(
                    (c.api_key@, c.project_id@, c.use_emulators),
                ),
                Err(AuthSessionError::MissingConfig(k)) => config_result(settings) == Err::<
                    (Seq<char>, Seq<char>, bool),
                    Seq<char>,
                >(k@),
                Err(_) => false,
            },
    {
        let ghost s0 = settings;
        let FlavorSettings { api_key, project_id, flavor, use_emulators } = settings;
        let api_key = match api_key {
            Some(k) => k,
            None => return Err(AuthSessionError::MissingConfig(owned("VITE_FIREBASE_API_KEY"))),
        };
        let project_id = match project_id {
            Some(p) => p,
            None => return Err(AuthSessionError::MissingConfig(owned("VITE_FIREBASE_PROJECT_ID"))),
        };
        let flavor = match flavor {
            Some(f) => f,
            None => owned("dev"),
        };
        let flag_on = match &use_emulators {
            Some(v) => {
                let t = trim_string(v.as_str());
                let lt = crate::text::lowercase_string(t.as_str());
                let tr = crate::text::lowercase_string("true");
                proof {
                    reveal_strlit("true");
                    assert(lower("true"@) =~= "true"@);
                }
                str_equal(lt.as_str(), tr.as_str())
            },
            None => false,
        };
        let use_em = str_equal(flavor.as_str(), "emulators") || (str_equal(flavor.as_str(), "dev") && flag_on);
        Ok(FirebaseConfig { api_key, project_id, use_emulators: use_em })
    }

    /// The Identity Toolkit endpoint.
    pub fn identity_toolkit_base(&self) -> (r: String)
        ensures
            r@ == (if self.use_emulators {
                "http://localhost:9099/identitytoolkit.googleapis.com/v1"@
            } else {
                "https://identitytoolkit.googleapis.com/v1"@
            }),
    {
        if self.use_emulators {
            owned("http://localhost:9099/identitytoolkit.googleapis.com/v1")
        } else {
            owned("https://identitytoolkit.googleapis.com/v1")
        }
    }

    /// The Secure Token endpoint.
    pub fn secure_token_base(&self) -> (r: String)
        ensures
            r@ == (if self.use_emulators {
                "http://localhost:9099/securetoken.googleapis.com/v1"@
            } else {
                "https://securetoken.googleapis.com/v1"@
            }),
    {
        if self.use_emulators {
            owned("http://localhost:9099/securetoken.googleapis.com/v1")
        } else {
            owned("https://securetoken.googleapis.com/v1")
        }
    }

    /// The Cloud Functions handler of the project.
    pub fn functions_handler_url(&self) -> (r: String)
        ensures
            r@ == (if self.use_emulators {
                "http://localhost:5001/"@ + self.project_id@ + "/us-central1/handler"@
            } else {
                "https://us-central1-"@ + self.project_id@ + ".cloudfunctions.net/handler"@
            }),
    {
        if self.use_emulators {
            let a = concat_strs("http://localhost:5001/", self.project_id.as_str());
            concat_strs(a.as_str(), "/us-central1/handler")
        } else {
            let a = concat_strs("https://us-central1-", self.project_id.as_str());
            concat_strs(a.as_str(), ".cloudfunctions.net/handler")
        }
    }

    /// The token refresh endpoint, keyed with the API key.
    pub fn refresh_url(&self) -> (r: String)
        ensures
            r@ == (if self.use_emulators {
                "http://localhost:9099/securetoken.googleapis.com/v1"@
            } else {
                "https://securetoken.googleapis.com/v1"@
            }) + "/token?key="@ + self.api_key@,
    {
        let base = self.secure_token_base();
        let a = concat_strs(base.as_str(), "/token?key=");
        concat_strs(a.as_str(), self.api_key.as_str())
    }

    /// The custom-token sign-in endpoint, keyed with the API key.
    pub fn sign_in_url(&self) -> (r: String)
        ensures
            r@ == (if self.use_emulators {
                "http://localhost:9099/identitytoolkit.googleapis.com/v1"@
            } else {
                "https://identitytoolkit.googleapis.com/v1"@
            }) + "/accounts:signInWithCustomToken?key="@ + self.api_key@,
    {
        let base = self.identity_toolkit_base();
        let a = concat_strs(base.as_str(), "/accounts:signInWithCustomToken?key=");
        concat_strs(a.as_str(), self.api_key.as_str())
    }
}


pub open spec fn is_digit(c: char) -> bool {
    '0' <= c <= '9'
}

pub open spec fn digits_value(ds: Seq<char>) -> nat
    decreases ds.len(),
{
    if ds.len() == 0 {
        0
    } else {
        digits_value(ds.drop_last()) * 10 + ((ds.last() as u32) - ('0' as u32)) as nat
    }
}

/// What `str::parse::<i64>` gives: an optional `+` or `-`, then one or more ASCII digits
/// whose value fits `i64`.
pub open spec fn all_digits(ds: Seq<char>) -> bool {
    forall|i: int| 0 <= i < ds.len() ==> is_digit(#[trigger] ds[i])
}

/// `s` without its leading sign, if any.
pub open spec fn unsigned_part(s: Seq<char>) -> Seq<char> {
    if s.len() > 0 && (s[0] == '-' || s[0] == '+') {
        s.drop_first()
    } else {
        s
    }
}

pub open spec fn parse_i64(s: Seq<char>) -> Option<i64> {
    let neg = s.len() > 0 && s[0] == '-';
    let ds = unsigned_part(s);
    if ds.len() == 0 || !all_digits(ds) {
        None
    } else if neg {
        if digits_value(ds) <= 9223372036854775808 {
            Some((0 - digits_value(ds)) as i64)
        } else {
            None
        }
    } else if digits_value(ds) <= 9223372036854775807 {
        Some(digits_value(ds) as i64)
    } else {
        None
    }
}

proof fn lemma_digits_value_monotone(ds: Seq<char>, i: int, j: int)
    requires
        0 <= i <= j <= ds.len(),
    ensures
        digits_value(ds.take(i)) <= digits_value(ds.take(j)),
    decreases j - i,
{
    if i < j {
        lemma_digits_value_monotone(ds, i, j - 1);
        assert(ds.take(j).drop_last() =~= ds.take(j - 1));
    }
}

/// `s` parsed as an `i64`, as `str::parse::<i64>` does it.
pub fn parse_i64_decimal(s: &str) -> (r: Option<i64>)
    ensures
        r == parse_i64(s@),
{
    let v = chars_of(s);
    let n = v.len();
    let signed = n > 0 && (v[0] == '-' || v[0] == '+');
    let neg = n > 0 && v[0] == '-';
    let start: usize = if signed {
        1
    } else {
        0
    };
    let ghost ds = unsigned_part(s@);
    assert(ds =~= v@.skip(start as int));
    if start == n {
        return None;
    }
    let mut i: usize = start;
    while i < n
        invariant
            v@ == s@,
            n == v@.len(),
            start <= i <= n,
            ds == unsigned_part(s@),
            ds == v@.skip(start as int),
            forall|k: int| 0 <= k < i - start ==> is_digit(#[trigger] ds[k]),
        decreases n - i,
    {
        if !('0' <= v[i] && v[i] <= '9') {
            assert(ds[i - start] == v@[i as int]);
            assert(!is_digit(ds[i - start]));
            assert(!(forall|t: int| 0 <= t < ds.len() ==> is_digit(#[trigger] ds[t])));
            return None;
        }
        i += 1;
    }
    let mut acc: u128 = 0;
    let mut k: usize = start;
    while k < n
        invariant
            v@ == s@,
            n == v@.len(),
            start <= k <= n,
            ds == unsigned_part(s@),
            neg == (s@.len() > 0 && s@[0] == '-'),
            ds == v@.skip(start as int),
            ds.len() == n - start,
            forall|t: int| 0 <= t < ds.len() ==> is_digit(#[trigger] ds[t]),
            acc == digits_value(ds.take(k - start)),
            acc <= 9223372036854775808,
        decreases n - k,
    {
        proof {
            assert(ds.take(k - start + 1).drop_last() =~= ds.take(k - start));
            assert(ds[k - start] == v@[k as int]);
            assert(is_digit(ds[k - start]));
        }
        let d = (v[k] as u32) - ('0' as u32);
        acc = acc * 10 + (d as u128);
        if acc > 9223372036854775808 {
            proof {
                lemma_digits_value_monotone(ds, k - start + 1, ds.len() as int);
                assert(ds.take(ds.len() as int) =~= ds);
                assert(digits_value(ds) > 9223372036854775808);
            }
            return None;
        }
        k += 1;
    }
    assert(ds.take(ds.len() as int) =~= ds);
    if neg {
        if acc == 9223372036854775808 {
            Some(i64::MIN)
        } else {
            Some(0 - (acc as i64))
        }
    } else if acc <= 9223372036854775807 {
        Some(acc as i64)
    } else {
        None
    }
}

/// The lifetime, in seconds, of an issued token: the `expiresIn` value, or an hour when
/// it does not parse.
pub open spec fn expires_in_seconds(raw: Seq<char>) -> int {
    match parse_i64(raw) {
        Some(v) => v as int,
        None => 3600,
    }
}

/// The token lifetime from the `expiresIn` field.
pub fn parse_expires_in(raw: &str) -> (r: i64)
    ensures
        r == expires_in_seconds(raw@),
{
    match parse_i64_decimal(raw) {
        Some(v) => v,
        None => 3600,
    }
}

/// An id token kept in memory, with the Unix time it expires at.
pub struct IdTokenCache {
    pub id_token: String,
    pub expires_at_unix: i64,
}

/// How long before its expiry an id token is refreshed anyway, in seconds.
pub const ID_TOKEN_SKEW_SECONDS: i64 = 30;

/// The tokens a session holds.
pub struct SessionTokens {
    pub refresh_token: Option<String>,
    pub id_token: Option<IdTokenCache>,
}

pub struct TokensView {
    pub refresh_token: Option<Seq<char>>,
    pub id_token: Option<(Seq<char>, int)>,
}

impl View for SessionTokens {
    type V = TokensView;

    open spec fn view(&self) -> TokensView {
        TokensView {
            refresh_token: opt_string_view(self.refresh_token),
            id_token: match self.id_token {
                Some(c) => Some((c.id_token@, c.expires_at_unix as int)),
                None => None,
            },
        }
    }
}

/// The cached id token when it is more than the skew away from expiry at `now`.
pub open spec fn fresh_id_token(t: TokensView, now: int) -> Option<Seq<char>> {
    match t.id_token {
        Some(c) => if c.1 - ID_TOKEN_SKEW_SECONDS > now { Some(c.0) } else { None },
        None => None,
    }
}

/// The expiry of a token issued at `now` with the raw `expiresIn` value.
pub open spec fn expiry_at(now: int, expires_in: Seq<char>) -> int {
    now + expires_in_seconds(expires_in)
}

pub open spec fn fits_i64(x: int) -> bool {
    i64::MIN <= x <= i64::MAX
}

/// The state after a successful refresh: the returned refresh token (or the old one when
/// none came back) and the new id token.
pub open spec fn refreshed(t: TokensView, current: Seq<char>, id_token: Seq<char>, new_refresh: Option<Seq<char>>, expires_at: int) -> TokensView {
    TokensView {
        refresh_token: Some(
            match new_refresh {
                Some(r) => r,
                None => current,
            },
        ),
        id_token: Some((id_token, expires_at)),
    }
}

impl SessionTokens {
    /// A session holding no token.
    pub fn signed_out() -> (r: SessionTokens)
        ensures
            r@.refresh_token is None,
            r@.id_token is None,
    {
        SessionTokens { refresh_token: None, id_token: None }
    }

    /// Drop both tokens.
    pub fn clear(&mut self)
        ensures
            final(self)@.refresh_token is None,
            final(self)@.id_token is None,
    {
        self.refresh_token = None;
        self.id_token = None;
    }

    /// What a sign-in check does first: with no refresh token the user is signed out, and
    /// the check makes no request and leaves the session as it is; otherwise it refreshes
    /// the id token to find out.
    pub fn signed_in_check(&self) -> (r: SignedInCheck)
        ensures
            r == (if self.refresh_token is None { SignedInCheck::NoSession } else { SignedInCheck::Refresh }),
    {
        match &self.refresh_token {
            None => SignedInCheck::NoSession,
            Some(_) => SignedInCheck::Refresh,
        }
    }

    /// The cached id token, when it is still fresh at `now`.
    pub fn cached_id_token(&self, now: i64) -> (r: Option<String>)
        ensures
            opt_string_view(r) == fresh_id_token(self@, now as int),
    {
        match &self.id_token {
            Some(c) => {
                if (c.expires_at_unix as i128) - (ID_TOKEN_SKEW_SECONDS as i128) > (now as i128) {
                    Some(c.id_token.clone())
                } else {
                    None
                }
            },
            None => None,
        }
    }

    /// The refresh token to send, or `NotSignedIn`.
    pub fn refresh_token_for_request(&self) -> (r: Result<String, AuthSessionError>)
        ensures
            match r {
                Ok(t) => self@.refresh_token == Some(t@),
                Err(AuthSessionError::NotSignedIn) => self@.refresh_token is None,
                Err(_) => false,
            },
    {
        match &self.refresh_token {
            Some(t) => Ok(t.clone()),
            None => Err(AuthSessionError::NotSignedIn),
        }
    }

    /// Record a sign-in at `now`: the returned refresh token and the id token, expiring
    /// `expires_in` seconds after `now`.
    pub fn record_sign_in(&mut self, refresh_token: String, id_token: String, expires_in: &str, now: i64)
        requires
            fits_i64(expiry_at(now as int, expires_in@)),
        ensures
            final(self)@ == (TokensView {
                refresh_token: Some(refresh_token@),
                id_token: Some((id_token@, expiry_at(now as int, expires_in@))),
            }),
    {
        let secs = parse_expires_in(expires_in);
        self.refresh_token = Some(refresh_token);
        self.id_token = Some(IdTokenCache { id_token, expires_at_unix: now + secs });
    }

    /// The refresh token to persist after a refresh that returned `new_refresh`: the
    /// resulting refresh token, when it differs from the one held.
    pub fn refresh_token_to_persist(&self, current: &str, new_refresh: &Option<String>) -> (r: Option<String>)
        ensures
            ({
                let next = match opt_string_view(*new_refresh) {
                    Some(n) => n,
                    None => current@,
                };
                opt_string_view(r) == (if self@.refresh_token == Some(next) { None } else { Some(next) })
            }),
    {
        let next = match new_refresh {
            Some(n) => n.clone(),
            None => owned(current),
        };
        let same = match &self.refresh_token {
            Some(t) => str_equal(t.as_str(), next.as_str()),
            None => false,
        };
        if same {
            None
        } else {
            Some(next)
        }
    }

    /// Record a successful refresh at `now`, made with the refresh token `current`.
    pub fn record_refresh(
        &mut self,
        current: &str,
        id_token: String,
        new_refresh: Option<String>,
        expires_in: &str,
        now: i64,
    )
        requires
            fits_i64(expiry_at(now as int, expires_in@)),
        ensures
            final(self)@ == refreshed(
                old(self)@,
                current@,
                id_token@,
                opt_string_view(new_refresh),
                expiry_at(now as int, expires_in@),
            ),
    {
        let secs = parse_expires_in(expires_in);
        let next = match new_refresh {
            Some(n) => n,
            None => owned(current),
        };
        self.refresh_token = Some(next);
        self.id_token = Some(IdTokenCache { id_token, expires_at_unix: now + secs });
    }
}

/// A token obtained at `now` that lives longer than the skew is fresh at `now`.
pub proof fn lemma_new_token_is_fresh(now: int, id_token: Seq<char>, refresh_token: Seq<char>, expires_in: Seq<char>)
    requires
        expires_in_seconds(expires_in) > ID_TOKEN_SKEW_SECONDS,
    ensures
        fresh_id_token(
            TokensView {
                refresh_token: Some(refresh_token),
                id_token: Some((id_token, expiry_at(now, expires_in))),
            },
            now,
        ) == Some(id_token),
{
}

/// A cleared session has no fresh id token at any time, and no refresh token to send.
pub proof fn lemma_cleared_is_signed_out(t: TokensView, now: int)
    requires
        t.refresh_token is None,
        t.id_token is None,
    ensures
        fresh_id_token(t, now) is None,
{
}


/// `"<what> (<status>): <body>"`, the message of a failed request.
pub open spec fn failure_detail(what: Seq<char>, status: Seq<char>, body: Seq<char>) -> Seq<char> {
    what + " ("@ + status + "): "@ + body
}

fn failure_text(what: &str, status: &str, body: &str) -> (r: String)
    ensures
        r@ == failure_detail(what@, status@, body@),
{
    let a = concat_strs(what, " (");
    let b = concat_strs(a.as_str(), status);
    let c = concat_strs(b.as_str(), "): ");
    concat_strs(c.as_str(), body)
}

/// A refresh the server refused (400, 401, 403) means the session is gone; any other failed
/// status is a network error.
pub open spec fn refresh_failure(code: u16, status: Seq<char>, body: Seq<char>) -> (bool, Seq<char>) {
    if code == 400 || code == 401 || code == 403 {
        (true, failure_detail("refresh rejected"@, status, body))
    } else {
        (false, failure_detail("refresh failed"@, status, body))
    }
}

/// The error of a failed refresh, from the status code, the status as displayed, and the
/// response body.
pub fn classify_refresh_failure(code: u16, status: &str, body: &str) -> (r: AuthSessionError)
    ensures
        match r {
            AuthSessionError::Firebase(m) => refresh_failure(code, status@, body@) == (true, m@),
            AuthSessionError::Network(m) => refresh_failure(code, status@, body@) == (false, m@),
            _ => false,
        },
{
    if code == 400 || code == 401 || code == 403 {
        AuthSessionError::Firebase(failure_text("refresh rejected", status, body))
    } else {
        AuthSessionError::Network(failure_text("refresh failed", status, body))
    }
}

/// The error of a failed custom-token sign-in.
pub fn sign_in_failure(status: &str, body: &str) -> (r: AuthSessionError)
    ensures
        match r {
            AuthSessionError::Firebase(m) => m@ == failure_detail("signInWithCustomToken failed"@, status@, body@),
            _ => false,
        },
{
    AuthSessionError::Firebase(failure_text("signInWithCustomToken failed", status, body))
}

/// The error of a failed custom-token mint.
pub fn mint_failure(status: &str, body: &str) -> (r: AuthSessionError)
    ensures
        match r {
            AuthSessionError::Firebase(m) => m@ == failure_detail("mintCustomToken failed"@, status@, body@),
            _ => false,
        },
{
    AuthSessionError::Firebase(failure_text("mintCustomToken failed", status, body))
}

/// The first step of a sign-in check.
#[derive(Debug, Clone, Copy, PartialEq, Eq, Structural)]
pub enum SignedInCheck {
    /// There is no session: signed out, with no request made and nothing cleared.
    NoSession,
    /// There is a session: refresh its id token, then decide from the outcome.
    Refresh,
}

/// What a sign-in check concludes from the attempt to refresh the id token.
pub enum SignedInDecision {
    /// The refresh worked: signed in.
    SignedIn,
    /// The session is gone: clear it and report signed out.
    ClearAndSignOut,
    /// Any other failure is reported.
    Fail(AuthSessionError),
}

/// The conclusion of a sign-in check that refreshed the id token: signed in when the
/// refresh worked; signed out, with the session cleared, when the refresh found no session
/// or Firebase refused it; the error otherwise.
pub fn signed_in_decision(refresh: Result<(), AuthSessionError>) -> (r: SignedInDecision)
    ensures
        match refresh {
            Ok(()) => r is SignedIn,
            Err(AuthSessionError::NotSignedIn) => r is ClearAndSignOut,
            Err(AuthSessionError::Firebase(_)) => r is ClearAndSignOut,
            Err(e) => r == SignedInDecision::Fail(e),
        },
{
    match refresh {
        Ok(()) => SignedInDecision::SignedIn,
        Err(AuthSessionError::NotSignedIn) => SignedInDecision::ClearAndSignOut,
        Err(AuthSessionError::Firebase(_)) => SignedInDecision::ClearAndSignOut,
        Err(e) => SignedInDecision::Fail(e),
    }
}

/// What `url::Url::parse` gives for an input: the serialization of the parsed URL, or the
/// message of the parse error.
pub uninterp spec fn url_parse_outcome(input: Seq<char>) -> Result<Seq<char>, Seq<char>>;

/// A bundled page URL parses to itself.
pub open spec fn bundled_page_parses(input: Seq<char>, r: Result<String, String>) -> bool {
    (input == "http://tauri.localhost/index.html"@ || input == "tauri://localhost/index.html"@) ==> (r matches Ok(u)
        && u@ == input)
}

/// `url::Url::parse`, with the URL as its serialization and the error as its message.
/// The contract names the outcome. Of URL syntax it states only that the two bundled page
/// URLs, which are already in serialized form, parse and serialize to themselves.
#[verifier::external_body]
fn parse_url(input: &str) -> (r: Result<String, String>)
    ensures
        match r {
            Ok(u) => url_parse_outcome(input@) == Ok::<Seq<char>, Seq<char>>(u@),
            Err(e) => url_parse_outcome(input@) == Err::<Seq<char>, Seq<char>>(e@),
        },
        bundled_page_parses(input@, r),
{
    match url::Url::parse(input) {
        Ok(u) => Ok(u.to_string()),
        Err(e) => Err(e.to_string()),
    }
}

/// The page the main window returns to: the development server's URL when one is set,
/// otherwise the bundled index page (`http://tauri.localhost/index.html` on Windows,
/// `tauri://localhost/index.html` elsewhere) as `url` parses it.
pub fn built_in_url(dev_url: Option<String>, is_windows: bool) -> (r: Result<String, String>)
    ensures
        match dev_url {
            Some(u) => r == Ok::<String, String>(u),
            None => match r {
                Ok(u) => url_parse_outcome(
                    if is_windows {
                        "http://tauri.localhost/index.html"@
                    } else {
                        "tauri://localhost/index.html"@
                    },
                ) == Ok::<Seq<char>, Seq<char>>(u@),
                Err(e) => url_parse_outcome(
                    if is_windows {
                        "http://tauri.localhost/index.html"@
                    } else {
                        "tauri://localhost/index.html"@
                    },
                ) == Err::<Seq<char>, Seq<char>>(e@),
            },
        },
        dev_url is None ==> (r matches Ok(u) && u@ == (if is_windows {
            "http://tauri.localhost/index.html"@
        } else {
            "tauri://localhost/index.html"@
        })),
{
    if let Some(u) = dev_url {
        return Ok(u);
    }
    let fallback = if is_windows {
        "http://tauri.localhost/index.html"
    } else {
        "tauri://localhost/index.html"
    };
    parse_url(fallback)
}

/// The JSON escape of one character, as `serde_json` writes it inside a string.
pub open spec fn json_escape(c: char) -> Seq<char> {
    if c == '"' {
        seq!['\\', '"']
    } else if c == '\\' {
        seq!['\\', '\\']
    } else if c == '\u{8}' {
        seq!['\\', 'b']
    } else if c == '\t' {
        seq!['\\', 't']
    } else if c == '\n' {
        seq!['\\', 'n']
    } else if c == '\u{c}' {
        seq!['\\', 'f']
    } else if c == '\r' {
        seq!['\\', 'r']
    } else if (c as u32) < 0x20 {
        seq!['\\', 'u', '0', '0', hex_digit((c as u32) / 16), hex_digit((c as u32) % 16)]
    } else {
        seq![c]
    }
}

pub open spec fn hex_digit(d: u32) -> char {
    if d < 10 {
        ((('0' as u32) + d) as char)
    } else {
        ((('a' as u32) + d - 10) as char)
    }
}

/// The escapes of all characters of `s`, in order.
pub open spec fn json_escaped(s: Seq<char>) -> Seq<char>
    decreases s.len(),
{
    if s.len() == 0 {
        Seq::empty()
    } else {
        json_escaped(s.drop_last()) + json_escape(s.last())
    }
}

/// `s` as a JSON string literal.
pub open spec fn json_string(s: Seq<char>) -> Seq<char> {
    seq!['"'] + json_escaped(s) + seq!['"']
}

/// `serde_json::to_string` of a string: the string quoted, with `"`, `\` and control
/// characters escaped (the short escapes where JSON has them, `\u00xx` otherwise).
#[verifier::external_body]
fn json_string_literal(s: &String) -> (r: String)
    ensures
        r@ == json_string(s@),
{
    serde_json::to_string(s).unwrap_or_default()
}

/// The script that sends the main webview to `url`.
pub fn navigation_script(url: &String) -> (r: String)
    ensures
        r@ == "window.location.replace("@ + json_string(url@) + ");"@,
{
    let quoted = json_string_literal(url);
    let a = concat_strs("window.location.replace(", quoted.as_str());
    concat_strs(a.as_str(), ");")
}

} // verus!
