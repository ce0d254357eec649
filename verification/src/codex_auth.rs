//! Sign-in state for the batch transcription service: a JWT access token
//! with its account, expiry checks, token refresh and request headers.
use vstd::prelude::*;
use base64::Engine;
use crate::cloud_stt::opt_chars;
use crate::json::{
    json_as_str, json_as_u64, json_from_slice, json_get, json_has_member, json_parse, json_root,
    json_subtree, json_tree, JsonNode, JsonPath,
};
use crate::text::{
    chars_of, lemma_trim_end_char_prefix, str_eq, string_from_chars, to_lowercase, trim_end_char,
    trim_end_char_str, unicode_lowercase,
};

verus! {

broadcast use vstd::string::group_string_axioms;

/// `s` cut at every `c` (`str::split` with a char): the pieces between the
/// separators, from the left, including empty ones.
pub open spec fn split_on(s: Seq<char>, c: char) -> Seq<Seq<char>>
    decreases s.len(),
{
    if s.len() == 0 {
        seq![Seq::<char>::empty()]
    } else {
        let rest = split_on(s.drop_first(), c);
        if s[0] == c {
            seq![Seq::<char>::empty()] + rest
        } else {
            rest.update(0, seq![s[0]] + rest[0])
        }
    }
}

proof fn lemma_split_nonempty(s: Seq<char>, c: char)
    ensures
        split_on(s, c).len() >= 1,
    decreases s.len(),
{
    if s.len() > 0 {
        lemma_split_nonempty(s.drop_first(), c);
    }
}

proof fn lemma_split_plain(a: Seq<char>, b: Seq<char>, c: char)
    requires
        forall|i: int| 0 <= i < a.len() ==> a[i] != c,
    ensures
        split_on(a + b, c) == split_on(b, c).update(0, a + split_on(b, c)[0]),
        split_on(a + b, c).len() == split_on(b, c).len(),
    decreases a.len(),
{
    lemma_split_nonempty(b, c);
    if a.len() == 0 {
        assert(a + b =~= b);
        assert(split_on(b, c).update(0, a + split_on(b, c)[0]) =~= split_on(b, c));
    } else {
        let s = a + b;
        assert(s.drop_first() =~= a.drop_first() + b);
        lemma_split_plain(a.drop_first(), b, c);
        assert(s[0] == a[0]);
        let rest = split_on(b, c);
        assert(seq![a[0]] + (a.drop_first() + rest[0]) =~= a + rest[0]);
        assert(split_on(s, c) =~= rest.update(0, a + rest[0]));
    }
}

proof fn lemma_split_at_separator(b: Seq<char>, c: char)
    ensures
        split_on(seq![c] + b, c) == seq![Seq::<char>::empty()] + split_on(b, c),
{
    assert((seq![c] + b).drop_first() =~= b);
}

/// The claim of a token that holds the account data.
pub open spec fn auth_claim_key() -> Seq<char> {
    "https://api.openai.com/auth"@
}

/// What the URL-safe, unpadded base64 engine's `decode` yields on `input`:
/// `None` where it reports an error.
pub uninterp spec fn base64_url_decode(input: Seq<u8>) -> Option<Seq<u8>>;

/// `base64::engine::general_purpose::URL_SAFE_NO_PAD.decode`.
/// Claimed: the result is the named decoding of `input`.
#[verifier::external_body]
fn base64_url_no_pad_decode(input: &[u8]) -> (r: Option<Vec<u8>>)
    ensures
        match r {
            Some(v) => base64_url_decode(input@) == Some(v@),
            None => base64_url_decode(input@) is None,
        },
{
    base64::engine::general_purpose::URL_SAFE_NO_PAD.decode(input).ok()
}

/// The payload segment of a token: the text between its first and second dot
/// (or its end); `None` when the token has no dot.
pub open spec fn jwt_payload(token: Seq<char>) -> Option<Seq<char>> {
    let parts = split_on(token, '.');
    if parts.len() < 2 {
        None
    } else {
        Some(parts[1])
    }
}

/// The claims of a token: its payload segment without trailing `=`, decoded
/// as URL-safe base64 and parsed as JSON. The signature is not checked.
pub open spec fn jwt_claims(token: Seq<char>) -> Option<Map<JsonPath, JsonNode>> {
    match jwt_payload(token) {
        None => None,
        Some(p) => match base64_url_decode(vstd::utf8::encode_utf8(trim_end_char(p, '='))) {
            None => None,
            Some(bytes) => json_parse(bytes),
        },
    }
}

/// The account id among the claims: the string at
/// `["https://api.openai.com/auth"]["chatgpt_account_id"]`.
pub open spec fn claims_account_id(t: Map<JsonPath, JsonNode>) -> Option<Seq<char>> {
    if json_has_member(t, auth_claim_key()) {
        let auth = json_subtree(t, auth_claim_key());
        if json_has_member(auth, "chatgpt_account_id"@) {
            match json_root(json_subtree(auth, "chatgpt_account_id"@)) {
                Some(JsonNode::Str(s)) => Some(s),
                _ => None,
            }
        } else {
            None
        }
    } else {
        None
    }
}

/// The account id of a token, if its claims carry one.
pub open spec fn jwt_account_id(token: Seq<char>) -> Option<Seq<char>> {
    match jwt_claims(token) {
        Some(t) => claims_account_id(t),
        None => None,
    }
}

/// The claims of a token depend on its payload segment alone: whatever header
/// stands before the first dot, however many `=` pad the payload, and whatever
/// follows it from a second dot on, a payload `p` gives the claims that the
/// decoding of `p` parses to.
pub proof fn law_jwt_claims_from_payload(
    header: Seq<char>,
    p: Seq<char>,
    padding: nat,
    rest: Seq<char>,
)
    requires
        forall|i: int| 0 <= i < header.len() ==> header[i] != '.',
        forall|i: int| 0 <= i < p.len() ==> p[i] != '.',
        p.len() == 0 || p.last() != '=',
        rest.len() == 0 || rest[0] == '.',
    ensures
        jwt_claims(header + seq!['.'] + p + Seq::new(padding, |i: int| '=') + rest) == (
        match base64_url_decode(vstd::utf8::encode_utf8(p)) {
            None => None,
            Some(bytes) => json_parse(bytes),
        }),
{
    let q = p + Seq::new(padding, |i: int| '=');
    let token = header + seq!['.'] + p + Seq::new(padding, |i: int| '=') + rest;
    assert(token =~= header + (seq!['.'] + (q + rest)));
    lemma_split_plain(header, seq!['.'] + (q + rest), '.');
    lemma_split_at_separator(q + rest, '.');
    assert forall|i: int| 0 <= i < q.len() implies q[i] != '.' by {
        if i >= p.len() {
            assert(q[i] == '=');
        }
    }
    lemma_split_plain(q, rest, '.');
    lemma_split_nonempty(rest, '.');
    if rest.len() > 0 {
        assert(rest =~= seq!['.'] + rest.drop_first());
        lemma_split_at_separator(rest.drop_first(), '.');
    }
    assert(split_on(rest, '.')[0] =~= Seq::<char>::empty());
    assert(q + Seq::<char>::empty() =~= q);
    assert(jwt_payload(token) == Some(q));
    lemma_trim_end_char_prefix(q, '=', p.len() as int);
    assert(q.take(p.len() as int) =~= p);
}

/// Decodes the payload of a JWT, without checking its signature.
fn decode_jwt_payload(token: &str) -> (r: Option<serde_json::Value>)
    ensures
        match r {
            Some(v) => jwt_claims(token@) == Some(json_tree(v)),
            None => jwt_claims(token@) is None,
        },
{
    let cs = chars_of(token);
    let mut i: usize = 0;
    while i < cs.len() && cs[i] != '.'
        invariant
            cs@ == token@,
            i <= cs@.len(),
            forall|k: int| 0 <= k < i ==> cs@[k] != '.',
        decreases cs@.len() - i,
    {
        i += 1;
    }
    proof {
        lemma_split_plain(token@.take(i as int), token@.skip(i as int), '.');
        assert(token@.take(i as int) + token@.skip(i as int) =~= token@);
    }
    if i == cs.len() {
        proof {
            assert(token@.skip(i as int) =~= Seq::<char>::empty());
        }
        return None;
    }
    let start = i + 1;
    let mut j: usize = start;
    while j < cs.len() && cs[j] != '.'
        invariant
            cs@ == token@,
            start <= j <= cs@.len(),
            forall|k: int| start <= k < j ==> cs@[k] != '.',
        decreases cs@.len() - j,
    {
        j += 1;
    }
    let payload = string_from_chars(&cs.as_slice()[start..j]);
    proof {
        let b = token@.skip(i as int);
        assert(b =~= seq!['.'] + token@.skip(start as int));
        lemma_split_at_separator(token@.skip(start as int), '.');
        let a2 = token@.subrange(start as int, j as int);
        let b2 = token@.skip(j as int);
        lemma_split_plain(a2, b2, '.');
        assert(a2 + b2 =~= token@.skip(start as int));
        lemma_split_nonempty(b2, '.');
        if j < cs.len() {
            assert(b2 =~= seq!['.'] + token@.skip(j + 1));
            lemma_split_at_separator(token@.skip(j + 1), '.');
        } else {
            assert(b2 =~= Seq::<char>::empty());
        }
        assert(payload@ =~= a2);
    }
    let trimmed = trim_end_char_str(payload.as_str(), '=');
    match base64_url_no_pad_decode(trimmed.as_str().as_bytes()) {
        None => None,
        Some(bytes) => json_from_slice(bytes.as_slice()),
    }
}

/// The account id carried by the claims of `token`, if any.
pub fn extract_chatgpt_account_id(token: &str) -> (r: Option<String>)
    ensures
        opt_chars(r) == jwt_account_id(token@),
{
    let claims = decode_jwt_payload(token);
    match claims {
        None => None,
        Some(c) => match json_get(&c, "https://api.openai.com/auth") {
            None => None,
            Some(auth) => match json_get(auth, "chatgpt_account_id") {
                None => None,
                Some(id) => match json_as_str(id) {
                    None => None,
                    Some(s) => Some(s.to_string()),
                },
            },
        },
    }
}


/// Where refreshed tokens are requested.
pub const AUTH_TOKEN_URL: &'static str = "https://auth.openai.com/oauth/token";

/// The OAuth client that refreshes tokens.
pub const CLIENT_ID: &'static str = "app_EMoamEEZ73f0CkXaXp7hrann";

/// Seconds before its expiry at which a token already counts as expired.
pub const EXPIRY_MARGIN_SECS: u64 = 300;

/// The expiry time (`exp`, seconds since the Unix epoch) among the claims; 0
/// when absent or not an unsigned integer.
pub open spec fn claims_exp(t: Map<JsonPath, JsonNode>) -> u64 {
    if json_has_member(t, "exp"@) {
        match json_root(json_subtree(t, "exp"@)) {
            Some(JsonNode::UInt(n)) => n,
            _ => 0,
        }
    } else {
        0
    }
}

/// `a - b`, or 0 where that would be negative.
pub open spec fn saturating_sub(a: u64, b: u64) -> u64 {
    if a >= b {
        (a - b) as u64
    } else {
        0
    }
}

/// Whether `token` counts as expired at time `now` (seconds since the Unix
/// epoch): when its claims cannot be read, or when `now` is past its expiry
/// less the margin.
pub open spec fn token_expired_at(token: Seq<char>, now: u64) -> bool {
    match jwt_claims(token) {
        Some(t) => now > saturating_sub(claims_exp(t), EXPIRY_MARGIN_SECS),
        None => true,
    }
}

/// Whether `token` counts as expired at time `now` (seconds since the Unix epoch).
pub fn is_token_expired_at(token: &str, now: u64) -> (expired: bool)
    ensures
        expired == token_expired_at(token@, now),
{
    match decode_jwt_payload(token) {
        Some(claims) => {
            let exp = match json_get(&claims, "exp") {
                Some(v) => match json_as_u64(v) {
                    Some(n) => n,
                    None => 0,
                },
                None => 0,
            };
            now > exp.saturating_sub(EXPIRY_MARGIN_SECS)
        },
        None => true,
    }
}

/// `std::time::SystemTime`, carried through opaquely.
#[verifier::external_type_specification]
#[verifier::external_body]
pub struct ExSystemTime(std::time::SystemTime);

/// The system clock's reading (`SystemTime::now`). Nothing is claimed of it.
#[verifier::external_body]
fn system_time_now() -> std::time::SystemTime {
    std::time::SystemTime::now()
}

/// The time from the Unix epoch to `t` (`SystemTime::duration_since(UNIX_EPOCH)`);
/// `None` when `t` lies before the epoch. Nothing is claimed of the duration.
#[verifier::external_body]
fn since_unix_epoch(t: &std::time::SystemTime) -> Option<core::time::Duration> {
    t.duration_since(std::time::UNIX_EPOCH).ok()
}

/// The whole seconds of `d` (`Duration::as_secs`). Nothing is claimed of the value.
#[verifier::external_body]
fn whole_seconds(d: &core::time::Duration) -> u64 {
    d.as_secs()
}

/// The current time in whole seconds since the Unix epoch by the system
/// clock; a clock set before the epoch reads as 0.
fn unix_time_secs() -> u64 {
    match since_unix_epoch(&system_time_now()) {
        Some(d) => whole_seconds(&d),
        None => 0,
    }
}

/// Whether `token` counts as expired now. A token whose claims cannot be read
/// always does; otherwise the answer is the one for some reading of the clock.
pub fn is_token_expired(token: &str) -> (expired: bool)
    ensures
        jwt_claims(token@) is None ==> expired,
        exists|now: u64| expired == token_expired_at(token@, now),
{
    let now = unix_time_secs();
    is_token_expired_at(token, now)
}

/// Once expired, a token stays expired as time goes on.
pub proof fn law_expiry_is_permanent(token: Seq<char>, now: u64, later: u64)
    requires
        token_expired_at(token, now),
        now <= later,
    ensures
        token_expired_at(token, later),
{
}

/// A token whose claims carry an expiry of at least the margin is still good
/// exactly up to the margin before that expiry.
pub proof fn law_expiry_margin(token: Seq<char>, now: u64)
    requires
        jwt_claims(token) is Some,
        claims_exp(jwt_claims(token).unwrap()) >= EXPIRY_MARGIN_SECS,
    ensures
        !token_expired_at(token, now) <==> now + EXPIRY_MARGIN_SECS <= claims_exp(
            jwt_claims(token).unwrap(),
        ),
{
}

/// The sign-in state shown to the user.
#[derive(Debug, Clone)]
pub struct CodexAuthState {
    pub is_logged_in: bool,
    pub has_auth_file: bool,
}

/// The token fields of the stored auth file.
#[derive(Debug)]
pub struct CodexTokens {
    pub access_token: String,
    pub refresh_token: Option<String>,
    pub id_token: Option<String>,
}

/// The answer to a token refresh.
#[derive(Debug)]
pub struct RefreshResponse {
    pub access_token: String,
    pub id_token: Option<String>,
    pub refresh_token: Option<String>,
}

/// The state of the current token.
#[derive(Debug)]
pub enum TokenCheck {
    /// The token is good: the token and its account id.
    Valid(String, Option<String>),
    /// The token has to be refreshed.
    Expired,
    /// There is no token; the error to report.
    NotLoggedIn(String),
}

/// The refresh token of the stored auth file.
pub fn refresh_token_of(tokens: &CodexTokens) -> (r: Result<String, String>)
    ensures
        match tokens.refresh_token {
            Some(t) => r matches Ok(x) && x@ == t@,
            None => r matches Err(e) && e@ == "No refresh_token in auth file"@,
        },
{
    match &tokens.refresh_token {
        Some(t) => Ok(t.clone()),
        None => Err("No refresh_token in auth file".to_string()),
    }
}

/// The fields of a token refresh request, in order.
pub fn refresh_request_fields(refresh_token: &str) -> (fields: Vec<(String, String)>)
    ensures
        fields@.len() == 3,
        fields@[0].0@ == "grant_type"@ && fields@[0].1@ == "refresh_token"@,
        fields@[1].0@ == "refresh_token"@ && fields@[1].1@ == refresh_token@,
        fields@[2].0@ == "client_id"@ && fields@[2].1@ == CLIENT_ID@,
{
    let mut fields: Vec<(String, String)> = Vec::new();
    fields.push(("grant_type".to_string(), "refresh_token".to_string()));
    fields.push(("refresh_token".to_string(), refresh_token.to_string()));
    fields.push(("client_id".to_string(), CLIENT_ID.to_string()));
    fields
}

/// Stores a refresh answer in the auth file's tokens: the access token is
/// replaced; the ID and refresh tokens are replaced only when the answer has them.
pub fn merge_refreshed(tokens: &mut CodexTokens, refreshed: &RefreshResponse)
    ensures
        final(tokens).access_token@ == refreshed.access_token@,
        opt_chars(final(tokens).id_token) == match refreshed.id_token {
            Some(t) => Some(t@),
            None => opt_chars(old(tokens).id_token),
        },
        opt_chars(final(tokens).refresh_token) == match refreshed.refresh_token {
            Some(t) => Some(t@),
            None => opt_chars(old(tokens).refresh_token),
        },
{
    tokens.access_token = refreshed.access_token.clone();
    if let Some(id) = &refreshed.id_token {
        tokens.id_token = Some(id.clone());
    }
    if let Some(rt) = &refreshed.refresh_token {
        tokens.refresh_token = Some(rt.clone());
    }
}

/// Sign-in state for the batch transcription service: the access token and
/// the account id read from it.
pub struct CodexAuthManager {
    access_token: Option<String>,
    account_id: Option<String>,
}

/// A manager as the contracts see it.
pub struct CodexAuthModel {
    /// The current access token, if signed in.
    pub token: Option<Seq<char>>,
    /// The account id held beside the token.
    pub account_id: Option<Seq<char>>,
}

impl View for CodexAuthManager {
    type V = CodexAuthModel;

    closed spec fn view(&self) -> CodexAuthModel {
        CodexAuthModel { token: opt_chars(self.access_token), account_id: opt_chars(self.account_id) }
    }
}

/// The account id that goes with a token, if any.
pub open spec fn account_of(token: Option<Seq<char>>) -> Option<Seq<char>> {
    match token {
        Some(t) => jwt_account_id(t),
        None => None,
    }
}

/// The state after loading the auth file, which held `loaded` (`None` when it
/// is missing or cannot be read): a non-empty token replaces the current one.
pub open spec fn after_file_load(current: Option<Seq<char>>, loaded: Option<Seq<char>>) -> Option<Seq<char>> {
    match loaded {
        Some(t) => if t.len() > 0 {
            Some(t)
        } else {
            current
        },
        None => current,
    }
}

/// The token in the auth file wins: a non-empty token read from it becomes
/// the current one whatever was held before (another process may have
/// refreshed it); an empty or missing one leaves the current token as it was.
pub proof fn law_file_token_replaces_current(current: Option<Seq<char>>, loaded: Option<Seq<char>>)
    ensures
        loaded matches Some(t) && t.len() > 0 ==> after_file_load(current, loaded) == loaded,
        !(loaded matches Some(t) && t.len() > 0) ==> after_file_load(current, loaded) == current,
{
}

impl CodexAuthManager {
    #[verifier::type_invariant]
    closed spec fn account_matches_token(self) -> bool {
        opt_chars(self.account_id) == account_of(opt_chars(self.access_token))
    }

    /// The account id held beside the token: always the one the token carries.
    pub fn account_id(&self) -> (a: Option<String>)
        ensures
            opt_chars(a) == self@.account_id,
            self@.account_id == account_of(self@.token),
    {
        proof {
            use_type_invariant(self);
        }
        self.account_id.clone()
    }

    /// A manager loaded from the auth file, whose access token was `file_access_token`
    /// (`None` when the file is missing or cannot be read).
    pub fn new(file_access_token: Option<String>) -> (m: Self)
        ensures
            m@.token == after_file_load(None, opt_chars(file_access_token)),
            m@.account_id == account_of(m@.token),
    {
        let mut m = CodexAuthManager { access_token: None, account_id: None };
        m.reload_from_file(file_access_token);
        m
    }

    /// Takes the access token read from the auth file; an empty or missing one
    /// changes nothing. Returns whether a token was taken.
    pub fn reload_from_file(&mut self, file_access_token: Option<String>) -> (loaded: bool)
        ensures
            loaded == (file_access_token matches Some(t) && t@.len() > 0),
            final(self)@.token == after_file_load(old(self)@.token, opt_chars(file_access_token)),
            final(self)@.account_id == account_of(final(self)@.token),
            loaded ==> final(self)@.token == opt_chars(file_access_token),
            loaded ==> final(self)@.account_id == account_of(opt_chars(file_access_token)),
            !loaded ==> final(self)@ == old(self)@,
    {
        proof {
            use_type_invariant(&*self);
        }
        match file_access_token {
            Some(token) => {
                if token.as_str().is_empty() {
                    false
                } else {
                    let account_id = extract_chatgpt_account_id(token.as_str());
                    *self = CodexAuthManager { access_token: Some(token), account_id };
                    true
                }
            },
            None => false,
        }
    }

    /// The sign-in state, given whether the auth file exists.
    pub fn get_state(&self, has_auth_file: bool) -> (s: CodexAuthState)
        ensures
            s.is_logged_in == (self@.token is Some),
            s.has_auth_file == has_auth_file,
    {
        CodexAuthState { is_logged_in: self.access_token.is_some(), has_auth_file }
    }

    /// Whether a token is held.
    pub fn is_logged_in(&self) -> (b: bool)
        ensures
            b == (self@.token is Some),
    {
        self.access_token.is_some()
    }

    /// Signs out.
    pub fn logout(&mut self)
        ensures
            final(self)@.token is None,
            final(self)@.account_id is None,
    {
        *self = CodexAuthManager { access_token: None, account_id: None };
    }

    /// The state of the current token at time `now`.
    pub fn check_token_at(&self, now: u64) -> (c: TokenCheck)
        ensures
            match self@.token {
                None => c matches TokenCheck::NotLoggedIn(e) && e@ == "Not logged in to Codex"@,
                Some(t) => if token_expired_at(t, now) {
                    c is Expired
                } else {
                    c matches TokenCheck::Valid(tok, acc) && tok@ == t && opt_chars(acc)
                        == jwt_account_id(t)
                },
            },
    {
        proof {
            use_type_invariant(self);
        }
        match &self.access_token {
            None => TokenCheck::NotLoggedIn("Not logged in to Codex".to_string()),
            Some(t) => if is_token_expired_at(t.as_str(), now) {
                TokenCheck::Expired
            } else {
                TokenCheck::Valid(t.clone(), self.account_id.clone())
            },
        }
    }

    /// The state of the current token now, by the system clock.
    pub fn check_token(&self) -> (c: TokenCheck)
        ensures
            self@.token is None ==> (c matches TokenCheck::NotLoggedIn(e) && e@ == "Not logged in to Codex"@),
            self@.token matches Some(t) ==> (c is Expired || (c matches TokenCheck::Valid(tok, acc) && tok@ == t
                && opt_chars(acc) == jwt_account_id(t))),
            self@.token matches Some(t) && jwt_claims(t) is None ==> c is Expired,
    {
        proof {
            use_type_invariant(self);
        }
        match &self.access_token {
            None => TokenCheck::NotLoggedIn("Not logged in to Codex".to_string()),
            Some(t) => if is_token_expired(t.as_str()) {
                TokenCheck::Expired
            } else {
                TokenCheck::Valid(t.clone(), self.account_id.clone())
            },
        }
    }

    /// Takes the access token of a refresh answer; returns it with its account id.
    pub fn install_refreshed(&mut self, access_token: String) -> (r: (String, Option<String>))
        ensures
            final(self)@.token == Some(access_token@),
            final(self)@.account_id == jwt_account_id(access_token@),
            r.0@ == access_token@,
            opt_chars(r.1) == jwt_account_id(access_token@),
    {
        let account_id = extract_chatgpt_account_id(access_token.as_str());
        let result = (access_token.clone(), account_id.clone());
        *self = CodexAuthManager { access_token: Some(access_token), account_id };
        result
    }
}


/// The production API base.
pub open spec fn prod_api_base() -> Seq<char> {
    "https://chatgpt.com/backend-api"@
}

/// The API base, given the values of the base-URL and endpoint settings
/// (`None` when unset): a base URL that is not empty once its trailing slashes
/// are removed wins; else an endpoint of `localhost` (in any case) selects the
/// local server; else the production base.
pub open spec fn api_base(base_url: Option<Seq<char>>, endpoint: Option<Seq<char>>) -> Seq<char> {
    let from_base = match base_url {
        Some(u) => trim_end_char(u, '/'),
        None => Seq::<char>::empty(),
    };
    if from_base.len() > 0 {
        from_base
    } else if endpoint matches Some(e) && unicode_lowercase(e) == "localhost"@ {
        "http://localhost:8000/api"@
    } else {
        prod_api_base()
    }
}

/// The platform name for a Rust target operating system.
pub open spec fn platform_name(target_os: Seq<char>) -> Seq<char> {
    if target_os == "linux"@ {
        "linux"@
    } else if target_os == "macos"@ {
        "darwin"@
    } else if target_os == "windows"@ {
        "win32"@
    } else {
        "unknown"@
    }
}

/// The architecture name for a Rust target architecture.
pub open spec fn arch_name(target_arch: Seq<char>) -> Seq<char> {
    if target_arch == "x86_64"@ {
        "x64"@
    } else if target_arch == "aarch64"@ {
        "arm64"@
    } else {
        "unknown"@
    }
}

/// The user agent of the desktop client on the given target.
pub open spec fn user_agent(target_os: Seq<char>, target_arch: Seq<char>) -> Seq<char> {
    "Codex Desktop/1.0.4 ("@ + platform_name(target_os) + "; "@ + arch_name(target_arch) + ")"@
}

impl CodexAuthManager {
    /// The API base, given the values of the base-URL and endpoint settings.
    pub fn api_base_url(base_url: Option<String>, endpoint: Option<String>) -> (url: String)
        ensures
            url@ == api_base(opt_chars(base_url), opt_chars(endpoint)),
    {
        if let Some(u) = &base_url {
            let trimmed = trim_end_char_str(u.as_str(), '/');
            if !trimmed.as_str().is_empty() {
                return trimmed;
            }
        }
        if let Some(e) = &endpoint {
            let lower = to_lowercase(e.as_str());
            if str_eq(lower.as_str(), "localhost") {
                return "http://localhost:8000/api".to_string();
            }
        }
        "https://chatgpt.com/backend-api".to_string()
    }

    /// The user agent of the desktop client on the target with the given
    /// operating system and architecture names (as Rust names them).
    pub fn build_user_agent(target_os: &str, target_arch: &str) -> (ua: String)
        ensures
            ua@ == user_agent(target_os@, target_arch@),
    {
        let platform = if str_eq(target_os, "linux") {
            "linux"
        } else if str_eq(target_os, "macos") {
            "darwin"
        } else if str_eq(target_os, "windows") {
            "win32"
        } else {
            "unknown"
        };
        let arch = if str_eq(target_arch, "x86_64") {
            "x64"
        } else if str_eq(target_arch, "aarch64") {
            "arm64"
        } else {
            "unknown"
        };
        let mut ua = "Codex Desktop/1.0.4 (".to_string();
        ua.append(platform);
        ua.append("; ");
        ua.append(arch);
        ua.append(")");
        ua
    }

    /// The headers that authenticate a request: the bearer token, the client
    /// name and user agent, and the account id when there is one.
    pub fn build_auth_headers(
        token: &str,
        account_id: Option<&str>,
        target_os: &str,
        target_arch: &str,
    ) -> (headers: Vec<(String, String)>)
        ensures
            headers@.len() == if account_id is Some { 4nat } else { 3nat },
            headers@[0].0@ == "Authorization"@ && headers@[0].1@ == "Bearer "@ + token@,
            headers@[1].0@ == "originator"@ && headers@[1].1@ == "Codex Desktop"@,
            headers@[2].0@ == "User-Agent"@ && headers@[2].1@ == user_agent(target_os@, target_arch@),
            account_id matches Some(a) ==> headers@[3].0@ == "ChatGPT-Account-Id"@ && headers@[3].1@
                == a@,
    {
        let mut bearer = "Bearer ".to_string();
        bearer.append(token);
        let mut headers: Vec<(String, String)> = Vec::new();
        headers.push(("Authorization".to_string(), bearer));
        headers.push(("originator".to_string(), "Codex Desktop".to_string()));
        headers.push(("User-Agent".to_string(), Self::build_user_agent(target_os, target_arch)));
        if let Some(a) = account_id {
            headers.push(("ChatGPT-Account-Id".to_string(), a.to_string()));
        }
        headers
    }
}

/// A base URL setting ends up without trailing slashes, and a setting that
/// is not only slashes always wins.
pub proof fn law_base_url_setting_wins(base_url: Seq<char>, endpoint: Option<Seq<char>>)
    requires
        trim_end_char(base_url, '/').len() > 0,
    ensures
        api_base(Some(base_url), endpoint) == trim_end_char(base_url, '/'),
        api_base(Some(base_url), endpoint).last() != '/',
{
    lemma_trim_end_char_last(base_url, '/');
}

proof fn lemma_trim_end_char_last(s: Seq<char>, c: char)
    ensures
        trim_end_char(s, c).len() > 0 ==> trim_end_char(s, c).last() != c,
    decreases s.len(),
{
    if s.len() > 0 && s.last() == c {
        lemma_trim_end_char_last(s.drop_last(), c);
    }
}

} // verus!
