//! Sign-in state for the streaming recogniser: a bearer token taken from the
//! credentials file of the command-line client, or set by hand.
use vstd::prelude::*;
use crate::cloud_stt::opt_chars;

verus! {

broadcast use vstd::string::group_string_axioms;

/// The sign-in state shown to the user.
#[derive(Debug, Clone)]
pub struct ClaudeAuthState {
    pub access_token: Option<String>,
    pub is_logged_in: bool,
}

impl Default for ClaudeAuthState {
    fn default() -> (s: Self)
        ensures
            s.access_token is None,
            !s.is_logged_in,
    {
        ClaudeAuthState { access_token: None, is_logged_in: false }
    }
}

/// The OAuth entry of the credentials file.
#[derive(Debug)]
pub struct ClaudeCodeOAuth {
    pub access_token: Option<String>,
}

/// The credentials file, as far as it is read.
#[derive(Debug)]
pub struct ClaudeCodeCredentials {
    pub claude_ai_oauth: Option<ClaudeCodeOAuth>,
}

/// The token a credentials file offers: its OAuth access token, unless absent or empty.
pub open spec fn credentials_token(c: ClaudeCodeCredentials) -> Option<Seq<char>> {
    match c.claude_ai_oauth {
        Some(o) => match o.access_token {
            Some(t) => if t@.len() > 0 {
                Some(t@)
            } else {
                None
            },
            None => None,
        },
        None => None,
    }
}

/// The token a credentials file offers, if any.
pub fn token_from_credentials(creds: &ClaudeCodeCredentials) -> (t: Option<String>)
    ensures
        opt_chars(t) == credentials_token(*creds),
{
    match &creds.claude_ai_oauth {
        Some(o) => match &o.access_token {
            Some(t) => if t.as_str().is_empty() {
                None
            } else {
                Some(t.clone())
            },
            None => None,
        },
        None => None,
    }
}

/// The state after a reload that found `loaded`: a found token replaces the
/// current one; when nothing was found the state stays.
pub open spec fn after_reload(current: Option<Seq<char>>, loaded: Option<Seq<char>>) -> Option<Seq<char>> {
    match loaded {
        Some(t) => Some(t),
        None => current,
    }
}

/// What a session start needs: the token, the origin and the language.
#[derive(Debug)]
pub struct SessionStart {
    pub token: String,
    pub origin: String,
    pub language: String,
}

/// Sign-in state for the streaming recogniser, with the origin and display
/// name of the service it signs in to.
pub struct ClaudeAuthManager {
    state: ClaudeAuthState,
    origin: String,
    service_name: String,
}

/// A manager as the contracts see it.
pub struct ClaudeAuthModel {
    /// The current token, if signed in.
    pub token: Option<Seq<char>>,
    /// Whether the user is signed in.
    pub is_logged_in: bool,
    /// The origin of the service.
    pub origin: Seq<char>,
    /// The display name of the service, as error messages give it.
    pub service_name: Seq<char>,
}

impl View for ClaudeAuthManager {
    type V = ClaudeAuthModel;

    closed spec fn view(&self) -> ClaudeAuthModel {
        ClaudeAuthModel {
            token: opt_chars(self.state.access_token),
            is_logged_in: self.state.is_logged_in,
            origin: self.origin@,
            service_name: self.service_name@,
        }
    }
}

impl ClaudeAuthManager {
    #[verifier::type_invariant]
    closed spec fn signed_in_iff_token(self) -> bool {
        self.state.is_logged_in == (self.state.access_token is Some)
    }

    /// A manager for the service at `origin`, named `service_name` in
    /// messages, loaded from the credentials file, which offered
    /// `credentials_token` (`None` when the file is missing, unreadable or
    /// holds no token).
    pub fn new(origin: String, service_name: String, credentials_token: Option<String>) -> (m: Self)
        ensures
            m@.token == opt_chars(credentials_token),
            m@.is_logged_in == (credentials_token is Some),
            m@.origin == origin@,
            m@.service_name == service_name@,
    {
        let mut m = ClaudeAuthManager { state: ClaudeAuthState::default(), origin, service_name };
        m.reload_from_claude_code(credentials_token);
        m
    }

    /// Takes the token that the credentials file offered, if any; returns whether one was found.
    pub fn reload_from_claude_code(&mut self, credentials_token: Option<String>) -> (found: bool)
        ensures
            found == (credentials_token is Some),
            final(self)@.token == after_reload(old(self)@.token, opt_chars(credentials_token)),
            final(self)@.is_logged_in == (final(self)@.token is Some),
            final(self)@.origin == old(self)@.origin,
            final(self)@.service_name == old(self)@.service_name,
    {
        proof {
            use_type_invariant(&*self);
        }
        match credentials_token {
            Some(token) => {
                self.state = ClaudeAuthState { access_token: Some(token), is_logged_in: true };
                true
            },
            None => false,
        }
    }

    /// The sign-in state: signed in exactly when a token is held.
    pub fn get_state(&self) -> (s: ClaudeAuthState)
        ensures
            opt_chars(s.access_token) == self@.token,
            s.is_logged_in == self@.is_logged_in,
            s.is_logged_in == (self@.token is Some),
    {
        proof {
            use_type_invariant(self);
        }
        ClaudeAuthState {
            access_token: self.state.access_token.clone(),
            is_logged_in: self.state.is_logged_in,
        }
    }

    /// The current token, if signed in.
    pub fn get_access_token(&self) -> (t: Option<String>)
        ensures
            opt_chars(t) == self@.token,
    {
        self.state.access_token.clone()
    }

    /// The origin of the service.
    pub fn get_origin(&self) -> (o: String)
        ensures
            o@ == self@.origin,
    {
        self.origin.clone()
    }

    /// Signs in with `token`.
    pub fn set_access_token(&mut self, token: String)
        ensures
            final(self)@ == (ClaudeAuthModel { token: Some(token@), is_logged_in: true, ..old(self)@ }),
    {
        self.state = ClaudeAuthState { access_token: Some(token), is_logged_in: true };
    }

    /// Signs out.
    pub fn logout(&mut self)
        ensures
            final(self)@ == (ClaudeAuthModel { token: None, is_logged_in: false, ..old(self)@ }),
    {
        self.state = ClaudeAuthState { access_token: None, is_logged_in: false };
    }

    /// What starting a streaming session needs: fails when signed out; the
    /// language defaults to English.
    pub fn session_start(&self, language: Option<String>) -> (r: Result<SessionStart, String>)
        ensures
            self@.token is None ==> (r matches Err(e) && e@ == "Not logged in to "@ + self@.service_name),
            self@.token matches Some(t) ==> (r matches Ok(s) && s.token@ == t && s.origin@ == self@.origin
                && s.language@ == match language {
                Some(l) => l@,
                None => "en"@,
            }),
    {
        match self.get_access_token() {
            None => {
                let mut e = "Not logged in to ".to_string();
                e.append(self.service_name.as_str());
                Err(e)
            },
            Some(token) => {
                let language = match language {
                    Some(l) => l,
                    None => "en".to_string(),
                };
                Ok(SessionStart { token, origin: self.get_origin(), language })
            },
        }
    }
}

} // verus!
