//! Credentials for the calls to the coordination service: either none at
//! all, or a ticket that is fetched when needed and reused while it is valid.

use crate::clock::epoch_seconds;
use crate::config::{Config, Grant, Secure};
use crate::errors::CombinedError;
use vstd::prelude::*;
use vstd::string::*;

verus! {

/// The scheme that selects tickets.
pub const TVM_MOD: &'static str = "TVM";

/// What the credential service is asked for one ticket.
#[derive(Debug)]
pub struct TicketRequest {
    pub client_id: u32,
    pub client_secret: String,
    pub grant: Grant,
}

/// What a caller that wants a ticket has to do.
enum TicketStep {
    /// Use this token: it is still valid.
    Cached(String),
    /// Ask the credential service, then report what came back.
    Fetch(TicketRequest),
    /// Wait for the request that is already under way.
    Pending,
}

/// What a caller that wants an authorization header has to do.
#[derive(Debug)]
pub enum HeaderStep {
    /// Use this header, or none.
    Ready(Option<String>),
    /// Ask the credential service, then report what came back.
    Fetch(TicketRequest),
    /// Wait for the request that is already under way.
    Pending,
}

/// The state of a ticket cache.
pub struct TicketCache {
    /// The token that was stored last.
    pub token: Option<Seq<char>>,
    /// The second at which it was stored.
    pub issued_at: int,
    /// For how many seconds a token is reused.
    pub expiry: Option<int>,
    /// Whether a request for a new token is under way.
    pub refreshing: bool,
}

/// What the cache decides for a caller.
pub enum Decision {
    Reuse(Seq<char>),
    Fetch,
    Wait,
}

impl TicketCache {
    /// Whether the stored token may be used at `now`.
    pub open spec fn valid_at(self, now: int) -> bool {
        self.token is Some && self.expiry is Some && now < self.issued_at + self.expiry->0
    }

    /// What a caller at `now` is told.  While a request is under way every
    /// caller waits for it; else a valid token is reused; else this caller
    /// fetches.
    pub open spec fn decide(self, now: int) -> Decision {
        if self.refreshing {
            Decision::Wait
        } else if self.valid_at(now) {
            Decision::Reuse(self.token->0)
        } else {
            Decision::Fetch
        }
    }

    /// The cache after a caller at `now` was told what to do.
    pub open spec fn asked(self, now: int) -> TicketCache {
        if self.decide(now) is Fetch {
            TicketCache { refreshing: true, ..self }
        } else {
            self
        }
    }

    /// The cache after the request that was under way ended at `now`: a new
    /// token is stored with the time; a failure leaves what was stored.
    pub open spec fn settled(self, token: Option<Seq<char>>, now: int) -> TicketCache {
        match token {
            Some(t) => TicketCache { token: Some(t), issued_at: now, refreshing: false, ..self },
            None => TicketCache { refreshing: false, ..self },
        }
    }
}

/// Sends no credentials.
#[derive(Debug)]
pub struct PromiscuousProxy;

impl PromiscuousProxy {
    pub fn new() -> (proxy: PromiscuousProxy) {
        PromiscuousProxy {  }
    }

    /// No header, and nothing to fetch.
    pub fn ticket_as_header(&mut self) -> (step: HeaderStep)
        ensures
            step == HeaderStep::Ready(None),
    {
        HeaderStep::Ready(None)
    }
}

/// Holds the ticket of one credential profile.
#[derive(Debug)]
pub struct TvmProxy {
    last_updated: i64,
    ticket_expire_sec: Option<i64>,
    cached_ticket: Option<String>,
    secure: Secure,
    refreshing: bool,
}

impl View for TvmProxy {
    type V = TicketCache;

    closed spec fn view(&self) -> TicketCache {
        TicketCache {
            token: match self.cached_ticket {
                Some(t) => Some(t@),
                None => None,
            },
            issued_at: self.last_updated as int,
            expiry: match self.ticket_expire_sec {
                Some(e) => Some(e as int),
                None => None,
            },
            refreshing: self.refreshing,
        }
    }
}

/// The header for a token: the scheme, a space, the token.
pub open spec fn header_text(scheme: Seq<char>, token: Seq<char>) -> Seq<char> {
    scheme + " "@ + token
}

impl TvmProxy {
    /// The credential profile.
    pub closed spec fn profile(&self) -> Secure {
        self.secure
    }

    /// What the credential service is asked: the identity of the profile,
    /// and the grant of the profile or, without one, client credentials.
    pub open spec fn request(&self) -> TicketRequest {
        TicketRequest {
            client_id: self.profile().client_id as u32,
            client_secret: self.profile().client_secret,
            grant: match self.profile().grant {
                Some(g) => g,
                None => Grant::ClientCredentials,
            },
        }
    }

    /// A proxy that holds no ticket yet.
    pub fn new(ticket_expire_sec: &Option<i64>, secure: &Secure) -> (proxy: TvmProxy)
        ensures
            proxy@ == (TicketCache {
                token: None,
                issued_at: 0,
                expiry: match *ticket_expire_sec {
                    Some(e) => Some(e as int),
                    None => None,
                },
                refreshing: false,
            }),
            proxy.profile() == *secure,
    {
        TvmProxy {
            last_updated: 0,
            ticket_expire_sec: *ticket_expire_sec,
            cached_ticket: None,
            secure: secure.clone(),
            refreshing: false,
        }
    }

    fn fetch_ticket(&self) -> (request: TicketRequest)
        ensures
            request == self.request(),
    {
        let grant = match self.secure.grant {
            Some(g) => g,
            None => Grant::ClientCredentials,
        };
        TicketRequest {
            client_id: #[verifier::truncate] (self.secure.client_id as u32),
            client_secret: self.secure.client_secret.clone(),
            grant,
        }
    }

    /// Tells a caller at the second `now` how to come by a ticket.
    fn ticket(&mut self, now: i64) -> (step: TicketStep)
        ensures
            final(self)@ == old(self)@.asked(now as int),
            final(self).profile() == old(self).profile(),
            match old(self)@.decide(now as int) {
                Decision::Reuse(token) => step matches TicketStep::Cached(t) && t@ == token,
                Decision::Fetch => step == TicketStep::Fetch(old(self).request()),
                Decision::Wait => step is Pending,
            },
    {
        if self.refreshing {
            return TicketStep::Pending;
        }
        let valid = match self.ticket_expire_sec {
            Some(to_expire) => (now as i128) < (self.last_updated as i128) + (to_expire as i128),
            None => false,
        };
        if valid {
            match &self.cached_ticket {
                Some(token) => {
                    return TicketStep::Cached(token.clone());
                },
                None => {},
            }
        }
        self.refreshing = true;
        TicketStep::Fetch(self.fetch_ticket())
    }

    /// Takes what the credential service answered at the second `now`: the
    /// token, or what it said of its failure.  A token is stored together with
    /// the time and handed on; a failure is handed on and leaves the cache as
    /// it was.
    fn update_and_get_cached(&mut self, outcome: Result<String, String>, now: i64) -> (ticket: Result<
        String,
        CombinedError,
    >)
        ensures
            final(self).profile() == old(self).profile(),
            match outcome {
                Ok(token) => final(self)@ == old(self)@.settled(Some(token@), now as int) && ticket
                    == Ok::<String, CombinedError>(token),
                Err(why) => final(self)@ == old(self)@.settled(None, now as int) && ticket == Err::<
                    String,
                    CombinedError,
                >(CombinedError::CredentialError(why)),
            },
    {
        self.refreshing = false;
        match outcome {
            Ok(token) => {
                self.cached_ticket = Some(token.clone());
                self.last_updated = now;
                Ok(token)
            },
            Err(why) => Err(CombinedError::CredentialError(why)),
        }
    }

    /// The header that carries `token`.
    fn header_for(&self, token: &String) -> (header: String)
        ensures
            header@ == header_text(self.profile().md@, token@),
    {
        let mut header = self.secure.get_mod();
        header.append(" ");
        header.append(token.as_str());
        header
    }

    /// Tells a caller at the second `now` how to come by the header.  While
    /// a request is under way the caller waits for it; else a valid token is
    /// handed out in its header; else the caller is to fetch a token.
    pub fn ticket_as_header_at(&mut self, now: i64) -> (step: HeaderStep)
        ensures
            final(self)@ == old(self)@.asked(now as int),
            final(self).profile() == old(self).profile(),
            match old(self)@.decide(now as int) {
                Decision::Reuse(token) => step matches HeaderStep::Ready(Some(h)) && h@ == header_text(
                    old(self).profile().md@,
                    token,
                ),
                Decision::Fetch => step == HeaderStep::Fetch(old(self).request()),
                Decision::Wait => step is Pending,
            },
    {
        match self.ticket(now) {
            TicketStep::Cached(token) => HeaderStep::Ready(Some(self.header_for(&token))),
            TicketStep::Fetch(request) => HeaderStep::Fetch(request),
            TicketStep::Pending => HeaderStep::Pending,
        }
    }

    /// Takes what the credential service answered at the second `now`: the
    /// token, or what it said of its failure.  A token is stored together
    /// with the time and handed on in its header; a failure is handed on and
    /// leaves the stored token as it was.
    pub fn ticket_fetched_at(&mut self, outcome: Result<String, String>, now: i64) -> (header: Result<
        Option<String>,
        CombinedError,
    >)
        ensures
            final(self).profile() == old(self).profile(),
            match outcome {
                Ok(token) => {
                    &&& final(self)@ == old(self)@.settled(Some(token@), now as int)
                    &&& header matches Ok(Some(h))
                    &&& h@ == header_text(old(self).profile().md@, token@)
                },
                Err(why) => final(self)@ == old(self)@.settled(None, now as int) && header == Err::<
                    Option<String>,
                    CombinedError,
                >(CombinedError::CredentialError(why)),
            },
    {
        match self.update_and_get_cached(outcome, now) {
            Ok(token) => Ok(Some(self.header_for(&token))),
            Err(e) => Err(e),
        }
    }

    /// Tells a caller how to come by the header, by the system clock.
    pub fn ticket_as_header(&mut self) -> (step: HeaderStep)
        ensures
            final(self).profile() == old(self).profile(),
            exists|now: int|
                final(self)@ == old(self)@.asked(now) && match #[trigger] old(self)@.decide(now) {
                    Decision::Reuse(token) => step matches HeaderStep::Ready(Some(h)) && h@
                        == header_text(old(self).profile().md@, token),
                    Decision::Fetch => step == HeaderStep::Fetch(old(self).request()),
                    Decision::Wait => step is Pending,
                },
    {
        let now = epoch_seconds();
        self.ticket_as_header_at(now)
    }

    /// Takes what the credential service answered, by the system clock.
    pub fn ticket_fetched(&mut self, outcome: Result<String, String>) -> (header: Result<
        Option<String>,
        CombinedError,
    >)
        ensures
            final(self).profile() == old(self).profile(),
            match outcome {
                Ok(token) => header matches Ok(Some(h)) && h@ == header_text(
                    old(self).profile().md@,
                    token@,
                ) && exists|now: int| final(self)@ == #[trigger] old(self)@.settled(Some(token@), now),
                Err(why) => header == Err::<Option<String>, CombinedError>(
                    CombinedError::CredentialError(why),
                ) && exists|now: int| final(self)@ == #[trigger] old(self)@.settled(None, now),
            },
    {
        let now = epoch_seconds();
        self.ticket_fetched_at(outcome, now)
    }
}

/// The credential provider: one of two ways to come by the header.
#[derive(Debug)]
pub enum SecureProxy {
    /// No profile is configured: calls go out without credentials.
    Promiscuous(PromiscuousProxy),
    /// Calls carry a ticket of the configured profile.
    Tvm(TvmProxy),
}

impl SecureProxy {
    /// Tells a caller at the second `now` how to come by the header.  Without
    /// a profile the answer is always: no header, and nothing is fetched.
    pub fn ticket_as_header_at(&mut self, now: i64) -> (step: HeaderStep)
        ensures
            match *old(self) {
                SecureProxy::Promiscuous(_) => step == HeaderStep::Ready(None) && *final(self) == *old(
                    self,
                ),
                SecureProxy::Tvm(before) => {
                    &&& *final(self) matches SecureProxy::Tvm(after)
                    &&& after@ == before@.asked(now as int)
                    &&& after.profile() == before.profile()
                    &&& match before@.decide(now as int) {
                        Decision::Reuse(token) => step matches HeaderStep::Ready(Some(h)) && h@
                            == header_text(before.profile().md@, token),
                        Decision::Fetch => step == HeaderStep::Fetch(before.request()),
                        Decision::Wait => step is Pending,
                    }
                },
            },
    {
        match self {
            SecureProxy::Promiscuous(proxy) => proxy.ticket_as_header(),
            SecureProxy::Tvm(proxy) => proxy.ticket_as_header_at(now),
        }
    }

    /// Tells a caller how to come by the header, by the system clock.
    pub fn ticket_as_header(&mut self) -> (step: HeaderStep)
        ensures
            match *old(self) {
                SecureProxy::Promiscuous(_) => step == HeaderStep::Ready(None) && *final(self) == *old(
                    self,
                ),
                SecureProxy::Tvm(before) => {
                    &&& *final(self) matches SecureProxy::Tvm(after)
                    &&& after.profile() == before.profile()
                    &&& exists|now: int|
                        after@ == before@.asked(now) && match #[trigger] before@.decide(now) {
                            Decision::Reuse(token) => step matches HeaderStep::Ready(Some(h)) && h@
                                == header_text(before.profile().md@, token),
                            Decision::Fetch => step == HeaderStep::Fetch(before.request()),
                            Decision::Wait => step is Pending,
                        }
                },
            },
    {
        match self {
            SecureProxy::Promiscuous(proxy) => proxy.ticket_as_header(),
            SecureProxy::Tvm(proxy) => proxy.ticket_as_header(),
        }
    }

    /// Takes what the credential service answered at the second `now` and
    /// gives the header for the new token, or the failure.
    pub fn ticket_fetched_at(&mut self, outcome: Result<String, String>, now: i64) -> (header: Result<
        Option<String>,
        CombinedError,
    >)
        ensures
            match *old(self) {
                SecureProxy::Promiscuous(_) => header == Ok::<Option<String>, CombinedError>(None)
                    && *final(self) == *old(self),
                SecureProxy::Tvm(before) => {
                    &&& *final(self) matches SecureProxy::Tvm(after)
                    &&& after.profile() == before.profile()
                    &&& match outcome {
                        Ok(token) => {
                            &&& after@ == before@.settled(Some(token@), now as int)
                            &&& header matches Ok(Some(h))
                            &&& h@ == header_text(before.profile().md@, token@)
                        },
                        Err(why) => after@ == before@.settled(None, now as int) && header == Err::<
                            Option<String>,
                            CombinedError,
                        >(CombinedError::CredentialError(why)),
                    }
                },
            },
    {
        match self {
            SecureProxy::Promiscuous(_) => Ok(None),
            SecureProxy::Tvm(proxy) => proxy.ticket_fetched_at(outcome, now),
        }
    }

    /// Takes what the credential service answered, by the system clock.
    pub fn ticket_fetched(&mut self, outcome: Result<String, String>) -> (header: Result<
        Option<String>,
        CombinedError,
    >)
        ensures
            match *old(self) {
                SecureProxy::Promiscuous(_) => header == Ok::<Option<String>, CombinedError>(None)
                    && *final(self) == *old(self),
                SecureProxy::Tvm(before) => {
                    &&& *final(self) matches SecureProxy::Tvm(after)
                    &&& after.profile() == before.profile()
                    &&& match outcome {
                        Ok(token) => header matches Ok(Some(h)) && h@ == header_text(
                            before.profile().md@,
                            token@,
                        ) && exists|now: int|
                            after@ == #[trigger] before@.settled(Some(token@), now),
                        Err(why) => header == Err::<Option<String>, CombinedError>(
                            CombinedError::CredentialError(why),
                        ) && exists|now: int| after@ == #[trigger] before@.settled(None, now),
                    }
                },
            },
    {
        match self {
            SecureProxy::Promiscuous(_) => Ok(None),
            SecureProxy::Tvm(proxy) => proxy.ticket_fetched(outcome),
        }
    }
}

/// Whether the settings ask for tickets.
pub open spec fn wants_tickets(config: &Config) -> bool {
    config.secure matches Some(secure) && secure.md@ == TVM_MOD@
}

/// The credential provider that the settings ask for: tickets where a
/// profile with the ticket scheme is configured, no credentials otherwise.
pub fn make_ticket_service(config: &Config) -> (proxy: SecureProxy)
    ensures
        wants_tickets(config) ==> {
            &&& proxy matches SecureProxy::Tvm(p)
            &&& p.profile() == config.secure->0
            &&& p@ == (TicketCache {
                token: None,
                issued_at: 0,
                expiry: match config.ticket_expire_sec {
                    Some(e) => Some(e as int),
                    None => None,
                },
                refreshing: false,
            })
        },
        !wants_tickets(config) ==> proxy is Promiscuous,
{
    match &config.secure {
        Some(secure) => {
            let tvm = String::from_str(TVM_MOD);
            if secure.md == tvm {
                SecureProxy::Tvm(TvmProxy::new(&config.ticket_expire_sec, secure))
            } else {
                SecureProxy::Promiscuous(PromiscuousProxy::new())
            }
        },
        None => SecureProxy::Promiscuous(PromiscuousProxy::new()),
    }
}

/// While a stored token is valid, a caller is handed that token, nothing is
/// fetched, and the cache stays as it is: so any number of callers within
/// the window get the same token without a request in between.
pub proof fn lemma_ticket_reused_while_valid(cache: TicketCache, token: Seq<char>, issued: int, now: int)
    requires
        cache.expiry is Some,
        now < issued + cache.expiry->0,
    ensures
        cache.settled(Some(token), issued).decide(now) == Decision::Reuse(token),
        cache.settled(Some(token), issued).asked(now) == cache.settled(Some(token), issued),
{
}

/// Once the stored token has expired, or where no expiry is configured, the
/// first caller fetches; whoever comes while that request is under way waits
/// for it and starts none of their own.
pub proof fn lemma_one_refresh_after_expiry(
    cache: TicketCache,
    token: Seq<char>,
    issued: int,
    now: int,
    later: int,
)
    requires
        cache.expiry matches Some(e) ==> now >= issued + e,
    ensures
        cache.settled(Some(token), issued).decide(now) is Fetch,
        cache.settled(Some(token), issued).asked(now).decide(later) is Wait,
        cache.settled(Some(token), issued).asked(now).asked(later) == cache.settled(
            Some(token),
            issued,
        ).asked(now),
{
}

/// A failed request leaves the stored token and its time untouched: a token
/// that was valid stays usable until it expires.
pub proof fn lemma_failure_keeps_ticket(cache: TicketCache, failed_at: int, now: int)
    ensures
        cache.settled(None, failed_at).token == cache.token,
        cache.settled(None, failed_at).issued_at == cache.issued_at,
        cache.valid_at(now) ==> cache.settled(None, failed_at).decide(now) == Decision::Reuse(
            cache.token->0,
        ),
{
}

} // verus!
