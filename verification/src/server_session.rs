//! The middleware's configuration builder and the per-request
//! reconciliation: resolve the inbound cookie to a session, and at response
//! time persist, re-issue or delete the session state and emit the
//! `Set-Cookie` values the response must carry.
use vstd::prelude::*;
use vstd::string::StringExecFns;
use vstd::utf8::encode_utf8;
use vstd::utf8::is_ascii_chars;
use vstd::utf8::is_ascii_chars_encode_utf8;
use crate::blob::spec_decode;
use crate::outside::signed_seal_of;
use crate::blob::spec_encode;
use crate::server_session_inner::CookieSecurity;
use crate::server_session_inner::CookieSessionError;
use crate::server_session_inner::SameSitePolicy;
use crate::server_session_inner::ServerSessionInner;
use crate::server_session_inner::id_char;
use crate::server_session_inner::valid_id;
use crate::server_session_state::ServerSessionState;
use crate::server_session_state::StateModel;
use crate::session::Session;
use crate::session::SessionStatus;

verus! {

/// The timeout a handle briefly carries between its creation and the
/// moment the loaded or fresh state, whose timeout then governs, is seeded
/// into it.
pub const SEED_TIMEOUT_MS: u64 = 10000;

/// The view of an optional inbound cookie value.
pub open spec fn offered_view(cv: Option<&String>) -> Option<Seq<char>> {
    match cv {
        Some(c) => Some(c@),
        None => None,
    }
}

/// The state model stored under `id`, if the store knows the id and its
/// blob decodes.
pub open(crate) spec fn store_model(store: &ServerSessionState, id: Seq<char>) -> Option<
    StateModel,
> {
    if store.smap().contains_key(id) {
        spec_decode(store.smap()[id])
    } else {
        None
    }
}

/// Builder-style configuration: the cookie codec plus the store default
/// timeout in minutes, where one was chosen.
pub struct ServerSession {
    pub inner: ServerSessionInner,
    pub timeout_minutes: Option<u64>,
}

impl ServerSession {
    /// A configuration whose cookies are signed: authenticated, readable.
    pub fn signed(key: &[u8]) -> (r: ServerSession)
        requires
            key@.len() >= 32,
        ensures
            r.inner.wf(),
            r.inner.key@ == key@,
            r.inner.security is Signed,
            r.inner.name@ == "actix-session"@,
            r.inner.path@ == "/"@,
            !r.inner.lazy,
            !r.inner.secure,
            r.inner.http_only,
            r.inner.domain is None,
            r.inner.max_age_secs is None,
            r.inner.expires_in_secs is None,
            r.inner.same_site is None,
            r.timeout_minutes is None,
    {
        ServerSession {
            inner: ServerSessionInner::new(key, CookieSecurity::Signed),
            timeout_minutes: None,
        }
    }

    /// A configuration whose cookies are private: authenticated and
    /// encrypted.
    pub fn private(key: &[u8]) -> (r: ServerSession)
        requires
            key@.len() >= 32,
        ensures
            r.inner.wf(),
            r.inner.key@ == key@,
            r.inner.security is Private,
            r.inner.name@ == "actix-session"@,
            r.inner.path@ == "/"@,
            !r.inner.lazy,
            !r.inner.secure,
            r.inner.http_only,
            r.inner.domain is None,
            r.inner.max_age_secs is None,
            r.inner.expires_in_secs is None,
            r.inner.same_site is None,
            r.timeout_minutes is None,
    {
        ServerSession {
            inner: ServerSessionInner::new(key, CookieSecurity::Private),
            timeout_minutes: None,
        }
    }

    /// Sets the cookie's `Path` attribute.
    pub fn path(self, value: &str) -> (r: ServerSession)
        ensures
            r.inner.path@ == value@,
            r.inner == (ServerSessionInner { path: r.inner.path, ..self.inner }),
            r.timeout_minutes == self.timeout_minutes,
    {
        let mut s = self;
        s.inner.path = String::from_str(value);
        s
    }

    /// Sets the cookie's name.
    pub fn name(self, value: &str) -> (r: ServerSession)
        ensures
            r.inner.name@ == value@,
            r.inner == (ServerSessionInner { name: r.inner.name, ..self.inner }),
            r.timeout_minutes == self.timeout_minutes,
    {
        let mut s = self;
        s.inner.name = String::from_str(value);
        s
    }

    /// Sets the cookie's `Domain` attribute.
    pub fn domain(self, value: &str) -> (r: ServerSession)
        ensures
            r.inner.domain matches Some(d) && d@ == value@,
            r.inner == (ServerSessionInner { domain: r.inner.domain, ..self.inner }),
            r.timeout_minutes == self.timeout_minutes,
    {
        let mut s = self;
        s.inner.domain = Some(String::from_str(value));
        s
    }

    /// When true, no session cookie is emitted while the value is empty.
    pub fn lazy(self, value: bool) -> (r: ServerSession)
        ensures
            r.inner.lazy == value,
            r.inner == (ServerSessionInner { lazy: value, ..self.inner }),
            r.timeout_minutes == self.timeout_minutes,
    {
        let mut s = self;
        s.inner.lazy = value;
        s
    }

    /// Sets the cookie's `Secure` attribute.
    pub fn secure(self, value: bool) -> (r: ServerSession)
        ensures
            r.inner.secure == value,
            r.inner == (ServerSessionInner { secure: value, ..self.inner }),
            r.timeout_minutes == self.timeout_minutes,
    {
        let mut s = self;
        s.inner.secure = value;
        s
    }

    /// Sets the cookie's `HttpOnly` attribute.
    pub fn http_only(self, value: bool) -> (r: ServerSession)
        ensures
            r.inner.http_only == value,
            r.inner == (ServerSessionInner { http_only: value, ..self.inner }),
            r.timeout_minutes == self.timeout_minutes,
    {
        let mut s = self;
        s.inner.http_only = value;
        s
    }

    /// Sets the cookie's `SameSite` attribute.
    pub fn same_site(self, value: SameSitePolicy) -> (r: ServerSession)
        ensures
            r.inner.same_site == Some(value),
            r.inner == (ServerSessionInner { same_site: Some(value), ..self.inner }),
            r.timeout_minutes == self.timeout_minutes,
    {
        let mut s = self;
        s.inner.same_site = Some(value);
        s
    }

    /// Sets the cookie's `Max-Age` attribute, in seconds.
    pub fn max_age(self, seconds: i64) -> (r: ServerSession)
        requires
            seconds >= 0,
        ensures
            r.inner.max_age_secs == Some(seconds as u64),
            r.inner == (ServerSessionInner { max_age_secs: Some(seconds as u64), ..self.inner }),
            r.timeout_minutes == self.timeout_minutes,
    {
        self.max_age_time(seconds)
    }

    /// Sets the cookie's `Max-Age` attribute, in seconds.
    pub fn max_age_time(self, value: i64) -> (r: ServerSession)
        requires
            value >= 0,
        ensures
            r.inner.max_age_secs == Some(value as u64),
            r.inner == (ServerSessionInner { max_age_secs: Some(value as u64), ..self.inner }),
            r.timeout_minutes == self.timeout_minutes,
    {
        let mut s = self;
        s.inner.max_age_secs = Some(value as u64);
        s
    }

    /// Sets the cookie's `Expires` attribute to that many seconds from the
    /// moment the cookie is emitted.
    pub fn expires_in(self, seconds: i64) -> (r: ServerSession)
        requires
            seconds >= 0,
        ensures
            r.inner.expires_in_secs == Some(seconds as u64),
            r.inner == (ServerSessionInner {
                expires_in_secs: Some(seconds as u64),
                ..self.inner
            }),
            r.timeout_minutes == self.timeout_minutes,
    {
        self.expires_in_time(seconds)
    }

    /// Sets the cookie's `Expires` attribute to that many seconds from the
    /// moment the cookie is emitted.
    pub fn expires_in_time(self, value: i64) -> (r: ServerSession)
        requires
            value >= 0,
        ensures
            r.inner.expires_in_secs == Some(value as u64),
            r.inner == (ServerSessionInner {
                expires_in_secs: Some(value as u64),
                ..self.inner
            }),
            r.timeout_minutes == self.timeout_minutes,
    {
        let mut s = self;
        s.inner.expires_in_secs = Some(value as u64);
        s
    }

    /// Chooses the store's default inactivity timeout, in minutes.
    pub fn set_timeout(self, minutes: u64) -> (r: ServerSession)
        requires
            0 < minutes <= 0x7FFF_FFFF,
        ensures
            r.timeout_minutes == Some(minutes),
            r.inner == self.inner,
    {
        let mut s = self;
        s.timeout_minutes = Some(minutes);
        s
    }

    /// The cookie codec this configuration describes.
    pub fn codec(&self) -> (r: &ServerSessionInner)
        ensures
            r == self.inner,
    {
        &self.inner
    }

    /// The chosen store default timeout, if any.
    pub fn timeout_minutes(&self) -> (r: Option<u64>)
        ensures
            r == self.timeout_minutes,
    {
        self.timeout_minutes
    }
}

/// Request entry: resolves the inbound cookie value to an identifier and a
/// seeded session handle. A request whose cookie is missing, fails
/// verification, or names no live stored state gets a fresh identifier and
/// an empty state with the store's default timeout.
pub fn on_request(
    inner: &ServerSessionInner,
    store: &ServerSessionState,
    cookie_val: Option<&String>,
    now_ms: u64,
) -> (r: (bool, String, Session))
    requires
        inner.wf(),
        store.wf(),
    ensures
        valid_id(r.1@),
        r.2.wf(),
        r.2.status() == SessionStatus::Unchanged,
        r.2.model().last_use_ms == now_ms,
        !r.0 ==> {
            &&& inner.accepts(offered_view(cookie_val)) == Some(r.1@)
            &&& store_model(store, r.1@) matches Some(m) && r.2.kv() == m.kv()
                && r.2.model().timeout_ms == m.timeout_ms
        },
        inner.accepts(offered_view(cookie_val)) matches Some(v) ==> (store_model(
            store,
            v,
        ) is Some ==> !r.0 && r.1@ == v),
        r.0 ==> {
            ||| r.2.kv() == Map::<Seq<char>, Seq<char>>::empty() && r.2.model().timeout_ms
                == store.default_timeout_ms()
            ||| store_model(store, r.1@) matches Some(m) && r.2.kv() == m.kv()
                && r.2.model().timeout_ms == m.timeout_ms
        },
        r.0 && store_model(store, r.1@) is None ==> r.2.kv() == Map::<
            Seq<char>,
            Seq<char>,
        >::empty() && r.2.model().timeout_ms == store.default_timeout_ms(),
{
    let (is_new0, id0) = inner.get_session_id(cookie_val);
    match store.get_state(id0.as_str()) {
        Some(st) => {
            let mut session = Session::new(SEED_TIMEOUT_MS, now_ms);
            proof {
                assert(Map::<Seq<char>, Seq<char>>::empty().union_prefer_right(st@.kv())
                    =~= st@.kv());
            }
            session.set_session(st);
            (is_new0, id0, session)
        },
        None => {
            let id = inner.generate_id();
            let fresh = store.new_state(now_ms);
            let mut session = Session::new(SEED_TIMEOUT_MS, now_ms);
            proof {
                assert(Map::<Seq<char>, Seq<char>>::empty().union_prefer_right(fresh@.kv())
                    =~= fresh@.kv());
            }
            session.set_session(fresh);
            (true, id, session)
        },
    }
}

proof fn lemma_low_char_is_ascii(c: char)
    requires
        c as u32 <= 127,
    ensures
        '\0' <= c <= '\u{7f}',
{
}

/// Response exit: persists, re-issues or deletes the session, and always
/// succeeds for a well-formed identifier (its sealed form stays far below
/// the size limit). A new client gets exactly one session cookie, whose
/// sealed value opens back to the identifier and whose `Expires` leg, when
/// configured, names `now_ms` plus the configured `expiresIn`; any session
/// that is not purged is written back whole, refreshing its sliding
/// expiry; a purged session is deleted from the store and a deletion
/// cookie is appended. The returned strings are the `Set-Cookie` values to
/// append, in order.
pub fn on_response(
    inner: &ServerSessionInner,
    store: &mut ServerSessionState,
    session: &mut Session,
    is_new: bool,
    id: &String,
    now_ms: u64,
) -> (r: Result<Vec<String>, CookieSessionError>)
    requires
        inner.wf(),
        old(store).wf(),
        old(session).wf(),
        valid_id(id@),
    ensures
        final(store).wf(),
        final(session).wf(),
        r is Ok,
        final(session).status() == old(session).status(),
        final(session).kv() == Map::<Seq<char>, Seq<char>>::empty(),
        r matches Ok(headers) ==> {
            &&& old(session).status() != SessionStatus::Purged ==> {
                &&& final(store).smap() == old(store).smap().insert(
                    id@,
                    spec_encode(old(session).model()),
                )
                &&& spec_decode(spec_encode(old(session).model())) == Some(
                    old(session).model(),
                )
                &&& headers@.len() == (if is_new {
                    1int
                } else {
                    0int
                })
            }
            &&& old(session).status() == SessionStatus::Purged ==> {
                &&& final(store).smap() == old(store).smap().remove(id@)
                &&& headers@.len() == (if is_new {
                    2int
                } else {
                    1int
                })
                &&& headers@.last()@ == inner.remove_cookie_chars()
            }
            &&& is_new ==> {
                &&& inner.security is Signed ==> {
                    &&& headers@[0]@ == inner.set_cookie_chars(
                        signed_seal_of(inner.key@, id@),
                        inner.expiry_view(now_ms),
                    )
                    &&& inner.open_of(signed_seal_of(inner.key@, id@)) == Some(id@)
                }
                &&& inner.security is Private ==> exists|sealed: Seq<char>|
                    #[trigger] inner.open_of(sealed) == Some(id@) && headers@[0]@
                        == inner.set_cookie_chars(sealed, inner.expiry_view(now_ms))
            }
        },
{
    let mut headers: Vec<String> = Vec::new();
    proof {
        assert(is_ascii_chars(id@)) by {
            assert forall|i: int| 0 <= i < id@.len() implies ('\0' <= #[trigger] id@[i]
                && id@[i] <= '\u{7f}') by {
                assert(id_char(id@[i]));
                lemma_low_char_is_ascii(id@[i]);
            }
        }
        is_ascii_chars_encode_utf8(id@);
        assert(encode_utf8(id@).len() == 32);
    }
    if is_new {
        match inner.set_cookie(id.as_str(), now_ms) {
            Ok(Some(h)) => { headers.push(h) },
            Ok(None) => {},
            Err(e) => { return Err(e) },
        }
    }
    let changes = session.get_changes();
    let status = changes.0;
    let state = changes.1;
    match status {
        SessionStatus::Purged => {
            headers.push(inner.remove_cookie());
            store.remove_state(id.as_str());
        },
        _ => {
            store.set_state(id.as_str(), &state);
        },
    }
    Ok(headers)
}



} // verus!

