//! The cookie codec: issues and verifies the tamper-evident session
//! identifier carried in the session cookie, and renders the `Set-Cookie`
//! header values with the configured attributes.
use vstd::prelude::*;
use vstd::slice::slice_to_vec;
use vstd::string::StrSliceExecFns;
use vstd::string::StringExecFns;
use vstd::string::StringSliceAdditionalSpecFns;
use vstd::utf8::encode_utf8;
use crate::digits::dec_of;
use crate::digits::push_dec;
use crate::outside::format_rfc_date;
use crate::outside::private_open_of;
use crate::outside::random_below;
use crate::outside::rfc_date_of;
use crate::outside::seal_private;
use crate::outside::seal_signed;
use crate::outside::signed_open_of;
use crate::outside::signed_seal_of;
use crate::outside::unseal_private;
use crate::outside::unseal_signed;

verus! {

/// Failures while handling the session cookie.
#[derive(Debug)]
pub enum CookieSessionError {
    /// The encoded cookie value is larger than the codec accepts.
    Overflow,
    /// A value could not be serialized, with the serializer's words.
    Serialize(String),
}

impl CookieSessionError {
    /// A human-readable account of the failure.
    pub fn message(&self) -> (r: String)
        ensures
            self is Overflow ==> r@ == "the encoded cookie value exceeds 4064 bytes"@,
            self matches CookieSessionError::Serialize(m) ==> r@ == m@,
    {
        match self {
            CookieSessionError::Overflow => String::from_str(
                "the encoded cookie value exceeds 4064 bytes",
            ),
            CookieSessionError::Serialize(m) => m.clone(),
        }
    }
}

/// Whether cookie values are signed (readable, authenticated) or private
/// (authenticated and encrypted).
#[derive(PartialEq, Eq, Structural, Clone, Copy, Debug)]
pub enum CookieSecurity {
    Signed,
    Private,
}

/// The `SameSite` attribute value, where one is configured.
#[derive(PartialEq, Eq, Structural, Clone, Copy, Debug)]
pub enum SameSitePolicy {
    Strict,
    Lax,
    NoneSite,
}

/// A character the identifier alphabet draws from: an upper-case letter or
/// a digit.
pub open spec fn id_char(c: char) -> bool {
    (65 <= c as u32 <= 90) || (48 <= c as u32 <= 57)
}

/// A well-formed session identifier: exactly 32 alphabet characters.
pub open spec fn valid_id(s: Seq<char>) -> bool {
    s.len() == 32 && forall|i: int| 0 <= i < s.len() ==> id_char(#[trigger] s[i])
}

/// The cookie codec's configuration: name and attributes of the session
/// cookie, the master key, and the security mode.
pub struct ServerSessionInner {
    pub name: String,
    pub path: String,
    pub key: Vec<u8>,
    pub security: CookieSecurity,
    pub secure: bool,
    pub http_only: bool,
    pub lazy: bool,
    pub domain: Option<String>,
    pub max_age_secs: Option<u64>,
    pub expires_in_secs: Option<u64>,
    pub same_site: Option<SameSitePolicy>,
}

/// The characters of the `SameSite` attribute value.
pub open spec fn same_site_chars(p: SameSitePolicy) -> Seq<char> {
    match p {
        SameSitePolicy::Strict => "Strict"@,
        SameSitePolicy::Lax => "Lax"@,
        SameSitePolicy::NoneSite => "None"@,
    }
}

impl ServerSessionInner {
    pub open(crate) spec fn wf(&self) -> bool {
        self.key@.len() >= 32
    }

    /// What verifying `sealed` under this configuration yields.
    pub open(crate) spec fn open_of(&self, sealed: Seq<char>) -> Option<Seq<char>> {
        match self.security {
            CookieSecurity::Signed => signed_open_of(self.key@, sealed),
            CookieSecurity::Private => private_open_of(self.key@, self.name@, sealed),
        }
    }

    /// The byte length of the sealed form of a value of `n` UTF-8 bytes:
    /// signing prepends a 44-byte digest rendering; private sealing base64
    /// encodes the 12-byte nonce, the value and the 16-byte tag.
    pub open(crate) spec fn sealed_len_bytes(&self, n: int) -> int {
        match self.security {
            CookieSecurity::Signed => 44 + n,
            CookieSecurity::Private => 4 * ((n + 30) / 3),
        }
    }

    /// The `Expires` rendering the codec attaches when emitting at
    /// `now_ms`: present exactly when `expiresIn` is configured and the
    /// moment it names still falls in the representable date range.
    pub open(crate) spec fn expiry_view(&self, now_ms: u64) -> Option<Seq<char>> {
        match self.expires_in_secs {
            Some(s) => if now_ms / 1000 + s <= 253_402_300_799 {
                Some(rfc_date_of((now_ms / 1000 + s) as u64))
            } else {
                None
            },
            None => None,
        }
    }

    /// The identifier an offered cookie value is accepted as: it must be
    /// present, verify under the key, and have the identifier shape.
    /// Anything else counts as no session at all.
    pub open(crate) spec fn accepts(&self, offered: Option<Seq<char>>) -> Option<Seq<char>> {
        match offered {
            Some(c) => match self.open_of(c) {
                Some(v) => if valid_id(v) {
                    Some(v)
                } else {
                    None
                },
                None => None,
            },
            None => None,
        }
    }

    /// The `Set-Cookie` value for a sealed identifier under this
    /// configuration, with `date` as the optional `Expires` rendering.
    pub open(crate) spec fn set_cookie_chars(&self, sealed: Seq<char>, date: Option<Seq<char>>)
        -> Seq<char> {
        self.name@ + "="@ + sealed + "; Path="@ + self.path@ + (match self.domain {
            Some(d) => "; Domain="@ + d@,
            None => Seq::<char>::empty(),
        }) + (if self.secure {
            "; Secure"@
        } else {
            Seq::<char>::empty()
        }) + (if self.http_only {
            "; HttpOnly"@
        } else {
            Seq::<char>::empty()
        }) + (match self.same_site {
            Some(p) => "; SameSite="@ + same_site_chars(p),
            None => Seq::<char>::empty(),
        }) + (match self.max_age_secs {
            Some(a) => "; Max-Age="@ + dec_of(a as int),
            None => Seq::<char>::empty(),
        }) + (match date {
            Some(d) => "; Expires="@ + d,
            None => Seq::<char>::empty(),
        })
    }

    /// The `Set-Cookie` value that deletes the session cookie: empty value,
    /// zero `Max-Age`, expiry far in the past.
    pub open(crate) spec fn remove_cookie_chars(&self) -> Seq<char> {
        self.name@ + "="@ + "; Path="@ + self.path@
            + "; Max-Age=0; Expires=Thu, 01 Jan 1970 00:00:00 GMT"@
    }

    /// A codec with the given master key and security mode and the default
    /// cookie attributes.
    pub fn new(key: &[u8], security: CookieSecurity) -> (r: ServerSessionInner)
        requires
            key@.len() >= 32,
        ensures
            r.wf(),
            r.key@ == key@,
            r.security == security,
            r.name@ == "actix-session"@,
            r.path@ == "/"@,
            !r.lazy,
            !r.secure,
            r.http_only,
            r.domain is None,
            r.max_age_secs is None,
            r.expires_in_secs is None,
            r.same_site is None,
    {
        ServerSessionInner {
            name: String::from_str("actix-session"),
            path: String::from_str("/"),
            key: slice_to_vec(key),
            security,
            lazy: false,
            secure: false,
            http_only: true,
            domain: None,
            max_age_secs: None,
            expires_in_secs: None,
            same_site: None,
        }
    }

    /// A fresh identifier: 32 characters drawn from the alphanumeric
    /// alphabet by the cryptographically secure generator.
    #[verifier::loop_isolation(false)]
    pub fn generate_id(&self) -> (r: String)
        ensures
            valid_id(r@),
    {
        let charset = "ABCDEFGHIJKLMNOPQRSTUVWXYZ0123456789";
        proof {
            reveal_strlit("ABCDEFGHIJKLMNOPQRSTUVWXYZ0123456789");
        }
        let mut out = String::new();
        let mut i: usize = 0;
        while i < 32
            invariant
                out@.len() == i,
                i <= 32,
                forall|j: int| 0 <= j < i ==> id_char(#[trigger] out@[j]),
            decreases 32 - i,
        {
            let idx = random_below(36);
            proof {
                assert(id_char(charset@[idx as int]));
            }
            let ch = charset.substring_char(idx, idx + 1);
            out.append(ch);
            i = i + 1;
        }
        out
    }

    /// True exactly when `s` has the identifier shape.
    fn check_id(s: &String) -> (r: bool)
        ensures
            r == valid_id(s@),
    {
        let n = s.as_str().unicode_len();
        if n != 32 {
            return false;
        }
        let mut i: usize = 0;
        while i < 32
            invariant
                s@.len() == 32,
                i <= 32,
                forall|j: int| 0 <= j < i ==> id_char(#[trigger] s@[j]),
            decreases 32 - i,
        {
            let c = s.as_str().get_char(i);
            let u = c as u32;
            if !((65 <= u && u <= 90) || (48 <= u && u <= 57)) {
                return false;
            }
            i = i + 1;
        }
        true
    }

    /// Resolves the inbound cookie value, if any, to a session identifier.
    /// A missing cookie, a value that fails verification, or one without
    /// the identifier shape are all one case: no valid session, and a fresh
    /// identifier is issued with `true` as the first component.
    pub fn get_session_id(&self, cookie_val: Option<&String>) -> (r: (bool, String))
        requires
            self.wf(),
        ensures
            valid_id(r.1@),
            match cookie_val {
                Some(c) => {
                    &&& self.accepts(Some(c@)) matches Some(v) ==> !r.0 && r.1@ == v
                    &&& self.accepts(Some(c@)) is None ==> r.0
                },
                None => r.0,
            },
    {
        match cookie_val {
            Some(c) => {
                let opened = match self.security {
                    CookieSecurity::Signed => unseal_signed(self.key.as_slice(), c.as_str()),
                    CookieSecurity::Private => unseal_private(
                        self.key.as_slice(),
                        self.name.as_str(),
                        c.as_str(),
                    ),
                };
                match opened {
                    Some(v) => {
                        if Self::check_id(&v) {
                            (false, v)
                        } else {
                            (true, self.generate_id())
                        }
                    },
                    None => (true, self.generate_id()),
                }
            },
            None => (true, self.generate_id()),
        }
    }

    /// Renders the `Set-Cookie` value for an already sealed identifier;
    /// fails exactly when the sealed value runs over 4064 bytes.
    #[verifier::rlimit(100)]
    pub fn build_set_cookie(&self, sealed: &str, date: Option<&String>) -> (r: Result<
        String,
        CookieSessionError,
    >)
        ensures
            r is Err <==> sealed.spec_bytes().len() as usize > 4064,
            r matches Err(e) ==> e is Overflow,
            r matches Ok(h) ==> h@ == self.set_cookie_chars(
                sealed@,
                match date {
                    Some(d) => Some(d@),
                    None => None,
                },
            ),
    {
        if sealed.len() > 4064 {
            return Err(CookieSessionError::Overflow);
        }
        let ghost dv = match date {
            Some(d) => Some(d@),
            None => None::<Seq<char>>,
        };
        let mut out = String::new();
        out.append(self.name.as_str());
        out.append("=");
        out.append(sealed);
        out.append("; Path=");
        out.append(self.path.as_str());
        let ghost c0 = self.name@ + "="@ + sealed@ + "; Path="@ + self.path@;
        proof {
            assert(out@ =~= c0);
        }
        let ghost c1 = c0 + (if self.domain is Some {
            "; Domain="@ + self.domain->Some_0@
        } else {
            Seq::<char>::empty()
        });
        match &self.domain {
            Some(d) => {
                out.append("; Domain=");
                out.append(d.as_str());
                proof {
                    assert(out@ =~= c1);
                }
            },
            None => {
                proof {
                    assert(out@ =~= c1);
                }
            },
        }
        let ghost c2 = c1 + (if self.secure {
            "; Secure"@
        } else {
            Seq::<char>::empty()
        });
        if self.secure {
            out.append("; Secure");
        }
        proof {
            assert(out@ =~= c2);
        }
        let ghost c3 = c2 + (if self.http_only {
            "; HttpOnly"@
        } else {
            Seq::<char>::empty()
        });
        if self.http_only {
            out.append("; HttpOnly");
        }
        proof {
            assert(out@ =~= c3);
        }
        let ghost c4 = c3 + (if self.same_site is Some {
            "; SameSite="@ + same_site_chars(self.same_site->Some_0)
        } else {
            Seq::<char>::empty()
        });
        match &self.same_site {
            Some(p) => {
                out.append("; SameSite=");
                match p {
                    SameSitePolicy::Strict => out.append("Strict"),
                    SameSitePolicy::Lax => out.append("Lax"),
                    SameSitePolicy::NoneSite => out.append("None"),
                }
                proof {
                    assert(out@ =~= c4);
                }
            },
            None => {
                proof {
                    assert(out@ =~= c4);
                }
            },
        }
        let ghost c5 = c4 + (if self.max_age_secs is Some {
            "; Max-Age="@ + dec_of(self.max_age_secs->Some_0 as int)
        } else {
            Seq::<char>::empty()
        });
        match self.max_age_secs {
            Some(a) => {
                out.append("; Max-Age=");
                push_dec(&mut out, a);
                proof {
                    assert(out@ =~= c5);
                }
            },
            None => {
                proof {
                    assert(out@ =~= c5);
                }
            },
        }
        let ghost c6 = c5 + (if dv is Some {
            "; Expires="@ + dv->Some_0
        } else {
            Seq::<char>::empty()
        });
        match date {
            Some(d) => {
                out.append("; Expires=");
                out.append(d.as_str());
                proof {
                    assert(out@ =~= c6);
                }
            },
            None => {
                proof {
                    assert(out@ =~= c6);
                }
            },
        }
        proof {
            assert(out@ == self.set_cookie_chars(sealed@, dv));
        }
        Ok(out)
    }

    /// Seals `value` and renders the `Set-Cookie` value carrying it. Does
    /// nothing in lazy mode while the value is empty; fails exactly when
    /// the sealed value runs over the size limit, and otherwise returns the
    /// header for the sealed value with the configured attributes, the
    /// `Expires` leg naming `now_ms` plus the configured `expiresIn`.
    pub fn set_cookie(&self, value: &str, now_ms: u64) -> (r: Result<
        Option<String>,
        CookieSessionError,
    >)
        requires
            self.wf(),
            // the sealed, base64-expanded value must itself fit in memory
            encode_utf8(value@).len() <= usize::MAX / 8,
        ensures
            self.lazy && value@.len() == 0 ==> r == Result::<
                Option<String>,
                CookieSessionError,
            >::Ok(None),
            !(self.lazy && value@.len() == 0) ==> {
                &&& r is Err <==> self.sealed_len_bytes(encode_utf8(value@).len() as int) > 4064
                &&& r matches Err(e) ==> e is Overflow
                &&& r matches Ok(opt) ==> opt matches Some(h) && {
                    &&& self.security is Signed ==> {
                        &&& h@ == self.set_cookie_chars(
                            signed_seal_of(self.key@, value@),
                            self.expiry_view(now_ms),
                        )
                        &&& self.open_of(signed_seal_of(self.key@, value@)) == Some(value@)
                    }
                    &&& self.security is Private ==> exists|sealed: Seq<char>|
                        #[trigger] self.open_of(sealed) == Some(value@) && h@
                            == self.set_cookie_chars(sealed, self.expiry_view(now_ms))
                }
            },
    {
        if self.lazy && value.is_empty() {
            return Ok(None);
        }
        let ghost n = encode_utf8(value@).len() as int;
        let sealed = match self.security {
            CookieSecurity::Signed => seal_signed(self.key.as_slice(), value),
            CookieSecurity::Private => seal_private(
                self.key.as_slice(),
                self.name.as_str(),
                value,
            ),
        };
        proof {
            assert(encode_utf8(sealed@).len() == self.sealed_len_bytes(n));
            assert(self.sealed_len_bytes(n) <= usize::MAX) by {
                assert((n + 30) / 3 <= n + 30);
            }
        }
        let date: Option<String> = match self.expires_in_secs {
            Some(secs) => {
                match (now_ms / 1000).checked_add(secs) {
                    Some(at) => format_rfc_date(at),
                    None => None,
                }
            },
            None => None,
        };
        proof {
            assert((match date {
                Some(d) => Some(d@),
                None => None::<Seq<char>>,
            }) == self.expiry_view(now_ms));
        }
        let built = match &date {
            Some(d) => self.build_set_cookie(sealed.as_str(), Some(d)),
            None => self.build_set_cookie(sealed.as_str(), None),
        };
        match built {
            Ok(h) => {
                proof {
                    assert(self.open_of(sealed@) == Some(value@));
                    assert(h@ == self.set_cookie_chars(sealed@, self.expiry_view(now_ms)));
                }
                Ok(Some(h))
            },
            Err(e) => Err(e),
        }
    }

    /// The `Set-Cookie` value that makes the client drop the session
    /// cookie: empty value, `Max-Age=0`, and an expiry far in the past.
    pub fn remove_cookie(&self) -> (r: String)
        ensures
            r@ == self.remove_cookie_chars(),
    {
        let mut out = String::new();
        out.append(self.name.as_str());
        out.append("=");
        out.append("; Path=");
        out.append(self.path.as_str());
        out.append("; Max-Age=0; Expires=Thu, 01 Jan 1970 00:00:00 GMT");
        proof {
            assert(out@ =~= self.remove_cookie_chars());
        }
        out
    }
}

} // verus!
