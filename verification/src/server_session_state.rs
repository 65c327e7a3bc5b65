//! Per-session state: a bag of key/value pairs with an inactivity timeout
//! and a last-use instant, plus the process-wide store that maps session
//! identifiers to encoded state blobs.
use vstd::prelude::*;
use vstd::string::StringExecFns;
use crate::blob::decode_state;
use crate::blob::encode_state;
use crate::blob::lemma_decode_of_encode;
use crate::blob::spec_decode;
use crate::blob::spec_encode;
use crate::kvmap::StrMap;
use crate::kvmap::lemma_pairs_map_contains;
use crate::kvmap::lemma_pairs_map_value;
use crate::kvmap::pairs_map;

verus! {

/// Mathematical content of a `State`: the key/value pairs in order, and the
/// inactivity timeout and last-use instant, both in milliseconds.
pub ghost struct StateModel {
    pub timeout_ms: u64,
    pub last_use_ms: u64,
    pub pairs: Seq<(Seq<char>, Seq<char>)>,
}

/// The map denoted by a sequence of key/value views; later pairs win.
pub open spec fn views_map(s: Seq<(Seq<char>, Seq<char>)>) -> Map<Seq<char>, Seq<char>>
    decreases s.len(),
{
    if s.len() == 0 {
        Map::<Seq<char>, Seq<char>>::empty()
    } else {
        views_map(s.drop_last()).insert(s.last().0, s.last().1)
    }
}

/// The views of a sequence of owned pairs.
pub open spec fn pair_views(s: Seq<(String, String)>) -> Seq<(Seq<char>, Seq<char>)> {
    s.map_values(|p: (String, String)| (p.0@, p.1@))
}

/// No two pairs carry the same key.
pub open spec fn views_distinct(s: Seq<(Seq<char>, Seq<char>)>) -> bool {
    forall|i: int, j: int| 0 <= i < j < s.len() ==> s[i].0 != s[j].0
}

pub proof fn lemma_views_map_of_entries(s: Seq<(String, String)>)
    ensures
        views_map(pair_views(s)) == pairs_map(s),
    decreases s.len(),
{
    if s.len() == 0 {
        assert(pair_views(s) =~= Seq::<(Seq<char>, Seq<char>)>::empty());
    } else {
        lemma_views_map_of_entries(s.drop_last());
        assert(pair_views(s).drop_last() =~= pair_views(s.drop_last()));
        assert(pair_views(s).last() == (s.last().0@, s.last().1@));
    }
}

impl StateModel {
    /// The key/value map this model denotes.
    pub open spec fn kv(&self) -> Map<Seq<char>, Seq<char>> {
        views_map(self.pairs)
    }

    /// Expiry rule: strictly more than `timeout_ms` of inactivity.
    pub open spec fn expired_at(&self, now_ms: u64) -> bool {
        now_ms > self.last_use_ms + self.timeout_ms
    }

    pub open spec fn wf(&self) -> bool {
        self.timeout_ms > 0
    }
}

/// One session's state: key/value pairs, an inactivity timeout and the
/// instant of last use.
pub struct State {
    pub(crate) value: StrMap,
    pub(crate) timeout_ms: u64,
    pub(crate) last_use_ms: u64,
}

impl View for State {
    type V = StateModel;

    open(crate) spec fn view(&self) -> StateModel {
        StateModel {
            timeout_ms: self.timeout_ms,
            last_use_ms: self.last_use_ms,
            pairs: pair_views(self.value.entries()),
        }
    }
}

impl State {
    pub open(crate) spec fn wf(&self) -> bool {
        self.timeout_ms > 0 && self.value.wf()
    }

    /// A fresh state, last used now, with no values.
    pub fn new(timeout_ms: u64, now_ms: u64) -> (r: State)
        requires
            timeout_ms > 0,
        ensures
            r.wf(),
            r@.timeout_ms == timeout_ms,
            r@.last_use_ms == now_ms,
            r@.pairs == Seq::<(Seq<char>, Seq<char>)>::empty(),
            r@.kv() == Map::<Seq<char>, Seq<char>>::empty(),
    {
        let r = State { value: StrMap::new(), timeout_ms, last_use_ms: now_ms };
        proof {
            assert(r@.pairs =~= Seq::<(Seq<char>, Seq<char>)>::empty());
        }
        r
    }

    pub fn get<'a>(&'a self, key: &str) -> (r: Option<&'a String>)
        requires
            self.wf(),
        ensures
            match r {
                Some(v) => self@.kv().contains_key(key@) && v@ == self@.kv()[key@],
                None => !self@.kv().contains_key(key@),
            },
    {
        proof {
            lemma_views_map_of_entries(self.value.entries());
        }
        self.value.get(key)
    }

    pub fn set(&mut self, key: &str, value: String)
        requires
            old(self).wf(),
        ensures
            final(self).wf(),
            final(self)@.kv() == old(self)@.kv().insert(key@, value@),
            final(self)@.timeout_ms == old(self)@.timeout_ms,
            final(self)@.last_use_ms == old(self)@.last_use_ms,
    {
        proof {
            lemma_views_map_of_entries(self.value.entries());
        }
        let ks = String::from_str(key);
        self.value.insert(ks, value);
        proof {
            lemma_views_map_of_entries(self.value.entries());
        }
    }

    pub fn remove(&mut self, key: &str)
        requires
            old(self).wf(),
        ensures
            final(self).wf(),
            final(self)@.kv() == old(self)@.kv().remove(key@),
            final(self)@.timeout_ms == old(self)@.timeout_ms,
            final(self)@.last_use_ms == old(self)@.last_use_ms,
    {
        proof {
            lemma_views_map_of_entries(self.value.entries());
        }
        self.value.remove(key);
        proof {
            lemma_views_map_of_entries(self.value.entries());
        }
    }

    pub fn clear(&mut self)
        requires
            old(self).wf(),
        ensures
            final(self).wf(),
            final(self)@.kv() == Map::<Seq<char>, Seq<char>>::empty(),
            final(self)@.timeout_ms == old(self)@.timeout_ms,
            final(self)@.last_use_ms == old(self)@.last_use_ms,
    {
        self.value.clear();
        proof {
            lemma_views_map_of_entries(self.value.entries());
        }
    }

    /// Adds every pair of `data`, overwriting equal keys; the timeout and
    /// last-use instant stay.
    pub fn extend(&mut self, data: State)
        requires
            old(self).wf(),
            data.wf(),
        ensures
            final(self).wf(),
            final(self)@.kv() == old(self)@.kv().union_prefer_right(data@.kv()),
            final(self)@.timeout_ms == old(self)@.timeout_ms,
            final(self)@.last_use_ms == old(self)@.last_use_ms,
    {
        proof {
            lemma_views_map_of_entries(self.value.entries());
            lemma_views_map_of_entries(data.value.entries());
        }
        self.value.extend_from(data.value);
        proof {
            lemma_views_map_of_entries(self.value.entries());
        }
    }

    pub fn update_timeout(&mut self, timeout_ms: u64)
        requires
            old(self).wf(),
            timeout_ms > 0,
        ensures
            final(self).wf(),
            final(self)@.timeout_ms == timeout_ms,
            final(self)@.last_use_ms == old(self)@.last_use_ms,
            final(self)@.pairs == old(self)@.pairs,
    {
        self.timeout_ms = timeout_ms;
    }

    pub fn timeout(&self) -> (r: u64)
        ensures
            r == self@.timeout_ms,
    {
        self.timeout_ms
    }

    pub fn update_last_use_time(&mut self, now_ms: u64)
        requires
            old(self).wf(),
        ensures
            final(self).wf(),
            final(self)@.last_use_ms == now_ms,
            final(self)@.timeout_ms == old(self)@.timeout_ms,
            final(self)@.pairs == old(self)@.pairs,
    {
        self.last_use_ms = now_ms;
    }

    /// True exactly when more than the timeout has passed since last use.
    pub fn is_expired(&self, now_ms: u64) -> (r: bool)
        ensures
            r == self@.expired_at(now_ms),
    {
        (now_ms as u128) > (self.last_use_ms as u128) + (self.timeout_ms as u128)
    }
}


/// Whether a stored blob is to be kept at `now_ms`: it decodes and the
/// decoded state is not expired. An undecodable blob counts as expired.
pub open spec fn keep_blob(blob: Seq<char>, now_ms: u64) -> bool {
    match spec_decode(blob) {
        Some(m) => !m.expired_at(now_ms),
        None => false,
    }
}

/// The process-wide session store: session id to encoded state blob, plus
/// the default timeout handed to fresh states and the reaper's started flag.
pub struct ServerSessionState {
    pub(crate) state: StrMap,
    pub(crate) timeout_ms: u64,
    pub(crate) started: bool,
}

impl ServerSessionState {
    /// The map from session id to stored blob.
    pub open(crate) spec fn smap(&self) -> Map<Seq<char>, Seq<char>> {
        self.state@
    }

    pub open(crate) spec fn wf(&self) -> bool {
        self.state.wf() && self.timeout_ms > 0
    }

    pub open(crate) spec fn default_timeout_ms(&self) -> u64 {
        self.timeout_ms
    }

    pub open(crate) spec fn is_started(&self) -> bool {
        self.started
    }

    /// An empty store with the half-hour default timeout, not yet started.
    pub fn new() -> (r: ServerSessionState)
        ensures
            r.wf(),
            r.smap() == Map::<Seq<char>, Seq<char>>::empty(),
            r.default_timeout_ms() == 1800000,
            !r.is_started(),
    {
        ServerSessionState { state: StrMap::new(), timeout_ms: 1800000, started: false }
    }

    /// Marks the store started. Reports whether the caller is to launch the
    /// periodic reaper: true exactly on the first call, so the reaper is
    /// launched once per store however often this is called.
    pub fn start(&mut self) -> (launch: bool)
        requires
            old(self).wf(),
        ensures
            final(self).wf(),
            launch == !old(self).is_started(),
            final(self).is_started(),
            final(self).smap() == old(self).smap(),
            final(self).default_timeout_ms() == old(self).default_timeout_ms(),
    {
        let launch = !self.started;
        self.started = true;
        launch
    }

    /// The state stored under `key`, if the key is known and its blob
    /// decodes; an undecodable blob is handed back as no session at all.
    pub fn get_state(&self, key: &str) -> (r: Option<State>)
        requires
            self.wf(),
        ensures
            r matches Some(st) ==> st.wf() && self.smap().contains_key(key@) && spec_decode(
                self.smap()[key@],
            ) == Some(st@),
            r is None ==> !self.smap().contains_key(key@) || spec_decode(self.smap()[key@])
                is None,
    {
        match self.state.get(key) {
            Some(blob) => decode_state(blob.as_str()),
            None => None,
        }
    }

    /// A fresh state carrying the store's current default timeout.
    pub fn new_state(&self, now_ms: u64) -> (r: State)
        requires
            self.wf(),
        ensures
            r.wf(),
            r@.timeout_ms == self.default_timeout_ms(),
            r@.last_use_ms == now_ms,
            r@.pairs == Seq::<(Seq<char>, Seq<char>)>::empty(),
            r@.kv() == Map::<Seq<char>, Seq<char>>::empty(),
    {
        State::new(self.timeout_ms, now_ms)
    }

    /// Upsert: stores `st` under `key`. The stored blob decodes back to
    /// exactly `st`'s model, so a later load loses nothing.
    pub fn set_state(&mut self, key: &str, st: &State)
        requires
            old(self).wf(),
            st.wf(),
        ensures
            final(self).wf(),
            final(self).smap() == old(self).smap().insert(key@, spec_encode(st@)),
            spec_decode(spec_encode(st@)) == Some(st@),
            final(self).default_timeout_ms() == old(self).default_timeout_ms(),
            final(self).is_started() == old(self).is_started(),
    {
        let blob = encode_state(st);
        proof {
            lemma_decode_of_encode(st@);
        }
        let ks = String::from_str(key);
        self.state.insert(ks, blob);
    }

    /// Best-effort delete; an absent key is not an error.
    pub fn remove_state(&mut self, key: &str)
        requires
            old(self).wf(),
        ensures
            final(self).wf(),
            final(self).smap() == old(self).smap().remove(key@),
            final(self).default_timeout_ms() == old(self).default_timeout_ms(),
            final(self).is_started() == old(self).is_started(),
    {
        self.state.remove(key);
    }

    /// Replaces the default timeout handed to subsequently created states;
    /// existing entries are untouched.
    pub fn set_timeout(&mut self, minutes: u64)
        requires
            old(self).wf(),
            0 < minutes <= 0x7FFF_FFFF,
        ensures
            final(self).wf(),
            final(self).default_timeout_ms() == minutes * 60000,
            final(self).smap() == old(self).smap(),
            final(self).is_started() == old(self).is_started(),
    {
        self.timeout_ms = minutes * 60000;
    }

    /// One reaper sweep: drops exactly the entries that are expired at
    /// `now_ms` or undecodable, and leaves every other entry untouched.
    #[verifier::loop_isolation(false)]
    pub fn sweep(&mut self, now_ms: u64)
        requires
            old(self).wf(),
        ensures
            final(self).wf(),
            forall|k: Seq<char>| #[trigger]
                final(self).smap().contains_key(k) <==> old(self).smap().contains_key(k)
                    && keep_blob(old(self).smap()[k], now_ms),
            forall|k: Seq<char>| #[trigger]
                final(self).smap().contains_key(k) ==> final(self).smap()[k] == old(
                    self,
                ).smap()[k],
            final(self).default_timeout_ms() == old(self).default_timeout_ms(),
            final(self).is_started() == old(self).is_started(),
    {
        let ghost oe = self.state.entries();
        let n = self.state.num_pairs();
        let mut kept = StrMap::new();
        let mut i: usize = 0;
        while i < n
            invariant
                i <= n,
                kept.wf(),
                forall|k: Seq<char>| #[trigger]
                    kept@.contains_key(k) <==> exists|j: int|
                        0 <= j < i && oe[j].0@ == k && keep_blob(oe[j].1@, now_ms),
                forall|k: Seq<char>| #[trigger]
                    kept@.contains_key(k) ==> kept@[k] == old(self).smap()[k],
            decreases n - i,
        {
            let p = self.state.pair_at(i);
            let keep = match decode_state(p.1.as_str()) {
                Some(st) => !st.is_expired(now_ms),
                None => false,
            };
            if keep {
                let kc = p.0.clone();
                let vc = p.1.clone();
                proof {
                    lemma_pairs_map_value(oe, i as int);
                    assert(old(self).smap()[kc@] == vc@);
                }
                kept.insert(kc, vc);
                proof {
                    assert forall|k: Seq<char>| #[trigger] kept@.contains_key(k)
                        implies exists|j: int|
                            0 <= j < i + 1 && oe[j].0@ == k && keep_blob(oe[j].1@, now_ms) by {
                        if k == kc@ {
                            assert(0 <= i < i + 1 && oe[i as int].0@ == k && keep_blob(
                                oe[i as int].1@,
                                now_ms,
                            ));
                        }
                    }
                }
            } else {
                proof {
                    assert forall|k: Seq<char>|
                        (exists|j: int|
                            0 <= j < i + 1 && oe[j].0@ == k && keep_blob(
                                oe[j].1@,
                                now_ms,
                            )) implies #[trigger] kept@.contains_key(k) by {
                        let j = choose|j: int|
                            0 <= j < i + 1 && oe[j].0@ == k && keep_blob(oe[j].1@, now_ms);
                        assert(j < i);
                    }
                }
            }
            i = i + 1;
        }
        self.state = kept;
        proof {
            assert forall|k: Seq<char>| #[trigger]
                self.smap().contains_key(k) implies old(self).smap().contains_key(k)
                && keep_blob(old(self).smap()[k], now_ms) && self.smap()[k] == old(
                self,
            ).smap()[k] by {
                let j = choose|j: int| 0 <= j < n && oe[j].0@ == k && keep_blob(oe[j].1@, now_ms);
                lemma_pairs_map_contains(oe, k);
                lemma_pairs_map_value(oe, j);
            }
            assert forall|k: Seq<char>|
                old(self).smap().contains_key(k) && keep_blob(
                    old(self).smap()[k],
                    now_ms,
                ) implies #[trigger] self.smap().contains_key(k) by {
                lemma_pairs_map_contains(oe, k);
                let j = choose|j: int| 0 <= j < oe.len() && oe[j].0@ == k;
                lemma_pairs_map_value(oe, j);
                assert(0 <= j < n && oe[j].0@ == k && keep_blob(oe[j].1@, now_ms));
            }
        }
    }
}

} // verus!

