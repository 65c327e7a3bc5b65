//! The state codec: a `State` is persisted in the store as a single string
//! blob. Every number and every length is written as exactly twenty decimal
//! digits, so the format needs no separators and decoding is unambiguous:
//! timeout, last-use instant, pair count, then for each pair the key length,
//! the key, the value length and the value. Decoding accepts exactly the
//! well-formed encodings and hands anything else back as `None`.
use vstd::prelude::*;
use vstd::assert_seqs_equal;
use vstd::string::StrSliceExecFns;
use crate::digits::lemma_parse_padded_of_padded;
use crate::digits::lemma_u64_fits_twenty_digits;
use crate::digits::padded_dec;
use crate::digits::parse_pad;
use crate::digits::parse_padded;
use crate::digits::push_padded;
use crate::kvmap::StrMap;
use crate::kvmap::lemma_pairs_map_contains;
use crate::server_session_state::State;
use crate::server_session_state::StateModel;
use crate::server_session_state::pair_views;
use crate::server_session_state::views_distinct;

verus! {

broadcast use crate::digits::lemma_padded_dec_len;

/// Fits in a `u64`, so its twenty-digit rendering is parsed back exactly.
pub open spec fn fits(n: int) -> bool {
    0 <= n <= 0xFFFF_FFFF_FFFF_FFFFu64
}

pub open spec fn bounded_pairs(ps: Seq<(Seq<char>, Seq<char>)>) -> bool {
    forall|i: int|
        0 <= i < ps.len() ==> fits((#[trigger] ps[i]).0.len() as int) && fits(
            ps[i].1.len() as int,
        )
}

pub open spec fn model_bounded(m: StateModel) -> bool {
    fits(m.pairs.len() as int) && bounded_pairs(m.pairs)
}

pub open spec fn enc_pair(p: (Seq<char>, Seq<char>)) -> Seq<char> {
    padded_dec(p.0.len() as int, 20) + p.0 + padded_dec(p.1.len() as int, 20) + p.1
}

pub open spec fn enc_pairs(ps: Seq<(Seq<char>, Seq<char>)>) -> Seq<char>
    decreases ps.len(),
{
    if ps.len() == 0 {
        Seq::<char>::empty()
    } else {
        enc_pair(ps.first()) + enc_pairs(ps.drop_first())
    }
}

/// The blob a state model is stored as.
pub open spec fn spec_encode(m: StateModel) -> Seq<char> {
    padded_dec(m.timeout_ms as int, 20) + padded_dec(m.last_use_ms as int, 20) + padded_dec(
        m.pairs.len() as int,
        20,
    ) + enc_pairs(m.pairs)
}

/// The number held in the twenty characters of `s` at `pos`, if they are
/// there, are digits, and denote no more than a `u64`.
pub open spec fn dec_num(s: Seq<char>, pos: int) -> Option<u64> {
    if 0 <= pos && pos + 20 <= s.len() {
        match parse_padded(s.subrange(pos, pos + 20)) {
            Some(v) => if v <= u64::MAX {
                Some(v as u64)
            } else {
                None
            },
            None => None,
        }
    } else {
        None
    }
}

/// Reads `n` length-prefixed pairs starting at `pos`; returns them and the
/// position just past them.
pub open spec fn dec_pairs(s: Seq<char>, pos: int, n: int) -> Option<
    (Seq<(Seq<char>, Seq<char>)>, int),
>
    decreases n,
{
    if n <= 0 {
        if n == 0 {
            Some((Seq::<(Seq<char>, Seq<char>)>::empty(), pos))
        } else {
            None
        }
    } else {
        match dec_num(s, pos) {
            Some(kl) => {
                let kstart = pos + 20;
                if kstart + kl <= s.len() {
                    let k = s.subrange(kstart, kstart + kl);
                    match dec_num(s, kstart + kl) {
                        Some(vl) => {
                            let vstart = kstart + kl + 20;
                            if vstart + vl <= s.len() {
                                let v = s.subrange(vstart, vstart + vl);
                                match dec_pairs(s, vstart + vl, n - 1) {
                                    Some(pr) => Some((seq![(k, v)] + pr.0, pr.1)),
                                    None => None,
                                }
                            } else {
                                None
                            }
                        },
                        None => None,
                    }
                } else {
                    None
                }
            },
            None => None,
        }
    }
}

/// The model a blob denotes, if any: the decoder accepts exactly the
/// blobs that are an encoding of a well-formed model with distinct keys,
/// with nothing left over.
pub open spec fn spec_decode(s: Seq<char>) -> Option<StateModel> {
    match dec_num(s, 0) {
        Some(t) => match dec_num(s, 20) {
            Some(lu) => match dec_num(s, 40) {
                Some(n) => if t == 0 {
                    None
                } else {
                    match dec_pairs(s, 60, n as int) {
                        Some(pr) => if pr.1 == s.len() && views_distinct(pr.0) {
                            Some(StateModel { timeout_ms: t, last_use_ms: lu, pairs: pr.0 })
                        } else {
                            None
                        },
                        None => None,
                    }
                },
                None => None,
            },
            None => None,
        },
        None => None,
    }
}

pub proof fn lemma_enc_pairs_snoc(ps: Seq<(Seq<char>, Seq<char>)>, p: (Seq<char>, Seq<char>))
    ensures
        enc_pairs(ps.push(p)) == enc_pairs(ps) + enc_pair(p),
    decreases ps.len(),
{
    let q = ps.push(p);
    assert(enc_pairs(q) == enc_pair(q.first()) + enc_pairs(q.drop_first()));
    if ps.len() == 0 {
        assert(q.first() == p);
        assert(q.drop_first().len() == 0);
        assert(enc_pairs(q.drop_first()) == Seq::<char>::empty());
        assert(enc_pairs(ps) == Seq::<char>::empty());
        assert(enc_pair(p) + Seq::<char>::empty() =~= Seq::<char>::empty() + enc_pair(p));
    } else {
        assert(q.first() == ps.first());
        assert(q.drop_first() =~= ps.drop_first().push(p));
        lemma_enc_pairs_snoc(ps.drop_first(), p);
        assert(enc_pairs(q.drop_first()) == enc_pairs(ps.drop_first()) + enc_pair(p));
        assert(enc_pairs(ps) == enc_pair(ps.first()) + enc_pairs(ps.drop_first()));
        assert(enc_pair(ps.first()) + (enc_pairs(ps.drop_first()) + enc_pair(p)) =~= (enc_pair(
            ps.first(),
        ) + enc_pairs(ps.drop_first())) + enc_pair(p));
    }
}

pub proof fn lemma_dec_pairs_of_enc(s: Seq<char>, pos: int, ps: Seq<(Seq<char>, Seq<char>)>)
    requires
        0 <= pos,
        pos + enc_pairs(ps).len() <= s.len(),
        s.subrange(pos, pos + enc_pairs(ps).len() as int) == enc_pairs(ps),
        bounded_pairs(ps),
        fits(ps.len() as int),
    ensures
        dec_pairs(s, pos, ps.len() as int) == Some((ps, pos + enc_pairs(ps).len() as int)),
    decreases ps.len(),
{
    lemma_u64_fits_twenty_digits();
    if ps.len() == 0 {
        assert(ps =~= Seq::<(Seq<char>, Seq<char>)>::empty());
    } else {
        let p = ps.first();
        let rest = ps.drop_first();
        let kl = p.0.len() as int;
        let vl = p.1.len() as int;
        let e = enc_pairs(ps);
        assert(e == enc_pair(p) + enc_pairs(rest));
        assert(enc_pair(p).len() == 40 + kl + vl);
        assert(e.len() == 40 + kl + vl + enc_pairs(rest).len());
        assert(forall|j: int|
            0 <= j < e.len() ==> s.subrange(pos, pos + e.len() as int)[j] == e[j]);
        assert(forall|j: int| 0 <= j < e.len() ==> s[pos + j] == e[j]);
        assert(forall|j: int|
            0 <= j < e.len() ==> e[j] == (enc_pair(p) + enc_pairs(rest))[j]);
        assert(forall|j: int|
            0 <= j < enc_pair(p).len() ==> enc_pair(p)[j] == (padded_dec(kl, 20) + p.0
                + padded_dec(vl, 20) + p.1)[j]);
        // the key length
        assert(s.subrange(pos, pos + 20) =~= padded_dec(kl, 20));
        lemma_parse_padded_of_padded(kl, 20);
        assert(dec_num(s, pos) == Some(kl as u64));
        // the key
        assert_seqs_equal!(s.subrange(pos + 20, pos + 20 + kl) == p.0, i => {
            assert(s.subrange(pos + 20, pos + 20 + kl)[i] == s[pos + (20 + i)]);
            assert(s[pos + (20 + i)] == e[20 + i]);
            assert(e[20 + i] == enc_pair(p)[20 + i]);
            assert(enc_pair(p)[20 + i] == p.0[i]);
        });
        // the value length
        assert_seqs_equal!(s.subrange(pos + 20 + kl, pos + 40 + kl) == padded_dec(vl, 20), i => {
            assert(s.subrange(pos + 20 + kl, pos + 40 + kl)[i] == s[pos + (20 + kl + i)]);
            assert(s[pos + (20 + kl + i)] == e[20 + kl + i]);
            assert(e[20 + kl + i] == enc_pair(p)[20 + kl + i]);
            assert(enc_pair(p)[20 + kl + i] == padded_dec(vl, 20)[i]);
        });
        lemma_parse_padded_of_padded(vl, 20);
        assert(dec_num(s, pos + 20 + kl) == Some(vl as u64));
        // the value
        assert_seqs_equal!(s.subrange(pos + 40 + kl, pos + 40 + kl + vl) == p.1, i => {
            assert(s.subrange(pos + 40 + kl, pos + 40 + kl + vl)[i] == s[pos + (40 + kl + i)]);
            assert(s[pos + (40 + kl + i)] == e[40 + kl + i]);
            assert(e[40 + kl + i] == enc_pair(p)[40 + kl + i]);
            assert(enc_pair(p)[40 + kl + i] == p.1[i]);
        });
        // the remaining pairs
        let pos2 = pos + 40 + kl + vl;
        assert_seqs_equal!(s.subrange(pos2, pos2 + enc_pairs(rest).len() as int) == enc_pairs(rest), i => {
            assert(s.subrange(pos2, pos2 + enc_pairs(rest).len() as int)[i] == s[pos + (40 + kl + vl + i)]);
            assert(s[pos + (40 + kl + vl + i)] == e[40 + kl + vl + i]);
            assert(e[40 + kl + vl + i] == enc_pairs(rest)[i]);
        });
        assert(bounded_pairs(rest)) by {
            assert(forall|i: int| 0 <= i < rest.len() ==> rest[i] == ps[i + 1]);
        }
        lemma_dec_pairs_of_enc(s, pos2, rest);
        assert(dec_pairs(s, pos2, rest.len() as int) == Some(
            (rest, pos2 + enc_pairs(rest).len() as int),
        ));
        assert(seq![(p.0, p.1)] + rest =~= ps);
        assert((p.0, p.1) == p);
        assert(dec_pairs(s, pos, ps.len() as int) == Some(
            (ps, pos + enc_pairs(ps).len() as int),
        ));
    }
}

/// Round trip: a well-formed, bounded model's encoding decodes to the model
/// itself. Stored blobs are therefore never lost to the decoder.
pub proof fn lemma_decode_of_encode(m: StateModel)
    requires
        m.wf(),
        model_bounded(m),
        views_distinct(m.pairs),
    ensures
        spec_decode(spec_encode(m)) == Some(m),
{
    let s = spec_encode(m);
    let e = enc_pairs(m.pairs);
    lemma_u64_fits_twenty_digits();
    assert(forall|j: int|
        0 <= j < s.len() ==> s[j] == (padded_dec(m.timeout_ms as int, 20) + padded_dec(
            m.last_use_ms as int,
            20,
        ) + padded_dec(m.pairs.len() as int, 20) + e)[j]);
    assert(s.len() == 60 + e.len());
    assert(s.subrange(0, 20) =~= padded_dec(m.timeout_ms as int, 20));
    lemma_parse_padded_of_padded(m.timeout_ms as int, 20);
    assert(s.subrange(20, 40) =~= padded_dec(m.last_use_ms as int, 20));
    lemma_parse_padded_of_padded(m.last_use_ms as int, 20);
    assert(s.subrange(40, 60) =~= padded_dec(m.pairs.len() as int, 20));
    lemma_parse_padded_of_padded(m.pairs.len() as int, 20);
    assert(dec_num(s, 0) == Some(m.timeout_ms));
    assert(dec_num(s, 20) == Some(m.last_use_ms));
    assert(dec_num(s, 40) == Some(m.pairs.len() as u64));
    assert(s.subrange(60, 60 + e.len() as int) =~= e);
    lemma_dec_pairs_of_enc(s, 60, m.pairs);
    assert(dec_pairs(s, 60, m.pairs.len() as int) == Some((m.pairs, 60 + e.len() as int)));
    assert(spec_decode(s) == Some(m));
}

fn usize_u64(x: usize) -> (r: u64)
    ensures
        r as int == x as int,
{
    x as u64
}

/// Writes `st` as a blob.
pub fn encode_state(st: &State) -> (r: String)
    requires
        st.wf(),
    ensures
        r@ == spec_encode(st@),
        model_bounded(st@),
        views_distinct(st@.pairs),
{
    let mut out = String::new();
    push_padded(&mut out, st.timeout_ms, 20);
    push_padded(&mut out, st.last_use_ms, 20);
    let n = st.value.num_pairs();
    push_padded(&mut out, usize_u64(n), 20);
    let ghost header = out@;
    let ghost pv = pair_views(st.value.entries());
    proof {
        assert(pv.take(0) =~= Seq::<(Seq<char>, Seq<char>)>::empty());
        assert(out@ =~= header + enc_pairs(pv.take(0)));
    }
    let mut i: usize = 0;
    while i < n
        invariant
            n == st.value.entries().len(),
            st.wf(),
            pv == pair_views(st.value.entries()),
            header == padded_dec(st@.timeout_ms as int, 20) + padded_dec(
                st@.last_use_ms as int,
                20,
            ) + padded_dec(pv.len() as int, 20),
            i <= n,
            out@ == header + enc_pairs(pv.take(i as int)),
            forall|j: int|
                0 <= j < i ==> fits((#[trigger] pv[j]).0.len() as int) && fits(
                    pv[j].1.len() as int,
                ),
        decreases n - i,
    {
        let p = st.value.pair_at(i);
        let klen = p.0.as_str().unicode_len();
        push_padded(&mut out, usize_u64(klen), 20);
        out.append(p.0.as_str());
        let vlen = p.1.as_str().unicode_len();
        push_padded(&mut out, usize_u64(vlen), 20);
        out.append(p.1.as_str());
        proof {
            assert(pv[i as int] == (p.0@, p.1@));
            assert(pv.take(i + 1) =~= pv.take(i as int).push(pv[i as int]));
            lemma_enc_pairs_snoc(pv.take(i as int), pv[i as int]);
            assert(out@ =~= header + enc_pairs(pv.take(i + 1)));
        }
        i = i + 1;
    }
    proof {
        assert(pv.take(n as int) =~= pv);
        assert(st@.pairs == pv);
        assert(out@ =~= spec_encode(st@));
    }
    out
}

/// Reads `n` length-prefixed pairs of `s` starting at `pos` into `acc`.
fn read_pairs(s: &str, len: usize, pos: usize, n: u64, acc: &mut Vec<(String, String)>) -> (r:
    Option<usize>)
    requires
        len == s@.len(),
        pos <= len,
    ensures
        dec_pairs(s@, pos as int, n as int) is None ==> r is None,
        dec_pairs(s@, pos as int, n as int) matches Some(pr) ==> {
            &&& r matches Some(e) && e as int == pr.1
            &&& pair_views(final(acc)@) == pair_views(old(acc)@) + pr.0
            &&& final(acc)@.len() == old(acc)@.len() + pr.0.len()
        },
    decreases n,
{
    if n == 0 {
        proof {
            assert(pair_views(acc@) + Seq::<(Seq<char>, Seq<char>)>::empty() =~= pair_views(
                acc@,
            ));
        }
        return Some(pos);
    }
    if len - pos < 20 {
        return None;
    }
    let kl = match parse_pad(s, pos, 20) {
        None => { return None },
        Some(v) => v,
    };
    let kpos = pos + 20;
    if kl > usize_u64(len - kpos) {
        return None;
    }
    let klu = kl as usize;
    proof {
        assert(klu as int == kl as int);
    }
    let key = s.substring_char(kpos, kpos + klu).to_owned();
    let npos = kpos + klu;
    if len - npos < 20 {
        return None;
    }
    let vl = match parse_pad(s, npos, 20) {
        None => { return None },
        Some(v) => v,
    };
    let vstart = npos + 20;
    if vl > usize_u64(len - vstart) {
        return None;
    }
    let vlu = vl as usize;
    proof {
        assert(vlu as int == vl as int);
    }
    let value = s.substring_char(vstart, vstart + vlu).to_owned();
    let ghost mid = acc@;
    acc.push((key, value));
    proof {
        assert(pair_views(acc@) =~= pair_views(mid).push((key@, value@)));
    }
    let next = vstart + vlu;
    let r2 = read_pairs(s, len, next, n - 1, acc);
    proof {
        match dec_pairs(s@, next as int, n - 1) {
            Some(rr) => {
                assert(pair_views(mid).push((key@, value@)) + rr.0 =~= pair_views(mid) + (seq![
                    (key@, value@),
                ] + rr.0));
            },
            None => {},
        }
    }
    r2
}

/// Reads a blob back into a `State`; `None` on anything that is not a
/// well-formed encoding.
#[verifier::loop_isolation(false)]
pub fn decode_state(s: &str) -> (r: Option<State>)
    ensures
        spec_decode(s@) is None ==> r is None,
        spec_decode(s@) matches Some(m) ==> r matches Some(st) && st.wf() && st@ == m,
{
    let len = s.unicode_len();
    if len < 60 {
        return None;
    }
    let t = match parse_pad(s, 0, 20) {
        None => { return None },
        Some(v) => v,
    };
    let lu = match parse_pad(s, 20, 20) {
        None => { return None },
        Some(v) => v,
    };
    let n = match parse_pad(s, 40, 20) {
        None => { return None },
        Some(v) => v,
    };
    if t == 0 {
        return None;
    }
    let mut pairs: Vec<(String, String)> = Vec::new();
    let end = match read_pairs(s, len, 60, n, &mut pairs) {
        None => { return None },
        Some(e) => e,
    };
    if end != len {
        return None;
    }
    let ghost pr = dec_pairs(s@, 60, n as int)->Some_0;
    proof {
        assert(pair_views(Seq::<(String, String)>::empty()) + pr.0 =~= pr.0);
        assert(pair_views(pairs@) == pr.0);
    }
    let mut map = StrMap::new();
    let mut i: usize = 0;
    while i < pairs.len()
        invariant
            map.wf(),
            pair_views(pairs@) == pr.0,
            pairs@.len() == pr.0.len(),
            i <= pairs@.len(),
            map.entries() == pairs@.take(i as int),
        decreases pairs@.len() - i,
    {
        if map.contains_key(pairs[i].0.as_str()) {
            proof {
                lemma_pairs_map_contains(map.entries(), pairs@[i as int].0@);
                let j = choose|j: int|
                    0 <= j < map.entries().len() && map.entries()[j].0@ == pairs@[i as int].0@;
                assert(pr.0[j].0 == pr.0[i as int].0);
                assert(!views_distinct(pr.0));
            }
            return None;
        }
        let kc = pairs[i].0.clone();
        let vc = pairs[i].1.clone();
        proof {
            assert(!map@.contains_key(kc@));
            assert(pairs@.take(i + 1) =~= pairs@.take(i as int).push(pairs@[i as int]));
        }
        map.insert(kc, vc);
        i = i + 1;
    }
    proof {
        assert(pairs@.take(pairs@.len() as int) =~= pairs@);
        assert(pair_views(map.entries()) == pr.0);
        assert(views_distinct(pr.0)) by {
            assert(forall|a: int, b: int|
                0 <= a < b < pr.0.len() ==> pr.0[a].0 == map.entries()[a].0@ && pr.0[b].0
                    == map.entries()[b].0@);
        }
    }
    let st = State { value: map, timeout_ms: t, last_use_ms: lu };
    proof {
        assert(st@.pairs == pr.0);
        assert(spec_decode(s@) == Some(st@));
    }
    Some(st)
}

} // verus!
