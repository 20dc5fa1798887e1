//! The persisted state record: a seed and a cursor, round-tripping through a
//! small human-readable key/value document.

use vstd::prelude::*;
use rand::Rng;
use crate::digits::{
    dec_spec, dec_at, is_digit, lemma_dec_spec_wf, lemma_dec_at_unique, scan_u64, u64_to_dec,
};
use crate::errors::PlayerError;

verus! {

/// The durable record: the shuffle seed and the playlist cursor.
#[derive(PartialEq, Eq, Structural, Clone, Copy, Debug)]
pub struct State {
    pub seed: u64,
    pub index: u64,
}

/// The exact text of the state document for a given seed and cursor:
/// one section, then the two keys in decimal.
pub open spec fn doc_spec(seed: u64, index: u64) -> Seq<char> {
    ("[general]\nseed=")@ + dec_spec(seed as nat) + ("\nindex=")@ + dec_spec(index as nat) + ("\n")@
}

/// Where the two decimal runs stand inside a state document.
pub proof fn lemma_doc_shape(se: u64, ix: u64)
    ensures
        doc_spec(se, ix).len() == 23 + dec_spec(se as nat).len() + dec_spec(ix as nat).len(),
        dec_at(doc_spec(se, ix), 15, se),
        dec_at(doc_spec(se, ix), 15 + dec_spec(se as nat).len() as int + 7, ix),
{
    reveal_strlit("[general]\nseed=");
    reveal_strlit("\nindex=");
    reveal_strlit("\n");
    lemma_dec_spec_wf(se as nat);
    lemma_dec_spec_wf(ix as nat);
    let a = ("[general]\nseed=")@;
    let b = ("\nindex=")@;
    let c = ("\n")@;
    let d1 = dec_spec(se as nat);
    let d2 = dec_spec(ix as nat);
    let s = doc_spec(se, ix);
    assert(a.len() == 15);
    assert(b.len() == 7);
    assert(c.len() == 1);
    assert(s == a + d1 + b + d2 + c);
    assert(s.len() == 23 + d1.len() + d2.len());
    assert(s.subrange(15, 15 + d1.len() as int) =~= d1) by {
        assert forall|k: int| 0 <= k < d1.len() implies s[15 + k] == d1[k] by {
            assert(s[15 + k] == (a + d1)[15 + k]);
        }
    }
    assert(s[15 + d1.len() as int] == b[0]);
    assert(b[0] == '\n');
    assert(!is_digit('\n'));
    let st2: int = 15 + d1.len() as int + 7;
    assert(s.subrange(st2, st2 + d2.len() as int) =~= d2) by {
        assert forall|k: int| 0 <= k < d2.len() implies s[st2 + k] == d2[k] by {
            assert(s[st2 + k] == (a + d1 + b + d2)[st2 + k]);
        }
    }
    assert(s[st2 + d2.len() as int] == c[0]);
    assert(c[0] == '\n');
    assert(dec_at(s, 15, se));
    assert(dec_at(s, st2, ix));
}

/// A state document determines the seed and cursor it was saved with:
/// loading what `encode` wrote can only recover that very pair.
pub proof fn lemma_doc_injective(s1: u64, i1: u64, s2: u64, i2: u64)
    requires
        doc_spec(s1, i1) == doc_spec(s2, i2),
    ensures
        s1 == s2,
        i1 == i2,
{
    lemma_doc_shape(s1, i1);
    lemma_doc_shape(s2, i2);
    lemma_dec_at_unique(doc_spec(s1, i1), 15, s1, s2);
    lemma_dec_at_unique(doc_spec(s1, i1), 15 + dec_spec(s1 as nat).len() as int + 7, i1, i2);
}

/// Relies on `rand::thread_rng` and `rand::Rng::gen`: a 64-bit value drawn
/// from process entropy. Nothing is promised of which value comes back.
#[verifier::external_body]
fn random_u64() -> u64 {
    rand::thread_rng().gen::<u64>()
}

impl State {
    /// A brand-new state: a random seed and a cursor at the start.
    pub fn fresh() -> (st: State)
        ensures
            st.index == 0,
    {
        State { seed: random_u64(), index: 0 }
    }

    /// Renders the state as the exact document that `parse` accepts.
    pub fn encode(&self) -> (r: String)
        ensures
            r@ == doc_spec(self.seed, self.index),
    {
        let mut r: String = ("[general]\nseed=").to_owned();
        let seed_str = u64_to_dec(self.seed);
        r.append(seed_str.as_str());
        r.append("\nindex=");
        let idx_str = u64_to_dec(self.index);
        r.append(idx_str.as_str());
        r.append("\n");
        proof {
            assert(r@ =~= doc_spec(self.seed, self.index));
        }
        r
    }

    /// Reads a state document back. Accepts exactly the documents `encode`
    /// writes, and recovers exactly the seed and cursor that were written;
    /// anything else is `Malformed`.
    pub fn parse(doc: &str) -> (r: Result<State, PlayerError>)
        ensures
            r matches Ok(st) ==> doc@ == doc_spec(st.seed, st.index),
            forall|se: u64, ix: u64|
                doc@ == doc_spec(se, ix) ==> (r matches Ok(st) && st.seed == se && st.index
                    == ix),
            r matches Err(e) ==> e == PlayerError::Malformed,
    {
        let n = doc.unicode_len();
        let r1 = scan_u64(doc, 15, n);
        match r1 {
            None => {
                proof {
                    assert forall|se: u64, ix: u64| doc@ != doc_spec(se, ix) by {
                        if doc@ == doc_spec(se, ix) {
                            lemma_doc_shape(se, ix);
                            assert(dec_at(doc@, 15, se));
                            assert(false);
                        }
                    }
                }
                Err(PlayerError::Malformed)
            },
            Some((seed0, j)) => {
                match j.checked_add(7) {
                    None => {
                        proof {
                            assert forall|se: u64, ix: u64| doc@ != doc_spec(se, ix) by {
                                if doc@ == doc_spec(se, ix) {
                                    lemma_doc_shape(se, ix);
                                    assert(dec_at(doc@, 15, se));
                                    assert(j == 15 + dec_spec(se as nat).len() as int);
                                    assert(j + 7 < doc@.len());
                                    assert(false);
                                }
                            }
                        }
                        Err(PlayerError::Malformed)
                    },
                    Some(j7) => {
                        let r2 = scan_u64(doc, j7, n);
                        match r2 {
                            None => {
                                proof {
                                    assert forall|se: u64, ix: u64| doc@ != doc_spec(se, ix) by {
                                        if doc@ == doc_spec(se, ix) {
                                            lemma_doc_shape(se, ix);
                                            assert(dec_at(doc@, 15, se));
                                            assert(j7 == 15 + dec_spec(se as nat).len() as int + 7);
                                            assert(dec_at(doc@, j7 as int, ix));
                                            assert(false);
                                        }
                                    }
                                }
                                Err(PlayerError::Malformed)
                            },
                            Some((idx0, _)) => {
                                let cand = State { seed: seed0, index: idx0 };
                                let enc = cand.encode();
                                let doc_owned = doc.to_owned();
                                if enc == doc_owned {
                                    proof {
                                        assert forall|se: u64, ix: u64|
                                            doc@ == doc_spec(se, ix) implies (seed0 == se && idx0
                                            == ix) by {
                                            lemma_doc_shape(se, ix);
                                            assert(dec_at(doc@, 15, se));
                                            assert(j7 == 15 + dec_spec(se as nat).len() as int + 7);
                                            assert(dec_at(doc@, j7 as int, ix));
                                        }
                                    }
                                    Ok(cand)
                                } else {
                                    proof {
                                        assert forall|se: u64, ix: u64| doc@ != doc_spec(
                                            se,
                                            ix,
                                        ) by {
                                            if doc@ == doc_spec(se, ix) {
                                                lemma_doc_shape(se, ix);
                                                assert(dec_at(doc@, 15, se));
                                                assert(j7 == 15 + dec_spec(se as nat).len() as int + 7);
                                                assert(dec_at(doc@, j7 as int, ix));
                                                assert(seed0 == se && idx0 == ix);
                                                assert(enc@ == doc@);
                                                assert(false);
                                            }
                                        }
                                    }
                                    Err(PlayerError::Malformed)
                                }
                            },
                        }
                    },
                }
            },
        }
    }
}

} // verus!
