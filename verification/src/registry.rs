//! The subscription registry: the set of logical topics a caller wants,
//! tracked independently of any connection's lifecycle.
//!
//! The registry is pure in-memory bookkeeping. Adding a present topic is
//! idempotent, and the snapshot — consulted once per (re)connect to rebuild
//! the wire-level subscribe frame — reflects every topic added and not yet
//! removed, including topics added while disconnected.

use vstd::prelude::*;
use vstd::string::StringSliceAdditionalSpecFns;

use crate::codec::{byte_seqs, spec_args_list, spec_op_frame, spec_quoted, spec_subscribe_frame};

verus! {

/// Tracks the topics of one session's subscriptions, in the order they were
/// first added, without duplicates.
pub struct SubscriptionRegistry {
    topics: Vec<Vec<u8>>,
}

/// Adding one topic: a no-op when present, else appended at the end.
pub open spec fn spec_add(s: Seq<Seq<u8>>, t: Seq<u8>) -> Seq<Seq<u8>> {
    if s.contains(t) {
        s
    } else {
        s.push(t)
    }
}

/// Adding a list of topics in order.
pub open spec fn spec_add_all(s: Seq<Seq<u8>>, ts: Seq<Seq<u8>>) -> Seq<Seq<u8>>
    decreases ts.len(),
{
    if ts.len() == 0 {
        s
    } else {
        spec_add_all(spec_add(s, ts[0]), ts.skip(1))
    }
}

/// Removing one topic: every other topic stays, in order.
pub open spec fn spec_remove(s: Seq<Seq<u8>>, t: Seq<u8>) -> Seq<Seq<u8>>
    decreases s.len(),
{
    if s.len() == 0 {
        Seq::<Seq<u8>>::empty()
    } else if s[0] == t {
        spec_remove(s.skip(1), t)
    } else {
        seq![s[0]] + spec_remove(s.skip(1), t)
    }
}

impl SubscriptionRegistry {
    /// The recorded topics, in first-added order.
    pub closed spec fn view(&self) -> Seq<Seq<u8>> {
        byte_seqs(self.topics@)
    }

    /// No topic is recorded twice.
    pub open spec fn wf(&self) -> bool {
        forall|i: int, j: int| 0 <= i < j < self@.len() ==> self@[i] != self@[j]
    }

    /// An empty registry.
    pub fn new() -> (r: SubscriptionRegistry)
        ensures
            r@ == Seq::<Seq<u8>>::empty(),
            r.wf(),
    {
        let r = SubscriptionRegistry { topics: Vec::new() };
        proof {
            assert(r@ =~= Seq::<Seq<u8>>::empty());
        }
        r
    }

    /// Whether `t` is recorded.
    pub fn contains_topic(&self, t: &[u8]) -> (r: bool)
        ensures
            r == self@.contains(t@),
    {
        let mut i: usize = 0;
        while i < self.topics.len()
            invariant
                i <= self.topics.len(),
                forall|j: int| 0 <= j < i ==> self@[j] != t@,
            decreases self.topics.len() - i,
        {
            if crate::bytes_eq(self.topics[i].as_slice(), t) {
                proof {
                    assert(self@[i as int] == t@);
                }
                return true;
            }
            i = i + 1;
        }
        proof {
            if self@.contains(t@) {
                let k = choose|k: int| 0 <= k < self@.len() && self@[k] == t@;
                assert(self@[k] != t@);
            }
        }
        false
    }

    /// Records `t`; idempotent when `t` is already present.
    pub fn add(&mut self, t: Vec<u8>)
        requires
            old(self).wf(),
        ensures
            final(self)@ == spec_add(old(self)@, t@),
            final(self).wf(),
            final(self)@.contains(t@),
            forall|x: Seq<u8>| old(self)@.contains(x) ==> final(self)@.contains(x),
    {
        let ghost t_model = t@;
        if !self.contains_topic(t.as_slice()) {
            self.topics.push(t);
            proof {
                assert(self@ =~= byte_seqs(old(self).topics@).push(t_model));
                assert(self@[self@.len() - 1] == t_model);
                assert forall|x: Seq<u8>| old(self)@.contains(x) implies self@.contains(x) by {
                    let k = choose|k: int| 0 <= k < old(self)@.len() && old(self)@[k] == x;
                    assert(self@[k] == x);
                }
            }
        } else {
            proof {
                assert(self@ =~= spec_add(old(self)@, t_model));
            }
        }
    }

    /// Records every topic of `ts`, in order; present topics are skipped.
    pub fn add_all(&mut self, ts: &Vec<Vec<u8>>)
        requires
            old(self).wf(),
        ensures
            final(self)@ == spec_add_all(old(self)@, byte_seqs(ts@)),
            final(self).wf(),
            forall|x: Seq<u8>| old(self)@.contains(x) ==> final(self)@.contains(x),
            forall|i: int| 0 <= i < ts@.len() ==> final(self)@.contains(ts@[i]@),
    {
        let ghost arg_models = byte_seqs(ts@);
        let mut i: usize = 0;
        proof {
            assert(arg_models.skip(0) =~= arg_models);
        }
        while i < ts.len()
            invariant
                i <= ts@.len(),
                arg_models == byte_seqs(ts@),
                self.wf(),
                spec_add_all(old(self)@, arg_models) == spec_add_all(
                    self@,
                    arg_models.skip(i as int),
                ),
                forall|x: Seq<u8>| old(self)@.contains(x) ==> self@.contains(x),
                forall|j: int| 0 <= j < i ==> self@.contains(arg_models[j]),
            decreases ts@.len() - i,
        {
            proof {
                assert(arg_models.skip(i as int)[0] == arg_models[i as int]);
                assert(arg_models.skip(i as int).skip(1) =~= arg_models.skip(i + 1));
            }
            let ghost before = self@;
            let topic = vstd::slice::slice_to_vec(ts[i].as_slice());
            self.add(topic);
            proof {
                assert forall|j: int| 0 <= j < i implies self@.contains(arg_models[j]) by {
                    assert(before.contains(arg_models[j]));
                }
            }
            i = i + 1;
        }
        proof {
            assert(arg_models.skip(ts@.len() as int).len() == 0);
            assert forall|j: int| 0 <= j < ts@.len() implies self@.contains(ts@[j]@) by {
                assert(arg_models[j] == ts@[j]@);
            }
        }
    }

    /// Removes `t` if recorded; every other topic stays.
    pub fn remove(&mut self, t: &[u8])
        requires
            old(self).wf(),
        ensures
            final(self)@ == spec_remove(old(self)@, t@),
            final(self).wf(),
            !final(self)@.contains(t@),
            forall|x: Seq<u8>|
                old(self)@.contains(x) && x != t@ ==> final(self)@.contains(x),
    {
        let ghost before = self@;
        let mut kept: Vec<Vec<u8>> = Vec::new();
        let mut i: usize = 0;
        proof {
            assert(before.skip(0) =~= before);
            assert(byte_seqs(kept@) =~= Seq::<Seq<u8>>::empty());
        }
        while i < self.topics.len()
            invariant
                i <= self.topics.len(),
                before == self@,
                self.wf(),
                byte_seqs(kept@) + spec_remove(before.skip(i as int), t@) == spec_remove(
                    before,
                    t@,
                ),
                forall|j: int, k: int|
                    0 <= j < k < byte_seqs(kept@).len() ==> byte_seqs(kept@)[j] != byte_seqs(
                        kept@,
                    )[k],
                forall|j: int|
                    0 <= j < byte_seqs(kept@).len() ==> before.take(i as int).contains(
                        byte_seqs(kept@)[j],
                    ) && byte_seqs(kept@)[j] != t@,
                forall|k: int|
                    0 <= k < i && #[trigger] before[k] != t@ ==> byte_seqs(kept@).contains(
                        before[k],
                    ),
            decreases self.topics.len() - i,
        {
            proof {
                assert(before.skip(i as int)[0] == before[i as int]);
                assert(before.skip(i as int).skip(1) =~= before.skip(i + 1));
            }
            let ghost kept_before = byte_seqs(kept@);
            if !crate::bytes_eq(self.topics[i].as_slice(), t) {
                let item = vstd::slice::slice_to_vec(self.topics[i].as_slice());
                kept.push(item);
                proof {
                    assert(byte_seqs(kept@) =~= kept_before.push(before[i as int]));
                    assert(byte_seqs(kept@) + spec_remove(before.skip(i + 1), t@) =~= kept_before
                        + (seq![before[i as int]] + spec_remove(before.skip(i + 1), t@)));
                    assert forall|j: int, k: int|
                        0 <= j < k < byte_seqs(kept@).len() implies byte_seqs(kept@)[j]
                        != byte_seqs(kept@)[k] by {
                        if k == byte_seqs(kept@).len() - 1 {
                            if byte_seqs(kept@)[j] == before[i as int] {
                                assert(before.take(i as int).contains(before[i as int]));
                                let p = choose|p: int|
                                    0 <= p < before.take(i as int).len() && before.take(
                                        i as int,
                                    )[p] == before[i as int];
                                assert(before[p] == before[i as int]);
                                assert(false);
                            }
                        }
                    }
                }
            }
            proof {
                if before[i as int] != t@ {
                    assert(byte_seqs(kept@) =~= kept_before.push(before[i as int]));
                } else {
                    assert(byte_seqs(kept@) =~= kept_before);
                }
                assert forall|j: int|
                    0 <= j < byte_seqs(kept@).len() implies before.take(i + 1).contains(
                    byte_seqs(kept@)[j],
                ) && byte_seqs(kept@)[j] != t@ by {
                    if j < kept_before.len() {
                        let x2 = kept_before[j];
                        assert(before.take(i as int).contains(x2));
                        let p2 = choose|p2: int|
                            0 <= p2 < before.take(i as int).len() && before.take(i as int)[p2]
                                == x2;
                        assert(before.take(i + 1)[p2] == x2);
                    } else {
                        assert(before.take(i + 1)[i as int] == before[i as int]);
                    }
                }
                assert forall|k: int|
                    0 <= k < i + 1 && #[trigger] before[k] != t@ implies byte_seqs(
                    kept@,
                ).contains(before[k]) by {
                    if k < i {
                        assert(kept_before.contains(before[k]));
                        let q2 = choose|q2: int|
                            0 <= q2 < kept_before.len() && kept_before[q2] == before[k];
                        assert(byte_seqs(kept@)[q2] == before[k]);
                    } else {
                        assert(byte_seqs(kept@)[byte_seqs(kept@).len() - 1] == before[i as int]);
                    }
                }
            }
            i = i + 1;
        }
        proof {
            assert(spec_remove(before.skip(before.len() as int), t@) =~= Seq::<Seq<u8>>::empty());
            assert(byte_seqs(kept@) + Seq::<Seq<u8>>::empty() =~= byte_seqs(kept@));
            if byte_seqs(kept@).contains(t@) {
                let k = choose|k: int|
                    0 <= k < byte_seqs(kept@).len() && byte_seqs(kept@)[k] == t@;
            }
            assert forall|x: Seq<u8>|
                before.contains(x) && x != t@ implies byte_seqs(kept@).contains(x) by {
                let k = choose|k: int| 0 <= k < before.len() && before[k] == x;
                assert(before[k] != t@);
            }
        }
        self.topics = kept;
    }

    /// A copy of the recorded topics, consulted once per (re)connect.
    pub fn snapshot(&self) -> (r: Vec<Vec<u8>>)
        ensures
            byte_seqs(r@) == self@,
    {
        let mut out: Vec<Vec<u8>> = Vec::new();
        let mut i: usize = 0;
        proof {
            assert(byte_seqs(out@) =~= self@.take(0));
        }
        while i < self.topics.len()
            invariant
                i <= self.topics.len(),
                byte_seqs(out@) == self@.take(i as int),
            decreases self.topics.len() - i,
        {
            let ghost prefix = byte_seqs(out@);
            let item = vstd::slice::slice_to_vec(self.topics[i].as_slice());
            out.push(item);
            proof {
                assert(byte_seqs(out@) =~= prefix.push(self@[i as int]));
                assert(prefix.push(self@[i as int]) =~= self@.take(i + 1));
            }
            i = i + 1;
        }
        proof {
            assert(self@.take(self@.len() as int) =~= self@);
        }
        out
    }

    /// Number of recorded topics.
    pub fn len(&self) -> (r: usize)
        ensures
            r == self@.len(),
    {
        self.topics.len()
    }
}

/// A byte string `n` occurs contiguously inside `h`.
pub open spec fn contains_subrange(h: Seq<u8>, n: Seq<u8>) -> bool {
    exists|k: int| 0 <= k <= h.len() - n.len() && #[trigger] h.subrange(k, k + n.len()) == n
}

proof fn lemma_args_list_contains(args: Seq<Seq<u8>>, i: int)
    requires
        0 <= i < args.len(),
    ensures
        contains_subrange(spec_args_list(args), spec_quoted(args[i])),
    decreases args.len(),
{
    let whole = spec_args_list(args);
    if i == 0 {
        let q = spec_quoted(args[0]);
        assert(whole.subrange(0, 0 + q.len() as int) =~= q);
    } else {
        lemma_args_list_contains(args.skip(1), i - 1);
        let q = spec_quoted(args.skip(1)[i - 1]);
        let tail = spec_args_list(args.skip(1));
        let k = choose|k: int|
            0 <= k <= tail.len() - q.len() && #[trigger] tail.subrange(k, k + q.len()) == q;
        let off = spec_quoted(args[0]).len() + 1;
        assert(whole.subrange(off + k, off + k + q.len()) =~= tail.subrange(k, k + q.len()));
        assert(args.skip(1)[i - 1] == args[i]);
    }
}

proof fn lemma_subrange_in_concat_right(prefix: Seq<u8>, h: Seq<u8>, suffix: Seq<u8>, n: Seq<u8>)
    requires
        contains_subrange(h, n),
    ensures
        contains_subrange(prefix + h + suffix, n),
{
    let k = choose|k: int|
        0 <= k <= h.len() - n.len() && #[trigger] h.subrange(k, k + n.len()) == n;
    let whole = prefix + h + suffix;
    let off = prefix.len() as int;
    assert(whole.subrange(off + k, off + k + n.len()) =~= h.subrange(k, k + n.len()));
}

/// Registry completeness: every topic recorded at reconnect time — whenever
/// it was added, before or during the session — stands, quoted, in the
/// subscribe frame rebuilt from the registry's topics for the new connection.
pub proof fn lemma_resubscribe_frame_complete(topics: Seq<Seq<u8>>, t: Seq<u8>)
    requires
        topics.contains(t),
    ensures
        contains_subrange(spec_subscribe_frame(topics), spec_quoted(t)),
{
    let i = choose|i: int| 0 <= i < topics.len() && topics[i] == t;
    lemma_args_list_contains(topics, i);
    broadcast use vstd::string::is_ascii_spec_bytes;

    lemma_subrange_in_concat_right(
        "{\"op\":".spec_bytes() + spec_quoted("subscribe".spec_bytes())
            + ",\"args\":[".spec_bytes(),
        spec_args_list(topics),
        "]}".spec_bytes(),
        spec_quoted(t),
    );
    assert("{\"op\":".spec_bytes() + spec_quoted("subscribe".spec_bytes())
        + ",\"args\":[".spec_bytes() + spec_args_list(topics) + "]}".spec_bytes()
        =~= spec_op_frame("subscribe".spec_bytes(), topics));
}

/// Recording topics loses nothing: every topic already recorded, and every
/// topic in the recorded list, is in the result. With
/// `lemma_resubscribe_frame_complete` this carries any topic requested before
/// or during a session into the frame sent after a reconnect.
pub proof fn lemma_add_all_complete(s: Seq<Seq<u8>>, ts: Seq<Seq<u8>>)
    ensures
        forall|x: Seq<u8>| s.contains(x) ==> spec_add_all(s, ts).contains(x),
        forall|i: int| 0 <= i < ts.len() ==> spec_add_all(s, ts).contains(#[trigger] ts[i]),
    decreases ts.len(),
{
    if ts.len() > 0 {
        let s2 = spec_add(s, ts[0]);
        assert forall|x: Seq<u8>| s.contains(x) implies s2.contains(x) by {
            let k = choose|k: int| 0 <= k < s.len() && s[k] == x;
            assert(s2[k] == x);
        }
        assert(s2.contains(ts[0])) by {
            if !s.contains(ts[0]) {
                assert(s2[s2.len() - 1] == ts[0]);
            }
        }
        lemma_add_all_complete(s2, ts.skip(1));
        assert forall|i: int|
            0 <= i < ts.len() implies spec_add_all(s, ts).contains(#[trigger] ts[i]) by {
            if i == 0 {
            } else {
                assert(ts.skip(1)[i - 1] == ts[i]);
            }
        }
    }
}

} // verus!
