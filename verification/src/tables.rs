//! The three co-indexed tables an assembly returns, and the primitives that
//! fill them.
//!
//! * `AgentMessages`: conversant key → ordered list of message ids,
//!   insertion order = processing order;
//! * `MessageContents`: message id → the message together with its attached
//!   receipt ids and reply ids;
//! * `ReceiptContents`: receipt id → receipt.
//!
//! Each table is a vector of key–value entries with pairwise-distinct keys,
//! viewed abstractly as a `Map`. The entry vector makes insertion order a
//! checked property instead of a convention.

use vstd::prelude::*;
use crate::types::{AgentKey, ContentHash, MessageV, P2PMessage, P2PMessageReceipt};
use crate::hash::{receipt_hash, spec_receipt_hash};

verus! {

/// The keys of an entry sequence are pairwise distinct.
pub open spec fn keys_distinct<K, V>(s: Seq<(K, V)>) -> bool {
    forall|i: int, j: int| 0 <= i < j < s.len() ==> (#[trigger] s[i]).0 != (#[trigger] s[j]).0
}

/// The map an entry sequence denotes; later entries would win, though the
/// tables below never hold two entries with one key.
pub open spec fn map_of<K, V>(s: Seq<(K, V)>) -> Map<K, V>
    decreases s.len(),
{
    if s.len() == 0 {
        Map::empty()
    } else {
        map_of(s.drop_last()).insert(s.last().0, s.last().1)
    }
}

pub proof fn lemma_map_of_contains<K, V>(s: Seq<(K, V)>, k: K)
    ensures
        map_of(s).contains_key(k) <==> (exists|i: int|
            0 <= i < s.len() && (#[trigger] s[i]).0 == k),
    decreases s.len(),
{
    if s.len() > 0 {
        lemma_map_of_contains(s.drop_last(), k);
        if s.last().0 == k {
            assert(s[s.len() - 1].0 == k);
        } else {
            if exists|i: int| 0 <= i < s.len() && (#[trigger] s[i]).0 == k {
                let i = choose|i: int| 0 <= i < s.len() && (#[trigger] s[i]).0 == k;
                assert(s.drop_last()[i] == s[i]);
            }
            if exists|i: int| 0 <= i < s.drop_last().len() && (#[trigger] s.drop_last()[i]).0
                == k {
                let i = choose|i: int|
                    0 <= i < s.drop_last().len() && (#[trigger] s.drop_last()[i]).0 == k;
                assert(s[i] == s.drop_last()[i]);
            }
        }
    }
}

pub proof fn lemma_distinct_drop_last<K, V>(s: Seq<(K, V)>)
    requires
        keys_distinct(s),
        s.len() > 0,
    ensures
        keys_distinct(s.drop_last()),
{
    assert forall|i: int, j: int|
        0 <= i < j < s.drop_last().len() implies (#[trigger] s.drop_last()[i]).0 != (
    #[trigger] s.drop_last()[j]).0 by {
        assert(s.drop_last()[i] == s[i]);
        assert(s.drop_last()[j] == s[j]);
    }
}

pub proof fn lemma_map_of_index<K, V>(s: Seq<(K, V)>, i: int)
    requires
        keys_distinct(s),
        0 <= i < s.len(),
    ensures
        map_of(s).contains_key(s[i].0),
        map_of(s)[s[i].0] == s[i].1,
    decreases s.len(),
{
    if i < s.len() - 1 {
        lemma_distinct_drop_last(s);
        lemma_map_of_index(s.drop_last(), i);
        assert(s.drop_last()[i] == s[i]);
        assert(s.last().0 != s[i].0);
    }
}

pub proof fn lemma_map_of_update<K, V>(s: Seq<(K, V)>, i: int, v: V)
    requires
        keys_distinct(s),
        0 <= i < s.len(),
    ensures
        map_of(s.update(i, (s[i].0, v))) == map_of(s).insert(s[i].0, v),
        keys_distinct(s.update(i, (s[i].0, v))),
    decreases s.len(),
{
    let s2 = s.update(i, (s[i].0, v));
    assert forall|a: int, b: int| 0 <= a < b < s2.len() implies (#[trigger] s2[a]).0 != (
    #[trigger] s2[b]).0 by {
        assert(s2[a].0 == s[a].0);
        assert(s2[b].0 == s[b].0);
    }
    if i == s.len() - 1 {
        assert(s2.drop_last() =~= s.drop_last());
        assert(s2.last() == (s[i].0, v));
        assert(map_of(s2) =~= map_of(s).insert(s[i].0, v));
    } else {
        lemma_distinct_drop_last(s);
        lemma_map_of_update(s.drop_last(), i, v);
        assert(s.drop_last()[i] == s[i]);
        assert(s2.drop_last() =~= s.drop_last().update(i, (s[i].0, v)));
        assert(s2.last() == s.last());
        assert(map_of(s2) =~= map_of(s).insert(s[i].0, v));
    }
}

pub proof fn lemma_map_of_remove<K, V>(s: Seq<(K, V)>, i: int)
    requires
        keys_distinct(s),
        0 <= i < s.len(),
    ensures
        map_of(s.remove(i)) == map_of(s).remove(s[i].0),
        keys_distinct(s.remove(i)),
    decreases s.len(),
{
    let s2 = s.remove(i);
    assert forall|a: int, b: int| 0 <= a < b < s2.len() implies (#[trigger] s2[a]).0 != (
    #[trigger] s2[b]).0 by {
        if b < i {
            assert(s2[a] == s[a] && s2[b] == s[b]);
        } else if a < i {
            assert(s2[a] == s[a] && s2[b] == s[b + 1]);
        } else {
            assert(s2[a] == s[a + 1] && s2[b] == s[b + 1]);
        }
    }
    if i == s.len() - 1 {
        lemma_distinct_drop_last(s);
        assert(s2 =~= s.drop_last());
        lemma_map_of_contains(s.drop_last(), s[i].0);
        assert forall|j: int| 0 <= j < s.drop_last().len() implies (#[trigger] s.drop_last()[j]).0
            != s[i].0 by {
            assert(s.drop_last()[j] == s[j]);
        }
        assert(map_of(s.remove(i)) =~= map_of(s).remove(s[i].0));
    } else {
        lemma_distinct_drop_last(s);
        lemma_map_of_remove(s.drop_last(), i);
        assert(s.drop_last()[i] == s[i]);
        assert(s2.drop_last() =~= s.drop_last().remove(i));
        assert(s2.last() == s.last());
        assert(s.last().0 != s[i].0);
        assert(map_of(s2) =~= map_of(s).remove(s[i].0));
    }
}

pub proof fn lemma_map_of_push<K, V>(s: Seq<(K, V)>, k: K, v: V)
    requires
        keys_distinct(s),
        forall|i: int| 0 <= i < s.len() ==> (#[trigger] s[i]).0 != k,
    ensures
        map_of(s.push((k, v))) == map_of(s).insert(k, v),
        keys_distinct(s.push((k, v))),
{
    let s2 = s.push((k, v));
    assert(s2.drop_last() =~= s);
    assert(s2.last() == (k, v));
    assert forall|a: int, b: int| 0 <= a < b < s2.len() implies (#[trigger] s2[a]).0 != (
    #[trigger] s2[b]).0 by {
        if b < s.len() {
            assert(s2[a] == s[a] && s2[b] == s[b]);
        } else {
            assert(s2[a] == s[a]);
        }
    }
}

/// The message and the ids attached to it: receipt ids of the receipts that
/// acknowledge it, followed by the ids of replies to it.
#[derive(Clone, Debug)]
pub struct MessageBundle(pub P2PMessage, pub Vec<ContentHash>);

/// Mathematical model of a `MessageBundle`.
#[verifier::ext_equal]
pub struct BundleV {
    pub message: MessageV,
    pub attachments: Seq<ContentHash>,
}

impl View for MessageBundle {
    type V = BundleV;

    open spec fn view(&self) -> BundleV {
        BundleV { message: self.0@, attachments: self.1@ }
    }
}

/// Conversant key → ordered message-id bucket.
#[derive(Clone, Debug)]
pub struct AgentMessages(pub Vec<(AgentKey, Vec<ContentHash>)>);

impl AgentMessages {
    /// The entry sequence with the bucket vectors abstracted to sequences.
    pub open spec fn entries(&self) -> Seq<(AgentKey, Seq<ContentHash>)> {
        self.0@.map_values(|p: (AgentKey, Vec<ContentHash>)| (p.0, p.1@))
    }

    pub open spec fn wf(&self) -> bool {
        keys_distinct(self.entries())
    }

    pub fn new() -> (r: AgentMessages)
        ensures
            r@ == Map::<AgentKey, Seq<ContentHash>>::empty(),
            r.wf(),
    {
        AgentMessages(Vec::new())
    }

    fn find(&self, k: AgentKey) -> (r: Option<usize>)
        ensures
            match r {
                Some(i) => i < self.entries().len() && self.entries()[i as int].0 == k,
                None => forall|j: int|
                    0 <= j < self.entries().len() ==> (#[trigger] self.entries()[j]).0 != k,
            },
    {
        let mut i: usize = 0;
        while i < self.0.len()
            invariant
                i <= self.0@.len(),
                forall|j: int| 0 <= j < i ==> (#[trigger] self.entries()[j]).0 != k,
            decreases self.0@.len() - i,
        {
            if self.0[i].0 == k {
                return Some(i);
            }
            i = i + 1;
        }
        None
    }

    pub fn contains_key(&self, k: AgentKey) -> (r: bool)
        ensures
            r == self@.contains_key(k),
    {
        proof {
            lemma_map_of_contains(self.entries(), k);
        }
        self.find(k).is_some()
    }

    /// Length of the bucket under `k`; zero when no bucket exists yet.
    pub fn bucket_len(&self, k: AgentKey) -> (n: usize)
        requires
            self.wf(),
        ensures
            self@.contains_key(k) ==> n == self@[k].len(),
            !self@.contains_key(k) ==> n == 0,
    {
        proof {
            lemma_map_of_contains(self.entries(), k);
        }
        match self.find(k) {
            Some(i) => {
                proof {
                    lemma_map_of_index(self.entries(), i as int);
                }
                self.0[i].1.len()
            },
            None => 0,
        }
    }

    /// Creates an empty bucket under `k`, or empties an existing one.
    pub fn seed(&mut self, k: AgentKey)
        requires
            old(self).wf(),
        ensures
            final(self).wf(),
            final(self)@ == old(self)@.insert(k, Seq::<ContentHash>::empty()),
    {
        let ghost s = self.entries();
        match self.find(k) {
            Some(i) => {
                proof {
                    lemma_map_of_update(s, i as int, Seq::<ContentHash>::empty());
                }
                let kk = self.0[i].0;
                let _ = self.0.remove(i);
                self.0.insert(i, (kk, Vec::new()));
                proof {
                    assert(self.entries() =~= s.update(i as int, (k, Seq::<ContentHash>::empty())));
                }
            },
            None => {
                proof {
                    lemma_map_of_push(s, k, Seq::<ContentHash>::empty());
                }
                self.0.push((k, Vec::new()));
                proof {
                    assert(self.entries() =~= s.push((k, Seq::<ContentHash>::empty())));
                }
            },
        }
    }

    /// Appends `h` to the bucket under `k`, creating the bucket if it never
    /// existed. Returns the bucket's length after the insertion, which
    /// callers compare with a batch cap.
    pub fn push(&mut self, k: AgentKey, h: ContentHash) -> (n: usize)
        requires
            old(self).wf(),
        ensures
            final(self).wf(),
            final(self)@ == old(self)@.insert(k, old_bucket(old(self)@, k).push(h)),
            n == old_bucket(old(self)@, k).push(h).len(),
    {
        let ghost s = self.entries();
        match self.find(k) {
            Some(i) => {
                proof {
                    lemma_map_of_index(s, i as int);
                }
                let pair = self.0.remove(i);
                let kk = pair.0;
                let mut lst = pair.1;
                proof {
                    lemma_map_of_remove(s, i as int);
                    assert(self.entries() =~= s.remove(i as int));
                    lemma_map_of_contains(s.remove(i as int), k);
                    assert forall|j: int| 0 <= j < s.remove(i as int).len() implies (
                    #[trigger] s.remove(i as int)[j]).0 != k by {
                        if j < i {
                            assert(s.remove(i as int)[j] == s[j]);
                        } else {
                            assert(s.remove(i as int)[j] == s[j + 1]);
                        }
                    }
                    lemma_map_of_push(s.remove(i as int), k, lst@.push(h));
                }
                lst.push(h);
                let n = lst.len();
                self.0.push((kk, lst));
                proof {
                    assert(self.entries() =~= s.remove(i as int).push(
                        (k, old_bucket(map_of(s), k).push(h)),
                    ));
                    assert(final(self)@ =~= map_of(s).insert(k, old_bucket(map_of(s), k).push(h)));
                }
                n
            },
            None => {
                proof {
                    lemma_map_of_contains(s, k);
                    lemma_map_of_push(s, k, seq![h]);
                }
                let mut fresh: Vec<ContentHash> = Vec::new();
                fresh.push(h);
                self.0.push((k, fresh));
                proof {
                    assert(self.entries() =~= s.push((k, seq![h])));
                    assert(old_bucket(map_of(s), k).push(h) =~= seq![h]);
                }
                1
            },
        }
    }
}

/// The bucket under `k`, or the empty sequence when none exists.
pub open spec fn old_bucket(m: Map<AgentKey, Seq<ContentHash>>, k: AgentKey) -> Seq<ContentHash> {
    if m.contains_key(k) {
        m[k]
    } else {
        Seq::empty()
    }
}

impl View for AgentMessages {
    type V = Map<AgentKey, Seq<ContentHash>>;

    open spec fn view(&self) -> Map<AgentKey, Seq<ContentHash>> {
        map_of(self.entries())
    }
}

/// Message id → message bundle.
#[derive(Clone, Debug)]
pub struct MessageContents(pub Vec<(ContentHash, MessageBundle)>);

impl MessageContents {
    /// The entry sequence with the bundles abstracted.
    pub open spec fn entries(&self) -> Seq<(ContentHash, BundleV)> {
        self.0@.map_values(|p: (ContentHash, MessageBundle)| (p.0, p.1@))
    }

    pub open spec fn wf(&self) -> bool {
        keys_distinct(self.entries())
    }

    pub fn new() -> (r: MessageContents)
        ensures
            r@ == Map::<ContentHash, BundleV>::empty(),
            r.wf(),
    {
        MessageContents(Vec::new())
    }

    fn find(&self, k: ContentHash) -> (r: Option<usize>)
        ensures
            match r {
                Some(i) => i < self.entries().len() && self.entries()[i as int].0 == k,
                None => forall|j: int|
                    0 <= j < self.entries().len() ==> (#[trigger] self.entries()[j]).0 != k,
            },
    {
        let mut i: usize = 0;
        while i < self.0.len()
            invariant
                i <= self.0@.len(),
                forall|j: int| 0 <= j < i ==> (#[trigger] self.entries()[j]).0 != k,
            decreases self.0@.len() - i,
        {
            if self.0[i].0 == k {
                return Some(i);
            }
            i = i + 1;
        }
        None
    }

    pub fn contains_key(&self, k: ContentHash) -> (r: bool)
        ensures
            r == self@.contains_key(k),
    {
        proof {
            lemma_map_of_contains(self.entries(), k);
        }
        self.find(k).is_some()
    }

    pub fn get(&self, k: ContentHash) -> (r: Option<&MessageBundle>)
        requires
            self.wf(),
        ensures
            match r {
                Some(b) => self@.contains_key(k) && b@ == self@[k],
                None => !self@.contains_key(k),
            },
    {
        proof {
            lemma_map_of_contains(self.entries(), k);
        }
        match self.find(k) {
            Some(i) => {
                proof {
                    lemma_map_of_index(self.entries(), i as int);
                }
                Some(&self.0[i].1)
            },
            None => None,
        }
    }

    /// Inserts the bundle under `k`, replacing any bundle already there.
    pub fn insert(&mut self, k: ContentHash, b: MessageBundle)
        requires
            old(self).wf(),
        ensures
            final(self).wf(),
            final(self)@ == old(self)@.insert(k, b@),
    {
        let ghost s = self.entries();
        match self.find(k) {
            Some(i) => {
                proof {
                    lemma_map_of_update(s, i as int, b@);
                }
                let ghost bv = b@;
                let _ = self.0.remove(i);
                self.0.insert(i, (k, b));
                proof {
                    assert(self.entries() =~= s.update(i as int, (k, bv)));
                }
            },
            None => {
                proof {
                    lemma_map_of_push(s, k, b@);
                }
                self.0.push((k, b));
                proof {
                    assert(self.entries() =~= s.push((k, final(self).entries().last().1)));
                }
            },
        }
    }

    /// Appends one attached id to the bundle under `k`.
    pub fn push_attachment(&mut self, k: ContentHash, a: ContentHash)
        requires
            old(self).wf(),
            old(self)@.contains_key(k),
        ensures
            final(self).wf(),
            final(self)@ == old(self)@.insert(
                k,
                BundleV {
                    message: old(self)@[k].message,
                    attachments: old(self)@[k].attachments.push(a),
                },
            ),
    {
        let ghost s = self.entries();
        proof {
            lemma_map_of_contains(s, k);
        }
        match self.find(k) {
            Some(i) => {
                proof {
                    lemma_map_of_index(s, i as int);
                }
                let pair = self.0.remove(i);
                let kk = pair.0;
                let mut bundle = pair.1;
                proof {
                    lemma_map_of_remove(s, i as int);
                    assert(self.entries() =~= s.remove(i as int));
                    assert forall|j: int| 0 <= j < s.remove(i as int).len() implies (
                    #[trigger] s.remove(i as int)[j]).0 != k by {
                        if j < i {
                            assert(s.remove(i as int)[j] == s[j]);
                        } else {
                            assert(s.remove(i as int)[j] == s[j + 1]);
                        }
                    }
                    lemma_map_of_push(
                        s.remove(i as int),
                        k,
                        BundleV { message: map_of(s)[k].message, attachments: map_of(s)[k].attachments.push(a) },
                    );
                }
                bundle.1.push(a);
                self.0.push((kk, bundle));
                proof {
                    assert(self.entries() =~= s.remove(i as int).push(
                        (
                            k,
                            BundleV {
                                message: map_of(s)[k].message,
                                attachments: map_of(s)[k].attachments.push(a),
                            },
                        ),
                    ));
                    assert(final(self)@ =~= map_of(s).insert(
                        k,
                        BundleV {
                            message: map_of(s)[k].message,
                            attachments: map_of(s)[k].attachments.push(a),
                        },
                    ));
                }
            },
            None => {
                proof {
                    lemma_map_of_contains(s, k);
                    assert(false);
                }
            },
        }
    }
}

impl View for MessageContents {
    type V = Map<ContentHash, BundleV>;

    open spec fn view(&self) -> Map<ContentHash, BundleV> {
        map_of(self.entries())
    }
}

/// Receipt id → receipt.
#[derive(Clone, Debug)]
pub struct ReceiptContents(pub Vec<(ContentHash, P2PMessageReceipt)>);

impl ReceiptContents {
    pub open spec fn wf(&self) -> bool {
        keys_distinct(self.0@)
    }

    pub fn new() -> (r: ReceiptContents)
        ensures
            r@ == Map::<ContentHash, P2PMessageReceipt>::empty(),
            r.wf(),
    {
        ReceiptContents(Vec::new())
    }

    fn find(&self, k: ContentHash) -> (r: Option<usize>)
        ensures
            match r {
                Some(i) => i < self.0@.len() && self.0@[i as int].0 == k,
                None => forall|j: int| 0 <= j < self.0@.len() ==> (#[trigger] self.0@[j]).0 != k,
            },
    {
        let mut i: usize = 0;
        while i < self.0.len()
            invariant
                i <= self.0@.len(),
                forall|j: int| 0 <= j < i ==> (#[trigger] self.0@[j]).0 != k,
            decreases self.0@.len() - i,
        {
            if self.0[i].0 == k {
                return Some(i);
            }
            i = i + 1;
        }
        None
    }

    pub fn contains_key(&self, k: ContentHash) -> (r: bool)
        ensures
            r == self@.contains_key(k),
    {
        proof {
            lemma_map_of_contains(self.0@, k);
        }
        self.find(k).is_some()
    }

    pub fn get(&self, k: ContentHash) -> (r: Option<&P2PMessageReceipt>)
        requires
            self.wf(),
        ensures
            match r {
                Some(rr) => self@.contains_key(k) && *rr == self@[k],
                None => !self@.contains_key(k),
            },
    {
        proof {
            lemma_map_of_contains(self.0@, k);
        }
        match self.find(k) {
            Some(i) => {
                proof {
                    lemma_map_of_index(self.0@, i as int);
                }
                Some(&self.0[i].1)
            },
            None => None,
        }
    }

    /// Inserts the receipt under `k`, replacing any receipt already there.
    pub fn insert(&mut self, k: ContentHash, r: P2PMessageReceipt)
        requires
            old(self).wf(),
        ensures
            final(self).wf(),
            final(self)@ == old(self)@.insert(k, r),
    {
        let ghost s = self.0@;
        match self.find(k) {
            Some(i) => {
                proof {
                    lemma_map_of_update(s, i as int, r);
                }
                let _ = self.0.remove(i);
                self.0.insert(i, (k, r));
                proof {
                    assert(self.0@ =~= s.update(i as int, (k, r)));
                }
            },
            None => {
                proof {
                    lemma_map_of_push(s, k, r);
                }
                self.0.push((k, r));
            },
        }
    }

    /// Removes the entry under `k`, if any.
    pub fn remove(&mut self, k: ContentHash)
        requires
            old(self).wf(),
        ensures
            final(self).wf(),
            final(self)@ == old(self)@.remove(k),
    {
        let ghost s = self.0@;
        match self.find(k) {
            Some(i) => {
                proof {
                    lemma_map_of_remove(s, i as int);
                }
                let _ = self.0.remove(i);
            },
            None => {
                proof {
                    lemma_map_of_contains(s, k);
                    assert(map_of(s).remove(k) =~= map_of(s));
                }
            },
        }
    }

    /// Whether the table holds no entry.
    pub fn is_empty(&self) -> (r: bool)
        ensures
            r == (self@ == Map::<ContentHash, P2PMessageReceipt>::empty()),
    {
        proof {
            if self.0@.len() == 0 {
                assert(self@ =~= Map::<ContentHash, P2PMessageReceipt>::empty());
            } else {
                lemma_map_of_contains(self.0@, self.0@[0].0);
                assert(self.0@[0].0 == self.0@[0].0);
                assert(self@.contains_key(self.0@[0].0));
            }
        }
        self.0.len() == 0
    }

    pub fn len(&self) -> (n: usize)
        ensures
            n == self.0@.len(),
    {
        self.0.len()
    }

    /// An entry-by-entry copy, with the view preserved.
    pub fn duplicate(&self) -> (r: ReceiptContents)
        ensures
            r.0@ == self.0@,
            r@ == self@,
            self.wf() ==> r.wf(),
    {
        let mut out: Vec<(ContentHash, P2PMessageReceipt)> = Vec::new();
        let mut i: usize = 0;
        while i < self.0.len()
            invariant
                i <= self.0@.len(),
                out@ == self.0@.take(i as int),
            decreases self.0@.len() - i,
        {
            let pair = self.0[i];
            out.push(pair);
            proof {
                assert(self.0@.take(i + 1) =~= self.0@.take(i as int).push(self.0@[i as int]));
            }
            i = i + 1;
        }
        proof {
            assert(self.0@.take(self.0@.len() as int) =~= self.0@);
        }
        ReceiptContents(out)
    }
}

impl View for ReceiptContents {
    type V = Map<ContentHash, P2PMessageReceipt>;

    open spec fn view(&self) -> Map<ContentHash, P2PMessageReceipt> {
        map_of(self.0@)
    }
}

/// The reply pairs registered during a scan: each entry names a replied-to
/// message and one reply to it, in registration order.
#[derive(Clone, Debug)]
pub struct ReplyPairs(pub Vec<(ContentHash, ContentHash)>);

impl View for ReplyPairs {
    type V = Seq<(ContentHash, ContentHash)>;

    open spec fn view(&self) -> Seq<(ContentHash, ContentHash)> {
        self.0@
    }
}

impl ReplyPairs {
    pub fn new() -> (r: ReplyPairs)
        ensures
            r@ == Seq::<(ContentHash, ContentHash)>::empty(),
    {
        ReplyPairs(Vec::new())
    }
}

/// The three co-indexed tables of one assembly result.
#[derive(Clone, Debug)]
pub struct P2PMessageHashTables(pub AgentMessages, pub MessageContents, pub ReceiptContents);

/// Registers a reply: the replied-to id (the message's `reply_to` target)
/// paired with the reply's own id.
pub fn insert_reply(reply_pairs: &mut ReplyPairs, message_entry: &P2PMessage, message_hash: ContentHash)
    requires
        message_entry.reply_to is Some,
    ensures
        final(reply_pairs)@ == old(reply_pairs)@.push(
            (message_entry.reply_to->0, message_hash),
        ),
{
    match &message_entry.reply_to {
        Some(parent) => {
            reply_pairs.0.push((*parent, message_hash));
        },
        None => {
            proof {
                assert(false);
            }
        },
    }
}

/// Appends the message's id to the bucket under `key` and records the
/// message's bundle under its id; returns the bucket's new length, which
/// callers compare with a batch cap.
pub fn insert_message(
    agent_messages: &mut AgentMessages,
    message_contents: &mut MessageContents,
    message_entry: P2PMessage,
    message_hash: ContentHash,
    key: AgentKey,
) -> (n: usize)
    requires
        old(agent_messages).wf(),
        old(message_contents).wf(),
    ensures
        final(agent_messages).wf(),
        final(message_contents).wf(),
        final(agent_messages)@ == old(agent_messages)@.insert(
            key,
            old_bucket(old(agent_messages)@, key).push(message_hash),
        ),
        final(message_contents)@ == old(message_contents)@.insert(
            message_hash,
            BundleV { message: message_entry@, attachments: Seq::empty() },
        ),
        n == old_bucket(old(agent_messages)@, key).push(message_hash).len(),
{
    let n = agent_messages.push(key, message_hash);
    message_contents.insert(message_hash, MessageBundle(message_entry, Vec::new()));
    n
}

/// One step of receipt attachment: a local receipt whose referenced id is
/// among the assembled messages is recorded under its own hash and its hash
/// is appended to that message's attachment list.
pub open spec fn receipts_scan(
    rs: Seq<P2PMessageReceipt>,
    mc: Map<ContentHash, BundleV>,
    rc: Map<ContentHash, P2PMessageReceipt>,
) -> (Map<ContentHash, BundleV>, Map<ContentHash, P2PMessageReceipt>)
    decreases rs.len(),
{
    if rs.len() == 0 {
        (mc, rc)
    } else {
        let prev = receipts_scan(rs.drop_last(), mc, rc);
        let r = rs.last();
        let rh = ContentHash { raw: spec_receipt_hash(r) };
        if prev.0.contains_key(r.id) {
            (
                prev.0.insert(
                    r.id,
                    BundleV {
                        message: prev.0[r.id].message,
                        attachments: prev.0[r.id].attachments.push(rh),
                    },
                ),
                prev.1.insert(rh, r),
            )
        } else {
            prev
        }
    }
}

/// Attaches every local receipt that acknowledges an assembled message:
/// walks the scanned receipt log once and performs `receipts_scan`.
pub fn get_receipts(
    message_contents: &mut MessageContents,
    receipt_contents: &mut ReceiptContents,
    receipt_log: &Vec<P2PMessageReceipt>,
)
    requires
        old(message_contents).wf(),
        old(receipt_contents).wf(),
    ensures
        final(message_contents).wf(),
        final(receipt_contents).wf(),
        (final(message_contents)@, final(receipt_contents)@) == receipts_scan(
            receipt_log@,
            old(message_contents)@,
            old(receipt_contents)@,
        ),
{
    let ghost mc0 = message_contents@;
    let ghost rc0 = receipt_contents@;
    let mut i: usize = 0;
    proof {
        assert(receipt_log@.take(0) =~= Seq::<P2PMessageReceipt>::empty());
    }
    while i < receipt_log.len()
        invariant
            i <= receipt_log@.len(),
            message_contents.wf(),
            receipt_contents.wf(),
            (message_contents@, receipt_contents@) == receipts_scan(
                receipt_log@.take(i as int),
                mc0,
                rc0,
            ),
        decreases receipt_log@.len() - i,
    {
        let r = receipt_log[i];
        proof {
            assert(receipt_log@.take(i + 1).drop_last() =~= receipt_log@.take(i as int));
            assert(receipt_log@.take(i + 1).last() == receipt_log@[i as int]);
        }
        if message_contents.contains_key(r.id) {
            let rh = receipt_hash(&r);
            receipt_contents.insert(rh, r);
            message_contents.push_attachment(r.id, rh);
        }
        i = i + 1;
    }
    proof {
        assert(receipt_log@.take(receipt_log@.len() as int) =~= receipt_log@);
    }
}

/// Every id attached to a bundle has an entry in the receipt table.
pub open spec fn attachments_covered(
    mc: Map<ContentHash, BundleV>,
    rc: Map<ContentHash, P2PMessageReceipt>,
) -> bool {
    forall|h: ContentHash, i: int|
        mc.contains_key(h) && 0 <= i < mc[h].attachments.len() ==> rc.contains_key(
            #[trigger] mc[h].attachments[i],
        )
}

/// Receipt attachment never adds or removes a message: the contents keys
/// stay exactly what the scan assembled.
pub proof fn lemma_receipts_scan_dom(
    rs: Seq<P2PMessageReceipt>,
    mc: Map<ContentHash, BundleV>,
    rc: Map<ContentHash, P2PMessageReceipt>,
)
    ensures
        forall|h: ContentHash|
            receipts_scan(rs, mc, rc).0.contains_key(h) <==> mc.contains_key(h),
    decreases rs.len(),
{
    if rs.len() > 0 {
        lemma_receipts_scan_dom(rs.drop_last(), mc, rc);
    }
}

/// Receipt attachment keeps the tables co-indexed: every id it appends to a
/// bundle is recorded in the receipt table in the same step.
pub proof fn lemma_receipts_scan_covered(
    rs: Seq<P2PMessageReceipt>,
    mc: Map<ContentHash, BundleV>,
    rc: Map<ContentHash, P2PMessageReceipt>,
)
    requires
        attachments_covered(mc, rc),
    ensures
        attachments_covered(receipts_scan(rs, mc, rc).0, receipts_scan(rs, mc, rc).1),
    decreases rs.len(),
{
    if rs.len() > 0 {
        lemma_receipts_scan_covered(rs.drop_last(), mc, rc);
        let prev = receipts_scan(rs.drop_last(), mc, rc);
        let cur = receipts_scan(rs, mc, rc);
        let r = rs.last();
        let rh = ContentHash { raw: spec_receipt_hash(r) };
        if prev.0.contains_key(r.id) {
            assert forall|h: ContentHash, i: int|
                cur.0.contains_key(h) && 0 <= i < cur.0[h].attachments.len() implies cur
                .1
                .contains_key(#[trigger] cur.0[h].attachments[i]) by {
                if h == r.id {
                    if i < prev.0[h].attachments.len() {
                        assert(cur.0[h].attachments[i] == prev.0[h].attachments[i]);
                    } else {
                        assert(cur.0[h].attachments[i] == rh);
                    }
                } else {
                    assert(cur.0[h] == prev.0[h]);
                }
            }
        }
    }
}

/// One step of reply attachment: a registered reply whose replied-to message
/// is among the assembled messages is appended to that message's attachment
/// list; a reply whose parent is absent from this page is dropped.
pub open spec fn replies_scan(
    pairs: Seq<(ContentHash, ContentHash)>,
    mc: Map<ContentHash, BundleV>,
) -> Map<ContentHash, BundleV>
    decreases pairs.len(),
{
    if pairs.len() == 0 {
        mc
    } else {
        let prev = replies_scan(pairs.drop_last(), mc);
        let p = pairs.last();
        if prev.contains_key(p.0) {
            prev.insert(
                p.0,
                BundleV {
                    message: prev[p.0].message,
                    attachments: prev[p.0].attachments.push(p.1),
                },
            )
        } else {
            prev
        }
    }
}

/// Reply attachment never adds or removes a message: the contents keys stay
/// exactly what the scan assembled.
pub proof fn lemma_replies_scan_dom(
    pairs: Seq<(ContentHash, ContentHash)>,
    mc: Map<ContentHash, BundleV>,
)
    ensures
        forall|h: ContentHash|
            replies_scan(pairs, mc).contains_key(h) <==> mc.contains_key(h),
    decreases pairs.len(),
{
    if pairs.len() > 0 {
        lemma_replies_scan_dom(pairs.drop_last(), mc);
    }
}

/// Resolves the registered reply pairs against the assembled messages:
/// walks the pairs once and performs `replies_scan`.
pub fn get_replies(reply_pairs: &ReplyPairs, message_contents: &mut MessageContents)
    requires
        old(message_contents).wf(),
    ensures
        final(message_contents).wf(),
        final(message_contents)@ == replies_scan(reply_pairs@, old(message_contents)@),
{
    let ghost mc0 = message_contents@;
    let mut i: usize = 0;
    proof {
        assert(reply_pairs@.take(0) =~= Seq::<(ContentHash, ContentHash)>::empty());
    }
    while i < reply_pairs.0.len()
        invariant
            i <= reply_pairs@.len(),
            message_contents.wf(),
            message_contents@ == replies_scan(reply_pairs@.take(i as int), mc0),
        decreases reply_pairs@.len() - i,
    {
        let (parent, reply) = reply_pairs.0[i];
        proof {
            assert(reply_pairs@.take(i + 1).drop_last() =~= reply_pairs@.take(i as int));
            assert(reply_pairs@.take(i + 1).last() == reply_pairs@[i as int]);
        }
        if message_contents.contains_key(parent) {
            message_contents.push_attachment(parent, reply);
        }
        i = i + 1;
    }
    proof {
        assert(reply_pairs@.take(reply_pairs@.len() as int) =~= reply_pairs@);
    }
}

} // verus!
