//! Durable key-value store for events and threats, kept in an embedded
//! `sled` tree.  Records are serialised with the verified codec's binary
//! format and stored under `event_<id>` and `threat_<id>` keys (the
//! JSON-lines log streams stay with the platform adapter); the tree itself
//! is reached through trusted wrappers whose contracts speak of the tree's
//! contents.

use vstd::prelude::*;

use crate::codec::{decode_event, decode_threat, enc_event, enc_threat, encode_event,
    encode_threat, event_enc_at, threat_enc_at};
use crate::types::{SystemEvent, SystemEventV, Threat, ThreatV};

verus! {

#[verifier::external_type_specification]
#[verifier::external_body]
pub struct ExSledDb(sled::Db);

/// What the tree holds: a map from keys to values, as byte sequences.
pub uninterp spec fn db_contents(db: sled::Db) -> Map<Seq<u8>, Seq<u8>>;

/// Relies on `sled::Tree::insert` (through `Db`'s deref): a single-key
/// compare-and-swap, so the tree either maps the key to the new value or
/// stays as it was; on success the key is mapped.
#[verifier::external_body]
fn db_insert(db: &mut sled::Db, key: &Vec<u8>, value: Vec<u8>) -> (r: Result<(), ()>)
    ensures
        db_contents(*final(db)) == db_contents(*old(db)).insert(key@, value@) || db_contents(
            *final(db),
        ) == db_contents(*old(db)),
        r is Ok ==> db_contents(*final(db)) == db_contents(*old(db)).insert(key@, value@),
{
    match db.insert(key.as_slice(), value) {
        Ok(_) => Ok(()),
        Err(_) => Err(()),
    }
}

/// Relies on `sled::Tree::get`: the value the tree holds for the key, if
/// any; an error reads as nothing found being promised.
#[verifier::external_body]
fn db_get(db: &sled::Db, key: &Vec<u8>) -> (r: Result<Option<Vec<u8>>, ()>)
    ensures
        match r {
            Ok(Some(v)) => db_contents(*db).contains_pair(key@, v@),
            Ok(None) => !db_contents(*db).dom().contains(key@),
            Err(_) => true,
        },
{
    match db.get(key.as_slice()) {
        Ok(Some(v)) => Ok(Some(v.to_vec())),
        Ok(None) => Ok(None),
        Err(_) => Err(()),
    }
}

/// Relies on `sled::Tree::remove`: a single-key compare-and-swap, so the
/// tree either loses exactly that key or stays as it was; on success the
/// key is gone.
#[verifier::external_body]
fn db_remove(db: &mut sled::Db, key: &Vec<u8>) -> (r: Result<(), ()>)
    ensures
        db_contents(*final(db)) == db_contents(*old(db)).remove(key@) || db_contents(*final(db))
            == db_contents(*old(db)),
        r is Ok ==> db_contents(*final(db)) == db_contents(*old(db)).remove(key@),
{
    match db.remove(key.as_slice()) {
        Ok(_) => Ok(()),
        Err(_) => Err(()),
    }
}

/// Relies on `sled::Tree::flush`: writes buffers to disk and changes no
/// contents, whether or not the write succeeds.
#[verifier::external_body]
fn db_flush(db: &mut sled::Db) -> (r: Result<(), ()>)
    ensures
        db_contents(*final(db)) == db_contents(*old(db)),
{
    match db.flush() {
        Ok(_) => Ok(()),
        Err(_) => Err(()),
    }
}

/// Relies on `sled::Tree::scan_prefix`: on success, exactly the pairs whose
/// key starts with the prefix, each key once.
#[verifier::external_body]
fn db_scan_prefix(db: &sled::Db, prefix: &Vec<u8>) -> (r: Option<Vec<(Vec<u8>, Vec<u8>)>>)
    ensures
        match r {
            Some(pairs) => {
                &&& forall|i: int|
                    0 <= i < pairs.deep_view().len() ==> #[trigger] db_contents(*db).contains_pair(
                        pairs.deep_view()[i].0,
                        pairs.deep_view()[i].1,
                    ) && prefix@.is_prefix_of(pairs.deep_view()[i].0)
                &&& forall|k: Seq<u8>|
                    db_contents(*db).dom().contains(k) && #[trigger] prefix@.is_prefix_of(k)
                        ==> exists|i: int|
                        0 <= i < pairs.deep_view().len() && pairs.deep_view()[i].0 == k
                &&& forall|i: int, j: int|
                    0 <= i < j < pairs.deep_view().len() ==> pairs.deep_view()[i].0
                        != pairs.deep_view()[j].0
            },
            None => true,
        },
{
    let mut out: Vec<(Vec<u8>, Vec<u8>)> = Vec::new();
    for item in db.scan_prefix(prefix.as_slice()) {
        match item {
            Ok((k, v)) => out.push((k.to_vec(), v.to_vec())),
            Err(_) => {
                return None;
            },
        }
    }
    Some(out)
}

/// The store key of an event id.
pub open spec fn event_key(id: Seq<char>) -> Seq<u8> {
    vstd::utf8::encode_utf8("event_"@ + id)
}

/// The store key of a threat id.
pub open spec fn threat_key(id: Seq<char>) -> Seq<u8> {
    vstd::utf8::encode_utf8("threat_"@ + id)
}

/// The bytes every event key starts with.
pub open spec fn event_key_prefix() -> Seq<u8> {
    vstd::utf8::encode_utf8("event_"@)
}

/// The bytes every threat key starts with.
pub open spec fn threat_key_prefix() -> Seq<u8> {
    vstd::utf8::encode_utf8("threat_"@)
}

/// The stored keys that start with a prefix.
pub open spec fn keys_with_prefix(contents: Map<Seq<u8>, Seq<u8>>, prefix: Seq<u8>) -> Set<
    Seq<u8>,
> {
    Set::new(|k: Seq<u8>| contents.dom().contains(k) && prefix.is_prefix_of(k))
}

/// The store holds a record whose only well-formed reading as an event is
/// `ev`: it came from a stored `event_`-prefixed pair.
pub open spec fn event_from_store(c: Map<Seq<u8>, Seq<u8>>, ev: SystemEventV) -> bool {
    exists|k: Seq<u8>, b: Seq<u8>|
        #![auto]
        {
            &&& c.contains_pair(k, b)
            &&& event_key_prefix().is_prefix_of(k)
            &&& forall|x: SystemEventV| event_enc_at(b, 0, x) ==> ev == x
        }
}

/// The store holds a record whose only well-formed reading as a threat is
/// `t`: it came from a stored `threat_`-prefixed pair.
pub open spec fn threat_from_store(c: Map<Seq<u8>, Seq<u8>>, t: ThreatV) -> bool {
    exists|k: Seq<u8>, b: Seq<u8>|
        #![auto]
        {
            &&& c.contains_pair(k, b)
            &&& threat_key_prefix().is_prefix_of(k)
            &&& forall|x: ThreatV| threat_enc_at(b, 0, x) ==> t == x
        }
}

/// A record the retention sweep may drop: its key names a stream, and any
/// record its bytes genuinely encode lies before the cutoff.
pub open spec fn record_reading_was_old(b: Seq<u8>, k: Seq<u8>, cutoff: u64) -> bool {
    ||| (event_key_prefix().is_prefix_of(k) && (forall|x: SystemEventV|
        event_enc_at(b, 0, x) ==> x.timestamp < cutoff))
    ||| (threat_key_prefix().is_prefix_of(k) && (forall|t: ThreatV|
        threat_enc_at(b, 0, t) ==> t.timestamp < cutoff))
}

/// The sweep only removes: whatever is still stored was stored before,
/// unchanged.
pub open spec fn sweep_keeps(old_c: Map<Seq<u8>, Seq<u8>>, new_c: Map<Seq<u8>, Seq<u8>>) -> bool {
    forall|k: Seq<u8>|
        #[trigger] new_c.dom().contains(k) ==> old_c.dom().contains(k) && new_c[k] == old_c[k]
}

/// Every key the sweep removed held a record that read as old.
pub open spec fn sweep_removals_justified(
    old_c: Map<Seq<u8>, Seq<u8>>,
    new_c: Map<Seq<u8>, Seq<u8>>,
    cutoff: u64,
) -> bool {
    forall|k: Seq<u8>|
        old_c.dom().contains(k) && !(#[trigger] new_c.dom().contains(k))
            ==> record_reading_was_old(old_c[k], k, cutoff)
}

/// A sequence of pairwise-distinct elements that covers a set exactly has
/// the set's cardinality.
proof fn lemma_distinct_cover_card(keys: Seq<Seq<u8>>, s: Set<Seq<u8>>)
    requires
        forall|i: int, j: int| 0 <= i < j < keys.len() ==> keys[i] != keys[j],
        forall|i: int| 0 <= i < keys.len() ==> s.contains(#[trigger] keys[i]),
        forall|k: Seq<u8>|
            #[trigger] s.contains(k) ==> exists|i: int| 0 <= i < keys.len() && keys[i] == k,
    ensures
        s.finite(),
        s.len() == keys.len(),
    decreases keys.len(),
{
    if keys.len() == 0 {
        assert(s =~= Set::<Seq<u8>>::empty());
    } else {
        let k0 = keys.last();
        let s2 = s.remove(k0);
        let keys2 = keys.drop_last();
        assert forall|i: int| 0 <= i < keys2.len() implies s2.contains(#[trigger] keys2[i]) by {
            assert(keys2[i] == keys[i]);
            assert(keys[i] != k0);
        }
        assert forall|k: Seq<u8>| #[trigger] s2.contains(k) implies exists|i: int|
            0 <= i < keys2.len() && keys2[i] == k by {
            assert(s.contains(k));
            let i = choose|i: int| 0 <= i < keys.len() && keys[i] == k;
            assert(k != k0);
            assert(i != keys.len() - 1);
            assert(keys2[i] == k);
        }
        lemma_distinct_cover_card(keys2, s2);
        assert(s.contains(k0));
        assert(!s2.contains(k0));
        assert(s =~= s2.insert(k0));
    }
}

/// Build the store key for a record id.
fn make_key(prefix: &str, id: &str) -> (r: Vec<u8>)
    ensures
        r@ == vstd::utf8::encode_utf8(prefix@ + id@),
{
    let mut k = String::from_str(prefix);
    k.append(id);
    proof {
        assert(k@ =~= prefix@ + id@);
    }
    k.as_str().as_bytes_vec()
}

/// Persistent storage for events and threats.
pub struct EventStore {
    db: sled::Db,
}

impl EventStore {
    /// The stored key-value pairs.
    pub closed spec fn contents(self) -> Map<Seq<u8>, Seq<u8>> {
        db_contents(self.db)
    }

    /// A store over an opened tree.
    pub fn new(db: sled::Db) -> (r: Self)
        ensures
            r.contents() == db_contents(db),
    {
        EventStore { db }
    }

    /// Store an event under `event_<id>`, serialised with the verified
    /// codec, and flush.  On success the store holds exactly the encoding;
    /// a backend failure leaves the result false, and even then the store
    /// either took the record or is unchanged.
    pub fn store_event(&mut self, event: &SystemEvent) -> (r: bool)
        ensures
            r ==> final(self).contents() == old(self).contents().insert(
                event_key(event.deep_view().id),
                enc_event(event.deep_view()),
            ),
            final(self).contents() == old(self).contents().insert(
                event_key(event.deep_view().id),
                enc_event(event.deep_view()),
            ) || final(self).contents() == old(self).contents(),
    {
        let key = make_key("event_", event.id.as_str());
        let value = encode_event(event);
        match db_insert(&mut self.db, &key, value) {
            Ok(_) => match db_flush(&mut self.db) {
                Ok(_) => true,
                Err(_) => false,
            },
            Err(_) => false,
        }
    }

    /// Store a threat under `threat_<id>`, serialised with the verified
    /// codec, and flush.  On success the store holds exactly the encoding;
    /// even on failure the store either took the record or is unchanged.
    pub fn store_threat(&mut self, threat: &Threat) -> (r: bool)
        ensures
            r ==> final(self).contents() == old(self).contents().insert(
                threat_key(threat.deep_view().id),
                enc_threat(threat.deep_view()),
            ),
            final(self).contents() == old(self).contents().insert(
                threat_key(threat.deep_view().id),
                enc_threat(threat.deep_view()),
            ) || final(self).contents() == old(self).contents(),
    {
        let key = make_key("threat_", threat.id.as_str());
        let value = encode_threat(threat);
        match db_insert(&mut self.db, &key, value) {
            Ok(_) => match db_flush(&mut self.db) {
                Ok(_) => true,
                Err(_) => false,
            },
            Err(_) => false,
        }
    }

    /// Fetch the event stored under this id.  When something comes back,
    /// the key is stored, and if its bytes are any event's encoding, the
    /// result is that event.
    pub fn get_event(&self, id: &str) -> (r: Option<SystemEvent>)
        ensures
            match r {
                Some(ev) => self.contents().dom().contains(event_key(id@)) && (forall|
                    x: SystemEventV,
                |
                    #[trigger] event_enc_at(self.contents()[event_key(id@)], 0, x) ==> ev.deep_view()
                        == x),
                None => true,
            },
    {
        let key = make_key("event_", id);
        match db_get(&self.db, &key) {
            Ok(Some(bytes)) => decode_event(&bytes),
            _ => None,
        }
    }

    /// Fetch the threat stored under this id.
    pub fn get_threat(&self, id: &str) -> (r: Option<Threat>)
        ensures
            match r {
                Some(t) => self.contents().dom().contains(threat_key(id@)) && (forall|x: ThreatV|
                    #[trigger] threat_enc_at(self.contents()[threat_key(id@)], 0, x)
                        ==> t.deep_view() == x),
                None => true,
            },
    {
        let key = make_key("threat_", id);
        match db_get(&self.db, &key) {
            Ok(Some(bytes)) => decode_threat(&bytes),
            _ => None,
        }
    }

    /// Up to `count` stored events, in key order.  Every returned event
    /// decodes from a stored `event_`-prefixed record; records that do not
    /// decode are skipped.
    pub fn get_recent_events(&self, count: usize) -> (r: Vec<SystemEvent>)
        ensures
            r@.len() <= count,
            forall|i: int|
                0 <= i < r.deep_view().len() ==> event_from_store(
                    self.contents(),
                    #[trigger] r.deep_view()[i],
                ),
    {
        let prefix = String::from_str("event_").as_str().as_bytes_vec();
        proof {
            assert(prefix@ == event_key_prefix());
        }
        let mut out: Vec<SystemEvent> = Vec::new();
        match db_scan_prefix(&self.db, &prefix) {
            Some(pairs) => {
                let n = pairs.len();
                let mut i: usize = 0;
                while i < n
                    invariant
                        n == pairs@.len(),
                        i <= n,
                        out@.len() <= count,
                        forall|j: int|
                            0 <= j < pairs.deep_view().len() ==> #[trigger] self.contents()
                                .contains_pair(pairs.deep_view()[j].0, pairs.deep_view()[j].1)
                                && event_key_prefix().is_prefix_of(pairs.deep_view()[j].0),
                        forall|j: int|
                            0 <= j < out.deep_view().len() ==> event_from_store(
                                self.contents(),
                                #[trigger] out.deep_view()[j],
                            ),
                    decreases n - i,
                {
                    if out.len() >= count {
                        return out;
                    }
                    proof {
                        assert(pairs.deep_view()[i as int] == pairs@[i as int].deep_view());
                        assert(pairs@[i as int].1.deep_view() =~= pairs@[i as int].1@);
                    }
                    let ghost ob = out.deep_view();
                    match decode_event(&pairs[i].1) {
                        Some(ev) => {
                            let ghost evv = ev.deep_view();
                            out.push(ev);
                            proof {
                                assert(out.deep_view() =~= ob.push(evv));
                                let kw = pairs.deep_view()[i as int].0;
                                let bw = pairs.deep_view()[i as int].1;
                                assert(self.contents().contains_pair(kw, bw));
                                assert(event_key_prefix().is_prefix_of(kw));
                                assert forall|x: SystemEventV| event_enc_at(bw, 0, x) implies evv
                                    == x by {
                                    assert(event_enc_at(pairs@[i as int].1@, 0, x));
                                }
                                assert(event_from_store(self.contents(), evv));
                            }
                        },
                        None => {},
                    }
                    i += 1;
                }
            },
            None => {},
        }
        out
    }

    /// Up to `count` stored threats, in key order.  Every returned threat
    /// decodes from a stored `threat_`-prefixed record; records that do
    /// not decode are skipped.
    pub fn get_recent_threats(&self, count: usize) -> (r: Vec<Threat>)
        ensures
            r@.len() <= count,
            forall|i: int|
                0 <= i < r.deep_view().len() ==> threat_from_store(
                    self.contents(),
                    #[trigger] r.deep_view()[i],
                ),
    {
        let prefix = String::from_str("threat_").as_str().as_bytes_vec();
        proof {
            assert(prefix@ == threat_key_prefix());
        }
        let mut out: Vec<Threat> = Vec::new();
        match db_scan_prefix(&self.db, &prefix) {
            Some(pairs) => {
                let n = pairs.len();
                let mut i: usize = 0;
                while i < n
                    invariant
                        n == pairs@.len(),
                        i <= n,
                        out@.len() <= count,
                        forall|j: int|
                            0 <= j < pairs.deep_view().len() ==> #[trigger] self.contents()
                                .contains_pair(pairs.deep_view()[j].0, pairs.deep_view()[j].1)
                                && threat_key_prefix().is_prefix_of(pairs.deep_view()[j].0),
                        forall|j: int|
                            0 <= j < out.deep_view().len() ==> threat_from_store(
                                self.contents(),
                                #[trigger] out.deep_view()[j],
                            ),
                    decreases n - i,
                {
                    if out.len() >= count {
                        return out;
                    }
                    proof {
                        assert(pairs.deep_view()[i as int] == pairs@[i as int].deep_view());
                        assert(pairs@[i as int].1.deep_view() =~= pairs@[i as int].1@);
                    }
                    let ghost ob = out.deep_view();
                    match decode_threat(&pairs[i].1) {
                        Some(t) => {
                            let ghost tv = t.deep_view();
                            out.push(t);
                            proof {
                                assert(out.deep_view() =~= ob.push(tv));
                                let kw = pairs.deep_view()[i as int].0;
                                let bw = pairs.deep_view()[i as int].1;
                                assert(self.contents().contains_pair(kw, bw));
                                assert(threat_key_prefix().is_prefix_of(kw));
                                assert forall|x: ThreatV| threat_enc_at(bw, 0, x) implies tv
                                    == x by {
                                    assert(threat_enc_at(pairs@[i as int].1@, 0, x));
                                }
                                assert(threat_from_store(self.contents(), tv));
                            }
                        },
                        None => {},
                    }
                    i += 1;
                }
            },
            None => {},
        }
        out
    }

    /// Number of stored events: the count of `event_`-prefixed keys, or
    /// zero when the backend refuses the scan.
    pub fn event_count(&self) -> (r: usize)
        ensures
            r == 0 || (keys_with_prefix(self.contents(), event_key_prefix()).finite() && r
                == keys_with_prefix(self.contents(), event_key_prefix()).len()),
    {
        let prefix = String::from_str("event_").as_str().as_bytes_vec();
        proof {
            assert(prefix@ == event_key_prefix());
        }
        match db_scan_prefix(&self.db, &prefix) {
            Some(pairs) => {
                proof {
                    let pv = pairs.deep_view();
                    let keys = Seq::new(pv.len(), |i: int| pv[i].0);
                    let s = keys_with_prefix(self.contents(), event_key_prefix());
                    assert forall|i: int| 0 <= i < keys.len() implies s.contains(
                        #[trigger] keys[i],
                    ) by {
                        assert(db_contents(self.db).contains_pair(pv[i].0, pv[i].1));
                    }
                    assert forall|k: Seq<u8>| #[trigger] s.contains(k) implies exists|i: int|
                        0 <= i < keys.len() && keys[i] == k by {
                        assert(self.contents().dom().contains(k) && prefix@.is_prefix_of(k));
                        let i = choose|i: int| 0 <= i < pv.len() && pv[i].0 == k;
                        assert(keys[i] == k);
                    }
                    lemma_distinct_cover_card(keys, s);
                }
                pairs.len()
            },
            None => 0,
        }
    }

    /// Number of stored threats: the count of `threat_`-prefixed keys, or
    /// zero when the backend refuses the scan.
    pub fn threat_count(&self) -> (r: usize)
        ensures
            r == 0 || (keys_with_prefix(self.contents(), threat_key_prefix()).finite() && r
                == keys_with_prefix(self.contents(), threat_key_prefix()).len()),
    {
        let prefix = String::from_str("threat_").as_str().as_bytes_vec();
        proof {
            assert(prefix@ == threat_key_prefix());
        }
        match db_scan_prefix(&self.db, &prefix) {
            Some(pairs) => {
                proof {
                    let pv = pairs.deep_view();
                    let keys = Seq::new(pv.len(), |i: int| pv[i].0);
                    let s = keys_with_prefix(self.contents(), threat_key_prefix());
                    assert forall|i: int| 0 <= i < keys.len() implies s.contains(
                        #[trigger] keys[i],
                    ) by {
                        assert(db_contents(self.db).contains_pair(pv[i].0, pv[i].1));
                    }
                    assert forall|k: Seq<u8>| #[trigger] s.contains(k) implies exists|i: int|
                        0 <= i < keys.len() && keys[i] == k by {
                        assert(self.contents().dom().contains(k) && prefix@.is_prefix_of(k));
                        let i = choose|i: int| 0 <= i < pv.len() && pv[i].0 == k;
                        assert(keys[i] == k);
                    }
                    lemma_distinct_cover_card(keys, s);
                }
                pairs.len()
            },
            None => 0,
        }
    }

    /// Retention sweep: drop every stored event and threat whose timestamp
    /// is before `cutoff`, and report how many records went.  The sweep
    /// only removes, every removed key held a record that read as older
    /// than the cutoff, and the count never overstates the removals: at
    /// least that many keys are gone.
    pub fn cleanup_old_data(&mut self, cutoff: u64) -> (r: usize)
        ensures
            sweep_keeps(old(self).contents(), final(self).contents()),
            sweep_removals_justified(old(self).contents(), final(self).contents(), cutoff),
            exists|gone: Set<Seq<u8>>|
                #![auto]
                {
                    &&& gone.finite()
                    &&& gone.len() >= r
                    &&& forall|k: Seq<u8>|
                        gone.contains(k) ==> old(self).contents().dom().contains(k)
                            && !final(self).contents().dom().contains(k)
                },
    {
        let ghost c0 = self.contents();
        let ghost mut gone: Set<Seq<u8>> = Set::empty();
        let mut deleted: usize = 0;
        let prefix = String::from_str("event_").as_str().as_bytes_vec();
        proof {
            assert(prefix@ == event_key_prefix());
        }
        match db_scan_prefix(&self.db, &prefix) {
            Some(pairs) => {
                proof {
                    assert forall|j: int| 0 <= j < pairs.deep_view().len() implies #[trigger] c0
                        .contains_pair(pairs.deep_view()[j].0, pairs.deep_view()[j].1)
                        && event_key_prefix().is_prefix_of(pairs.deep_view()[j].0) by {
                        assert(db_contents(self.db).contains_pair(
                            pairs.deep_view()[j].0,
                            pairs.deep_view()[j].1,
                        ));
                    }
                    assert forall|j: int| 0 <= j < pairs.deep_view().len() implies self.contents()
                        .dom().contains(#[trigger] pairs.deep_view()[j].0) by {
                        assert(c0.contains_pair(pairs.deep_view()[j].0, pairs.deep_view()[j].1));
                    }
                }
                let n = pairs.len();
                let mut i: usize = 0;
                while i < n
                    invariant
                        n == pairs@.len(),
                        i <= n,
                        c0 == old(self).contents(),
                        sweep_keeps(c0, self.contents()),
                        sweep_removals_justified(c0, self.contents(), cutoff),
                        gone.finite(),
                        gone.len() >= deleted,
                        forall|k: Seq<u8>|
                            #[trigger] gone.contains(k) ==> c0.dom().contains(k) && !self.contents()
                                .dom().contains(k),
                        forall|j: int|
                            0 <= j < pairs.deep_view().len() ==> #[trigger] c0.contains_pair(
                                pairs.deep_view()[j].0,
                                pairs.deep_view()[j].1,
                            ) && event_key_prefix().is_prefix_of(pairs.deep_view()[j].0),
                        forall|j: int|
                            #![trigger pairs.deep_view()[j]]
                            i <= j < pairs.deep_view().len() ==> self.contents().dom().contains(
                                pairs.deep_view()[j].0,
                            ),
                        forall|a: int, b: int|
                            0 <= a < b < pairs.deep_view().len() ==> pairs.deep_view()[a].0
                                != pairs.deep_view()[b].0,
                    decreases n - i,
                {
                    proof {
                        assert(pairs.deep_view()[i as int] == pairs@[i as int].deep_view());
                        assert(pairs@[i as int].1.deep_view() =~= pairs@[i as int].1@);
                        assert(pairs@[i as int].0.deep_view() =~= pairs@[i as int].0@);
                    }
                    match decode_event(&pairs[i].1) {
                        Some(ev) => {
                            if ev.timestamp < cutoff {
                                let ghost cur = self.contents();
                                let ghost kk = pairs.deep_view()[i as int].0;
                                let ghost bb = pairs.deep_view()[i as int].1;
                                let removed = db_remove(&mut self.db, &pairs[i].0);
                                proof {
                                    assert forall|k2: Seq<u8>|
                                        #[trigger] self.contents().dom().contains(k2) implies c0
                                        .dom().contains(k2) && self.contents()[k2] == c0[k2] by {
                                        assert(cur.dom().contains(k2) && self.contents()[k2]
                                            == cur[k2]);
                                    }
                                    assert forall|k2: Seq<u8>|
                                        c0.dom().contains(k2) && !(#[trigger] self.contents().dom()
                                            .contains(k2)) implies record_reading_was_old(
                                        c0[k2],
                                        k2,
                                        cutoff,
                                    ) by {
                                        if cur.dom().contains(k2) {
                                            assert(k2 == kk);
                                            assert(c0.contains_pair(kk, bb));
                                            assert(event_key_prefix().is_prefix_of(kk));
                                            assert forall|x: SystemEventV|
                                                event_enc_at(bb, 0, x) implies x.timestamp
                                                < cutoff by {
                                                assert(ev.deep_view() == x);
                                            }
                                            assert(record_reading_was_old(c0[kk], kk, cutoff));
                                        }
                                    }
                                }
                                if removed.is_ok() {
                                    proof {
                                        assert(cur.dom().contains(kk));
                                        assert(!gone.contains(kk));
                                        gone = gone.insert(kk);
                                    }
                                    if deleted < usize::MAX {
                                        deleted += 1;
                                    }
                                }
                            }
                        },
                        None => {},
                    }
                    i += 1;
                }
            },
            None => {},
        }
        let ghost cmid = self.contents();
        let prefix = String::from_str("threat_").as_str().as_bytes_vec();
        proof {
            assert(prefix@ == threat_key_prefix());
        }
        match db_scan_prefix(&self.db, &prefix) {
            Some(pairs) => {
                proof {
                    assert forall|j: int| 0 <= j < pairs.deep_view().len() implies cmid
                        .contains_pair(
                        #[trigger] pairs.deep_view()[j].0,
                        pairs.deep_view()[j].1,
                    ) && threat_key_prefix().is_prefix_of(pairs.deep_view()[j].0) by {
                        assert(db_contents(self.db).contains_pair(
                            pairs.deep_view()[j].0,
                            pairs.deep_view()[j].1,
                        ));
                    }
                    assert forall|j: int| 0 <= j < pairs.deep_view().len() implies self.contents()
                        .dom().contains(#[trigger] pairs.deep_view()[j].0) by {
                        assert(cmid.contains_pair(pairs.deep_view()[j].0, pairs.deep_view()[j].1));
                    }
                }
                let n = pairs.len();
                let mut i: usize = 0;
                while i < n
                    invariant
                        n == pairs@.len(),
                        i <= n,
                        c0 == old(self).contents(),
                        sweep_keeps(c0, cmid),
                        sweep_keeps(c0, self.contents()),
                        sweep_removals_justified(c0, self.contents(), cutoff),
                        gone.finite(),
                        gone.len() >= deleted,
                        forall|k: Seq<u8>|
                            #[trigger] gone.contains(k) ==> c0.dom().contains(k) && !self.contents()
                                .dom().contains(k),
                        forall|j: int|
                            #![trigger pairs.deep_view()[j]]
                            0 <= j < pairs.deep_view().len() ==> cmid.contains_pair(
                                pairs.deep_view()[j].0,
                                pairs.deep_view()[j].1,
                            ) && threat_key_prefix().is_prefix_of(pairs.deep_view()[j].0),
                        forall|j: int|
                            #![trigger pairs.deep_view()[j]]
                            i <= j < pairs.deep_view().len() ==> self.contents().dom().contains(
                                pairs.deep_view()[j].0,
                            ),
                        forall|a: int, b: int|
                            0 <= a < b < pairs.deep_view().len() ==> pairs.deep_view()[a].0
                                != pairs.deep_view()[b].0,
                    decreases n - i,
                {
                    proof {
                        assert(pairs.deep_view()[i as int] == pairs@[i as int].deep_view());
                        assert(pairs@[i as int].1.deep_view() =~= pairs@[i as int].1@);
                        assert(pairs@[i as int].0.deep_view() =~= pairs@[i as int].0@);
                    }
                    match decode_threat(&pairs[i].1) {
                        Some(t) => {
                            if t.timestamp < cutoff {
                                let ghost cur = self.contents();
                                let ghost kk = pairs.deep_view()[i as int].0;
                                let ghost bb = pairs.deep_view()[i as int].1;
                                let removed = db_remove(&mut self.db, &pairs[i].0);
                                proof {
                                    assert forall|k2: Seq<u8>|
                                        #[trigger] self.contents().dom().contains(k2) implies c0
                                        .dom().contains(k2) && self.contents()[k2] == c0[k2] by {
                                        assert(cur.dom().contains(k2) && self.contents()[k2]
                                            == cur[k2]);
                                    }
                                    assert forall|k2: Seq<u8>|
                                        c0.dom().contains(k2) && !(#[trigger] self.contents().dom()
                                            .contains(k2)) implies record_reading_was_old(
                                        c0[k2],
                                        k2,
                                        cutoff,
                                    ) by {
                                        if cur.dom().contains(k2) {
                                            assert(k2 == kk);
                                            assert(cmid.contains_pair(kk, bb));
                                            assert(c0.dom().contains(kk) && c0[kk] == bb);
                                            assert(threat_key_prefix().is_prefix_of(kk));
                                            assert forall|x: ThreatV|
                                                threat_enc_at(bb, 0, x) implies x.timestamp
                                                < cutoff by {
                                                assert(t.deep_view() == x);
                                            }
                                            assert(record_reading_was_old(c0[kk], kk, cutoff));
                                        }
                                    }
                                }
                                if removed.is_ok() {
                                    proof {
                                        assert(cur.dom().contains(kk));
                                        assert(!gone.contains(kk));
                                        gone = gone.insert(kk);
                                    }
                                    if deleted < usize::MAX {
                                        deleted += 1;
                                    }
                                }
                            }
                        },
                        None => {},
                    }
                    i += 1;
                }
            },
            None => {},
        }
        let _ = db_flush(&mut self.db);
        proof {
            assert(gone.finite() && gone.len() >= deleted && (forall|k: Seq<u8>|
                #[trigger] gone.contains(k) ==> old(self).contents().dom().contains(k)
                    && !self.contents().dom().contains(k)));
        }
        deleted
    }
}

} // verus!
