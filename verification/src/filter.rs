use crate::codec::decode_ts;
use crate::codec::enc_str;
use crate::codec::encode_str_into;
use crate::codec::encode_ts;
use crate::codec::lemma_enc_str_prefix;
use crate::codec::str_fits;
use crate::codec::ts_enc;
use crate::feeds::Entry;
use crate::feeds::EntryView;
use crate::subscriber::SubscriberSrc;
use crate::subscriber::SubscriberSrcView;
use vstd::prelude::*;

verus! {

// ---------------------------------------------------------------------------
// Fingerprints
// ---------------------------------------------------------------------------
/// Spec-level shape of a fingerprint: entry title, entry identifier, and the
/// subscriber the entry is being evaluated for.
pub struct KeyView {
    pub title: Seq<char>,
    pub guid: Seq<char>,
    pub sub: SubscriberSrcView,
}

/// The fingerprint of one feed entry for one subscriber: the dedup unit.
/// Two subscribers give the same entry two distinct fingerprints.
#[derive(Debug, Clone)]
pub struct Key {
    pub title: String,
    pub guid: String,
    pub subscriber: SubscriberSrc,
}

impl View for Key {
    type V = KeyView;

    open spec fn view(&self) -> KeyView {
        KeyView { title: self.title@, guid: self.guid@, sub: self.subscriber@ }
    }
}

/// The tag byte that opens a subscriber encoding.
pub open spec fn sub_tag(s: SubscriberSrcView) -> u8 {
    match s {
        SubscriberSrcView::Email(_) => 0u8,
        SubscriberSrcView::PikPak => 1u8,
    }
}

/// What follows the tag byte: the address for the mail channel, nothing for
/// the remote-upload channel.
pub open spec fn sub_payload(s: SubscriberSrcView) -> Seq<u8> {
    match s {
        SubscriberSrcView::Email(a) => enc_str(a),
        SubscriberSrcView::PikPak => Seq::empty(),
    }
}

pub open spec fn enc_sub(s: SubscriberSrcView) -> Seq<u8> {
    seq![sub_tag(s)] + sub_payload(s)
}

pub open spec fn sub_fits(s: SubscriberSrcView) -> bool {
    match s {
        SubscriberSrcView::Email(a) => str_fits(a),
        SubscriberSrcView::PikPak => true,
    }
}

/// The stored form of a fingerprint: subscriber first, then title, then
/// identifier, each string length-prefixed. The encoding is deterministic
/// (a spec function of the view alone) and injective.
pub open spec fn key_enc(k: KeyView) -> Seq<u8> {
    enc_sub(k.sub) + enc_str(k.title) + enc_str(k.guid)
}

/// Every view of an executable key satisfies this: its strings' UTF-8 forms
/// fit the length prefixes.
pub open spec fn key_fits(k: KeyView) -> bool {
    str_fits(k.title) && str_fits(k.guid) && sub_fits(k.sub)
}

/// The fingerprint of one entry for one subscriber: absent title or
/// identifier fall back to the empty string.
pub open spec fn item_key(it: EntryView, sub: SubscriberSrcView) -> KeyView {
    KeyView {
        title: match it.title {
            Some(t) => t,
            None => Seq::empty(),
        },
        guid: match it.guid {
            Some(g) => g,
            None => Seq::empty(),
        },
        sub: sub,
    }
}

impl Key {
    pub fn new(title: String, guid: String, subscriber: SubscriberSrc) -> (r: Key)
        ensures
            r.title == title,
            r.guid == guid,
            r.subscriber == subscriber,
    {
        Key { title, guid, subscriber }
    }

    pub fn from_item(item: &Entry, subscriber: &SubscriberSrc) -> (r: Key)
        ensures
            r@ == item_key(item@, subscriber@),
    {
        let title = match &item.title {
            Some(t) => t.clone(),
            None => String::new(),
        };
        let guid = match &item.guid {
            Some(g) => g.clone(),
            None => String::new(),
        };
        Key { title, guid, subscriber: subscriber.duplicate() }
    }

    /// The stored form of this fingerprint.
    pub fn encode(&self) -> (r: Vec<u8>)
        ensures
            r@ == key_enc(self@),
    {
        let mut out: Vec<u8> = Vec::new();
        match &self.subscriber {
            SubscriberSrc::Email(a) => {
                out.push(0u8);
                encode_str_into(a.as_str(), &mut out);
            },
            SubscriberSrc::PikPak => {
                out.push(1u8);
            },
        }
        encode_str_into(self.title.as_str(), &mut out);
        encode_str_into(self.guid.as_str(), &mut out);
        proof {
            assert(out@ =~= key_enc(self@));
        }
        out
    }
}

/// A fingerprint encoding splits as tag, subscriber payload, then the two
/// encoded strings.
proof fn lemma_key_enc_shape(k: KeyView)
    ensures
        key_enc(k) == seq![sub_tag(k.sub)] + (sub_payload(k.sub) + (enc_str(k.title) + enc_str(
            k.guid,
        ))),
{
    assert(key_enc(k) =~= seq![sub_tag(k.sub)] + (sub_payload(k.sub) + (enc_str(k.title) + enc_str(
        k.guid,
    ))));
}

/// The fingerprint encoding is injective: distinct (title, identifier,
/// subscriber) triples encode to distinct store keys.
pub proof fn lemma_key_enc_injective(k1: KeyView, k2: KeyView)
    requires
        key_fits(k1),
        key_fits(k2),
        key_enc(k1) == key_enc(k2),
    ensures
        k1 == k2,
{
    lemma_key_enc_shape(k1);
    lemma_key_enc_shape(k2);
    let p1 = sub_payload(k1.sub) + (enc_str(k1.title) + enc_str(k1.guid));
    let p2 = sub_payload(k2.sub) + (enc_str(k2.title) + enc_str(k2.guid));
    assert(key_enc(k1)[0] == sub_tag(k1.sub));
    assert(key_enc(k2)[0] == sub_tag(k2.sub));
    assert(sub_tag(k1.sub) == sub_tag(k2.sub));
    assert(p1 =~= key_enc(k1).drop_first());
    assert(p2 =~= key_enc(k2).drop_first());
    match (k1.sub, k2.sub) {
        (SubscriberSrcView::Email(a1), SubscriberSrcView::Email(a2)) => {
            lemma_enc_str_prefix(
                a1,
                enc_str(k1.title) + enc_str(k1.guid),
                a2,
                enc_str(k2.title) + enc_str(k2.guid),
            );
            lemma_enc_str_prefix(k1.title, enc_str(k1.guid), k2.title, enc_str(k2.guid));
            lemma_enc_str_prefix(
                k1.guid,
                Seq::<u8>::empty(),
                k2.guid,
                Seq::<u8>::empty(),
            );
            assert(enc_str(k1.guid) + Seq::<u8>::empty() =~= enc_str(k1.guid));
            assert(enc_str(k2.guid) + Seq::<u8>::empty() =~= enc_str(k2.guid));
        },
        (SubscriberSrcView::PikPak, SubscriberSrcView::PikPak) => {
            assert(enc_str(k1.title) + enc_str(k1.guid) =~= p1);
            assert(enc_str(k2.title) + enc_str(k2.guid) =~= p2);
            lemma_enc_str_prefix(k1.title, enc_str(k1.guid), k2.title, enc_str(k2.guid));
            lemma_enc_str_prefix(
                k1.guid,
                Seq::<u8>::empty(),
                k2.guid,
                Seq::<u8>::empty(),
            );
            assert(enc_str(k1.guid) + Seq::<u8>::empty() =~= enc_str(k1.guid));
            assert(enc_str(k2.guid) + Seq::<u8>::empty() =~= enc_str(k2.guid));
        },
        _ => {
            assert(false);
        },
    }
}

// ---------------------------------------------------------------------------
// The dedup store
// ---------------------------------------------------------------------------
/// Why a dedup-store operation failed: the disk backend failed, or a stored
/// value did not have the shape of an encoded time.
#[derive(Debug, Clone, PartialEq, Eq)]
pub enum StoreError {
    Backend,
    Corrupt,
}

/// The persistent dedup store: each fingerprint that has been observed, with
/// the time it was first seen, both in their encoded forms. Backed by a sled
/// database on disk, so the record survives process restarts.
#[verifier::external_body]
pub struct KVStore {
    inner: sled::Db,
}

/// What the store holds: encoded fingerprint to encoded first-seen time.
pub uninterp spec fn store_map(s: KVStore) -> Map<Seq<u8>, Seq<u8>>;

/// Where the store lives on disk: the path it was opened at, which is what
/// makes the seen-record durable across process restarts.
pub uninterp spec fn store_path(s: KVStore) -> Seq<char>;

/// Relies on sled::open: opens the database at `path`, creating it if
/// absent; every failure sled reports is surfaced as the backend error.
#[verifier::external_body]
fn sled_open(path: &str) -> (r: Result<KVStore, StoreError>)
    ensures
        match r {
            Ok(st) => store_path(st) == path@,
            Err(e) => e is Backend,
        },
{
    match sled::open(path) {
        Ok(inner) => Ok(KVStore { inner }),
        Err(_) => Err(StoreError::Backend),
    }
}

/// Relies on sled::Tree::get: returns the value stored under `key`, if any,
/// and does not change the tree.
#[verifier::external_body]
fn sled_get(s: &KVStore, key: &Vec<u8>) -> (r: Result<Option<Vec<u8>>, StoreError>)
    ensures
        match r {
            Ok(v) => match v {
                Some(bytes) => store_map(*s).contains_key(key@) && bytes@ == store_map(*s)[key@],
                None => !store_map(*s).contains_key(key@),
            },
            Err(e) => e is Backend,
        },
{
    match s.inner.get(key.as_slice()) {
        Ok(Some(v)) => Ok(Some(v.to_vec())),
        Ok(None) => Ok(None),
        Err(_) => Err(StoreError::Backend),
    }
}

/// Relies on sled::Tree::insert: stores `value` under `key`, replacing any
/// previous value. On failure the tree either kept its contents or already
/// holds the new pair.
#[verifier::external_body]
fn sled_insert(s: &mut KVStore, key: &Vec<u8>, value: &Vec<u8>) -> (r: Result<(), StoreError>)
    ensures
        match r {
            Ok(_) => store_map(*final(s)) == store_map(*old(s)).insert(key@, value@),
            Err(e) => e is Backend && (store_map(*final(s)) == store_map(*old(s)) || store_map(
                *final(s),
            ) == store_map(*old(s)).insert(key@, value@)),
        },
{
    match s.inner.insert(key.as_slice(), value.as_slice()) {
        Ok(_) => Ok(()),
        Err(_) => Err(StoreError::Backend),
    }
}

/// Relies on sled::Tree::remove: deletes the record under `key` if present;
/// a no-op if absent. On failure the tree either kept its contents or the
/// record is already gone.
#[verifier::external_body]
fn sled_remove(s: &mut KVStore, key: &Vec<u8>) -> (r: Result<(), StoreError>)
    ensures
        match r {
            Ok(_) => store_map(*final(s)) == store_map(*old(s)).remove(key@),
            Err(e) => e is Backend && (store_map(*final(s)) == store_map(*old(s)) || store_map(
                *final(s),
            ) == store_map(*old(s)).remove(key@)),
        },
{
    match s.inner.remove(key.as_slice()) {
        Ok(_) => Ok(()),
        Err(_) => Err(StoreError::Backend),
    }
}

/// Relies on std::time::SystemTime::now for the current wall-clock time,
/// reduced to milliseconds since the Unix epoch; a clock set before the
/// epoch yields zero rather than a panic. Nothing is assumed of the value.
#[verifier::external_body]
fn now_ts() -> (t: u64) {
    match std::time::SystemTime::now().duration_since(std::time::UNIX_EPOCH) {
        Ok(d) => d.as_millis() as u64,
        Err(_) => 0,
    }
}

impl KVStore {
    /// Whether `k` has been observed: present means already delivered (or at
    /// least already handed to delivery and not rolled back).
    pub open spec fn seen(self, k: KeyView) -> bool {
        store_map(self).contains_key(key_enc(k))
    }

    /// Opens the store at `path`; an open failure is a backend error, never
    /// a panic. The contents are whatever the disk holds: that is the point,
    /// the seen-record survives restarts.
    pub fn new(path: &str) -> (r: Result<KVStore, StoreError>)
        ensures
            match r {
                Ok(st) => store_path(st) == path@,
                Err(e) => e is Backend,
            },
    {
        sled_open(path)
    }

    /// Looks a fingerprint up and never mutates: the recorded first-seen
    /// time if present, `None` otherwise.
    pub fn get(&self, key: &Key) -> (r: Result<Option<u64>, StoreError>)
        ensures
            match r {
                Ok(v) => match v {
                    Some(t) => self.seen(key@) && store_map(*self)[key_enc(key@)] == ts_enc(t),
                    None => !self.seen(key@),
                },
                Err(e) => e is Backend || (e is Corrupt && self.seen(key@) && store_map(
                    *self,
                )[key_enc(key@)].len() != 8),
            },
    {
        let kb = key.encode();
        match sled_get(self, &kb) {
            Ok(Some(v)) => match decode_ts(&v) {
                Some(t) => Ok(Some(t)),
                None => Err(StoreError::Corrupt),
            },
            Ok(None) => Ok(None),
            Err(e) => Err(e),
        }
    }

    /// The atomic dedup step. If the fingerprint is absent it is recorded
    /// with the current time and `None` comes back: this entry is new,
    /// proceed with delivery. If it is present its first-seen time comes
    /// back: already delivered, skip. Nothing else in the store changes.
    pub fn get_or_insert(&mut self, key: Key) -> (r: Result<Option<u64>, StoreError>)
        ensures
            match r {
                Ok(v) => match v {
                    Some(t) => old(self).seen(key@) && store_map(*old(self))[key_enc(key@)]
                        == ts_enc(t) && store_map(*final(self)) == store_map(*old(self)),
                    None => !old(self).seen(key@) && exists|t: u64|
                        store_map(*final(self)) == store_map(*old(self)).insert(key_enc(key@), ts_enc(t)),
                },
                Err(e) => (store_map(*final(self)) == store_map(*old(self)) || (!old(self).seen(
                    key@,
                ) && exists|t: u64|
                    store_map(*final(self)) == store_map(*old(self)).insert(
                        key_enc(key@),
                        ts_enc(t),
                    ))) && (
                e is Backend || (e is Corrupt && old(self).seen(key@) && store_map(
                    *old(self),
                )[key_enc(key@)].len() != 8)),
            },
    {
        let kb = key.encode();
        match sled_get(self, &kb) {
            Ok(Some(v)) => match decode_ts(&v) {
                Some(t) => Ok(Some(t)),
                None => Err(StoreError::Corrupt),
            },
            Ok(None) => {
                let t = now_ts();
                let vb = encode_ts(t);
                match sled_insert(self, &kb, &vb) {
                    Ok(_) => {
                        proof {
                            assert(store_map(*self) == store_map(*old(self)).insert(
                                key_enc(key@),
                                ts_enc(t),
                            ));
                        }
                        Ok(None)
                    },
                    Err(e) => Err(e),
                }
            },
            Err(e) => Err(e),
        }
    }

    /// Records a fingerprint with a given first-seen time, replacing any
    /// previous record.
    pub fn insert(&mut self, key: Key, value: u64) -> (r: Result<(), StoreError>)
        ensures
            match r {
                Ok(_) => store_map(*final(self)) == store_map(*old(self)).insert(
                    key_enc(key@),
                    ts_enc(value),
                ),
                Err(e) => e is Backend && (store_map(*final(self)) == store_map(*old(self)) || store_map(
                    *final(self),
                ) == store_map(*old(self)).insert(key_enc(key@), ts_enc(value))),
            },
    {
        let kb = key.encode();
        let vb = encode_ts(value);
        sled_insert(self, &kb, &vb)
    }

    /// Rollback: deletes the record entirely (not merely marks it), so the
    /// entry is treated as new again on the next cycle; a no-op if absent.
    pub fn remove(&mut self, key: &Key) -> (r: Result<(), StoreError>)
        ensures
            match r {
                Ok(_) => store_map(*final(self)) == store_map(*old(self)).remove(key_enc(key@)),
                Err(e) => e is Backend && (store_map(*final(self)) == store_map(*old(self)) || store_map(
                    *final(self),
                ) == store_map(*old(self)).remove(key_enc(key@))),
            },
    {
        let kb = key.encode();
        sled_remove(self, &kb)
    }
}

/// How a store may evolve under filtering: every record it already held is
/// kept unchanged (so first-seen times round-trip exactly), and every record
/// it gained is an encoded time.
pub open spec fn store_preserved(m0: Map<Seq<u8>, Seq<u8>>, m1: Map<Seq<u8>, Seq<u8>>) -> bool {
    &&& forall|k: Seq<u8>| #[trigger] m0.contains_key(k) ==> m1.contains_key(k) && m1[k] == m0[k]
    &&& forall|k: Seq<u8>|
        #[trigger] m1.contains_key(k) && !m0.contains_key(k) ==> exists|t: u64| m1[k] == ts_enc(t)
}

/// Recording one more unseen fingerprint keeps a store evolution well-formed.
pub proof fn lemma_store_preserved_insert(
    m0: Map<Seq<u8>, Seq<u8>>,
    m1: Map<Seq<u8>, Seq<u8>>,
    ke: Seq<u8>,
    t: u64,
)
    requires
        store_preserved(m0, m1),
        !m1.contains_key(ke),
    ensures
        store_preserved(m0, m1.insert(ke, ts_enc(t))),
{
    let m2 = m1.insert(ke, ts_enc(t));
    assert forall|k: Seq<u8>| m0.contains_key(k) implies m2.contains_key(k) && m2[k] == m0[k] by {
        assert(m1.contains_key(k) && m1[k] == m0[k]);
        assert(k != ke);
    }
    assert forall|k: Seq<u8>| m2.contains_key(k) && !m0.contains_key(k) implies exists|u: u64|
        m2[k] == ts_enc(u) by {
        if k == ke {
            assert(m2[k] == ts_enc(t));
        } else {
            assert(m1.contains_key(k));
            let u = choose|u: u64| m1[k] == ts_enc(u);
            assert(m2[k] == ts_enc(u));
        }
    }
}

// ---------------------------------------------------------------------------
// Laws
// ---------------------------------------------------------------------------
/// Rollback restores novelty: recording an unseen fingerprint and then
/// removing it leaves the store exactly as it was, so the fingerprint is
/// unseen both before the first observation and after the rollback.
pub proof fn lemma_rollback_restores_novelty(m: Map<Seq<u8>, Seq<u8>>, k: KeyView, t: u64)
    requires
        !m.contains_key(key_enc(k)),
    ensures
        m.insert(key_enc(k), ts_enc(t)).remove(key_enc(k)) == m,
        !m.insert(key_enc(k), ts_enc(t)).remove(key_enc(k)).contains_key(key_enc(k)),
{
    assert(m.insert(key_enc(k), ts_enc(t)).remove(key_enc(k)) =~= m);
}

/// Per-subscriber isolation: the same entry evaluated for two different
/// subscribers gives two distinct fingerprints, and recording the one leaves
/// the novelty of the other exactly as it was.
pub proof fn lemma_per_subscriber_isolation(
    m: Map<Seq<u8>, Seq<u8>>,
    k1: KeyView,
    k2: KeyView,
    v: Seq<u8>,
)
    requires
        key_fits(k1),
        key_fits(k2),
        k1.title == k2.title,
        k1.guid == k2.guid,
        k1.sub != k2.sub,
    ensures
        key_enc(k1) != key_enc(k2),
        m.insert(key_enc(k1), v).contains_key(key_enc(k2)) == m.contains_key(key_enc(k2)),
{
    if key_enc(k1) == key_enc(k2) {
        lemma_key_enc_injective(k1, k2);
    }
}

} // verus!
