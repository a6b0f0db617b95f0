use crate::config::Config;
use crate::config::DEFAULT_HISTORY_PATH;
use crate::feeds::FeedDoc;
use crate::feeds::FeedDocView;
use crate::feeds::Entry;
use crate::feeds::EntryView;
use crate::feeds::entries_view;
use crate::feeds::lemma_entries_view_push;
use crate::codec::ts_enc;
use crate::filter::item_key;
use crate::filter::key_enc;
use crate::filter::Key;
use crate::filter::KVStore;
use crate::filter::store_map;
use crate::filter::store_path;
use crate::filter::store_preserved;
use crate::filter::lemma_store_preserved_insert;
use crate::filter::StoreError;
use crate::subscriber::SubscriberSrc;
use crate::subscriber::SubscriberSrcView;
use vstd::prelude::*;

verus! {

// ---------------------------------------------------------------------------
// Parsing the feed document
// ---------------------------------------------------------------------------
#[verifier::external_type_specification]
#[verifier::external_body]
pub struct ExRssChannel(rss::Channel);

#[verifier::external_type_specification]
#[verifier::external_body]
pub struct ExRssItem(rss::Item);

#[verifier::external_type_specification]
#[verifier::external_body]
pub struct ExRssError(rss::Error);

/// Whether the bytes form a well-formed feed document. Parsing is a function
/// of the bytes alone, so its outcome can bear a name.
pub uninterp spec fn feed_parse_ok(b: Seq<u8>) -> bool;

/// The document a well-formed byte sequence parses to, reduced to the plain
/// values the pipeline reads.
pub uninterp spec fn feed_doc_of(b: Seq<u8>) -> FeedDocView;

/// Relies on rss::Channel::read_from to parse one feed document out of its
/// bytes: the parse succeeds exactly on the byte sequences `feed_parse_ok`
/// holds of, and yields the document named `feed_doc_of`, converted to the
/// library's type by `convert_channel`.
#[verifier::external_body]
fn read_feed(bytes: &Vec<u8>) -> (r: Result<FeedDoc, rss::Error>)
    ensures
        match r {
            Ok(d) => feed_parse_ok(bytes@) && d@ == feed_doc_of(bytes@),
            Err(_) => !feed_parse_ok(bytes@),
        },
{
    rss::Channel::read_from(bytes.as_slice()).map(|c| convert_channel(&c))
}

/// Relies on the public fields of rss::Item, carried over one for one. The
/// plain syndication dialect has no torrent element, so that reference is
/// absent on every parsed entry.
#[verifier::external_body]
fn convert_item(i: &rss::Item) -> (r: Entry) {
    Entry {
        title: i.title.clone(),
        guid: i.guid.as_ref().map(|g| g.value.clone()),
        description: i.description.clone(),
        torrent: None,
        enclosure_url: i.enclosure.as_ref().map(|e| e.url.clone()),
    }
}

/// Relies on the public fields of rss::Channel, carried over one for one,
/// with each entry converted by `convert_item`.
#[verifier::external_body]
fn convert_channel(c: &rss::Channel) -> (r: FeedDoc) {
    FeedDoc {
        title: c.title.clone(),
        link: c.link.clone(),
        description: c.description.clone(),
        pub_date: c.pub_date.clone(),
        items: c.items.iter().map(convert_item).collect(),
    }
}

/// Why one (feed, subscriber) pair stopped being processed this cycle.
#[derive(Debug, Clone, PartialEq, Eq)]
pub enum FeedError {
    /// The fetched bytes are not a well-formed feed document.
    Parse,
    /// The dedup store failed; fatal for this pair, the cycle continues.
    Store(StoreError),
}

/// Parses one fetched feed document: the named document on the bytes the
/// parser accepts, `FeedError::Parse` exactly on the bytes it does not.
pub fn parse_feed(bytes: &Vec<u8>) -> (r: Result<FeedDoc, FeedError>)
    ensures
        match r {
            Ok(d) => feed_parse_ok(bytes@) && d@ == feed_doc_of(bytes@),
            Err(e) => !feed_parse_ok(bytes@) && e is Parse,
        },
{
    match read_feed(bytes) {
        Ok(d) => Ok(d),
        Err(_) => Err(FeedError::Parse),
    }
}

// ---------------------------------------------------------------------------
// The filtering policy, as a mathematical model
// ---------------------------------------------------------------------------
/// The entries that survive filtering a batch against a store whose recorded
/// fingerprints are `dom`: an entry is kept exactly when its fingerprint is
/// not yet recorded at the moment it is evaluated, and every entry's
/// fingerprint is recorded as it is evaluated, kept or not. Original order
/// is preserved.
pub open spec fn kept_model(
    dom: Set<Seq<u8>>,
    es: Seq<EntryView>,
    sub: SubscriberSrcView,
) -> Seq<EntryView>
    decreases es.len(),
{
    if es.len() == 0 {
        Seq::empty()
    } else {
        let ke = key_enc(item_key(es[0], sub));
        let rest = kept_model(dom.insert(ke), es.drop_first(), sub);
        if dom.contains(ke) {
            rest
        } else {
            seq![es[0]] + rest
        }
    }
}

/// The recorded fingerprints after filtering a batch: the previous ones plus
/// one for every entry of the batch.
pub open spec fn dom_after(dom: Set<Seq<u8>>, es: Seq<EntryView>, sub: SubscriberSrcView) -> Set<
    Seq<u8>,
>
    decreases es.len(),
{
    if es.len() == 0 {
        dom
    } else {
        dom_after(dom.insert(key_enc(item_key(es[0], sub))), es.drop_first(), sub)
    }
}

/// Filtering an empty batch keeps nothing and records nothing.
proof fn lemma_filter_model_empty(dom: Set<Seq<u8>>, es: Seq<EntryView>, sub: SubscriberSrcView)
    requires
        es.len() == 0,
    ensures
        kept_model(dom, es, sub) == Seq::<EntryView>::empty(),
        dom_after(dom, es, sub) == dom,
{
}

/// Filtering one more entry at the end of a batch keeps it exactly when its
/// fingerprint is not recorded after the batch so far, and records it.
proof fn lemma_filter_model_snoc(
    dom: Set<Seq<u8>>,
    es: Seq<EntryView>,
    e: EntryView,
    sub: SubscriberSrcView,
)
    ensures
        dom_after(dom, es.push(e), sub) == dom_after(dom, es, sub).insert(
            key_enc(item_key(e, sub)),
        ),
        kept_model(dom, es.push(e), sub) == kept_model(dom, es, sub) + (if dom_after(
            dom,
            es,
            sub,
        ).contains(key_enc(item_key(e, sub))) {
            Seq::<EntryView>::empty()
        } else {
            seq![e]
        }),
    decreases es.len(),
{
    let ke = key_enc(item_key(e, sub));
    if es.len() == 0 {
        assert(es.push(e)[0] == e);
        assert(es.push(e).drop_first() =~= Seq::<EntryView>::empty());
        lemma_filter_model_empty(dom.insert(ke), es.push(e).drop_first(), sub);
        lemma_filter_model_empty(dom, es, sub);
        if dom.contains(ke) {
            assert(kept_model(dom, es.push(e), sub) =~= kept_model(dom, es, sub)
                + Seq::<EntryView>::empty());
        } else {
            assert(kept_model(dom, es.push(e), sub) =~= kept_model(dom, es, sub) + seq![e]);
        }
        assert(dom_after(dom, es.push(e), sub) =~= dom_after(dom, es, sub).insert(ke));
    } else {
        let k0 = key_enc(item_key(es[0], sub));
        assert(es.push(e)[0] == es[0]);
        assert(es.push(e).drop_first() =~= es.drop_first().push(e));
        lemma_filter_model_snoc(dom.insert(k0), es.drop_first(), e, sub);
        assert(dom_after(dom, es.push(e), sub) == dom_after(
            dom.insert(k0),
            es.drop_first().push(e),
            sub,
        ));
        if dom.contains(k0) {
            assert(kept_model(dom, es.push(e), sub) == kept_model(
                dom.insert(k0),
                es.drop_first().push(e),
                sub,
            ));
        } else {
            assert(kept_model(dom, es.push(e), sub) == seq![es[0]] + kept_model(
                dom.insert(k0),
                es.drop_first().push(e),
                sub,
            ));
            if dom_after(dom, es, sub).contains(ke) {
                assert(kept_model(dom, es.push(e), sub) =~= kept_model(dom, es, sub)
                    + Seq::<EntryView>::empty());
            } else {
                assert(kept_model(dom, es.push(e), sub) =~= kept_model(dom, es, sub) + seq![e]);
            }
        }
    }
}

/// After a batch is filtered, the store records the fingerprint of every
/// entry of the batch, along with everything it recorded before.
pub proof fn lemma_dom_after_contains(dom: Set<Seq<u8>>, es: Seq<EntryView>, sub: SubscriberSrcView)
    ensures
        forall|k: Seq<u8>| dom.contains(k) ==> dom_after(dom, es, sub).contains(k),
        forall|j: int|
            0 <= j < es.len() ==> dom_after(dom, es, sub).contains(
                #[trigger] key_enc(item_key(es[j], sub)),
            ),
    decreases es.len(),
{
    if es.len() > 0 {
        let k0 = key_enc(item_key(es[0], sub));
        lemma_dom_after_contains(dom.insert(k0), es.drop_first(), sub);
        assert(dom_after(dom, es, sub) == dom_after(dom.insert(k0), es.drop_first(), sub));
        assert forall|k: Seq<u8>| dom.contains(k) implies dom_after(dom, es, sub).contains(k) by {
            assert(dom.insert(k0).contains(k));
        }
        assert forall|j: int| 0 <= j < es.len() implies dom_after(dom, es, sub).contains(
            #[trigger] key_enc(item_key(es[j], sub)),
        ) by {
            if j > 0 {
                assert(es.drop_first()[j - 1] == es[j]);
            } else {
                assert(dom.insert(k0).contains(k0));
            }
        }
    }
}

/// A batch whose every fingerprint is already recorded yields nothing.
pub proof fn lemma_kept_model_all_seen(dom: Set<Seq<u8>>, es: Seq<EntryView>, sub: SubscriberSrcView)
    requires
        forall|j: int|
            0 <= j < es.len() ==> dom.contains(#[trigger] key_enc(item_key(es[j], sub))),
    ensures
        kept_model(dom, es, sub) == Seq::<EntryView>::empty(),
    decreases es.len(),
{
    if es.len() > 0 {
        let k0 = key_enc(item_key(es[0], sub));
        assert forall|j: int| 0 <= j < es.drop_first().len() implies dom.insert(k0).contains(
            #[trigger] key_enc(item_key(es.drop_first()[j], sub)),
        ) by {
            assert(es.drop_first()[j] == es[j + 1]);
        }
        lemma_kept_model_all_seen(dom.insert(k0), es.drop_first(), sub);
    }
}

/// Idempotent filtering: an unseen entry is kept by a first filter pass, and
/// a second pass over the same entry, with no rollback in between, drops it.
pub proof fn lemma_filter_idempotent(dom: Set<Seq<u8>>, e: EntryView, sub: SubscriberSrcView)
    requires
        !dom.contains(key_enc(item_key(e, sub))),
    ensures
        kept_model(dom, seq![e], sub) == seq![e],
        kept_model(dom_after(dom, seq![e], sub), seq![e], sub) == Seq::<EntryView>::empty(),
{
    let ke = key_enc(item_key(e, sub));
    assert(seq![e].len() == 1);
    assert(seq![e][0] == e);
    assert(seq![e].drop_first() =~= Seq::<EntryView>::empty());
    lemma_filter_model_empty(dom.insert(ke), seq![e].drop_first(), sub);
    assert(kept_model(dom, seq![e], sub) =~= seq![e]);
    lemma_dom_after_contains(dom, seq![e], sub);
    lemma_kept_model_all_seen(dom_after(dom, seq![e], sub), seq![e], sub);
}

/// Filtering a whole batch a second time, with no rollback in between,
/// yields nothing: every fingerprint was recorded by the first pass.
pub proof fn lemma_filter_batch_idempotent(
    dom: Set<Seq<u8>>,
    es: Seq<EntryView>,
    sub: SubscriberSrcView,
)
    ensures
        kept_model(dom_after(dom, es, sub), es, sub) == Seq::<EntryView>::empty(),
{
    lemma_dom_after_contains(dom, es, sub);
    lemma_kept_model_all_seen(dom_after(dom, es, sub), es, sub);
}

/// A filtered batch is duplicate-free by construction: each kept entry's
/// fingerprint was unrecorded when the entry was evaluated and is recorded at
/// once, so no two kept entries share a fingerprint, and every kept entry's
/// fingerprint is recorded once the batch is done.
pub proof fn lemma_kept_model_distinct(
    dom: Set<Seq<u8>>,
    es: Seq<EntryView>,
    sub: SubscriberSrcView,
)
    ensures
        forall|i: int|
            0 <= i < kept_model(dom, es, sub).len() ==> !dom.contains(
                #[trigger] key_enc(item_key(kept_model(dom, es, sub)[i], sub)),
            ),
        forall|i: int|
            0 <= i < kept_model(dom, es, sub).len() ==> dom_after(dom, es, sub).contains(
                #[trigger] key_enc(item_key(kept_model(dom, es, sub)[i], sub)),
            ),
        forall|i: int, j: int|
            0 <= i < j < kept_model(dom, es, sub).len() ==> key_enc(
                #[trigger] item_key(kept_model(dom, es, sub)[i], sub),
            ) != key_enc(#[trigger] item_key(kept_model(dom, es, sub)[j], sub)),
    decreases es.len(),
{
    let kept = kept_model(dom, es, sub);
    if es.len() > 0 {
        let k0 = key_enc(item_key(es[0], sub));
        let rest = kept_model(dom.insert(k0), es.drop_first(), sub);
        lemma_kept_model_distinct(dom.insert(k0), es.drop_first(), sub);
        assert(dom_after(dom, es, sub) == dom_after(dom.insert(k0), es.drop_first(), sub));
        if dom.contains(k0) {
            assert(kept == rest);
            assert forall|i: int| 0 <= i < kept.len() implies !dom.contains(
                #[trigger] key_enc(item_key(kept[i], sub)),
            ) by {
                assert(!dom.insert(k0).contains(key_enc(item_key(rest[i], sub))));
            }
        } else {
            assert(kept == seq![es[0]] + rest);
            assert(kept[0] == es[0]);
            assert forall|i: int| 0 < i < kept.len() implies kept[i] == rest[i - 1] by {}
            assert forall|i: int| 0 <= i < kept.len() implies !dom.contains(
                #[trigger] key_enc(item_key(kept[i], sub)),
            ) by {
                if i > 0 {
                    assert(!dom.insert(k0).contains(key_enc(item_key(rest[i - 1], sub))));
                }
            }
            assert forall|i: int| 0 <= i < kept.len() implies dom_after(dom, es, sub).contains(
                #[trigger] key_enc(item_key(kept[i], sub)),
            ) by {
                if i == 0 {
                    lemma_dom_after_contains(dom, es, sub);
                }
            }
            assert forall|i: int, j: int| 0 <= i < j < kept.len() implies key_enc(
                #[trigger] item_key(kept[i], sub),
            ) != key_enc(#[trigger] item_key(kept[j], sub)) by {
                if i == 0 {
                    assert(!dom.insert(k0).contains(key_enc(item_key(rest[j - 1], sub))));
                }
            }
        }
    }
}

/// An empty batch is a no-op: nothing is kept and nothing is recorded. With
/// `lemma_kept_model_all_seen` this is the empty-batch law: zero fetched
/// entries, or none new, produce no delivery work; and since nothing was
/// delivered, nothing is ever rolled back.
pub proof fn lemma_empty_batch_noop(dom: Set<Seq<u8>>, sub: SubscriberSrcView)
    ensures
        kept_model(dom, Seq::<EntryView>::empty(), sub) == Seq::<EntryView>::empty(),
        dom_after(dom, Seq::<EntryView>::empty(), sub) == dom,
{
}

// ---------------------------------------------------------------------------
// The fetch-side half of the pipeline
// ---------------------------------------------------------------------------
/// The fingerprints of a batch of entries for one subscriber.
pub open spec fn keys_of(es: Seq<EntryView>, sub: SubscriberSrcView) -> Set<Seq<u8>>
    decreases es.len(),
{
    if es.len() == 0 {
        Set::empty()
    } else {
        keys_of(es.drop_last(), sub).insert(key_enc(item_key(es.last(), sub)))
    }
}

/// Feed-side state: the persistent dedup store the filtering policy runs
/// against. Retrieval itself is I/O and lives with the caller; this type
/// holds everything that decides.
pub struct Fetcher {
    pub history: KVStore,
}

impl Fetcher {
    /// Opens the dedup store at the configured path, or at the default path
    /// when the configuration names none; an open failure is a backend
    /// error. The store being on disk at that path is what lets seen-state
    /// survive process restarts.
    pub fn new(config: &Config) -> (r: Result<Fetcher, StoreError>)
        ensures
            match r {
                Ok(f) => store_path(f.history) == (match config.history_path {
                    Some(p) => p@,
                    None => DEFAULT_HISTORY_PATH@,
                }),
                Err(e) => e is Backend,
            },
    {
        let path = match config.history_path() {
            Some(p) => p,
            None => DEFAULT_HISTORY_PATH,
        };
        match KVStore::new(path) {
            Ok(history) => Ok(Fetcher { history }),
            Err(e) => Err(e),
        }
    }

    /// Filters one batch of entries for one subscriber against the dedup
    /// store: keeps exactly the entries whose fingerprints were unseen, in
    /// their original order, and records every entry's fingerprint. A store
    /// failure aborts the pair, leaving a prefix of the batch recorded.
    pub fn filter_items(&mut self, items: Vec<Entry>, sub: &SubscriberSrc) -> (r: Result<
        Vec<Entry>,
        StoreError,
    >)
        ensures
            store_preserved(store_map(old(self).history), store_map(final(self).history)),
            items@.len() == 0 ==> r is Ok,
            match r {
                Ok(kept) => {
                    &&& entries_view(kept@) == kept_model(
                        store_map(old(self).history).dom(),
                        entries_view(items@),
                        sub@,
                    )
                    &&& store_map(final(self).history).dom() == dom_after(
                        store_map(old(self).history).dom(),
                        entries_view(items@),
                        sub@,
                    )
                },
                Err(_) => exists|i: int|
                    0 <= i <= items@.len() && store_map(final(self).history).dom() == dom_after(
                        store_map(old(self).history).dom(),
                        entries_view(items@).take(i),
                        sub@,
                    ),
            },
    {
        let ghost all = entries_view(items@);
        let ghost m0 = store_map(self.history);
        proof {
            assert(all.len() == items@.len());
        }
        let mut rest = items;
        let mut kept: Vec<Entry> = Vec::new();
        let ghost mut j: int = 0;
        proof {
            assert(all.take(0) =~= Seq::<EntryView>::empty());
            assert(entries_view(kept@) =~= kept_model(m0.dom(), all.take(0), sub@));
        }
        while rest.len() > 0
            invariant
                0 <= j <= all.len(),
                m0 == store_map(old(self).history),
                all == entries_view(items@),
                entries_view(rest@) =~= all.skip(j),
                rest@.len() == all.len() - j,
                store_preserved(m0, store_map(self.history)),
                store_map(self.history).dom() == dom_after(m0.dom(), all.take(j), sub@),
                entries_view(kept@) == kept_model(m0.dom(), all.take(j), sub@),
            decreases rest@.len(),
        {
            let ghost old_rest = rest@;
            let it = rest.remove(0);
            proof {
                assert(it@ == entries_view(old_rest)[0]);
                assert(entries_view(old_rest)[0] == all.skip(j)[0]);
                assert(all.skip(j)[0] == all[j]);
                assert(entries_view(rest@) =~= all.skip(j + 1)) by {
                    assert forall|i: int| 0 <= i < rest@.len() implies entries_view(rest@)[i]
                        == all.skip(j + 1)[i] by {
                        assert(rest@[i] == old_rest[i + 1]);
                        assert(entries_view(old_rest)[i + 1] == all.skip(j)[i + 1]);
                    }
                }
                assert(all.take(j + 1) =~= all.take(j).push(all[j]));
                lemma_filter_model_snoc(m0.dom(), all.take(j), all[j], sub@);
            }
            let key = Key::from_item(&it, sub);
            let ghost cur = store_map(self.history);
            let ghost ke = key_enc(item_key(all[j], sub@));
            match self.history.get_or_insert(key) {
                Ok(None) => {
                    let ghost old_kept = kept@;
                    kept.push(it);
                    proof {
                        let m1 = store_map(self.history);
                        let t = choose|t: u64| m1 == cur.insert(ke, ts_enc(t));
                        assert(m1 == cur.insert(ke, ts_enc(t)));
                        assert(m1.dom() =~= cur.dom().insert(ke));
                        lemma_entries_view_push(old_kept, it);
                        assert(entries_view(kept@) =~= kept_model(m0.dom(), all.take(j), sub@)
                            + seq![all[j]]);
                        lemma_store_preserved_insert(m0, cur, ke, t);
                    }
                },
                Ok(Some(_)) => {
                    proof {
                        assert(dom_after(m0.dom(), all.take(j + 1), sub@) =~= cur.dom());
                        assert(entries_view(kept@) =~= kept_model(m0.dom(), all.take(j), sub@)
                            + Seq::<EntryView>::empty());
                    }
                },
                Err(e) => {
                    proof {
                        let m1 = store_map(self.history);
                        if m1 == cur {
                            assert(0 <= j <= all.len() && m1.dom() == dom_after(
                                m0.dom(),
                                all.take(j),
                                sub@,
                            ));
                            assert(exists|i: int|
                                0 <= i <= all.len() && m1.dom() == dom_after(
                                    m0.dom(),
                                    all.take(i),
                                    sub@,
                                ));
                        } else {
                            let t = choose|t: u64| m1 == cur.insert(ke, ts_enc(t));
                            assert(m1 == cur.insert(ke, ts_enc(t)));
                            assert(m1.dom() =~= cur.dom().insert(ke));
                            lemma_store_preserved_insert(m0, cur, ke, t);
                            assert(0 <= j + 1 <= all.len() && m1.dom() == dom_after(
                                m0.dom(),
                                all.take(j + 1),
                                sub@,
                            ));
                            assert(exists|i: int|
                                0 <= i <= all.len() && m1.dom() == dom_after(
                                    m0.dom(),
                                    all.take(i),
                                    sub@,
                                ));
                        }
                    }
                    return Err(e);
                },
            }
            proof {
                j = j + 1;
            }
        }
        proof {
            assert(all.take(j) =~= all);
            assert(entries_view(items@).take(j) =~= all);
        }
        Ok(kept)
    }

    /// Filters a whole fetched document for one subscriber. `None` means the
    /// batch produced no new entries: nothing downstream is invoked for it.
    /// `Some` carries the document with exactly the surviving entries, in
    /// original order, under the original channel header.
    pub fn filter_channel(&mut self, channel: FeedDoc, sub: &SubscriberSrc) -> (r: Result<
        Option<FeedDoc>,
        StoreError,
    >)
        ensures
            store_preserved(store_map(old(self).history), store_map(final(self).history)),
            channel@.items.len() == 0 ==> r is Ok,
            match r {
                Ok(v) => {
                    &&& store_map(final(self).history).dom() == dom_after(
                        store_map(old(self).history).dom(),
                        channel@.items,
                        sub@,
                    )
                    &&& match v {
                        Some(c) => {
                            &&& c@.title == channel@.title
                            &&& c@.link == channel@.link
                            &&& c@.description == channel@.description
                            &&& c@.pub_date == channel@.pub_date
                            &&& c@.items == kept_model(
                                store_map(old(self).history).dom(),
                                channel@.items,
                                sub@,
                            )
                            &&& c@.items.len() > 0
                        },
                        None => kept_model(
                            store_map(old(self).history).dom(),
                            channel@.items,
                            sub@,
                        ) == Seq::<EntryView>::empty(),
                    }
                },
                Err(_) => exists|i: int|
                    0 <= i <= channel@.items.len() && store_map(final(self).history).dom()
                        == dom_after(
                        store_map(old(self).history).dom(),
                        channel@.items.take(i),
                        sub@,
                    ),
            },
    {
        let ghost cv = channel@;
        let FeedDoc { title, link, description, pub_date, items } = channel;
        proof {
            assert(cv.items == entries_view(items@));
        }
        match self.filter_items(items, sub) {
            Ok(kept) => {
                if kept.len() == 0 {
                    proof {
                        assert(entries_view(kept@).len() == 0);
                        assert(kept_model(
                            store_map(old(self).history).dom(),
                            cv.items,
                            sub@,
                        ) =~= Seq::<EntryView>::empty());
                    }
                    Ok(None)
                } else {
                    Ok(Some(FeedDoc { title, link, description, pub_date, items: kept }))
                }
            },
            Err(e) => Err(e),
        }
    }

    /// Parses one fetched feed document and filters it for one subscriber:
    /// the one entry point a driver needs per (feed, subscriber) pair.
    /// `FeedError::Parse` comes exactly on malformed bytes and leaves the
    /// store untouched; otherwise the batch is `feed_doc_of(body@).items`,
    /// filtered exactly as `filter_channel` states.
    pub fn process_feed_body(&mut self, body: &Vec<u8>, sub: &SubscriberSrc) -> (r: Result<
        Option<FeedDoc>,
        FeedError,
    >)
        ensures
            store_preserved(store_map(old(self).history), store_map(final(self).history)),
            feed_parse_ok(body@) && feed_doc_of(body@).items.len() == 0 ==> r is Ok,
            match r {
                Ok(v) => {
                    &&& feed_parse_ok(body@)
                    &&& store_map(final(self).history).dom() == dom_after(
                        store_map(old(self).history).dom(),
                        feed_doc_of(body@).items,
                        sub@,
                    )
                    &&& match v {
                        Some(c) => {
                            &&& c@.title == feed_doc_of(body@).title
                            &&& c@.link == feed_doc_of(body@).link
                            &&& c@.description == feed_doc_of(body@).description
                            &&& c@.pub_date == feed_doc_of(body@).pub_date
                            &&& c@.items == kept_model(
                                store_map(old(self).history).dom(),
                                feed_doc_of(body@).items,
                                sub@,
                            )
                            &&& c@.items.len() > 0
                        },
                        None => kept_model(
                            store_map(old(self).history).dom(),
                            feed_doc_of(body@).items,
                            sub@,
                        ) == Seq::<EntryView>::empty(),
                    }
                },
                Err(e) => match e {
                    FeedError::Parse => !feed_parse_ok(body@) && store_map(final(self).history)
                        == store_map(old(self).history),
                    FeedError::Store(_) => feed_parse_ok(body@) && exists|i: int|
                        0 <= i <= feed_doc_of(body@).items.len() && store_map(
                            final(self).history,
                        ).dom() == dom_after(
                            store_map(old(self).history).dom(),
                            feed_doc_of(body@).items.take(i),
                            sub@,
                        ),
                },
            },
    {
        let channel = match parse_feed(body) {
            Ok(c) => c,
            Err(e) => {
                return Err(e);
            },
        };
        proof {
            assert(channel@ == feed_doc_of(body@));
        }
        match self.filter_channel(channel, sub) {
            Ok(v) => {
                proof {
                    assert(store_map(self.history).dom() == dom_after(
                        store_map(old(self).history).dom(),
                        feed_doc_of(body@).items,
                        sub@,
                    ));
                }
                Ok(v)
            },
            Err(e) => Err(FeedError::Store(e)),
        }
    }

    /// Reconciliation: removes the fingerprints of the given entries, so each
    /// is treated as new again on the next cycle. A store failure leaves a
    /// prefix of the batch removed and everything else untouched.
    pub fn remove_from_history(&mut self, items: &Vec<Entry>, sub: &SubscriberSrc) -> (r: Result<
        (),
        StoreError,
    >)
        ensures
            items@.len() == 0 ==> r is Ok,
            match r {
                Ok(_) => store_map(final(self).history) == store_map(old(self).history).remove_keys(
                    keys_of(entries_view(items@), sub@),
                ),
                Err(e) => e is Backend && exists|i: int|
                    0 <= i <= items@.len() && store_map(final(self).history) == store_map(
                        old(self).history,
                    ).remove_keys(keys_of(entries_view(items@).take(i), sub@)),
            },
    {
        let ghost all = entries_view(items@);
        let ghost m0 = store_map(self.history);
        proof {
            assert(keys_of(all.take(0), sub@) =~= Set::<Seq<u8>>::empty());
            assert(m0.remove_keys(keys_of(all.take(0), sub@)) =~= m0);
        }
        let n = items.len();
        let mut i: usize = 0;
        while i < n
            invariant
                0 <= i <= n,
                n == items@.len(),
                all == entries_view(items@),
                m0 == store_map(old(self).history),
                store_map(self.history) == m0.remove_keys(keys_of(all.take(i as int), sub@)),
            decreases n - i,
        {
            let key = Key::from_item(&items[i], sub);
            let ghost cur = store_map(self.history);
            proof {
                assert(all.take(i + 1).drop_last() =~= all.take(i as int));
                assert(all.take(i + 1).last() == all[i as int]);
                assert(all[i as int] == items@[i as int]@);
            }
            match self.history.remove(&key) {
                Ok(_) => {
                    proof {
                        assert(store_map(self.history) =~= m0.remove_keys(
                            keys_of(all.take(i + 1), sub@),
                        ));
                    }
                },
                Err(e) => {
                    proof {
                        if store_map(self.history) == cur {
                            assert(0 <= i as int <= items@.len() && store_map(self.history)
                                == m0.remove_keys(keys_of(entries_view(items@).take(i as int), sub@)));
                            assert(exists|w: int|
                                0 <= w <= items@.len() && store_map(self.history) == m0.remove_keys(
                                    keys_of(entries_view(items@).take(w), sub@),
                                ));
                        } else {
                            assert(store_map(self.history) =~= m0.remove_keys(
                                keys_of(all.take(i + 1), sub@),
                            ));
                            assert(0 <= i + 1 <= items@.len() && store_map(self.history)
                                == m0.remove_keys(keys_of(entries_view(items@).take(i + 1), sub@)));
                            assert(exists|w: int|
                                0 <= w <= items@.len() && store_map(self.history) == m0.remove_keys(
                                    keys_of(entries_view(items@).take(w), sub@),
                                ));
                        }
                    }
                    return Err(e);
                },
            }
            i = i + 1;
        }
        proof {
            assert(all.take(n as int) =~= all);
        }
        Ok(())
    }
}

} // verus!
