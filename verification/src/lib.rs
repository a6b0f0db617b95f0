pub mod codec;
pub mod config;
pub mod distributor;
pub mod feeds;
pub mod fetcher;
pub mod filter;
pub mod subscriber;

use crate::config::Config;
use crate::distributor::Distributor;
use crate::feeds::EntryView;
use crate::fetcher::dom_after;
use crate::fetcher::Fetcher;
use crate::fetcher::kept_model;
use crate::fetcher::lemma_dom_after_contains;
use crate::fetcher::lemma_kept_model_distinct;
use crate::filter::item_key;
use crate::filter::key_enc;
use crate::filter::StoreError;
use crate::subscriber::SubscriberSrcView;
use vstd::prelude::*;

verus! {

/// The pipeline driver's state for one process: the fetch side (dedup store
/// and filtering policy) and the distribution side. One cycle, run by the
/// caller for each configured (feed, subscriber) pair in configuration
/// order, goes: fetch the feed bytes (I/O), `fetcher.process_feed_body`,
/// `distributor.notify`, perform the plan (I/O), and for the entries whose
/// delivery failed `fetcher.remove_from_history`, so they are retried on the
/// next cycle. A failure in one pair never touches another pair's state.
pub struct AutoAnime {
    pub fetcher: Fetcher,
    pub distributor: Distributor,
    pub config: Config,
}

impl AutoAnime {
    /// Builds the pipeline: opens the dedup store at the configured path and
    /// sets up the distribution state. Fails exactly when the store cannot
    /// be opened, which aborts the whole cycle before any pair is processed;
    /// construction fetches nothing and delivers nothing.
    pub fn new(config: Config) -> (r: Result<AutoAnime, StoreError>)
        ensures
            match r {
                Ok(a) => {
                    &&& a.config == config
                    &&& crate::filter::store_path(a.fetcher.history) == (match config.history_path {
                        Some(p) => p@,
                        None => crate::config::DEFAULT_HISTORY_PATH@,
                    })
                    &&& a.distributor.from_email@ == config.send_email@
                    &&& crate::distributor::pikpak_cfg_view(a.distributor.pikpak)
                        == crate::distributor::pikpak_cfg_view(config.pikpak)
                    &&& a.distributor.proxy.deep_view() == config.proxy.deep_view()
                    &&& !a.distributor.pikpak_ready
                },
                Err(e) => e is Backend,
            },
    {
        let distributor = Distributor::new(&config);
        match Fetcher::new(&config) {
            Ok(fetcher) => Ok(AutoAnime { fetcher, distributor, config }),
            Err(e) => Err(e),
        }
    }
}

/// Partial-failure isolation, rollback side: after a batch of pairwise
/// distinct fingerprints is filtered (all recorded) and only entry `k`'s
/// delivery fails, rolling back entry `k` alone leaves exactly the other
/// entries recorded: `k` is new again next cycle, its siblings are not.
pub proof fn lemma_partial_failure_rollback(
    dom: Set<Seq<u8>>,
    es: Seq<EntryView>,
    sub: SubscriberSrcView,
    k: int,
)
    requires
        0 <= k < es.len(),
        forall|i: int, j: int|
            0 <= i < es.len() && 0 <= j < es.len() && i != j ==> key_enc(
                #[trigger] item_key(es[i], sub),
            ) != key_enc(#[trigger] item_key(es[j], sub)),
    ensures
        ({
            let marked = dom_after(dom, es, sub);
            let after = marked.remove(key_enc(item_key(es[k], sub)));
            &&& !after.contains(key_enc(item_key(es[k], sub)))
            &&& forall|j: int|
                0 <= j < es.len() && j != k ==> after.contains(
                    #[trigger] key_enc(item_key(es[j], sub)),
                )
        }),
{
    lemma_dom_after_contains(dom, es, sub);
}

/// Partial-failure isolation for a batch that came out of filtering, with no
/// side condition: a filtered batch has pairwise distinct fingerprints by
/// construction (a duplicate would have been dropped as already seen), and
/// all of them are recorded after the filter pass. Rolling back the one
/// failed entry leaves exactly its siblings recorded: the failed entry is
/// new again next cycle, the others are not.
pub proof fn lemma_partial_failure_rollback_filtered(
    dom: Set<Seq<u8>>,
    es: Seq<EntryView>,
    sub: SubscriberSrcView,
    k: int,
)
    requires
        0 <= k < kept_model(dom, es, sub).len(),
    ensures
        ({
            let kept = kept_model(dom, es, sub);
            let after = dom_after(dom, es, sub).remove(key_enc(item_key(kept[k], sub)));
            &&& !after.contains(key_enc(item_key(kept[k], sub)))
            &&& forall|j: int|
                0 <= j < kept.len() && j != k ==> after.contains(
                    #[trigger] key_enc(item_key(kept[j], sub)),
                )
        }),
{
    lemma_kept_model_distinct(dom, es, sub);
    let kept = kept_model(dom, es, sub);
    let after = dom_after(dom, es, sub).remove(key_enc(item_key(kept[k], sub)));
    assert forall|j: int| 0 <= j < kept.len() && j != k implies after.contains(
        #[trigger] key_enc(item_key(kept[j], sub)),
    ) by {
        if j < k {
            assert(key_enc(item_key(kept[j], sub)) != key_enc(item_key(kept[k], sub)));
        } else {
            assert(key_enc(item_key(kept[k], sub)) != key_enc(item_key(kept[j], sub)));
        }
    }
}

} // verus!
