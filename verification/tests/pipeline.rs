use auto_anime::config::{Config, FrequencyConfig, PikpakConfig};
use auto_anime::distributor::{
    failed_indices, rollback_indices, BatchOutcome, DeliveryPlan, DistributeError, Distributor,
    UploadRequest,
};
use auto_anime::feeds::{Entry, Feed, FeedDoc, Torrent};
use auto_anime::fetcher::{FeedError, Fetcher, parse_feed};
use auto_anime::subscriber::{Subscriber, SubscriberSrc};
use auto_anime::AutoAnime;

fn entry(title: &str, guid: &str, enclosure: Option<&str>, with_torrent: bool) -> Entry {
    Entry {
        title: Some(title.to_string()),
        guid: Some(guid.to_string()),
        description: Some(format!("{} desc", title)),
        torrent: if with_torrent {
            Some(Torrent { link: Some(format!("https://t/{}", guid)), pub_date: None })
        } else {
            None
        },
        enclosure_url: enclosure.map(|u| u.to_string()),
    }
}

fn doc(items: Vec<Entry>) -> FeedDoc {
    FeedDoc {
        title: "Anime Feed".to_string(),
        link: "https://example.com/feed".to_string(),
        description: "latest episodes".to_string(),
        pub_date: None,
        items,
    }
}

fn config(name: &str, pikpak: Option<PikpakConfig>) -> Config {
    Config::new(
        "SECRET-REDACTED".to_string(),
        "sender@example.com".to_string(),
        vec![Subscriber {
            src: SubscriberSrc::Email("reader@example.com".to_string()),
            feeds: vec![Feed { url: "https://example.com/feed".to_string() }],
        }],
        pikpak,
        None,
        Some(FrequencyConfig::Hourly(1)),
        Some(format!("/tmp/auto_anime_test_{}", name)),
    )
}

fn clear(fetcher: &mut Fetcher, items: &Vec<Entry>, sub: &SubscriberSrc) {
    fetcher.remove_from_history(items, sub).unwrap();
}

#[test]
fn empty_batch_is_a_noop() {
    let cfg = config("empty_batch", None);
    let mut fetcher = Fetcher::new(&cfg).unwrap();
    let sub = SubscriberSrc::Email("reader@example.com".to_string());
    let r = fetcher.filter_channel(doc(vec![]), &sub).unwrap();
    assert!(r.is_none());
}

#[test]
fn all_seen_batch_is_a_noop() {
    let cfg = config("all_seen", None);
    let mut fetcher = Fetcher::new(&cfg).unwrap();
    let sub = SubscriberSrc::Email("reader@example.com".to_string());
    let items = vec![entry("A", "1", None, false), entry("B", "2", None, false)];
    clear(&mut fetcher, &items, &sub);
    let first = fetcher.filter_channel(doc(items.clone()), &sub).unwrap();
    assert!(first.is_some());
    assert_eq!(first.unwrap().items.len(), 2);
    // same feed content again: every entry already seen, nothing to deliver
    let second = fetcher.filter_channel(doc(items.clone()), &sub).unwrap();
    assert!(second.is_none());
    clear(&mut fetcher, &items, &sub);
}

#[test]
fn duplicate_fingerprints_in_one_batch_keep_only_the_first() {
    let cfg = config("dup_in_batch", None);
    let mut fetcher = Fetcher::new(&cfg).unwrap();
    let sub = SubscriberSrc::Email("reader@example.com".to_string());
    let twin_a = entry("A", "1", None, false);
    let twin_b = entry("A", "1", None, false);
    clear(&mut fetcher, &vec![twin_a.clone()], &sub);
    // the first occurrence marks the fingerprint seen, so the second is dropped
    let kept = fetcher.filter_channel(doc(vec![twin_a.clone(), twin_b]), &sub).unwrap().unwrap();
    assert_eq!(kept.items.len(), 1);
    clear(&mut fetcher, &vec![twin_a], &sub);
}

#[test]
fn email_scenario_three_cycles() {
    let cfg = config("email_scenario", None);
    let mut fetcher = Fetcher::new(&cfg).unwrap();
    let distributor = Distributor::new(&cfg);
    let sub = SubscriberSrc::Email("reader@example.com".to_string());
    let a = entry("A", "1", None, false);
    let b = entry("B", "2", None, false);
    let c = entry("C", "3", None, false);
    clear(&mut fetcher, &vec![a.clone(), b.clone(), c.clone()], &sub);

    // cycle 1: both new -> one email referencing A and B
    let kept = fetcher.filter_channel(doc(vec![a.clone(), b.clone()]), &sub).unwrap().unwrap();
    assert_eq!(kept.items.len(), 2);
    match distributor.notify(&kept, &sub).unwrap() {
        DeliveryPlan::Email(m) => {
            assert_eq!(m.from, "sender@example.com");
            assert_eq!(m.to, "reader@example.com");
            assert_eq!(m.subject, "AutoAnime - Anime Feed");
            assert_eq!(m.text, "https://example.com/feed");
            assert_eq!(
                m.html,
                "<p><b>latest episodes</b><p>\n<ul>\n<li>A desc - </li><li>B desc - </li></ul>\n"
            );
        },
        DeliveryPlan::Upload(_) => panic!("email subscriber must get an email plan"),
    }

    // cycle 2: same feed content -> zero new entries, no email
    let r2 = fetcher.filter_channel(doc(vec![a.clone(), b.clone()]), &sub).unwrap();
    assert!(r2.is_none());

    // cycle 3: feed now holds B and C -> only C is new
    let kept3 = fetcher.filter_channel(doc(vec![b.clone(), c.clone()]), &sub).unwrap().unwrap();
    assert_eq!(kept3.items.len(), 1);
    assert_eq!(kept3.items[0].guid.as_deref(), Some("3"));
    match distributor.notify(&kept3, &sub).unwrap() {
        DeliveryPlan::Email(m) => {
            assert_eq!(
                m.html,
                "<p><b>latest episodes</b><p>\n<ul>\n<li>C desc - </li></ul>\n"
            );
        },
        DeliveryPlan::Upload(_) => panic!("email subscriber must get an email plan"),
    }
    clear(&mut fetcher, &vec![a, b, c], &sub);
}

#[test]
fn upload_partial_failure_retries_only_the_failed_entry() {
    let pik = PikpakConfig {
        username: "user".to_string(),
        password: "SECRET-REDACTED".to_string(),
        path: "/remote/anime".to_string(),
    };
    let cfg = config("partial_failure", Some(pik));
    let mut fetcher = Fetcher::new(&cfg).unwrap();
    let distributor = Distributor::new(&cfg);
    let sub = SubscriberSrc::PikPak;
    let e1 = entry("A", "1", Some("https://dl/1.torrent"), true);
    let e2 = entry("B", "2", Some("https://dl/2.torrent"), true);
    let items = vec![e1.clone(), e2.clone()];
    clear(&mut fetcher, &items, &sub);

    // cycle 1: both new, both submitted
    let kept = fetcher.filter_channel(doc(items.clone()), &sub).unwrap().unwrap();
    let reqs = match distributor.notify(&kept, &sub).unwrap() {
        DeliveryPlan::Upload(reqs) => reqs,
        DeliveryPlan::Email(_) => panic!("remote-upload subscriber must get an upload plan"),
    };
    assert_eq!(reqs.len(), 2);
    assert_eq!(reqs[0].index, 0);
    assert_eq!(reqs[0].path, "/remote/anime");
    assert_eq!(reqs[0].url, "https://dl/1.torrent");
    assert_eq!(reqs[1].index, 1);
    assert_eq!(reqs[1].url, "https://dl/2.torrent");

    // entry 1 fails, entry 2 succeeds: only entry 1 is rolled back
    let failed = failed_indices(&reqs, &vec![false, true]);
    assert_eq!(failed, vec![0]);
    let failed_items: Vec<Entry> = failed.iter().map(|&i| kept.items[i].clone()).collect();
    fetcher.remove_from_history(&failed_items, &sub).unwrap();

    // cycle 2 with identical content: only the failed entry is re-attempted
    let kept2 = fetcher.filter_channel(doc(items.clone()), &sub).unwrap().unwrap();
    assert_eq!(kept2.items.len(), 1);
    assert_eq!(kept2.items[0].guid.as_deref(), Some("1"));
    clear(&mut fetcher, &items, &sub);
}

#[test]
fn uploads_skip_entries_without_an_enclosure() {
    let pik = PikpakConfig {
        username: "user".to_string(),
        password: "SECRET-REDACTED".to_string(),
        path: "/remote".to_string(),
    };
    let cfg = config("upload_skip", Some(pik));
    let distributor = Distributor::new(&cfg);
    let items = vec![
        entry("A", "1", Some("https://dl/1.torrent"), false),
        entry("B", "2", None, true),
        entry("C", "3", Some("https://dl/3.torrent"), true),
    ];
    match distributor.notify(&doc(items), &SubscriberSrc::PikPak).unwrap() {
        DeliveryPlan::Upload(reqs) => {
            assert_eq!(reqs.len(), 2);
            assert_eq!(reqs[0].index, 0);
            assert_eq!(reqs[0].url, "https://dl/1.torrent");
            assert_eq!(reqs[1].index, 2);
            assert_eq!(reqs[1].url, "https://dl/3.torrent");
        },
        DeliveryPlan::Email(_) => panic!("remote-upload subscriber must get an upload plan"),
    }
}

#[test]
fn parsed_feed_reaches_the_upload_plan() {
    // end to end: a document that came out of the real parser must yield
    // submissions for its enclosure URLs
    let xml = "<?xml version=\"1.0\" encoding=\"UTF-8\"?>\
<rss version=\"2.0\"><channel>\
<title>Anime Feed</title>\
<link>https://example.com/feed</link>\
<description>latest episodes</description>\
<item><title>A</title><guid>guid-1</guid>\
<enclosure url=\"https://dl/a.torrent\" length=\"1\" \
type=\"application/x-bittorrent\"/>\
</item>\
<item><title>B</title><guid>guid-2</guid></item>\
</channel></rss>";
    let parsed = parse_feed(&xml.as_bytes().to_vec()).unwrap();
    let pik = PikpakConfig {
        username: "user".to_string(),
        password: "SECRET-REDACTED".to_string(),
        path: "/remote/anime".to_string(),
    };
    let cfg = config("parse_to_upload", Some(pik));
    let distributor = Distributor::new(&cfg);
    match distributor.notify(&parsed, &SubscriberSrc::PikPak).unwrap() {
        DeliveryPlan::Upload(reqs) => {
            assert_eq!(reqs.len(), 1);
            assert_eq!(reqs[0].index, 0);
            assert_eq!(reqs[0].path, "/remote/anime");
            assert_eq!(reqs[0].url, "https://dl/a.torrent");
        },
        DeliveryPlan::Email(_) => panic!("remote-upload subscriber must get an upload plan"),
    }
}

#[test]
fn upload_without_configuration_is_refused() {
    let cfg = config("no_pikpak", None);
    let distributor = Distributor::new(&cfg);
    let r = distributor.notify(&doc(vec![]), &SubscriberSrc::PikPak);
    assert!(matches!(r, Err(DistributeError::ChannelNotConfigured)));
}

#[test]
fn init_pikpak_client_uses_configured_account() {
    let pik = PikpakConfig {
        username: "user".to_string(),
        password: "SECRET-REDACTED".to_string(),
        path: "/remote".to_string(),
    };
    let cfg = config("init_client", Some(pik));
    let mut distributor = Distributor::new(&cfg);
    assert!(!distributor.pikpak_ready);
    let opts = distributor.init_pikpak_client().unwrap();
    assert_eq!(opts.username, "user");
    assert_eq!(opts.retry_times, 3);
    assert!(opts.proxy.is_none());
    distributor.mark_pikpak_ready();
    assert!(distributor.pikpak_ready);

    let cfg2 = config("init_client_none", None);
    let d2 = Distributor::new(&cfg2);
    assert!(matches!(
        d2.init_pikpak_client(),
        Err(DistributeError::ChannelNotConfigured)
    ));
}

#[test]
fn parse_feed_reads_a_real_document() {
    let xml = "<?xml version=\"1.0\" encoding=\"UTF-8\"?>\
<rss version=\"2.0\"><channel>\
<title>Anime Feed</title>\
<link>https://example.com/feed</link>\
<description>latest episodes</description>\
<item><title>A</title><guid>guid-1</guid>\
<description>A desc</description>\
<enclosure url=\"https://dl/1.torrent\" length=\"1\" \
type=\"application/x-bittorrent\"/>\
</item>\
</channel></rss>";
    let parsed = parse_feed(&xml.as_bytes().to_vec()).unwrap();
    assert_eq!(parsed.title, "Anime Feed");
    assert_eq!(parsed.link, "https://example.com/feed");
    assert_eq!(parsed.description, "latest episodes");
    assert_eq!(parsed.items.len(), 1);
    assert_eq!(parsed.items[0].title.as_deref(), Some("A"));
    assert_eq!(parsed.items[0].guid.as_deref(), Some("guid-1"));
    assert_eq!(parsed.items[0].enclosure_url.as_deref(), Some("https://dl/1.torrent"));
}

#[test]
fn parse_feed_rejects_malformed_bytes() {
    let r = parse_feed(&b"this is not a feed".to_vec());
    assert!(matches!(r, Err(FeedError::Parse)));
}

#[test]
fn config_getters_and_subscriber_kinds() {
    let pik = PikpakConfig {
        username: "user".to_string(),
        password: "SECRET-REDACTED".to_string(),
        path: "/remote".to_string(),
    };
    let cfg = config("getters", Some(pik));
    assert_eq!(cfg.resend_api_key(), "SECRET-REDACTED");
    assert_eq!(cfg.send_email(), "sender@example.com");
    assert_eq!(cfg.subscriber().len(), 1);
    assert!(cfg.proxy().is_none());
    assert!(cfg.pikpak_config().is_some());
    assert!(matches!(cfg.frequency(), Some(FrequencyConfig::Hourly(1))));
    assert_eq!(cfg.history_path(), Some("/tmp/auto_anime_test_getters"));
    let email = SubscriberSrc::Email("x@example.com".to_string());
    let pikpak = SubscriberSrc::PikPak;
    assert!(email.is_email());
    assert!(!email.is_pikpak());
    assert!(pikpak.is_pikpak());
    assert!(!pikpak.is_email());
}

#[test]
fn pipeline_driver_builds_from_configuration() {
    let cfg = config("driver_new", None);
    let pipeline = AutoAnime::new(cfg).unwrap();
    assert_eq!(pipeline.distributor.from_email, "sender@example.com");
    assert!(!pipeline.distributor.pikpak_ready);
    assert_eq!(pipeline.config.send_email(), "sender@example.com");
}

#[test]
fn rollback_decision_covers_every_outcome() {
    let no_reqs: Vec<UploadRequest> = Vec::new();
    // a sent batch e-mail covers every entry: nothing is rolled back
    assert!(rollback_indices(3, &no_reqs, &BatchOutcome::EmailSent).is_empty());
    // a failed e-mail or a channel-fatal dispatch fails the whole batch
    assert_eq!(
        rollback_indices(3, &no_reqs, &BatchOutcome::EmailFailed),
        vec![0, 1, 2]
    );
    assert_eq!(
        rollback_indices(2, &no_reqs, &BatchOutcome::ChannelFailed),
        vec![0, 1]
    );
    // per-entry submission results roll back exactly the failed entries
    let reqs = vec![
        UploadRequest { index: 0, path: "/r".to_string(), url: "u0".to_string() },
        UploadRequest { index: 2, path: "/r".to_string(), url: "u2".to_string() },
    ];
    assert_eq!(
        rollback_indices(3, &reqs, &BatchOutcome::Uploads(vec![false, true])),
        vec![0]
    );
    assert_eq!(
        rollback_indices(3, &reqs, &BatchOutcome::Uploads(vec![true, false])),
        vec![2]
    );
    assert!(rollback_indices(3, &reqs, &BatchOutcome::Uploads(vec![true, true])).is_empty());
}
