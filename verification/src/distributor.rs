use crate::config::Config;
use crate::config::PikpakConfig;
use crate::feeds::EntryView;
use crate::feeds::FeedDoc;
use crate::feeds::FeedDocView;
use crate::subscriber::SubscriberSrc;
use crate::subscriber::SubscriberSrcView;
use vstd::prelude::*;
use vstd::string::StringExecFns;

verus! {

// ---------------------------------------------------------------------------
// The mail channel: one message per batch
// ---------------------------------------------------------------------------
/// One batch notification for the mail channel, composed and ready to send.
pub struct EmailMessage {
    pub from: String,
    pub to: String,
    pub subject: String,
    pub text: String,
    pub html: String,
}

/// The subject line of a batch notification.
pub open spec fn subject_of(c: FeedDocView) -> Seq<char> {
    "AutoAnime - "@ + c.title
}

/// The rendered list line for one entry: its description and its torrent
/// page link, each falling back to the empty string.
pub open spec fn item_html(it: EntryView) -> Seq<char> {
    "<li>"@ + (match it.description {
        Some(d) => d,
        None => Seq::empty(),
    }) + " - "@ + (match it.torrent {
        Some(t) => match t.link {
            Some(l) => l,
            None => Seq::empty(),
        },
        None => Seq::empty(),
    }) + "</li>"@
}

/// The rendered list lines of a batch, in order.
pub open spec fn items_html(es: Seq<EntryView>) -> Seq<char>
    decreases es.len(),
{
    if es.len() == 0 {
        Seq::empty()
    } else {
        items_html(es.drop_last()) + item_html(es.last())
    }
}

/// The rendered HTML body: the channel description in bold, then one list
/// line per entry.
pub open spec fn channel_html(c: FeedDocView) -> Seq<char> {
    "<p><b>"@ + c.description + "</b><p>\n"@ + "<ul>\n"@ + items_html(c.items) + "</ul>\n"@
}

/// Renders the HTML body for one batch, exactly as `channel_html` states.
pub fn channel2html(channel: &FeedDoc) -> (r: String)
    ensures
        r@ == channel_html(channel@),
{
    let ghost esv = channel@.items;
    let mut html = String::new();
    html.append("<p><b>");
    html.append(channel.description.as_str());
    html.append("</b><p>\n");
    html.append("<ul>\n");
    let ghost head = html@;
    proof {
        assert(items_html(esv.take(0)) =~= Seq::<char>::empty());
        assert(html@ =~= head + items_html(esv.take(0)));
    }
    let n = channel.items.len();
    let mut i: usize = 0;
    while i < n
        invariant
            0 <= i <= n,
            n == channel.items@.len(),
            esv == channel@.items,
            head == "<p><b>"@ + channel@.description + "</b><p>\n"@ + "<ul>\n"@,
            html@ == head + items_html(esv.take(i as int)),
        decreases n - i,
    {
        let it = &channel.items[i];
        proof {
            assert(it@ == esv[i as int]);
        }
        html.append("<li>");
        match &it.description {
            Some(d) => {
                html.append(d.as_str());
            },
            None => {},
        }
        html.append(" - ");
        match &it.torrent {
            Some(t) => {
                match &t.link {
                    Some(l) => {
                        html.append(l.as_str());
                    },
                    None => {},
                }
            },
            None => {},
        }
        html.append("</li>");
        proof {
            assert(esv.take(i + 1).drop_last() =~= esv.take(i as int));
            assert(esv.take(i + 1).last() == esv[i as int]);
            assert(html@ =~= head + items_html(esv.take(i + 1)));
        }
        i = i + 1;
    }
    html.append("</ul>\n");
    proof {
        assert(esv.take(n as int) =~= esv);
        assert(html@ =~= channel_html(channel@));
    }
    html
}

/// Composes the batch notification exactly as the distributor sends it: the
/// configured sender, the subscriber's address as sole recipient, the subject
/// from the channel title, the plain-text body from the channel link and the
/// HTML body from `channel_html`.
pub fn compose_email(from: &str, to: &str, channel: &FeedDoc) -> (m: EmailMessage)
    ensures
        m.from@ == from@,
        m.to@ == to@,
        m.subject@ == subject_of(channel@),
        m.text@ == channel@.link,
        m.html@ == channel_html(channel@),
{
    let mut subject = String::new();
    subject.append("AutoAnime - ");
    subject.append(channel.title.as_str());
    proof {
        assert(subject@ =~= subject_of(channel@));
    }
    EmailMessage {
        from: from.to_owned(),
        to: to.to_owned(),
        subject,
        text: channel.link.clone(),
        html: channel2html(channel),
    }
}

// ---------------------------------------------------------------------------
// The remote-upload channel: one submission per eligible entry
// ---------------------------------------------------------------------------
/// Spec-level shape of one submission.
pub struct UploadReqView {
    pub index: int,
    pub path: Seq<char>,
    pub url: Seq<char>,
}

/// One submission to the remote-upload channel: which entry of the batch it
/// is for, the configured destination path, and the enclosure URL to submit.
pub struct UploadRequest {
    pub index: usize,
    pub path: String,
    pub url: String,
}

impl View for UploadRequest {
    type V = UploadReqView;

    open spec fn view(&self) -> UploadReqView {
        UploadReqView { index: self.index as int, path: self.path@, url: self.url@ }
    }
}

pub open spec fn reqs_view(rs: Seq<UploadRequest>) -> Seq<UploadReqView> {
    rs.map_values(|r: UploadRequest| r@)
}

/// Whether the distributor submits an entry to the remote-upload channel: it
/// must carry an enclosure URL, the downloadable torrent resource, and that
/// URL is what is submitted.
pub open spec fn upload_wanted(it: EntryView) -> bool {
    it.enclosure_url is Some
}

/// The submissions for a batch: one per eligible entry, in batch order, each
/// carrying the entry's index, the configured destination path and the
/// entry's enclosure URL. Entries without an enclosure are skipped (and
/// presumed delivered: nothing is ever retried for them).
pub open spec fn uploads_model(es: Seq<EntryView>, path: Seq<char>) -> Seq<UploadReqView>
    decreases es.len(),
{
    if es.len() == 0 {
        Seq::empty()
    } else {
        let pre = uploads_model(es.drop_last(), path);
        if upload_wanted(es.last()) {
            pre.push(
                UploadReqView {
                    index: es.len() - 1,
                    path: path,
                    url: es.last().enclosure_url.unwrap(),
                },
            )
        } else {
            pre
        }
    }
}

/// Builds the submissions for one batch, exactly as `uploads_model` states.
pub fn build_uploads(channel: &FeedDoc, path: &str) -> (r: Vec<UploadRequest>)
    ensures
        reqs_view(r@) == uploads_model(channel@.items, path@),
{
    let ghost esv = channel@.items;
    let mut out: Vec<UploadRequest> = Vec::new();
    proof {
        assert(esv.take(0) =~= Seq::<EntryView>::empty());
        assert(reqs_view(out@) =~= uploads_model(esv.take(0), path@));
    }
    let n = channel.items.len();
    let mut i: usize = 0;
    while i < n
        invariant
            0 <= i <= n,
            n == channel.items@.len(),
            esv == channel@.items,
            reqs_view(out@) == uploads_model(esv.take(i as int), path@),
        decreases n - i,
    {
        let it = &channel.items[i];
        proof {
            assert(it@ == esv[i as int]);
            assert(esv.take(i + 1).drop_last() =~= esv.take(i as int));
            assert(esv.take(i + 1).last() == esv[i as int]);
        }
        match &it.enclosure_url {
            Some(u) => {
                let ghost before = out@;
                out.push(UploadRequest { index: i, path: path.to_owned(), url: u.clone() });
                proof {
                    assert(reqs_view(out@) =~= reqs_view(before).push(
                        UploadReqView { index: i as int, path: path@, url: u@ },
                    ));
                    assert(reqs_view(out@) =~= uploads_model(esv.take(i + 1), path@));
                }
            },
            None => {
                proof {
                    assert(reqs_view(out@) =~= uploads_model(esv.take(i + 1), path@));
                }
            },
        }
        i = i + 1;
    }
    proof {
        assert(esv.take(n as int) =~= esv);
    }
    out
}

/// The batch positions whose submissions failed, given one success flag per
/// submission, in order: the entries to roll back and retry next cycle.
pub open spec fn failed_model(rs: Seq<UploadReqView>, ok: Seq<bool>) -> Seq<int>
    decreases rs.len(),
{
    if rs.len() == 0 {
        Seq::empty()
    } else {
        let pre = failed_model(rs.drop_last(), ok.drop_last());
        if ok.last() {
            pre
        } else {
            pre.push(rs.last().index)
        }
    }
}

/// Collects, from one success flag per submission, the batch positions whose
/// delivery failed. Positions absent from the result are presumed delivered.
pub fn failed_indices(reqs: &Vec<UploadRequest>, ok: &Vec<bool>) -> (r: Vec<usize>)
    requires
        reqs@.len() == ok@.len(),
    ensures
        r@.map_values(|x: usize| x as int) == failed_model(reqs_view(reqs@), ok@),
{
    let mut out: Vec<usize> = Vec::new();
    let n = reqs.len();
    let mut i: usize = 0;
    proof {
        assert(reqs_view(reqs@).take(0) =~= Seq::<UploadReqView>::empty());
        assert(out@.map_values(|x: usize| x as int) =~= failed_model(
            reqs_view(reqs@).take(0),
            ok@.take(0),
        ));
    }
    while i < n
        invariant
            0 <= i <= n,
            n == reqs@.len(),
            n == ok@.len(),
            out@.map_values(|x: usize| x as int) == failed_model(
                reqs_view(reqs@).take(i as int),
                ok@.take(i as int),
            ),
        decreases n - i,
    {
        let ghost rv = reqs_view(reqs@);
        proof {
            assert(rv.take(i + 1).drop_last() =~= rv.take(i as int));
            assert(ok@.take(i + 1).drop_last() =~= ok@.take(i as int));
            assert(rv.take(i + 1).last() == rv[i as int]);
            assert(ok@.take(i + 1).last() == ok@[i as int]);
            assert(rv[i as int] == reqs@[i as int]@);
        }
        if !ok[i] {
            let ghost before = out@;
            out.push(reqs[i].index);
            proof {
                assert(out@.map_values(|x: usize| x as int) =~= before.map_values(
                    |x: usize| x as int,
                ).push(reqs@[i as int]@.index));
                assert(out@.map_values(|x: usize| x as int) =~= failed_model(
                    rv.take(i + 1),
                    ok@.take(i + 1),
                ));
            }
        } else {
            proof {
                assert(out@.map_values(|x: usize| x as int) =~= failed_model(
                    rv.take(i + 1),
                    ok@.take(i + 1),
                ));
            }
        }
        i = i + 1;
    }
    proof {
        assert(reqs_view(reqs@).take(n as int) =~= reqs_view(reqs@));
        assert(ok@.take(n as int) =~= ok@);
    }
    out
}

/// What delivery reported for one batch: the one batch e-mail was sent or it
/// failed; the whole dispatch failed before any entry was attempted; or each
/// submission came back with its own success flag.
pub enum BatchOutcome {
    EmailSent,
    EmailFailed,
    ChannelFailed,
    Uploads(Vec<bool>),
}

/// The batch positions to roll back for a delivery outcome: none after a
/// sent e-mail, the whole batch after a failed e-mail or a dispatch that
/// failed as a whole, exactly the failed submissions' entries otherwise.
pub open spec fn rollback_model(n: int, reqs: Seq<UploadReqView>, o: BatchOutcome) -> Seq<int> {
    match o {
        BatchOutcome::EmailSent => Seq::empty(),
        BatchOutcome::EmailFailed => Seq::new(n as nat, |i: int| i),
        BatchOutcome::ChannelFailed => Seq::new(n as nat, |i: int| i),
        BatchOutcome::Uploads(flags) => failed_model(reqs, flags@),
    }
}

/// Every position of a batch of `n` entries, in order.
fn all_indices(n: usize) -> (r: Vec<usize>)
    ensures
        r@.map_values(|x: usize| x as int) == Seq::new(n as nat, |i: int| i),
{
    let mut out: Vec<usize> = Vec::new();
    let mut i: usize = 0;
    proof {
        assert(out@.map_values(|x: usize| x as int) =~= Seq::new(0nat, |k: int| k));
    }
    while i < n
        invariant
            0 <= i <= n,
            out@.map_values(|x: usize| x as int) == Seq::new(i as nat, |k: int| k),
        decreases n - i,
    {
        let ghost before = out@;
        out.push(i);
        proof {
            assert(before.len() == i as int) by {
                assert(before.map_values(|x: usize| x as int).len() == before.len());
            }
            assert(out@ == before.push(i));
            assert forall|k: int| 0 <= k < i + 1 implies #[trigger] out@[k] as int == k by {
                if k < i {
                    assert(out@[k] == before[k]);
                    assert(before.map_values(|x: usize| x as int)[k] == before[k] as int);
                    assert(before.map_values(|x: usize| x as int)[k] == Seq::new(
                        i as nat,
                        |k2: int| k2,
                    )[k]);
                } else {
                    assert(out@[k] == i);
                }
            }
            assert(out@.map_values(|x: usize| x as int) =~= Seq::new((i + 1) as nat, |k: int| k));
        }
        i = i + 1;
    }
    out
}

/// The reconciliation decision for one batch, from what delivery reported:
/// the positions whose entries are rolled back and retried next cycle. A
/// sent e-mail covers its whole batch, so nothing is rolled back; a failed
/// e-mail or a channel-fatal dispatch fails the whole batch; per-entry
/// submission results roll back exactly the failed entries.
pub fn rollback_indices(n_items: usize, reqs: &Vec<UploadRequest>, outcome: &BatchOutcome) -> (r:
    Vec<usize>)
    requires
        (*outcome) matches BatchOutcome::Uploads(flags) ==> flags@.len() == reqs@.len(),
    ensures
        r@.map_values(|x: usize| x as int) == rollback_model(
            n_items as int,
            reqs_view(reqs@),
            *outcome,
        ),
{
    match outcome {
        BatchOutcome::EmailSent => {
            let out: Vec<usize> = Vec::new();
            proof {
                assert(out@.map_values(|x: usize| x as int) =~= Seq::<int>::empty());
            }
            out
        },
        BatchOutcome::EmailFailed => all_indices(n_items),
        BatchOutcome::ChannelFailed => all_indices(n_items),
        BatchOutcome::Uploads(flags) => failed_indices(reqs, flags),
    }
}

// ---------------------------------------------------------------------------
// The distributor
// ---------------------------------------------------------------------------
/// Why a whole batch could not be dispatched to its channel.
#[derive(Debug, Clone, PartialEq, Eq)]
pub enum DistributeError {
    /// The remote-upload channel was asked for but is not configured; fatal
    /// for the batch.
    ChannelNotConfigured,
    /// Login to the remote channel failed; fatal for the batch this cycle,
    /// not retried within it.
    ChannelAuthFailure,
}

/// What the caller must do to deliver one batch to one subscriber.
pub enum DeliveryPlan {
    Email(EmailMessage),
    Upload(Vec<UploadRequest>),
}

/// What the remote-upload client session is created from: the configured
/// credentials, a fixed retry count, and the optional proxy.
pub struct UploadClientOptions {
    pub username: String,
    pub password: String,
    pub retry_times: u64,
    pub proxy: Option<String>,
}

/// Distribution-side state: the sender address for the mail channel, the
/// remote-upload account, and whether the remote session is already
/// established. The session is created lazily, once, on first use; the
/// network calls themselves are I/O and live with the caller.
pub struct Distributor {
    pub from_email: String,
    pub pikpak: Option<PikpakConfig>,
    pub proxy: Option<String>,
    pub pikpak_ready: bool,
}

/// The view of an optional remote-upload account, field by field.
pub open spec fn pikpak_cfg_view(o: Option<PikpakConfig>) -> Option<
    (Seq<char>, Seq<char>, Seq<char>),
> {
    match o {
        Some(p) => Some((p.username@, p.password@, p.path@)),
        None => None,
    }
}

impl Distributor {
    pub fn new(config: &Config) -> (d: Distributor)
        ensures
            d.from_email@ == config.send_email@,
            pikpak_cfg_view(d.pikpak) == pikpak_cfg_view(config.pikpak),
            d.proxy.deep_view() == config.proxy.deep_view(),
            !d.pikpak_ready,
    {
        Distributor {
            from_email: config.send_email.clone(),
            pikpak: match &config.pikpak {
                Some(p) => Some(p.duplicate()),
                None => None,
            },
            proxy: match &config.proxy {
                Some(p) => Some(p.clone()),
                None => None,
            },
            pikpak_ready: false,
        }
    }

    /// The options the remote-upload client session is created with: the
    /// configured credentials, three retries, the configured proxy. Fails
    /// with `ChannelNotConfigured` exactly when no remote-upload account is
    /// configured. The login call itself is I/O and lives with the caller;
    /// `mark_pikpak_ready` records that it succeeded.
    pub fn init_pikpak_client(&self) -> (r: Result<UploadClientOptions, DistributeError>)
        ensures
            match r {
                Ok(o) => {
                    &&& self.pikpak is Some
                    &&& o.username@ == self.pikpak.unwrap().username@
                    &&& o.password@ == self.pikpak.unwrap().password@
                    &&& o.retry_times == 3
                    &&& o.proxy.deep_view() == self.proxy.deep_view()
                },
                Err(e) => self.pikpak is None && e is ChannelNotConfigured,
            },
    {
        match &self.pikpak {
            Some(p) => Ok(
                UploadClientOptions {
                    username: p.username.clone(),
                    password: p.password.clone(),
                    retry_times: 3,
                    proxy: match &self.proxy {
                        Some(x) => Some(x.clone()),
                        None => None,
                    },
                },
            ),
            None => Err(DistributeError::ChannelNotConfigured),
        }
    }

    /// Records that the remote session performed its login.
    pub fn mark_pikpak_ready(&mut self)
        ensures
            final(self).from_email == old(self).from_email,
            final(self).pikpak == old(self).pikpak,
            final(self).proxy == old(self).proxy,
            final(self).pikpak_ready,
    {
        self.pikpak_ready = true;
    }

    /// Dispatches one surviving batch to one subscriber: for the mail channel
    /// the one batch message, exactly as composed; for the remote-upload
    /// channel one submission per eligible entry, or `ChannelNotConfigured`
    /// exactly when no remote-upload account is configured.
    pub fn notify(&self, channel: &FeedDoc, sub: &SubscriberSrc) -> (r: Result<
        DeliveryPlan,
        DistributeError,
    >)
        ensures
            match sub@ {
                SubscriberSrcView::Email(addr) => (r matches Ok(DeliveryPlan::Email(m))
                    && m.from@ == self.from_email@ && m.to@ == addr && m.subject@ == subject_of(
                    channel@,
                ) && m.text@ == channel@.link && m.html@ == channel_html(channel@)),
                SubscriberSrcView::PikPak => match r {
                    Ok(p) => self.pikpak is Some && (p matches DeliveryPlan::Upload(reqs)
                        && reqs_view(reqs@) == uploads_model(
                        channel@.items,
                        self.pikpak.unwrap().path@,
                    )),
                    Err(e) => self.pikpak is None && e is ChannelNotConfigured,
                },
            },
    {
        match sub {
            SubscriberSrc::Email(addr) => Ok(
                DeliveryPlan::Email(
                    compose_email(self.from_email.as_str(), addr.as_str(), channel),
                ),
            ),
            SubscriberSrc::PikPak => match &self.pikpak {
                Some(p) => Ok(DeliveryPlan::Upload(build_uploads(channel, p.path.as_str()))),
                None => Err(DistributeError::ChannelNotConfigured),
            },
        }
    }
}

// ---------------------------------------------------------------------------
// Laws
// ---------------------------------------------------------------------------
/// Partial-failure isolation, dispatch side: the plan for a batch holds one
/// submission for every entry that carries a torrent reference and an
/// enclosure URL — no entry's failure can keep another out of the plan — and
/// nothing else: every submission points back at an eligible entry, with that
/// entry's enclosure URL and the configured path.
pub proof fn lemma_uploads_attempt_all(es: Seq<EntryView>, path: Seq<char>)
    ensures
        forall|j: int|
            0 <= j < es.len() && upload_wanted(#[trigger] es[j]) ==> exists|q: int|
                0 <= q < uploads_model(es, path).len() && #[trigger] uploads_model(es, path)[q]
                    == (UploadReqView { index: j, path: path, url: es[j].enclosure_url.unwrap() }),
        forall|q: int|
            0 <= q < uploads_model(es, path).len() ==> {
                let req = #[trigger] uploads_model(es, path)[q];
                &&& 0 <= req.index < es.len()
                &&& upload_wanted(es[req.index])
                &&& req.path == path
                &&& req.url == es[req.index].enclosure_url.unwrap()
            },
    decreases es.len(),
{
    if es.len() > 0 {
        lemma_uploads_attempt_all(es.drop_last(), path);
        let pre = uploads_model(es.drop_last(), path);
        let full = uploads_model(es, path);
        assert forall|j: int| 0 <= j < es.len() && upload_wanted(#[trigger] es[j]) implies exists|
            q: int,
        |
            0 <= q < full.len() && #[trigger] full[q] == (UploadReqView {
                index: j,
                path: path,
                url: es[j].enclosure_url.unwrap(),
            }) by {
            if j < es.len() - 1 {
                assert(es.drop_last()[j] == es[j]);
                let q = choose|q: int|
                    0 <= q < pre.len() && #[trigger] pre[q] == (UploadReqView {
                        index: j,
                        path: path,
                        url: es.drop_last()[j].enclosure_url.unwrap(),
                    });
                assert(full[q] == pre[q]);
            } else {
                assert(full[full.len() - 1] == (UploadReqView {
                    index: j,
                    path: path,
                    url: es[j].enclosure_url.unwrap(),
                }));
            }
        }
        assert forall|q: int| 0 <= q < full.len() implies {
            let req = #[trigger] full[q];
            &&& 0 <= req.index < es.len()
            &&& upload_wanted(es[req.index])
            &&& req.path == path
            &&& req.url == es[req.index].enclosure_url.unwrap()
        } by {
            if q < pre.len() {
                assert(full[q] == pre[q]);
                assert(es.drop_last()[pre[q].index] == es[pre[q].index]);
            }
        }
    }
}

/// The empty batch produces no submissions: with `kept_model` empty nothing
/// is dispatched and nothing can fail, so nothing is ever rolled back.
pub proof fn lemma_empty_batch_no_uploads(path: Seq<char>)
    ensures
        uploads_model(Seq::<EntryView>::empty(), path) == Seq::<UploadReqView>::empty(),
{
}

} // verus!
