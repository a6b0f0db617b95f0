use vstd::prelude::*;

verus! {

/// A feed subscription target: the URL the feed document is fetched from.
#[derive(Debug, Clone)]
pub struct Feed {
    pub url: String,
}

/// Spec-level shape of a torrent reference attached to a feed entry.
pub struct TorrentView {
    pub link: Option<Seq<char>>,
    pub pub_date: Option<Seq<char>>,
}

/// A torrent reference attached to a feed entry: a page link and the
/// publication date the feed gave for it.
#[derive(Debug, Clone)]
pub struct Torrent {
    pub link: Option<String>,
    pub pub_date: Option<String>,
}

impl View for Torrent {
    type V = TorrentView;

    open spec fn view(&self) -> TorrentView {
        TorrentView { link: self.link.deep_view(), pub_date: self.pub_date.deep_view() }
    }
}

/// Spec-level shape of one feed entry.
pub struct EntryView {
    pub title: Option<Seq<char>>,
    pub guid: Option<Seq<char>>,
    pub description: Option<Seq<char>>,
    pub torrent: Option<TorrentView>,
    pub enclosure_url: Option<Seq<char>>,
}

/// One entry of a feed document, reduced to the plain values the pipeline
/// reads: title, unique identifier, description, the optional torrent
/// reference and the optional enclosure URL of the downloadable resource.
#[derive(Debug, Clone)]
pub struct Entry {
    pub title: Option<String>,
    pub guid: Option<String>,
    pub description: Option<String>,
    pub torrent: Option<Torrent>,
    pub enclosure_url: Option<String>,
}

impl View for Entry {
    type V = EntryView;

    open spec fn view(&self) -> EntryView {
        EntryView {
            title: self.title.deep_view(),
            guid: self.guid.deep_view(),
            description: self.description.deep_view(),
            torrent: match self.torrent {
                Some(t) => Some(t@),
                None => None,
            },
            enclosure_url: self.enclosure_url.deep_view(),
        }
    }
}

/// Spec-level shape of a feed document.
pub struct FeedDocView {
    pub title: Seq<char>,
    pub link: Seq<char>,
    pub description: Seq<char>,
    pub pub_date: Option<Seq<char>>,
    pub items: Seq<EntryView>,
}

/// A parsed feed document: the channel header and its ordered entries.
#[derive(Debug, Clone)]
pub struct FeedDoc {
    pub title: String,
    pub link: String,
    pub description: String,
    pub pub_date: Option<String>,
    pub items: Vec<Entry>,
}

/// The views of a sequence of entries, in order.
pub open spec fn entries_view(items: Seq<Entry>) -> Seq<EntryView> {
    items.map_values(|it: Entry| it@)
}

/// Appending an entry appends its view.
pub proof fn lemma_entries_view_push(s: Seq<Entry>, e: Entry)
    ensures
        entries_view(s.push(e)) == entries_view(s).push(e@),
{
    assert(entries_view(s.push(e)) =~= entries_view(s).push(e@));
}

impl View for FeedDoc {
    type V = FeedDocView;

    open spec fn view(&self) -> FeedDocView {
        FeedDocView {
            title: self.title@,
            link: self.link@,
            description: self.description@,
            pub_date: self.pub_date.deep_view(),
            items: entries_view(self.items@),
        }
    }
}

} // verus!
