use crate::feeds::Feed;
use vstd::prelude::*;

verus! {

/// Spec-level shape of a subscriber source: the e-mail address is seen as a
/// character sequence, the remote-upload channel carries no data.
pub enum SubscriberSrcView {
    Email(Seq<char>),
    PikPak,
}

/// One delivery channel: electronic mail to a fixed address, or the
/// remote-upload (cloud drive) channel.
#[derive(Debug, Clone)]
pub enum SubscriberSrc {
    Email(String),
    PikPak,
}

impl View for SubscriberSrc {
    type V = SubscriberSrcView;

    open spec fn view(&self) -> SubscriberSrcView {
        match self {
            SubscriberSrc::Email(a) => SubscriberSrcView::Email(a@),
            SubscriberSrc::PikPak => SubscriberSrcView::PikPak,
        }
    }
}

impl SubscriberSrc {
    pub fn is_pikpak(&self) -> (r: bool)
        ensures
            r == (self@ is PikPak),
    {
        matches!(self, SubscriberSrc::PikPak)
    }

    pub fn is_email(&self) -> (r: bool)
        ensures
            r == (self@ is Email),
    {
        matches!(self, SubscriberSrc::Email(_))
    }

    /// A copy whose view is provably the same as the original's.
    pub fn duplicate(&self) -> (r: SubscriberSrc)
        ensures
            r@ == self@,
    {
        match self {
            SubscriberSrc::Email(a) => SubscriberSrc::Email(a.clone()),
            SubscriberSrc::PikPak => SubscriberSrc::PikPak,
        }
    }
}

/// A subscription: one delivery channel bound to the feeds it watches.
#[derive(Debug, Clone)]
pub struct Subscriber {
    pub src: SubscriberSrc,
    pub feeds: Vec<Feed>,
}

} // verus!
