use vstd::prelude::*;

verus! {

/// A calendar date and wall-clock time, as written in the export (no time zone applied).
#[derive(Debug, Clone, Copy, PartialEq, Eq, Structural)]
pub struct Timestamp {
    pub year: i32,
    pub month: u32,
    pub day: u32,
    pub hour: u32,
    pub minute: u32,
    pub second: u32,
    /// Fraction of the second; a value of a billion or more marks a leap second.
    pub nanosecond: u32,
}

/// The text held by an optional string.
pub open spec fn opt_text(o: Option<String>) -> Option<Seq<char>> {
    match o {
        Some(s) => Some(s@),
        None => None,
    }
}

/// One episode of a feed.
#[derive(Debug, Clone, PartialEq, Eq)]
pub struct Episode {
    pub id: String,
    pub title: String,
    pub played: bool,
    pub published_at: Option<Timestamp>,
    pub updated_at: Option<Timestamp>,
    pub html_url: Option<String>,
    pub overcast_url: Option<String>,
    pub mp3_url: Option<String>,
    pub user_deleted: bool,
    pub progress: Option<i64>,
}

/// What an episode holds, as mathematical values.
pub struct EpisodeView {
    pub id: Seq<char>,
    pub title: Seq<char>,
    pub played: bool,
    pub published_at: Option<Timestamp>,
    pub updated_at: Option<Timestamp>,
    pub html_url: Option<Seq<char>>,
    pub overcast_url: Option<Seq<char>>,
    pub mp3_url: Option<Seq<char>>,
    pub user_deleted: bool,
    pub progress: Option<i64>,
}

impl View for Episode {
    type V = EpisodeView;

    open spec fn view(&self) -> EpisodeView {
        EpisodeView {
            id: self.id@,
            title: self.title@,
            played: self.played,
            published_at: self.published_at,
            updated_at: self.updated_at,
            html_url: opt_text(self.html_url),
            overcast_url: opt_text(self.overcast_url),
            mp3_url: opt_text(self.mp3_url),
            user_deleted: self.user_deleted,
            progress: self.progress,
        }
    }
}

/// A podcast subscription with its episodes, in document order.
#[derive(Debug, Clone, PartialEq, Eq)]
pub struct Feed {
    pub id: String,
    pub title: String,
    pub subscribed: bool,
    pub episodes: Vec<Episode>,
    pub feed_url: Option<String>,
    pub html_url: Option<String>,
}

/// What a feed holds, as mathematical values.
pub struct FeedView {
    pub id: Seq<char>,
    pub title: Seq<char>,
    pub subscribed: bool,
    pub episodes: Seq<EpisodeView>,
    pub feed_url: Option<Seq<char>>,
    pub html_url: Option<Seq<char>>,
}

/// The views of a sequence of episodes.
pub open spec fn episodes_view(s: Seq<Episode>) -> Seq<EpisodeView> {
    s.map_values(|e: Episode| e@)
}

/// The views of a sequence of feeds.
pub open spec fn feeds_view(s: Seq<Feed>) -> Seq<FeedView> {
    s.map_values(|f: Feed| f@)
}

impl View for Feed {
    type V = FeedView;

    open spec fn view(&self) -> FeedView {
        FeedView {
            id: self.id@,
            title: self.title@,
            subscribed: self.subscribed,
            episodes: episodes_view(self.episodes@),
            feed_url: opt_text(self.feed_url),
            html_url: opt_text(self.html_url),
        }
    }
}

} // verus!
