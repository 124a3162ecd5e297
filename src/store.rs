use vstd::prelude::*;
use crate::model::{opt_text, Episode, EpisodeView, Feed, FeedView, Timestamp, feeds_view};

verus! {

// ---- schema and statements ----

/// Creates the feeds table unless it exists.
pub const FEEDS_TABLE_SQL: &'static str = "CREATE TABLE IF NOT EXISTS feeds (
            id INTEGER PRIMARY KEY,
            title TEXT,
            subscribed BOOLEAN,
            feed_url TEXT,
            html_url TEXT
        )";

/// Creates the episodes table unless it exists.
pub const EPISODES_TABLE_SQL: &'static str = "CREATE TABLE IF NOT EXISTS episodes (
            id INTEGER PRIMARY KEY,
            title TEXT,
            played BOOLEAN,
            feed_id INTEGER NOT NULL,
            published_at TEXT,
            updated_at TEXT,
            html_url TEXT,
            overcast_url TEXT,
            mp3_url TEXT,
            progress INTEGER,
            user_deleted BOOLEAN,
            FOREIGN KEY(feed_id) REFERENCES feeds(id)
        )";

/// Writes a feed row, replacing the row with the same id.
pub const UPSERT_FEED_SQL: &'static str = "INSERT OR REPLACE INTO feeds(id, title, subscribed, feed_url, html_url)
            VALUES (?, ?, ?, ?, ?)";

/// Writes an episode row, replacing the row with the same id.
pub const UPSERT_EPISODE_SQL: &'static str = "INSERT OR REPLACE INTO episodes(
                    id, title, played, feed_id, published_at, updated_at, html_url, overcast_url, mp3_url, progress, user_deleted
                ) VALUES (?, ?, ?, ?, ?, ?, ?, ?, ?, ?, ?)";

/// The statements that create the schema, feeds first; each leaves existing tables alone.
pub fn schema_statements() -> (r: Vec<String>)
    ensures
        r@.len() == 2,
        r@[0]@ == FEEDS_TABLE_SQL@,
        r@[1]@ == EPISODES_TABLE_SQL@,
{
    let mut v: Vec<String> = Vec::new();
    v.push(String::from_str(FEEDS_TABLE_SQL));
    v.push(String::from_str(EPISODES_TABLE_SQL));
    v
}

/// A value bound to a statement parameter.
#[derive(Debug, Clone, PartialEq, Eq)]
pub enum SqlValue {
    Null,
    Integer(i64),
    Text(String),
}

pub enum SqlValueView {
    Null,
    Integer(i64),
    Text(Seq<char>),
}

impl View for SqlValue {
    type V = SqlValueView;

    open spec fn view(&self) -> SqlValueView {
        match self {
            SqlValue::Null => SqlValueView::Null,
            SqlValue::Integer(i) => SqlValueView::Integer(*i),
            SqlValue::Text(s) => SqlValueView::Text(s@),
        }
    }
}

/// A statement with its parameters, in order.
#[derive(Debug, Clone, PartialEq, Eq)]
pub struct Statement {
    pub sql: String,
    pub params: Vec<SqlValue>,
}

// ---- rows ----

/// A row of the feeds table.
#[derive(Debug, Clone, PartialEq, Eq)]
pub struct FeedRow {
    pub id: String,
    pub title: String,
    pub subscribed: bool,
    pub feed_url: Option<String>,
    pub html_url: Option<String>,
}

/// A row of the episodes table; `feed_id` is the id of the owning feed.
#[derive(Debug, Clone, PartialEq, Eq)]
pub struct EpisodeRow {
    pub id: String,
    pub title: String,
    pub played: bool,
    pub feed_id: String,
    pub published_at: Option<String>,
    pub updated_at: Option<String>,
    pub html_url: Option<String>,
    pub overcast_url: Option<String>,
    pub mp3_url: Option<String>,
    pub progress: Option<i64>,
    pub user_deleted: bool,
}

pub struct FeedRowView {
    pub id: Seq<char>,
    pub title: Seq<char>,
    pub subscribed: bool,
    pub feed_url: Option<Seq<char>>,
    pub html_url: Option<Seq<char>>,
}

pub struct EpisodeRowView {
    pub id: Seq<char>,
    pub title: Seq<char>,
    pub played: bool,
    pub feed_id: Seq<char>,
    pub published_at: Option<Seq<char>>,
    pub updated_at: Option<Seq<char>>,
    pub html_url: Option<Seq<char>>,
    pub overcast_url: Option<Seq<char>>,
    pub mp3_url: Option<Seq<char>>,
    pub progress: Option<i64>,
    pub user_deleted: bool,
}

impl View for FeedRow {
    type V = FeedRowView;

    open spec fn view(&self) -> FeedRowView {
        FeedRowView {
            id: self.id@,
            title: self.title@,
            subscribed: self.subscribed,
            feed_url: opt_text(self.feed_url),
            html_url: opt_text(self.html_url),
        }
    }
}

impl View for EpisodeRow {
    type V = EpisodeRowView;

    open spec fn view(&self) -> EpisodeRowView {
        EpisodeRowView {
            id: self.id@,
            title: self.title@,
            played: self.played,
            feed_id: self.feed_id@,
            published_at: opt_text(self.published_at),
            updated_at: opt_text(self.updated_at),
            html_url: opt_text(self.html_url),
            overcast_url: opt_text(self.overcast_url),
            mp3_url: opt_text(self.mp3_url),
            progress: self.progress,
            user_deleted: self.user_deleted,
        }
    }
}

/// One insert-or-replace, keyed by the row's id.
#[derive(Debug, Clone, PartialEq, Eq)]
pub enum RowWrite {
    Feed(FeedRow),
    Episode(EpisodeRow),
}

pub enum WriteView {
    Feed(FeedRowView),
    Episode(EpisodeRowView),
}

impl View for RowWrite {
    type V = WriteView;

    open spec fn view(&self) -> WriteView {
        match self {
            RowWrite::Feed(r) => WriteView::Feed(r@),
            RowWrite::Episode(r) => WriteView::Episode(r@),
        }
    }
}

pub open spec fn writes_view(s: Seq<RowWrite>) -> Seq<WriteView> {
    s.map_values(|w: RowWrite| w@)
}

// ---- from feeds to rows ----

/// The stored text of a timestamp: chrono's `%F %T%.f` rendering of it
/// (`YYYY-MM-DD HH:MM:SS` and the fraction of a second), or `None` where the
/// fields name no date and time. For years 0 to 9999, the only ones that
/// RFC 3339 texts give, these texts sort as the timestamps do.
pub uninterp spec fn stored_time_text_of(t: Timestamp) -> Option<Seq<char>>;

/// Relies on chrono's `NaiveDate::from_ymd_opt` and `and_hms_nano_opt`, which
/// reject fields out of range, and on `NaiveDateTime::format("%F %T%.f")`, the
/// text that rusqlite stores for a `NaiveDateTime`.
#[verifier::external_body]
fn stored_time_text(t: Timestamp) -> (r: Option<String>)
    ensures
        opt_text(r) == stored_time_text_of(t),
{
    chrono::NaiveDate::from_ymd_opt(t.year, t.month, t.day)
        .and_then(|d| d.and_hms_nano_opt(t.hour, t.minute, t.second, t.nanosecond))
        .map(|dt| dt.format("%F %T%.f").to_string())
}

pub open spec fn opt_stamp_text(t: Option<Timestamp>) -> Option<Seq<char>> {
    match t {
        Some(t) => stored_time_text_of(t),
        None => None,
    }
}

pub open spec fn feed_row_of(f: FeedView) -> FeedRowView {
    FeedRowView {
        id: f.id,
        title: f.title,
        subscribed: f.subscribed,
        feed_url: f.feed_url,
        html_url: f.html_url,
    }
}

pub open spec fn episode_row_of(e: EpisodeView, feed_id: Seq<char>) -> EpisodeRowView {
    EpisodeRowView {
        id: e.id,
        title: e.title,
        played: e.played,
        feed_id: feed_id,
        published_at: opt_stamp_text(e.published_at),
        updated_at: opt_stamp_text(e.updated_at),
        html_url: e.html_url,
        overcast_url: e.overcast_url,
        mp3_url: e.mp3_url,
        progress: e.progress,
        user_deleted: e.user_deleted,
    }
}

/// The writes for the episodes of a feed, in order.
pub open spec fn episode_writes(f: FeedView) -> Seq<WriteView> {
    f.episodes.map_values(|e: EpisodeView| WriteView::Episode(episode_row_of(e, f.id)))
}

/// The writes for one feed: its row, then the rows of its episodes.
pub open spec fn feed_writes(f: FeedView) -> Seq<WriteView> {
    seq![WriteView::Feed(feed_row_of(f))] + episode_writes(f)
}

/// The writes of an upsert of `feeds`, feed by feed.
pub open spec fn plan_of(feeds: Seq<FeedView>) -> Seq<WriteView>
    decreases feeds.len(),
{
    if feeds.len() == 0 {
        Seq::empty()
    } else {
        plan_of(feeds.drop_last()) + feed_writes(feeds.last())
    }
}

fn clone_text(o: &Option<String>) -> (r: Option<String>)
    ensures
        r == *o,
{
    match o {
        Some(s) => Some(s.clone()),
        None => None,
    }
}

fn stamp_text(t: Option<Timestamp>) -> (r: Option<String>)
    ensures
        opt_text(r) == opt_stamp_text(t),
{
    match t {
        Some(t) => stored_time_text(t),
        None => None,
    }
}

/// The row that stores a feed.
pub fn feed_row(f: &Feed) -> (r: FeedRow)
    ensures
        r@ == feed_row_of(f@),
{
    FeedRow {
        id: f.id.clone(),
        title: f.title.clone(),
        subscribed: f.subscribed,
        feed_url: clone_text(&f.feed_url),
        html_url: clone_text(&f.html_url),
    }
}

/// The row that stores an episode of the feed with id `feed_id`.
pub fn episode_row(e: &Episode, feed_id: &String) -> (r: EpisodeRow)
    ensures
        r@ == episode_row_of(e@, feed_id@),
{
    EpisodeRow {
        id: e.id.clone(),
        title: e.title.clone(),
        played: e.played,
        feed_id: feed_id.clone(),
        published_at: stamp_text(e.published_at),
        updated_at: stamp_text(e.updated_at),
        html_url: clone_text(&e.html_url),
        overcast_url: clone_text(&e.overcast_url),
        mp3_url: clone_text(&e.mp3_url),
        progress: e.progress,
        user_deleted: e.user_deleted,
    }
}

/// The writes of an upsert of `feeds`: each feed's row, followed at once by the
/// rows of its episodes, before the next feed.
pub fn upsert_plan(feeds: &Vec<Feed>) -> (r: Vec<RowWrite>)
    ensures
        writes_view(r@) == plan_of(feeds_view(feeds@)),
{
    let ghost fv = feeds_view(feeds@);
    let mut out: Vec<RowWrite> = Vec::new();
    let mut i: usize = 0;
    assert(fv.take(0) =~= Seq::<FeedView>::empty());
    while i < feeds.len()
        invariant
            fv == feeds_view(feeds@),
            i <= feeds@.len(),
            writes_view(out@) == plan_of(fv.take(i as int)),
        decreases feeds@.len() - i,
    {
        let f = &feeds[i];
        assert(fv[i as int] == f@);
        let ghost start = writes_view(out@);
        out.push(RowWrite::Feed(feed_row(f)));
        assert(writes_view(out@) =~= start + seq![WriteView::Feed(feed_row_of(f@))]);
        let mut j: usize = 0;
        while j < f.episodes.len()
            invariant
                fv == feeds_view(feeds@),
                i < feeds@.len(),
                f == &feeds@[i as int],
                j <= f.episodes@.len(),
                writes_view(out@) == start + seq![WriteView::Feed(feed_row_of(f@))]
                    + episode_writes(f@).take(j as int),
            decreases f.episodes@.len() - j,
        {
            let ghost before = writes_view(out@);
            let e = &f.episodes[j];
            assert(f@.episodes[j as int] == e@);
            out.push(RowWrite::Episode(episode_row(e, &f.id)));
            assert(episode_writes(f@).take(j + 1) =~= episode_writes(f@).take(j as int).push(
                WriteView::Episode(episode_row_of(e@, f@.id)),
            ));
            assert(writes_view(out@) =~= before.push(
                WriteView::Episode(episode_row_of(e@, f@.id)),
            ));
            j += 1;
        }
        assert(episode_writes(f@).take(j as int) =~= episode_writes(f@));
        assert(fv.take(i + 1).drop_last() =~= fv.take(i as int));
        assert(writes_view(out@) =~= plan_of(fv.take(i + 1)));
        i += 1;
    }
    assert(fv.take(i as int) =~= fv);
    out
}

// ---- statements ----

pub open spec fn text_or_null(o: Option<Seq<char>>) -> SqlValueView {
    match o {
        Some(s) => SqlValueView::Text(s),
        None => SqlValueView::Null,
    }
}

pub open spec fn integer_or_null(o: Option<i64>) -> SqlValueView {
    match o {
        Some(i) => SqlValueView::Integer(i),
        None => SqlValueView::Null,
    }
}

/// A flag is stored as 1 or 0.
pub open spec fn flag_value(b: bool) -> SqlValueView {
    SqlValueView::Integer(if b { 1 } else { 0 })
}

/// The SQL text and parameters that perform a write.
pub open spec fn statement_of(w: WriteView) -> (Seq<char>, Seq<SqlValueView>) {
    match w {
        WriteView::Feed(r) => (
            UPSERT_FEED_SQL@,
            seq![
                SqlValueView::Text(r.id),
                SqlValueView::Text(r.title),
                flag_value(r.subscribed),
                text_or_null(r.feed_url),
                text_or_null(r.html_url),
            ],
        ),
        WriteView::Episode(r) => (
            UPSERT_EPISODE_SQL@,
            seq![
                SqlValueView::Text(r.id),
                SqlValueView::Text(r.title),
                flag_value(r.played),
                SqlValueView::Text(r.feed_id),
                text_or_null(r.published_at),
                text_or_null(r.updated_at),
                text_or_null(r.html_url),
                text_or_null(r.overcast_url),
                text_or_null(r.mp3_url),
                integer_or_null(r.progress),
                flag_value(r.user_deleted),
            ],
        ),
    }
}

fn text_value(o: &Option<String>) -> (r: SqlValue)
    ensures
        r@ == text_or_null(opt_text(*o)),
{
    match o {
        Some(s) => SqlValue::Text(s.clone()),
        None => SqlValue::Null,
    }
}

fn flag_sql(b: bool) -> (r: SqlValue)
    ensures
        r@ == flag_value(b),
{
    SqlValue::Integer(if b { 1 } else { 0 })
}

/// The statement that performs a write.
pub fn statement(w: &RowWrite) -> (r: Statement)
    ensures
        (r.sql@, r.params@.map_values(|v: SqlValue| v@)) == statement_of(w@),
{
    match w {
        RowWrite::Feed(f) => {
            let mut p: Vec<SqlValue> = Vec::new();
            p.push(SqlValue::Text(f.id.clone()));
            p.push(SqlValue::Text(f.title.clone()));
            p.push(flag_sql(f.subscribed));
            p.push(text_value(&f.feed_url));
            p.push(text_value(&f.html_url));
            let r = Statement { sql: String::from_str(UPSERT_FEED_SQL), params: p };
            assert(r.params@.map_values(|v: SqlValue| v@) =~= statement_of(w@).1);
            r
        },
        RowWrite::Episode(e) => {
            let mut p: Vec<SqlValue> = Vec::new();
            p.push(SqlValue::Text(e.id.clone()));
            p.push(SqlValue::Text(e.title.clone()));
            p.push(flag_sql(e.played));
            p.push(SqlValue::Text(e.feed_id.clone()));
            p.push(text_value(&e.published_at));
            p.push(text_value(&e.updated_at));
            p.push(text_value(&e.html_url));
            p.push(text_value(&e.overcast_url));
            p.push(text_value(&e.mp3_url));
            p.push(
                match e.progress {
                    Some(i) => SqlValue::Integer(i),
                    None => SqlValue::Null,
                },
            );
            p.push(flag_sql(e.user_deleted));
            let r = Statement { sql: String::from_str(UPSERT_EPISODE_SQL), params: p };
            assert(r.params@.map_values(|v: SqlValue| v@) =~= statement_of(w@).1);
            r
        },
    }
}

/// The statements of an upsert of `feeds`, in the order they are to run.
pub fn upsert_statements(feeds: &Vec<Feed>) -> (r: Vec<Statement>)
    ensures
        r@.len() == plan_of(feeds_view(feeds@)).len(),
        forall|i: int|
            0 <= i < r@.len() ==> ((#[trigger] r@[i]).sql@, r@[i].params@.map_values(
                |v: SqlValue| v@,
            )) == statement_of(plan_of(feeds_view(feeds@))[i]),
{
    let plan = upsert_plan(feeds);
    let mut out: Vec<Statement> = Vec::new();
    let mut i: usize = 0;
    while i < plan.len()
        invariant
            writes_view(plan@) == plan_of(feeds_view(feeds@)),
            i <= plan@.len(),
            out@.len() == i,
            forall|k: int|
                0 <= k < i ==> ((#[trigger] out@[k]).sql@, out@[k].params@.map_values(
                    |v: SqlValue| v@,
                )) == statement_of(plan_of(feeds_view(feeds@))[k]),
        decreases plan@.len() - i,
    {
        assert(writes_view(plan@)[i as int] == plan@[i as int]@);
        out.push(statement(&plan[i]));
        i += 1;
    }
    out
}

// ---- the store, as keyed tables ----

/// The contents of the two tables, each keyed by its primary key, the id text.
/// The SQLite tables key a row by the integer that its id denotes, and refuse
/// an id that denotes none. The two agree where every id is the canonical
/// decimal form of an `i64` (no sign, no leading zero), as the export's ids
/// are; ids such as `"07"` and `"7"` are one row in SQLite and two here.
pub struct StoreModel {
    pub feeds: Map<Seq<char>, FeedRowView>,
    pub episodes: Map<Seq<char>, EpisodeRowView>,
}

/// The store after one insert-or-replace.
pub open spec fn apply_write(s: StoreModel, w: WriteView) -> StoreModel {
    match w {
        WriteView::Feed(r) => StoreModel { feeds: s.feeds.insert(r.id, r), episodes: s.episodes },
        WriteView::Episode(r) => StoreModel {
            feeds: s.feeds,
            episodes: s.episodes.insert(r.id, r),
        },
    }
}

/// The store after a sequence of writes, first to last.
pub open spec fn apply_writes(s: StoreModel, ws: Seq<WriteView>) -> StoreModel
    decreases ws.len(),
{
    if ws.len() == 0 {
        s
    } else {
        apply_write(apply_writes(s, ws.drop_last()), ws.last())
    }
}

/// The store after an upsert of `feeds` on the store `s`.
pub open spec fn upsert_result(s: StoreModel, feeds: Seq<FeedView>) -> StoreModel {
    apply_writes(s, plan_of(feeds))
}

/// Every episode row names a feed row that exists.
pub open spec fn no_orphans(s: StoreModel) -> bool {
    forall|k: Seq<char>|
        #[trigger] s.episodes.contains_key(k) ==> s.feeds.contains_key(s.episodes[k].feed_id)
}

pub open spec fn empty_store() -> StoreModel {
    StoreModel { feeds: Map::empty(), episodes: Map::empty() }
}

proof fn lemma_apply_concat(s: StoreModel, a: Seq<WriteView>, b: Seq<WriteView>)
    ensures
        apply_writes(s, a + b) == apply_writes(apply_writes(s, a), b),
    decreases b.len(),
{
    if b.len() == 0 {
        assert(a + b =~= a);
    } else {
        lemma_apply_concat(s, a, b.drop_last());
        assert((a + b).drop_last() =~= a + b.drop_last());
        assert((a + b).last() == b.last());
    }
}

/// What a sequence of writes leaves in a store: the rows it wrote, over the
/// rows of the store that it did not write.
proof fn lemma_apply_overlay(s: StoreModel, ws: Seq<WriteView>)
    ensures
        apply_writes(s, ws).feeds == s.feeds.union_prefer_right(
            apply_writes(empty_store(), ws).feeds,
        ),
        apply_writes(s, ws).episodes == s.episodes.union_prefer_right(
            apply_writes(empty_store(), ws).episodes,
        ),
    decreases ws.len(),
{
    if ws.len() == 0 {
        assert(s.feeds.union_prefer_right(Map::empty()) =~= s.feeds);
        assert(s.episodes.union_prefer_right(Map::empty()) =~= s.episodes);
    } else {
        lemma_apply_overlay(s, ws.drop_last());
        let t = apply_writes(s, ws.drop_last());
        let u = apply_writes(empty_store(), ws.drop_last());
        match ws.last() {
            WriteView::Feed(r) => {
                assert(t.feeds.insert(r.id, r) =~= s.feeds.union_prefer_right(
                    u.feeds.insert(r.id, r),
                ));
            },
            WriteView::Episode(r) => {
                assert(t.episodes.insert(r.id, r) =~= s.episodes.union_prefer_right(
                    u.episodes.insert(r.id, r),
                ));
            },
        }
    }
}

/// Applying the same writes a second time changes nothing.
pub proof fn lemma_writes_idempotent(s: StoreModel, ws: Seq<WriteView>)
    ensures
        apply_writes(apply_writes(s, ws), ws) == apply_writes(s, ws),
{
    let once = apply_writes(s, ws);
    let u = apply_writes(empty_store(), ws);
    lemma_apply_overlay(s, ws);
    lemma_apply_overlay(once, ws);
    let twice = apply_writes(once, ws);
    assert(twice.feeds =~= once.feeds);
    assert(twice.episodes =~= once.episodes);
}

/// An upsert of the same feeds run twice leaves the store as one run does.
pub proof fn lemma_upsert_idempotent(s: StoreModel, feeds: Seq<FeedView>)
    ensures
        upsert_result(upsert_result(s, feeds), feeds) == upsert_result(s, feeds),
{
    lemma_writes_idempotent(s, plan_of(feeds));
}

proof fn lemma_episode_writes_keep_feeds(s: StoreModel, f: FeedView, n: int)
    requires
        0 <= n <= episode_writes(f).len(),
    ensures
        apply_writes(s, episode_writes(f).take(n)).feeds == s.feeds,
        no_orphans(s) && s.feeds.contains_key(f.id) ==> no_orphans(
            apply_writes(s, episode_writes(f).take(n)),
        ),
    decreases n,
{
    let ws = episode_writes(f);
    if n == 0 {
        assert(ws.take(0) =~= Seq::<WriteView>::empty());
    } else {
        lemma_episode_writes_keep_feeds(s, f, n - 1);
        assert(ws.take(n).drop_last() =~= ws.take(n - 1));
        assert(ws.take(n).last() == ws[n - 1]);
        let t = apply_writes(s, ws.take(n - 1));
        let r = episode_row_of(f.episodes[n - 1], f.id);
        assert(ws[n - 1] == WriteView::Episode(r));
        if no_orphans(s) && s.feeds.contains_key(f.id) {
            let t2 = apply_writes(s, ws.take(n));
            assert forall|k: Seq<char>| #[trigger]
                t2.episodes.contains_key(k) implies t2.feeds.contains_key(
                t2.episodes[k].feed_id,
            ) by {
                if k != r.id {
                    assert(t.episodes.contains_key(k));
                }
            }
        }
    }
}

/// What one feed's writes do: its row replaces the row with its id, the other
/// feed rows stay, and the store gains no orphan.
proof fn lemma_feed_writes(s: StoreModel, f: FeedView)
    ensures
        apply_writes(s, feed_writes(f)).feeds == s.feeds.insert(f.id, feed_row_of(f)),
        no_orphans(s) ==> no_orphans(apply_writes(s, feed_writes(f))),
{
    let head = seq![WriteView::Feed(feed_row_of(f))];
    let eps = episode_writes(f);
    lemma_apply_concat(s, head, eps);
    assert(head.drop_last() =~= Seq::<WriteView>::empty());
    assert(apply_writes(s, head.drop_last()) == s);
    assert(head.last() == WriteView::Feed(feed_row_of(f)));
    let t = apply_writes(s, head);
    assert(t == apply_write(s, WriteView::Feed(feed_row_of(f))));
    assert(eps.take(eps.len() as int) =~= eps);
    if no_orphans(s) {
        assert(no_orphans(t));
    }
    lemma_episode_writes_keep_feeds(t, f, eps.len() as int);
}

/// After an upsert, the feed row under the id of a feed that no later feed of
/// the batch shares is that feed's row, whatever the store held before.
pub proof fn lemma_upsert_replaces_feed(s: StoreModel, feeds: Seq<FeedView>, i: int)
    requires
        0 <= i < feeds.len(),
        forall|j: int| i < j < feeds.len() ==> (#[trigger] feeds[j]).id != feeds[i].id,
    ensures
        upsert_result(s, feeds).feeds.contains_key(feeds[i].id),
        upsert_result(s, feeds).feeds[feeds[i].id] == feed_row_of(feeds[i]),
        upsert_result(s, feeds).feeds[feeds[i].id].title == feeds[i].title,
    decreases feeds.len(),
{
    let prefix = feeds.drop_last();
    let last = feeds.last();
    lemma_apply_concat(s, plan_of(prefix), feed_writes(last));
    lemma_feed_writes(apply_writes(s, plan_of(prefix)), last);
    if i < feeds.len() - 1 {
        assert forall|j: int| i < j < prefix.len() implies (#[trigger] prefix[j]).id
            != prefix[i].id by {
            assert(prefix[j] == feeds[j]);
        }
        lemma_upsert_replaces_feed(s, prefix, i);
        assert(feeds[feeds.len() - 1].id != feeds[i].id);
    }
}

/// An upsert on a store without orphan episodes leaves none.
pub proof fn lemma_upsert_no_orphans(s: StoreModel, feeds: Seq<FeedView>)
    requires
        no_orphans(s),
    ensures
        no_orphans(upsert_result(s, feeds)),
    decreases feeds.len(),
{
    if feeds.len() > 0 {
        lemma_upsert_no_orphans(s, feeds.drop_last());
        lemma_apply_concat(s, plan_of(feeds.drop_last()), feed_writes(feeds.last()));
        lemma_feed_writes(apply_writes(s, plan_of(feeds.drop_last())), feeds.last());
    }
}

} // verus!
