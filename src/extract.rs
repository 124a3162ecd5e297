use vstd::prelude::*;
use chrono::{Datelike, Timelike};
use crate::model::{opt_text, Episode, EpisodeView, Feed, FeedView, Timestamp, episodes_view, feeds_view};
use crate::text::chars_of;
use crate::xml::{XmlNode, NodeView, attr_of, attribute, nodes_view, parse_xml, xml_error_text, xml_nodes_of};

verus! {

/// Why an export document could not be turned into feeds.
#[derive(Debug, Clone, PartialEq, Eq)]
pub enum ParseError {
    /// The text is not well-formed XML; the description comes from the XML parser.
    Malformed(String),
    /// No `outline` element with `text="feeds"` holds the feed list.
    MissingFeedList,
}

// ---- what the date and number attributes denote ----

/// The date and wall-clock time written in the RFC 3339 text `s`, in the
/// offset it is written in; `None` where `s` is not RFC 3339.
pub uninterp spec fn rfc3339_local_of(s: Seq<char>) -> Option<Timestamp>;

/// Relies on chrono::DateTime::parse_from_rfc3339, read back through
/// `naive_local` (the local date and time as written, without the offset).
#[verifier::external_body]
fn parse_rfc3339(s: &str) -> (r: Option<Timestamp>)
    ensures
        r == rfc3339_local_of(s@),
{
    chrono::DateTime::parse_from_rfc3339(s).ok().map(|d| d.naive_local()).map(|t| Timestamp {
        year: t.year(),
        month: t.month(),
        day: t.day(),
        hour: t.hour(),
        minute: t.minute(),
        second: t.second(),
        nanosecond: t.nanosecond(),
    })
}

pub open spec fn is_digit(c: char) -> bool {
    '0' <= c && c <= '9'
}

pub open spec fn all_digits(s: Seq<char>) -> bool {
    s.len() > 0 && forall|i: int| 0 <= i < s.len() ==> is_digit(#[trigger] s[i])
}

/// The value of a string of decimal digits.
pub open spec fn digits_value(s: Seq<char>) -> int
    decreases s.len(),
{
    if s.len() == 0 {
        0
    } else {
        digits_value(s.drop_last()) * 10 + (s.last() as int - '0' as int)
    }
}

/// The integer written in `s`: an optional `+` or `-` and one or more decimal digits.
pub open spec fn signed_decimal(s: Seq<char>) -> Option<int> {
    if s.len() > 0 && (s[0] == '+' || s[0] == '-') {
        if all_digits(s.drop_first()) {
            if s[0] == '-' {
                Some(-digits_value(s.drop_first()))
            } else {
                Some(digits_value(s.drop_first()))
            }
        } else {
            None
        }
    } else if all_digits(s) {
        Some(digits_value(s))
    } else {
        None
    }
}

/// The `i64` written in `s`; `None` where `s` is no decimal integer or its value
/// does not fit.
pub open spec fn i64_of_text(s: Seq<char>) -> Option<i64> {
    match signed_decimal(s) {
        Some(v) => if i64::MIN <= v <= i64::MAX {
            Some(v as i64)
        } else {
            None
        },
        None => None,
    }
}

/// Past this bound the digits read so far are no longer tracked: the value is
/// out of range for an `i64` whatever follows.
pub const DIGITS_CAP: u128 = 9223372036854775809;

pub open spec fn capped(x: int) -> int {
    if x < DIGITS_CAP as int {
        x
    } else {
        DIGITS_CAP as int
    }
}

/// Reads the `i64` written in `s`: an optional `+` or `-`, then one or more
/// ASCII decimal digits whose value fits.
pub fn parse_i64(s: &str) -> (r: Option<i64>)
    ensures
        r == i64_of_text(s@),
{
    let cs = chars_of(s);
    let n: usize = cs.len();
    if n == 0 {
        return None;
    }
    let signed = cs[0] == '-' || cs[0] == '+';
    let start: usize = if signed { 1 } else { 0 };
    if start == n {
        assert(!all_digits(s@.drop_first()));
        return None;
    }
    let mut acc: u128 = 0;
    let mut i: usize = start;
    assert(cs@.subrange(start as int, start as int) =~= Seq::<char>::empty());
    while i < n
        invariant
            cs@ == s@,
            n == cs@.len(),
            start <= i <= n,
            start < n,
            start == (if signed { 1usize } else { 0usize }),
            signed == (s@[0] == '-' || s@[0] == '+'),
            forall|k: int| start <= k < i ==> is_digit(#[trigger] cs@[k]),
            acc as int == capped(digits_value(cs@.subrange(start as int, i as int))),
        decreases n - i,
    {
        let c = cs[i];
        if !('0' <= c && c <= '9') {
            proof {
                let d = cs@.subrange(start as int, n as int);
                assert(d[i - start] == c);
                assert(!all_digits(d));
                if signed {
                    assert(d =~= s@.drop_first());
                } else {
                    assert(d =~= s@);
                }
            }
            return None;
        }
        let v: u128 = (c as u32 - '0' as u32) as u128;
        let ghost prev = digits_value(cs@.subrange(start as int, i as int));
        proof {
            let next = cs@.subrange(start as int, i + 1);
            assert(next.drop_last() =~= cs@.subrange(start as int, i as int));
            assert(next.last() == c);
            assert(digits_value(next) == prev * 10 + v);
            if prev >= DIGITS_CAP as int {
                assert(prev * 10 + v >= DIGITS_CAP as int) by (nonlinear_arith)
                    requires
                        prev >= DIGITS_CAP as int,
                        v >= 0,
                ;
            }
        }
        let t = acc * 10 + v;
        acc = if t < DIGITS_CAP { t } else { DIGITS_CAP };
        i += 1;
    }
    let ghost d = cs@.subrange(start as int, n as int);
    proof {
        assert(cs@.subrange(start as int, i as int) == d);
        assert(all_digits(d));
        if signed {
            assert(d =~= s@.drop_first());
        } else {
            assert(d =~= s@);
        }
    }
    if cs[0] == '-' {
        if acc <= 9223372036854775808 {
            Some((0 - (acc as i128)) as i64)
        } else {
            None
        }
    } else {
        if acc <= 9223372036854775807 {
            Some(acc as i64)
        } else {
            None
        }
    }
}

// ---- what a node denotes ----

/// An attribute value that a record cannot do without: present and not empty.
pub open spec fn required(v: Option<Seq<char>>) -> bool {
    v is Some && v->0.len() > 0
}

/// A flag attribute is set only by the exact value `1`.
pub open spec fn flag_of(n: NodeView, key: Seq<char>) -> bool {
    attr_of(n, key) == Some("1"@)
}

pub open spec fn date_of(n: NodeView, key: Seq<char>) -> Option<Timestamp> {
    match attr_of(n, key) {
        Some(v) => rfc3339_local_of(v),
        None => None,
    }
}

pub open spec fn progress_of(n: NodeView) -> Option<i64> {
    match attr_of(n, "progress"@) {
        Some(v) => i64_of_text(v),
        None => None,
    }
}

/// Whether a node has both the `title` and the `overcastId` that a feed or an
/// episode needs.
pub open spec fn is_complete(n: NodeView) -> bool {
    required(attr_of(n, "title"@)) && required(attr_of(n, "overcastId"@))
}

/// The episode that a node describes, if it is complete.
pub open spec fn episode_of(n: NodeView) -> Option<EpisodeView> {
    if is_complete(n) {
        Some(
            EpisodeView {
                id: attr_of(n, "overcastId"@)->0,
                title: attr_of(n, "title"@)->0,
                played: flag_of(n, "played"@),
                published_at: date_of(n, "pubDate"@),
                updated_at: date_of(n, "userUpdatedDate"@),
                html_url: attr_of(n, "url"@),
                overcast_url: attr_of(n, "overcastUrl"@),
                mp3_url: attr_of(n, "enclosureUrl"@),
                user_deleted: flag_of(n, "userDeleted"@),
                progress: progress_of(n),
            },
        )
    } else {
        None
    }
}

/// The episodes described by the nodes at positions `kids`, in that order.
pub open spec fn episodes_from(nodes: Seq<NodeView>, kids: Seq<usize>) -> Seq<EpisodeView>
    decreases kids.len(),
{
    if kids.len() == 0 {
        Seq::empty()
    } else {
        let k = kids.last() as int;
        let rest = episodes_from(nodes, kids.drop_last());
        if k < nodes.len() && episode_of(nodes[k]) is Some {
            rest.push(episode_of(nodes[k])->0)
        } else {
            rest
        }
    }
}

/// The feed that a node describes, if it is complete, with the episodes of its children.
pub open spec fn feed_of(nodes: Seq<NodeView>, n: NodeView) -> Option<FeedView> {
    if is_complete(n) {
        Some(
            FeedView {
                id: attr_of(n, "overcastId"@)->0,
                title: attr_of(n, "title"@)->0,
                subscribed: flag_of(n, "subscribed"@),
                episodes: episodes_from(nodes, n.children),
                feed_url: attr_of(n, "xmlUrl"@),
                html_url: attr_of(n, "htmlUrl"@),
            },
        )
    } else {
        None
    }
}

/// The feeds described by the nodes at positions `kids`, in that order.
pub open spec fn feeds_from(nodes: Seq<NodeView>, kids: Seq<usize>) -> Seq<FeedView>
    decreases kids.len(),
{
    if kids.len() == 0 {
        Seq::empty()
    } else {
        let k = kids.last() as int;
        let rest = feeds_from(nodes, kids.drop_last());
        if k < nodes.len() && feed_of(nodes, nodes[k]) is Some {
            rest.push(feed_of(nodes, nodes[k])->0)
        } else {
            rest
        }
    }
}

/// The node that holds the feed list: an `outline` element with `text="feeds"`.
pub open spec fn is_feed_list(n: NodeView) -> bool {
    n.name == "outline"@ && attr_of(n, "text"@) == Some("feeds"@)
}

/// `i` is the first position of a feed-list node.
pub open spec fn first_feed_list_at(nodes: Seq<NodeView>, i: int) -> bool {
    0 <= i < nodes.len() && is_feed_list(nodes[i]) && forall|j: int|
        0 <= j < i ==> !is_feed_list(#[trigger] nodes[j])
}

/// The feeds of a parsed export document; `None` where it holds no feed list.
pub open spec fn export_feeds(nodes: Seq<NodeView>) -> Option<Seq<FeedView>> {
    if exists|i: int| first_feed_list_at(nodes, i) {
        let i = choose|i: int| first_feed_list_at(nodes, i);
        Some(feeds_from(nodes, nodes[i].children))
    } else {
        None
    }
}

// ---- reading nodes ----

/// The value of a required attribute, where it is present and not empty.
fn required_attr(node: &XmlNode, key: &str) -> (r: Option<String>)
    ensures
        match r {
            Some(v) => required(attr_of(node@, key@)) && v@ == attr_of(node@, key@)->0,
            None => !required(attr_of(node@, key@)),
        },
{
    let k = String::from_str(key);
    match attribute(node, &k) {
        Some(v) => if v.as_str().is_empty() {
            None
        } else {
            Some(v.clone())
        },
        None => None,
    }
}

/// The value of an optional attribute, verbatim.
fn optional_attr(node: &XmlNode, key: &str) -> (r: Option<String>)
    ensures
        opt_text(r) == attr_of(node@, key@),
{
    let k = String::from_str(key);
    match attribute(node, &k) {
        Some(v) => Some(v.clone()),
        None => None,
    }
}

/// Whether a flag attribute is set.
fn flag_attr(node: &XmlNode, key: &str) -> (r: bool)
    ensures
        r == flag_of(node@, key@),
{
    let k = String::from_str(key);
    let one = String::from_str("1");
    match attribute(node, &k) {
        Some(v) => v.eq(&one),
        None => false,
    }
}

/// The timestamp of a date attribute, where it is present and parses.
fn date_attr(node: &XmlNode, key: &str) -> (r: Option<Timestamp>)
    ensures
        r == date_of(node@, key@),
{
    let k = String::from_str(key);
    match attribute(node, &k) {
        Some(v) => parse_rfc3339(v.as_str()),
        None => None,
    }
}

/// The playback position, where the attribute is present and parses.
fn progress_attr(node: &XmlNode) -> (r: Option<i64>)
    ensures
        r == progress_of(node@),
{
    let k = String::from_str("progress");
    match attribute(node, &k) {
        Some(v) => parse_i64(v.as_str()),
        None => None,
    }
}

/// The episode that a node describes; `None` where it lacks a title or an id.
pub fn episode_from_node(node: &XmlNode) -> (r: Option<Episode>)
    ensures
        match r {
            Some(e) => episode_of(node@) == Some(e@),
            None => episode_of(node@) is None,
        },
        r is Some <==> is_complete(node@),
        r matches Some(e) ==> {
            &&& e.played <==> attr_of(node@, "played"@) == Some("1"@)
            &&& e.user_deleted <==> attr_of(node@, "userDeleted"@) == Some("1"@)
            &&& attr_of(node@, "pubDate"@) is None ==> e.published_at is None
            &&& attr_of(node@, "userUpdatedDate"@) is None ==> e.updated_at is None
            &&& attr_of(node@, "progress"@) is None ==> e.progress is None
            &&& attr_of(node@, "progress"@) matches Some(p) ==> e.progress == i64_of_text(p)
            &&& e.progress matches Some(v) ==> signed_decimal(
                attr_of(node@, "progress"@)->0,
            ) == Some(v as int)
        },
{
    let title = required_attr(node, "title");
    let id = required_attr(node, "overcastId");
    match (id, title) {
        (Some(id), Some(title)) => {
            let e = Episode {
                id,
                title,
                played: flag_attr(node, "played"),
                published_at: date_attr(node, "pubDate"),
                updated_at: date_attr(node, "userUpdatedDate"),
                html_url: optional_attr(node, "url"),
                overcast_url: optional_attr(node, "overcastUrl"),
                mp3_url: optional_attr(node, "enclosureUrl"),
                user_deleted: flag_attr(node, "userDeleted"),
                progress: progress_attr(node),
            };
            Some(e)
        },
        _ => None,
    }
}

/// The episodes of the children of `node`, in document order, skipping the
/// incomplete ones.
pub fn episodes_of_children(nodes: &Vec<XmlNode>, node: &XmlNode) -> (r: Vec<Episode>)
    ensures
        episodes_view(r@) == episodes_from(nodes_view(nodes@), node@.children),
{
    let ghost nv = nodes_view(nodes@);
    let kids = &node.children;
    let mut out: Vec<Episode> = Vec::new();
    let mut i: usize = 0;
    assert(kids@.take(0) =~= Seq::<usize>::empty());
    while i < kids.len()
        invariant
            nv == nodes_view(nodes@),
            kids@ == node@.children,
            i <= kids@.len(),
            episodes_view(out@) == episodes_from(nv, kids@.take(i as int)),
        decreases kids@.len() - i,
    {
        let k = kids[i];
        assert(kids@.take(i + 1).drop_last() =~= kids@.take(i as int));
        assert(kids@.take(i + 1).last() == k);
        if k < nodes.len() {
            assert(nv[k as int] == nodes@[k as int]@);
            match episode_from_node(&nodes[k]) {
                Some(e) => {
                    let ghost before = out@;
                    out.push(e);
                    assert(episodes_view(out@) =~= episodes_view(before).push(e@));
                },
                None => {},
            }
        }
        i += 1;
    }
    assert(kids@.take(i as int) =~= kids@);
    out
}

/// The feed that a node describes, with its episodes; `None` where it lacks a
/// title or an id (its children are then not read).
pub fn feed_from_node(nodes: &Vec<XmlNode>, node: &XmlNode) -> (r: Option<Feed>)
    ensures
        match r {
            Some(f) => feed_of(nodes_view(nodes@), node@) == Some(f@),
            None => feed_of(nodes_view(nodes@), node@) is None,
        },
        r is Some <==> is_complete(node@),
        r matches Some(f) ==> (f.subscribed <==> attr_of(node@, "subscribed"@) == Some("1"@)),
{
    let title = required_attr(node, "title");
    let id = required_attr(node, "overcastId");
    match (id, title) {
        (Some(id), Some(title)) => {
            let f = Feed {
                id,
                title,
                subscribed: flag_attr(node, "subscribed"),
                episodes: episodes_of_children(nodes, node),
                feed_url: optional_attr(node, "xmlUrl"),
                html_url: optional_attr(node, "htmlUrl"),
            };
            Some(f)
        },
        _ => None,
    }
}

/// The feeds of the children of `node`, in document order, skipping the
/// incomplete ones.
pub fn feeds_of_children(nodes: &Vec<XmlNode>, node: &XmlNode) -> (r: Vec<Feed>)
    ensures
        feeds_view(r@) == feeds_from(nodes_view(nodes@), node@.children),
{
    let ghost nv = nodes_view(nodes@);
    let kids = &node.children;
    let mut out: Vec<Feed> = Vec::new();
    let mut i: usize = 0;
    assert(kids@.take(0) =~= Seq::<usize>::empty());
    while i < kids.len()
        invariant
            nv == nodes_view(nodes@),
            kids@ == node@.children,
            i <= kids@.len(),
            feeds_view(out@) == feeds_from(nv, kids@.take(i as int)),
        decreases kids@.len() - i,
    {
        let k = kids[i];
        assert(kids@.take(i + 1).drop_last() =~= kids@.take(i as int));
        assert(kids@.take(i + 1).last() == k);
        if k < nodes.len() {
            assert(nv[k as int] == nodes@[k as int]@);
            match feed_from_node(nodes, &nodes[k]) {
                Some(f) => {
                    let ghost before = out@;
                    out.push(f);
                    assert(feeds_view(out@) =~= feeds_view(before).push(f@));
                },
                None => {},
            }
        }
        i += 1;
    }
    assert(kids@.take(i as int) =~= kids@);
    out
}

/// The position of the first node that holds the feed list.
pub fn find_feed_list(nodes: &Vec<XmlNode>) -> (r: Option<usize>)
    ensures
        match r {
            Some(i) => first_feed_list_at(nodes_view(nodes@), i as int),
            None => forall|i: int|
                0 <= i < nodes@.len() ==> !is_feed_list(#[trigger] nodes_view(nodes@)[i]),
        },
{
    let ghost nv = nodes_view(nodes@);
    let outline = String::from_str("outline");
    let feeds = String::from_str("feeds");
    let text = String::from_str("text");
    let mut i: usize = 0;
    while i < nodes.len()
        invariant
            nv == nodes_view(nodes@),
            outline@ == "outline"@,
            feeds@ == "feeds"@,
            text@ == "text"@,
            i <= nodes@.len(),
            forall|j: int| 0 <= j < i ==> !is_feed_list(#[trigger] nv[j]),
        decreases nodes@.len() - i,
    {
        let n = &nodes[i];
        assert(nv[i as int] == n@);
        if n.name.eq(&outline) {
            match attribute(n, &text) {
                Some(v) => {
                    if v.eq(&feeds) {
                        return Some(i);
                    }
                },
                None => {},
            }
        }
        i += 1;
    }
    None
}

/// The feeds of a parsed export document: those under the first feed-list node.
pub fn extract_feeds(nodes: &Vec<XmlNode>) -> (r: Result<Vec<Feed>, ParseError>)
    ensures
        match r {
            Ok(feeds) => export_feeds(nodes_view(nodes@)) == Some(feeds_view(feeds@)),
            Err(e) => e == ParseError::MissingFeedList && export_feeds(nodes_view(nodes@)) is None,
        },
        r matches Ok(feeds) ==> all_complete(feeds_view(feeds@)),
{
    let ghost nv = nodes_view(nodes@);
    match find_feed_list(nodes) {
        Some(i) => {
            assert(first_feed_list_at(nv, i as int));
            let feeds = feeds_of_children(nodes, &nodes[i]);
            proof {
                let c = choose|c: int| first_feed_list_at(nv, c);
                if c < i {
                    assert(!is_feed_list(nv[c]));
                } else if c > i {
                    assert(!is_feed_list(nv[i as int]));
                }
                assert(c == i);
                assert(nv[i as int] == nodes@[i as int]@);
                lemma_feeds_complete(nv, nv[i as int].children);
            }
            Ok(feeds)
        },
        None => {
            assert(!exists|c: int| first_feed_list_at(nv, c)) by {
                if exists|c: int| first_feed_list_at(nv, c) {
                    let c = choose|c: int| first_feed_list_at(nv, c);
                    assert(!is_feed_list(nv[c]));
                }
            }
            Err(ParseError::MissingFeedList)
        },
    }
}

/// Parses an extended OPML export into its feeds and their episodes.
pub fn parse_export(text: &str) -> (r: Result<Vec<Feed>, ParseError>)
    ensures
        match r {
            Ok(feeds) => xml_nodes_of(text@) matches Some(nv) && export_feeds(nv) == Some(
                feeds_view(feeds@),
            ),
            Err(ParseError::Malformed(_)) => xml_nodes_of(text@) is None,
            Err(ParseError::MissingFeedList) => xml_nodes_of(text@) matches Some(nv)
                && export_feeds(nv) is None,
        },
        r matches Ok(feeds) ==> all_complete(feeds_view(feeds@)),
{
    match parse_xml(text) {
        Ok(nodes) => extract_feeds(&nodes),
        Err(e) => Err(ParseError::Malformed(xml_error_text(&e))),
    }
}

// ---- laws of the extraction ----

/// Every feed and every episode in `feeds` has a non-empty id and title.
pub open spec fn all_complete(feeds: Seq<FeedView>) -> bool {
    forall|i: int|
        0 <= i < feeds.len() ==> {
            let f = #[trigger] feeds[i];
            &&& f.id.len() > 0
            &&& f.title.len() > 0
            &&& forall|j: int|
                0 <= j < f.episodes.len() ==> (#[trigger] f.episodes[j]).id.len() > 0
                    && f.episodes[j].title.len() > 0
        }
}

proof fn lemma_episodes_complete(nodes: Seq<NodeView>, kids: Seq<usize>)
    ensures
        forall|j: int|
            0 <= j < episodes_from(nodes, kids).len() ==> (#[trigger] episodes_from(
                nodes,
                kids,
            )[j]).id.len() > 0 && episodes_from(nodes, kids)[j].title.len() > 0,
    decreases kids.len(),
{
    if kids.len() > 0 {
        lemma_episodes_complete(nodes, kids.drop_last());
    }
}

/// Every feed taken from the nodes at positions `kids`, and every episode in it,
/// has a non-empty id and title.
pub proof fn lemma_feeds_complete(nodes: Seq<NodeView>, kids: Seq<usize>)
    ensures
        all_complete(feeds_from(nodes, kids)),
    decreases kids.len(),
{
    if kids.len() > 0 {
        lemma_feeds_complete(nodes, kids.drop_last());
        let k = kids.last() as int;
        if k < nodes.len() && feed_of(nodes, nodes[k]) is Some {
            lemma_episodes_complete(nodes, nodes[k].children);
        }
    }
}

proof fn lemma_feeds_from_concat(nodes: Seq<NodeView>, a: Seq<usize>, b: Seq<usize>)
    ensures
        feeds_from(nodes, a + b) == feeds_from(nodes, a) + feeds_from(nodes, b),
    decreases b.len(),
{
    if b.len() == 0 {
        assert(a + b =~= a);
        assert(feeds_from(nodes, a) + feeds_from(nodes, b) =~= feeds_from(nodes, a));
    } else {
        lemma_feeds_from_concat(nodes, a, b.drop_last());
        assert((a + b).drop_last() =~= a + b.drop_last());
        assert((a + b).last() == b.last());
        let k = b.last() as int;
        if k < nodes.len() && feed_of(nodes, nodes[k]) is Some {
            assert(feeds_from(nodes, a) + feeds_from(nodes, b) =~= (feeds_from(nodes, a)
                + feeds_from(nodes, b.drop_last())).push(feed_of(nodes, nodes[k])->0));
        }
    }
}

proof fn lemma_episodes_from_concat(nodes: Seq<NodeView>, a: Seq<usize>, b: Seq<usize>)
    ensures
        episodes_from(nodes, a + b) == episodes_from(nodes, a) + episodes_from(nodes, b),
    decreases b.len(),
{
    if b.len() == 0 {
        assert(a + b =~= a);
        assert(episodes_from(nodes, a) + episodes_from(nodes, b) =~= episodes_from(nodes, a));
    } else {
        lemma_episodes_from_concat(nodes, a, b.drop_last());
        assert((a + b).drop_last() =~= a + b.drop_last());
        assert((a + b).last() == b.last());
        let k = b.last() as int;
        if k < nodes.len() && episode_of(nodes[k]) is Some {
            assert(episodes_from(nodes, a) + episodes_from(nodes, b) =~= (episodes_from(nodes, a)
                + episodes_from(nodes, b.drop_last())).push(episode_of(nodes[k])->0));
        }
    }
}

/// A candidate feed node without a title or an id yields no feed, and the
/// feeds of its siblings before and after it are taken as if it were absent.
pub proof fn lemma_incomplete_feed_skipped(nodes: Seq<NodeView>, kids: Seq<usize>, i: int)
    requires
        0 <= i < kids.len(),
        kids[i] < nodes.len() ==> !is_complete(nodes[kids[i] as int]),
    ensures
        feeds_from(nodes, kids) == feeds_from(nodes, kids.take(i)) + feeds_from(
            nodes,
            kids.skip(i + 1),
        ),
{
    let one = seq![kids[i]];
    assert(kids =~= kids.take(i) + one + kids.skip(i + 1));
    lemma_feeds_from_concat(nodes, kids.take(i) + one, kids.skip(i + 1));
    lemma_feeds_from_concat(nodes, kids.take(i), one);
    assert(one.drop_last() =~= Seq::<usize>::empty());
    assert(feeds_from(nodes, one.drop_last()) == Seq::<FeedView>::empty());
    assert(one.last() == kids[i]);
    assert(feeds_from(nodes, one) =~= Seq::<FeedView>::empty());
    assert(feeds_from(nodes, kids.take(i)) + feeds_from(nodes, one) =~= feeds_from(
        nodes,
        kids.take(i),
    ));
}

/// A candidate episode node without a title or an id yields no episode, and
/// the episodes of its siblings before and after it are taken as if it were absent.
pub proof fn lemma_incomplete_episode_skipped(nodes: Seq<NodeView>, kids: Seq<usize>, i: int)
    requires
        0 <= i < kids.len(),
        kids[i] < nodes.len() ==> !is_complete(nodes[kids[i] as int]),
    ensures
        episodes_from(nodes, kids) == episodes_from(nodes, kids.take(i)) + episodes_from(
            nodes,
            kids.skip(i + 1),
        ),
{
    let one = seq![kids[i]];
    assert(kids =~= kids.take(i) + one + kids.skip(i + 1));
    lemma_episodes_from_concat(nodes, kids.take(i) + one, kids.skip(i + 1));
    lemma_episodes_from_concat(nodes, kids.take(i), one);
    assert(one.drop_last() =~= Seq::<usize>::empty());
    assert(episodes_from(nodes, one.drop_last()) == Seq::<EpisodeView>::empty());
    assert(one.last() == kids[i]);
    assert(episodes_from(nodes, one) =~= Seq::<EpisodeView>::empty());
    assert(episodes_from(nodes, kids.take(i)) + episodes_from(nodes, one) =~= episodes_from(
        nodes,
        kids.take(i),
    ));
}

} // verus!
