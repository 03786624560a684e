//! The URL plugin's own logic: it remembers the last links seen in each
//! channel, recognises its `λurl` command, and tells video-platform links
//! from ordinary pages. Fetching titles is left to the program around it.

use vstd::prelude::*;
use vstd::string::StrSliceExecFns;
use crate::text::{
    skip_spaces, word_end, digits_end, digits_value, words, has_infix,
    skip_spaces_at, word_end_at, read_digits, split_words, contains_text,
};

verus! {

/// The serialization of `s` as parsed by the url crate, or `None` when `s`
/// is not an absolute URL.
pub uninterp spec fn url_text(s: Seq<char>) -> Option<Seq<char>>;

/// The host, as text, of `s` parsed as a URL.
pub uninterp spec fn url_host(s: Seq<char>) -> Option<Seq<char>>;

/// The path segments of `s` parsed as a URL; `None` for a URL that cannot
/// be a base.
pub uninterp spec fn url_path_segments(s: Seq<char>) -> Option<Seq<Seq<char>>>;

/// The decoded query pairs of `s` parsed as a URL, in order.
pub uninterp spec fn url_query_pairs(s: Seq<char>) -> Seq<(Seq<char>, Seq<char>)>;

/// A parsed URL, reduced to what the plugin reads of it.
#[derive(Clone, Debug, PartialEq, Eq)]
pub struct UrlParts {
    /// Its serialization.
    pub text: String,
    /// Its host, if it has one.
    pub host: Option<String>,
    /// Its path segments, unless it cannot be a base.
    pub segments: Option<Vec<String>>,
    /// Its decoded query pairs.
    pub query: Vec<(String, String)>,
}

/// The model of a [`UrlParts`].
pub ghost struct UrlModel {
    pub text: Seq<char>,
    pub host: Option<Seq<char>>,
    pub segments: Option<Seq<Seq<char>>>,
    pub query: Seq<(Seq<char>, Seq<char>)>,
}

impl View for UrlParts {
    type V = UrlModel;

    open spec fn view(&self) -> UrlModel {
        UrlModel {
            text: self.text@,
            host: match self.host {
                Some(h) => Some(h@),
                None => None,
            },
            segments: match self.segments {
                Some(v) => Some(v@.map_values(|x: String| x@)),
                None => None,
            },
            query: self.query@.map_values(|p: (String, String)| (p.0@, p.1@)),
        }
    }
}

/// What the url crate makes of `word`, when it parses.
pub open spec fn url_model(word: Seq<char>) -> UrlModel {
    UrlModel {
        text: url_text(word)->0,
        host: url_host(word),
        segments: url_path_segments(word),
        query: url_query_pairs(word),
    }
}

/// Relies on `url::Url::parse`, with `as_str`, `host_str`, `path_segments`
/// and `query_pairs` on its result: the parts of the parsed URL, or `None`
/// when the text is not an absolute URL.
#[verifier::external_body]
fn read_url(word: &str) -> (r: Option<UrlParts>)
    ensures
        r is Some <==> url_text(word@) is Some,
        r matches Some(p) ==> p@.text == url_text(word@)->0,
        r matches Some(p) ==> p@.host == url_host(word@),
        r matches Some(p) ==> p@.segments == url_path_segments(word@),
        r matches Some(p) ==> p@.query == url_query_pairs(word@),
{
    let u = url::Url::parse(word).ok()?;
    let segments = u.path_segments().map(|s| s.map(|x| x.to_string()).collect());
    let query = u.query_pairs().map(|(k, v)| (k.into_owned(), v.into_owned())).collect();
    Some(UrlParts {
        text: u.as_str().to_string(),
        host: u.host_str().map(|h| h.to_string()),
        segments,
        query,
    })
}

/// Parses one word as a URL.
pub fn parse_url(word: &str) -> (r: Option<UrlParts>)
    ensures
        r is Some <==> url_text(word@) is Some,
        r matches Some(p) ==> p@ == url_model(word@),
{
    let r = read_url(word);
    proof {
        if r is Some {
            assert(r->0@ == url_model(word@));
        }
    }
    r
}

/// The words among `ws` that parse as URLs, in order.
pub open spec fn url_words(ws: Seq<Seq<char>>) -> Seq<Seq<char>>
    decreases ws.len(),
{
    if ws.len() == 0 {
        seq![]
    } else {
        let before = url_words(ws.drop_last());
        if url_text(ws.last()) is Some {
            before.push(ws.last())
        } else {
            before
        }
    }
}

/// The URLs in a chat message: every whitespace-separated word that parses
/// as a URL, in order.
pub fn parse_urls(msg: &str) -> (r: Vec<UrlParts>)
    ensures
        r@.len() == url_words(words(msg@)).len(),
        forall|i: int| 0 <= i < r@.len() ==> (#[trigger] r@[i])@ == url_model(url_words(words(msg@))[i]),
{
    let ws = split_words(msg);
    let ghost wv = ws@.map_values(|w: String| w@);
    let mut out: Vec<UrlParts> = Vec::new();
    let mut i: usize = 0;
    while i < ws.len()
        invariant
            wv == ws@.map_values(|w: String| w@),
            wv == words(msg@),
            i <= ws@.len(),
            out@.len() == url_words(wv.subrange(0, i as int)).len(),
            forall|j: int| 0 <= j < out@.len() ==> (#[trigger] out@[j])@ == url_model(url_words(wv.subrange(0, i as int))[j]),
        decreases ws@.len() - i,
    {
        let ghost prev = wv.subrange(0, i as int);
        let ghost next = wv.subrange(0, i + 1);
        assert(next.drop_last() =~= prev);
        assert(next.last() == ws@[i as int]@);
        match read_url(ws[i].as_str()) {
            Some(p) => {
                out.push(p);
            },
            None => {},
        }
        i = i + 1;
    }
    assert(wv.subrange(0, ws@.len() as int) =~= wv);
    out
}

/// The `λurl` command: `λurl`, then optionally whitespace and an index,
/// then optionally `>` and a nickname to address, then only whitespace. The
/// index is absent when not given or too large for `usize`.
pub open spec fn command_of(s: Seq<char>) -> Option<(Option<usize>, Option<Seq<char>>)> {
    if s.len() < 4 || s.subrange(0, 4) != seq!['λ', 'u', 'r', 'l'] {
        None
    } else {
        let j = skip_spaces(s, 4);
        let d = digits_end(s, j);
        let has_idx = j > 4 && d > j;
        let i1 = if has_idx { d } else { 4 };
        let idx = if has_idx && digits_value(s, j, d) <= usize::MAX {
            Some(digits_value(s, j, d) as usize)
        } else {
            None
        };
        let k = skip_spaces(s, i1);
        let m = skip_spaces(s, k + 1);
        let e = word_end(s, m);
        let has_target = k < s.len() && s[k] == '>' && e > m;
        let i2 = if has_target { e } else { i1 };
        if skip_spaces(s, i2) == s.len() {
            Some((idx, if has_target { Some(s.subrange(m, e)) } else { None }))
        } else {
            None
        }
    }
}

/// The view of a parsed command.
pub open spec fn command_view(c: (Option<usize>, Option<String>)) -> (Option<usize>, Option<Seq<char>>) {
    (c.0, match c.1 {
        Some(t) => Some(t@),
        None => None,
    })
}

/// Recognises the `λurl` command: the optional index of the link to show,
/// counted from the most recent, and the optional nickname to address.
pub fn parse_command(msg: &str) -> (r: Option<(Option<usize>, Option<String>)>)
    ensures
        r is Some <==> command_of(msg@) is Some,
        r matches Some(c) ==> command_view(c) == command_of(msg@)->0,
{
    let n = msg.unicode_len();
    if n < 4 {
        return None;
    }
    if msg.get_char(0) != 'λ' || msg.get_char(1) != 'u' || msg.get_char(2) != 'r' || msg.get_char(3) != 'l' {
        proof {
            assert(msg@.subrange(0, 4)[0] == msg@[0]);
            assert(msg@.subrange(0, 4)[1] == msg@[1]);
            assert(msg@.subrange(0, 4)[2] == msg@[2]);
            assert(msg@.subrange(0, 4)[3] == msg@[3]);
        }
        return None;
    }
    proof {
        assert(msg@.subrange(0, 4) =~= seq!['λ', 'u', 'r', 'l']);
    }
    let j = skip_spaces_at(msg, 4);
    let (d, value) = read_digits(msg, j);
    let has_idx = j > 4 && d > j;
    let i1 = if has_idx { d } else { 4 };
    let idx = if has_idx { value } else { None };
    let k = skip_spaces_at(msg, i1);
    let mut target: Option<String> = None;
    let mut i2 = i1;
    if k < n && msg.get_char(k) == '>' {
        let m = skip_spaces_at(msg, k + 1);
        let e = word_end_at(msg, m);
        if e > m {
            target = Some(msg.substring_char(m, e).to_owned());
            i2 = e;
        }
    }
    if skip_spaces_at(msg, i2) == n {
        Some((idx, target))
    } else {
        None
    }
}

/// The hosts of the video platform.
pub open spec fn is_yt_host(host: Seq<char>) -> bool {
    host == "youtube.com"@ || host == "www.youtube.com"@ || host == "youtu.be"@
        || host == "www.youtu.be"@ || host == "m.youtube.com"@
}

/// Whether a URL points at the video platform.
pub fn is_yt_url(url: &UrlParts) -> (r: bool)
    ensures
        r == (url@.host matches Some(h) && is_yt_host(h)),
{
    proof {
        reveal_strlit("youtube.com");
        reveal_strlit("www.youtube.com");
        reveal_strlit("youtu.be");
        reveal_strlit("www.youtu.be");
        reveal_strlit("m.youtube.com");
    }
    match &url.host {
        Some(h) => {
            let h = h.as_str();
            crate::registry::same_text(h, "youtube.com") || crate::registry::same_text(h, "www.youtube.com")
                || crate::registry::same_text(h, "youtu.be") || crate::registry::same_text(h, "www.youtu.be")
                || crate::registry::same_text(h, "m.youtube.com")
        },
        None => false,
    }
}

/// What a video-platform link designates.
#[derive(Clone, Debug, PartialEq, Eq)]
pub enum YtId {
    Video(String),
    Channel(String),
    Playlist(String),
}

/// The model of a [`YtId`].
pub ghost enum YtIdModel {
    Video(Seq<char>),
    Channel(Seq<char>),
    Playlist(Seq<char>),
}

impl View for YtId {
    type V = YtIdModel;

    open spec fn view(&self) -> YtIdModel {
        match self {
            YtId::Video(v) => YtIdModel::Video(v@),
            YtId::Channel(c) => YtIdModel::Channel(c@),
            YtId::Playlist(p) => YtIdModel::Playlist(p@),
        }
    }
}

/// The value of the first query pair from position `i` on whose key is `key`.
pub open spec fn query_value(q: Seq<(Seq<char>, Seq<char>)>, key: Seq<char>, i: int) -> Option<Seq<char>>
    decreases q.len() - i,
{
    if i < 0 || i >= q.len() {
        None
    } else if q[i].0 == key {
        Some(q[i].1)
    } else {
        query_value(q, key, i + 1)
    }
}

/// What a link designates on the video platform: on the short host, the
/// video named by the first segment; elsewhere a channel (`c`, `channel`,
/// `user`), a video (`watch?v=`, `shorts`) or a playlist (`playlist?list=`).
pub open spec fn yt_id_of(url: UrlModel) -> Option<YtIdModel> {
    match url.segments {
        None => None,
        Some(segs) => {
            let first = if segs.len() > 0 { Some(segs[0]) } else { None };
            let second = if segs.len() > 1 { Some(segs[1]) } else { None };
            if url.host == Some("youtu.be"@) {
                match first {
                    Some(v) => Some(YtIdModel::Video(v)),
                    None => None,
                }
            } else if first == Some("c"@) || first == Some("channel"@) || first == Some("user"@) {
                match second {
                    Some(c) => Some(YtIdModel::Channel(c)),
                    None => None,
                }
            } else if first == Some("watch"@) {
                match query_value(url.query, "v"@, 0) {
                    Some(v) => Some(YtIdModel::Video(v)),
                    None => None,
                }
            } else if first == Some("shorts"@) {
                match second {
                    Some(v) => Some(YtIdModel::Video(v)),
                    None => None,
                }
            } else if first == Some("playlist"@) {
                match query_value(url.query, "list"@, 0) {
                    Some(p) => Some(YtIdModel::Playlist(p)),
                    None => None,
                }
            } else {
                None
            }
        },
    }
}

/// The value of the first query pair whose key is `key`.
fn find_query(q: &Vec<(String, String)>, key: &str) -> (r: Option<String>)
    ensures
        (match r {
            Some(v) => Some(v@),
            None => None,
        }) == query_value(q@.map_values(|p: (String, String)| (p.0@, p.1@)), key@, 0),
{
    let ghost qv = q@.map_values(|p: (String, String)| (p.0@, p.1@));
    let mut i: usize = 0;
    while i < q.len()
        invariant
            qv == q@.map_values(|p: (String, String)| (p.0@, p.1@)),
            i <= q@.len(),
            query_value(qv, key@, 0) == query_value(qv, key@, i as int),
        decreases q@.len() - i,
    {
        if crate::registry::same_text(q[i].0.as_str(), key) {
            return Some(q[i].1.clone());
        }
        i = i + 1;
    }
    None
}

/// Whether the optional segment is `word`.
fn segment_is(seg: Option<&String>, word: &str) -> (r: bool)
    ensures
        r == (match seg {
            Some(s) => s@ == word@,
            None => false,
        }),
{
    match seg {
        Some(s) => crate::registry::same_text(s.as_str(), word),
        None => false,
    }
}

/// What a video-platform link designates, if anything.
pub fn extract_yt_id(url: &UrlParts) -> (r: Option<YtId>)
    ensures
        (match r {
            Some(id) => Some(id@),
            None => None,
        }) == yt_id_of(url@),
{
    proof {
        reveal_strlit("youtu.be");
        reveal_strlit("c");
        reveal_strlit("channel");
        reveal_strlit("user");
        reveal_strlit("watch");
        reveal_strlit("shorts");
        reveal_strlit("playlist");
        reveal_strlit("v");
        reveal_strlit("list");
    }
    let segs = match &url.segments {
        Some(s) => s,
        None => return None,
    };
    let first: Option<&String> = if segs.len() > 0 { Some(&segs[0]) } else { None };
    let second: Option<&String> = if segs.len() > 1 { Some(&segs[1]) } else { None };
    let short_host = match &url.host {
        Some(h) => crate::registry::same_text(h.as_str(), "youtu.be"),
        None => false,
    };
    if short_host {
        return match first {
            Some(v) => Some(YtId::Video(v.clone())),
            None => None,
        };
    }
    if segment_is(first, "c") || segment_is(first, "channel") || segment_is(first, "user") {
        match second {
            Some(c) => Some(YtId::Channel(c.clone())),
            None => None,
        }
    } else if segment_is(first, "watch") {
        match find_query(&url.query, "v") {
            Some(v) => Some(YtId::Video(v)),
            None => None,
        }
    } else if segment_is(first, "shorts") {
        match second {
            Some(v) => Some(YtId::Video(v.clone())),
            None => None,
        }
    } else if segment_is(first, "playlist") {
        match find_query(&url.query, "list") {
            Some(p) => Some(YtId::Playlist(p)),
            None => None,
        }
    } else {
        None
    }
}

/// How many links are remembered per channel.
pub const URLS_PER_CHANNEL: usize = 10;

/// The last `n` items of `s` (all of them when there are fewer).
pub open spec fn last_n<T>(s: Seq<T>, n: nat) -> Seq<T> {
    if s.len() <= n {
        s
    } else {
        s.subrange(s.len() - n, s.len() as int)
    }
}

/// The links remembered for one channel, oldest first.
pub struct ChannelUrls<T> {
    channel: String,
    urls: Vec<T>,
}

/// The most recent links seen in each channel, at most
/// [`URLS_PER_CHANNEL`] per channel.
pub struct UrlHistory<T> {
    channels: Vec<ChannelUrls<T>>,
}

impl<T> UrlHistory<T> {
    /// The position of a channel's entry, if it has one.
    pub closed spec fn slot_of(&self, channel: Seq<char>) -> Option<int> {
        if exists|i: int| 0 <= i < self.channels@.len() && (#[trigger] self.channels@[i]).channel@ == channel {
            Some(choose|i: int| 0 <= i < self.channels@.len() && (#[trigger] self.channels@[i]).channel@ == channel)
        } else {
            None
        }
    }

    /// The links remembered for `channel`, oldest first.
    pub closed spec fn urls_of(&self, channel: Seq<char>) -> Seq<T> {
        match self.slot_of(channel) {
            Some(i) => self.channels@[i].urls@,
            None => seq![],
        }
    }

    /// The invariant: one entry per channel, none over the limit.
    pub closed spec fn wf(&self) -> bool {
        &&& forall|i: int, j: int| 0 <= i < j < self.channels@.len()
            ==> (#[trigger] self.channels@[i]).channel@ != (#[trigger] self.channels@[j]).channel@
        &&& forall|i: int| 0 <= i < self.channels@.len() ==> (#[trigger] self.channels@[i]).urls@.len() <= URLS_PER_CHANNEL
    }

    proof fn lemma_slot(&self, i: int)
        requires
            self.wf(),
            0 <= i < self.channels@.len(),
        ensures
            self.slot_of(self.channels@[i].channel@) == Some(i),
    {
        let c = self.channels@[i].channel@;
        let k = choose|k: int| 0 <= k < self.channels@.len() && (#[trigger] self.channels@[k]).channel@ == c;
        if k != i {
            if k < i {
                assert(self.channels@[k].channel@ != self.channels@[i].channel@);
            } else {
                assert(self.channels@[i].channel@ != self.channels@[k].channel@);
            }
        }
    }

    /// An empty history.
    pub fn new() -> (r: UrlHistory<T>)
        ensures
            r.wf(),
            forall|c: Seq<char>| #[trigger] r.urls_of(c) == Seq::<T>::empty(),
    {
        UrlHistory { channels: Vec::new() }
    }

    /// The position of a channel's entry.
    fn find(&self, channel: &str) -> (r: Option<usize>)
        requires
            self.wf(),
        ensures
            match r {
                Some(i) => self.slot_of(channel@) == Some(i as int) && i < self.channels@.len(),
                None => self.slot_of(channel@) is None,
            },
    {
        let mut i: usize = 0;
        while i < self.channels.len()
            invariant
                self.wf(),
                i <= self.channels@.len(),
                forall|j: int| 0 <= j < i ==> (#[trigger] self.channels@[j]).channel@ != channel@,
            decreases self.channels@.len() - i,
        {
            if crate::registry::same_text(self.channels[i].channel.as_str(), channel) {
                proof {
                    self.lemma_slot(i as int);
                }
                return Some(i);
            }
            i = i + 1;
        }
        None
    }

    /// Remembers links seen in `channel`, in order, keeping only the most
    /// recent [`URLS_PER_CHANNEL`].
    pub fn add_urls(&mut self, channel: &str, urls: Vec<T>)
        requires
            old(self).wf(),
        ensures
            final(self).wf(),
            final(self).urls_of(channel@) == last_n(old(self).urls_of(channel@) + urls@, URLS_PER_CHANNEL as nat),
            forall|c: Seq<char>| c != channel@ ==> #[trigger] final(self).urls_of(c) == old(self).urls_of(c),
    {
        let ghost old_self = *self;
        let slot = match self.find(channel) {
            Some(i) => i,
            None => {
                let ghost before = self.channels@;
                self.channels.push(ChannelUrls { channel: channel.to_owned(), urls: Vec::new() });
                proof {
                    let n = before.len() as int;
                    assert forall|c: Seq<char>| c != channel@ implies #[trigger] self.slot_of(c) == old_self.slot_of(c) by {
                        if old_self.slot_of(c) is Some {
                            let k = old_self.slot_of(c)->0;
                            old_self.lemma_slot(k);
                            assert(self.channels@[k] == before[k]);
                            self.lemma_slot(k);
                        } else {
                            if self.slot_of(c) is Some {
                                let k = choose|k: int| 0 <= k < self.channels@.len() && (#[trigger] self.channels@[k]).channel@ == c;
                                assert(k != n);
                                assert(before[k].channel@ == c);
                            }
                        }
                    }
                    self.lemma_slot(n);
                }
                self.channels.len() - 1
            },
        };
        let ghost mid = *self;
        proof {
            mid.lemma_slot(slot as int);
        }
        let mut entry = self.channels.remove(slot);
        let ghost start = entry.urls@;
        let mut rest = urls;
        let ghost incoming = rest@;
        let mut k: usize = 0;
        let total = rest.len();
        while k < total
            invariant
                total == incoming.len(),
                k <= total,
                rest@ == incoming.subrange(k as int, total as int),
                start.len() <= URLS_PER_CHANNEL,
                entry.urls@ == last_n(start + incoming.subrange(0, k as int), URLS_PER_CHANNEL as nat),
                entry.channel@ == channel@,
            decreases total - k,
        {
            let u = rest.remove(0);
            let ghost before = entry.urls@;
            entry.urls.push(u);
            if entry.urls.len() > URLS_PER_CHANNEL {
                entry.urls.remove(0);
            }
            proof {
                let all = start + incoming.subrange(0, k as int);
                let all2 = start + incoming.subrange(0, k + 1);
                assert(all2 =~= all.push(incoming[k as int]));
                assert(entry.urls@ =~= last_n(all2, URLS_PER_CHANNEL as nat));
            }
            k = k + 1;
            proof {
                assert(rest@ =~= incoming.subrange(k as int, total as int));
            }
        }
        let ghost removed = self.channels@;
        self.channels.insert(slot, entry);
        proof {
            assert(incoming.subrange(0, total as int) =~= incoming);
            assert(mid.channels@[slot as int].urls@ == old_self.urls_of(channel@)) by {
                if old_self.slot_of(channel@) is None {
                    assert(mid.channels@[slot as int].urls@ =~= Seq::<T>::empty());
                }
            }
            assert forall|i: int| 0 <= i < self.channels@.len() && i != slot implies
                #[trigger] self.channels@[i] == mid.channels@[i] by {
                if i < slot {
                    assert(self.channels@[i] == removed[i]);
                } else {
                    assert(self.channels@[i] == removed[i - 1]);
                }
            }
            assert forall|c: Seq<char>| #[trigger] self.slot_of(c) == mid.slot_of(c) by {
                if mid.slot_of(c) is Some {
                    let k2 = mid.slot_of(c)->0;
                    mid.lemma_slot(k2);
                    self.lemma_slot(k2);
                } else if self.slot_of(c) is Some {
                    let k2 = choose|k2: int| 0 <= k2 < self.channels@.len() && (#[trigger] self.channels@[k2]).channel@ == c;
                    assert(mid.channels@[k2].channel@ == c);
                }
            }
        }
    }

    /// The link `idx` places back from the most recent one seen in
    /// `channel` (`0` is the most recent), if there is one.
    pub fn get(&self, channel: &str, idx: usize) -> (r: Option<&T>)
        requires
            self.wf(),
        ensures
            r == (if idx < self.urls_of(channel@).len() {
                Some(&self.urls_of(channel@)[self.urls_of(channel@).len() - 1 - idx])
            } else {
                None::<&T>
            }),
    {
        match self.find(channel) {
            None => None,
            Some(i) => {
                let urls = &self.channels[i].urls;
                if idx < urls.len() {
                    Some(&urls[urls.len() - 1 - idx])
                } else {
                    None
                }
            },
        }
    }
}

impl UrlParts {
    /// A copy of these parts.
    pub fn duplicate(&self) -> (r: UrlParts)
        ensures
            r@ == self@,
    {
        let segments = match &self.segments {
            None => None,
            Some(v) => {
                let mut out: Vec<String> = Vec::with_capacity(v.len());
                let mut i: usize = 0;
                while i < v.len()
                    invariant
                        i <= v@.len(),
                        out@.len() == i,
                        forall|j: int| 0 <= j < i ==> (#[trigger] out@[j])@ == v@[j]@,
                    decreases v@.len() - i,
                {
                    out.push(v[i].clone());
                    i = i + 1;
                }
                assert(out@.map_values(|x: String| x@) =~= v@.map_values(|x: String| x@));
                Some(out)
            },
        };
        let mut query: Vec<(String, String)> = Vec::with_capacity(self.query.len());
        let mut i: usize = 0;
        while i < self.query.len()
            invariant
                i <= self.query@.len(),
                query@.len() == i,
                forall|j: int| 0 <= j < i ==> (#[trigger] query@[j]).0@ == self.query@[j].0@ && query@[j].1@ == self.query@[j].1@,
            decreases self.query@.len() - i,
        {
            let (k, v) = &self.query[i];
            query.push((k.clone(), v.clone()));
            i = i + 1;
        }
        assert(query@.map_values(|p: (String, String)| (p.0@, p.1@)) =~= self.query@.map_values(|p: (String, String)| (p.0@, p.1@)));
        let host = match &self.host {
            Some(h) => Some(h.clone()),
            None => None,
        };
        UrlParts { text: self.text.clone(), host, segments, query }
    }
}

/// What the answer to a `λurl` command needs fetched.
#[derive(Clone, Debug, PartialEq, Eq)]
pub enum UrlLookup {
    /// No link is remembered at this index.
    Missing(usize),
    /// A video-platform link, to look up through the platform's API, with
    /// what it designates if that could be told.
    Youtube { url: UrlParts, id: Option<YtId> },
    /// Any other link: its page title is to be fetched.
    Page(UrlParts),
}

/// The answer a `λurl` command asks for.
#[derive(Clone, Debug, PartialEq, Eq)]
pub struct UrlReply {
    /// Where the answer goes.
    pub channel: String,
    /// The nickname to address, if any.
    pub target: Option<String>,
    /// What to fetch for it.
    pub lookup: UrlLookup,
}

/// The URL plugin's state: the links it has seen, and whether it can use
/// the video platform's API.
pub struct UrlPlugin {
    /// The links seen, per channel.
    pub history: UrlHistory<UrlParts>,
    /// The key for the video platform's API, if configured.
    pub yt_api_key: Option<String>,
}

/// The view of an optional video-platform id.
pub open spec fn yt_view(id: Option<YtId>) -> Option<YtIdModel> {
    match id {
        Some(i) => Some(i@),
        None => None,
    }
}

/// Whether `lookup` is what the plugin owes for link `idx` of `channel`:
/// nothing when no such link is remembered; a platform lookup when an API
/// key is configured and the link is on the platform; its page otherwise.
pub open spec fn lookup_for(history: UrlHistory<UrlParts>, has_key: bool, channel: Seq<char>, idx: usize, lookup: UrlLookup) -> bool {
    let urls = history.urls_of(channel);
    if idx >= urls.len() {
        lookup == UrlLookup::Missing(idx)
    } else {
        let u = urls[urls.len() - 1 - idx]@;
        let yt = has_key && (u.host matches Some(h) && is_yt_host(h));
        match lookup {
            UrlLookup::Youtube { url, id } => yt && url@ == u && yt_view(id) == yt_id_of(u),
            UrlLookup::Page(url) => !yt && url@ == u,
            UrlLookup::Missing(_) => false,
        }
    }
}

/// Whether `reply` answers the parsed command `cmd` (index, nickname):
/// addressed to that nickname, about the link at that index (the most
/// recent one when none is given).
pub open spec fn answers(plugin: UrlPlugin, cmd: (Option<usize>, Option<Seq<char>>), reply: UrlReply) -> bool {
    let (idx, target) = cmd;
    &&& command_view((idx, reply.target)) == cmd
    &&& lookup_for(plugin.history, plugin.yt_api_key is Some, reply.channel@,
        match idx { Some(i) => i, None => 0 }, reply.lookup)
}

impl UrlPlugin {
    /// A plugin that has seen no link yet.
    pub fn new(yt_api_key: Option<String>) -> (r: UrlPlugin)
        ensures
            r.history.wf(),
            forall|c: Seq<char>| #[trigger] r.history.urls_of(c) == Seq::<UrlParts>::empty(),
            r.yt_api_key == yt_api_key,
    {
        UrlPlugin { history: UrlHistory::new(), yt_api_key }
    }

    /// The plugin's name.
    pub fn get_name(&self) -> (r: &'static str)
        ensures
            r@ == "url"@,
    {
        "url"
    }

    /// Remembers links seen in `channel`, keeping the most recent
    /// [`URLS_PER_CHANNEL`].
    pub fn add_urls(&mut self, channel: &str, urls: Vec<UrlParts>)
        requires
            old(self).history.wf(),
        ensures
            final(self).history.wf(),
            final(self).yt_api_key == old(self).yt_api_key,
            final(self).history.urls_of(channel@)
                == last_n(old(self).history.urls_of(channel@) + urls@, URLS_PER_CHANNEL as nat),
            forall|c: Seq<char>| c != channel@ ==> #[trigger] final(self).history.urls_of(c) == old(self).history.urls_of(c),
    {
        self.history.add_urls(channel, urls);
    }

    /// What to fetch for link `idx` of `channel` (`0` is the most recent).
    pub fn get_url(&self, channel: &str, idx: usize) -> (r: UrlLookup)
        requires
            self.history.wf(),
        ensures
            lookup_for(self.history, self.yt_api_key is Some, channel@, idx, r),
    {
        match self.history.get(channel, idx) {
            None => UrlLookup::Missing(idx),
            Some(u) => {
                if self.yt_api_key.is_some() && is_yt_url(u) {
                    UrlLookup::Youtube { url: u.duplicate(), id: extract_yt_id(u) }
                } else {
                    UrlLookup::Page(u.duplicate())
                }
            },
        }
    }

    /// Handles a user message sent to `source` (a channel or a nickname):
    /// remembers the links it holds, then, if it is a `λurl` command and
    /// there is somewhere to answer, says what the answer needs.
    pub fn in_msg(&mut self, source: &str, text: &str, response_target: Option<&str>) -> (r: Option<UrlReply>)
        requires
            old(self).history.wf(),
        ensures
            final(self).history.wf(),
            final(self).yt_api_key == old(self).yt_api_key,
            exists|found: Seq<UrlParts>| {
                &&& found.len() == url_words(words(text@)).len()
                &&& (forall|i: int| 0 <= i < found.len() ==> (#[trigger] found[i])@ == url_model(url_words(words(text@))[i]))
                &&& final(self).history.urls_of(source@) == last_n(old(self).history.urls_of(source@) + found, URLS_PER_CHANNEL as nat)
            },
            forall|c: Seq<char>| c != source@ ==> #[trigger] final(self).history.urls_of(c) == old(self).history.urls_of(c),
            r is Some <==> (command_of(text@) is Some && response_target is Some),
            r matches Some(reply) ==> reply.channel@ == response_target->0@
                && answers(*final(self), command_of(text@)->0, reply),
    {
        let urls = parse_urls(text);
        let ghost found = urls@;
        self.add_urls(source, urls);
        assert(found.len() == url_words(words(text@)).len());
        let cmd = match parse_command(text) {
            None => return None,
            Some(c) => c,
        };
        let channel = match response_target {
            None => return None,
            Some(t) => t,
        };
        let (mb_idx, target) = cmd;
        let idx = match mb_idx {
            Some(i) => i,
            None => 0,
        };
        let lookup = self.get_url(channel, idx);
        Some(UrlReply { channel: channel.to_owned(), target, lookup })
    }
}

/// The text of a reply, addressed to `target` when one is given:
/// `target: message`.
pub fn format_reply(target: Option<&str>, message: &str) -> (r: String)
    ensures
        r@ == match target {
            Some(t) => t@ + ": "@ + message@,
            None => message@,
        },
{
    proof {
        reveal_strlit(": ");
    }
    match target {
        Some(t) => {
            let mut r = t.to_owned();
            r.append(": ");
            r.append(message);
            r
        },
        None => message.to_owned(),
    }
}

/// Whether a page can be searched for a title, going by its content type.
#[derive(Clone, Copy, Debug, PartialEq, Eq, Structural)]
pub enum PageKind {
    /// Its content type mentions text or HTML.
    Readable,
    /// It has some other content type.
    Unreadable,
    /// It has no readable content type.
    Untyped,
}

/// Pages whose content type mentions `text` or `html` are searched for a
/// title; others are not.
pub open spec fn page_kind_of(content_type: Option<Seq<char>>) -> PageKind {
    match content_type {
        Some(ct) => if has_infix(ct, "text"@) || has_infix(ct, "html"@) {
            PageKind::Readable
        } else {
            PageKind::Unreadable
        },
        None => PageKind::Untyped,
    }
}

/// Classifies a fetched page by its content type.
pub fn page_kind(content_type: Option<&str>) -> (r: PageKind)
    ensures
        r == page_kind_of(match content_type {
            Some(ct) => Some(ct@),
            None => None,
        }),
{
    match content_type {
        Some(ct) => {
            if contains_text(ct, "text") || contains_text(ct, "html") {
                PageKind::Readable
            } else {
                PageKind::Unreadable
            }
        },
        None => PageKind::Untyped,
    }
}

} // verus!
