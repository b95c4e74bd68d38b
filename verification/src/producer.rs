//! The decisions of whoever polls for the playback state and feeds the
//! engine.
//!
//! The poller asks what is playing, fetches the cover where it has to, and
//! sends the engine an event. What it remembers between two polls is the
//! name of the last track and the last cover. Asking, fetching and waiting
//! are the poller's own; what to fetch, what to send and how long to wait
//! is decided here.
use crate::engine::{art_bytes, Event};
use crate::track::Playing;
use vstd::prelude::*;
use vstd::string::StrSliceExecFns;

verus! {

/// Seconds to wait before asking again after a failure, and while nothing
/// is playing.
pub const RETRY_SECS: u32 = 5;

/// The longest wait between two polls while something is playing, in
/// seconds.
pub const POLL_SECS: u32 = 5;

/// What to do about the cover before the next event is sent.
#[derive(Debug, Clone, Copy, PartialEq, Eq, Structural)]
pub enum ArtPlan {
    /// Fetch the cover of the track.
    Fetch,
    /// Send the cover that was fetched last.
    Keep,
    /// The track has no cover: send none.
    Drop,
}

/// An encoding of covers that can be decoded.
#[derive(Debug, Clone, Copy, PartialEq, Eq, Structural)]
pub enum ImageKind {
    Jpeg,
    Png,
}

/// What the poller remembers between two polls.
#[derive(Debug)]
pub struct Producer {
    last_song: Option<String>,
    image_cache: Option<Vec<u8>>,
}

/// What the poller remembers, as plain values.
pub struct ProducerView {
    /// The name of the track of the last poll, if something was playing.
    pub last_song: Option<Seq<char>>,
    /// The cover that was fetched last, if there is one.
    pub image_cache: Option<Seq<u8>>,
}

impl View for Producer {
    type V = ProducerView;

    closed spec fn view(&self) -> ProducerView {
        ProducerView {
            last_song: match self.last_song {
                Some(name) => Some(name@),
                None => None,
            },
            image_cache: art_bytes(self.image_cache),
        }
    }
}

impl ProducerView {
    /// The track is another one than at the last poll.
    pub open spec fn changed(self, playing: Playing) -> bool {
        self.last_song != Some(playing.playing.name@)
    }

    /// What to do about the cover of a track: fetch it if there is none
    /// at hand or the track is a new one, keep the one at hand otherwise,
    /// and drop it if the track has none.
    pub open spec fn plan(self, playing: Playing) -> ArtPlan {
        if playing.playing.image_url is None {
            ArtPlan::Drop
        } else if self.image_cache is None || self.changed(playing) {
            ArtPlan::Fetch
        } else {
            ArtPlan::Keep
        }
    }

    /// The cover at hand after a poll that found a track: what was
    /// fetched, what was kept, or nothing.
    pub open spec fn cover_after(self, playing: Playing, fetched: Option<Seq<u8>>) -> Option<
        Seq<u8>,
    > {
        match self.plan(playing) {
            ArtPlan::Fetch => fetched,
            ArtPlan::Keep => self.image_cache,
            ArtPlan::Drop => None,
        }
    }
}

/// How long to wait after a poll that found a track `progress_secs` into
/// its `duration`: a second more than what is left of the track, but at
/// least one second and at most five.
pub open spec fn wait_secs(progress_secs: u32, duration: u32) -> int {
    let left = duration - progress_secs;
    if left < 0 {
        1
    } else if left + 1 > POLL_SECS {
        POLL_SECS as int
    } else {
        left + 1
    }
}

/// The place of the first `/` of a text, if it has one.
pub open spec fn slash(text: Seq<char>) -> Option<int> {
    if text.contains('/') {
        Some(choose|i: int| 0 <= i < text.len() && text[i] == '/' && !text.take(i).contains('/'))
    } else {
        None
    }
}

/// The kind of image that a content type names: what follows its first
/// `/` is `jpeg` or `jpg`, or `png`.
pub open spec fn kind_of(content_type: Seq<char>) -> Option<ImageKind> {
    match slash(content_type) {
        Some(i) => {
            let subtype = content_type.skip(i + 1);
            if subtype == seq!['j', 'p', 'e', 'g'] || subtype == seq!['j', 'p', 'g'] {
                Some(ImageKind::Jpeg)
            } else if subtype == seq!['p', 'n', 'g'] {
                Some(ImageKind::Png)
            } else {
                None
            }
        },
        None => None,
    }
}

/// Whether an HTTP status says that the request succeeded.
pub fn is_success(status: u16) -> (ok: bool)
    ensures
        ok == (200 <= status < 300),
{
    200 <= status && status < 300
}

/// How many seconds to wait after a poll that found a track.
pub fn poll_delay_secs(progress_secs: u32, duration: u32) -> (secs: u32)
    ensures
        secs == wait_secs(progress_secs, duration),
        1 <= secs <= POLL_SECS,
{
    if progress_secs > duration {
        1
    } else if duration - progress_secs >= POLL_SECS {
        POLL_SECS
    } else {
        duration - progress_secs + 1
    }
}

proof fn lemma_first_slash(text: Seq<char>, i: int)
    requires
        0 <= i < text.len(),
        text[i] == '/',
        forall|j: int| 0 <= j < i ==> text[j] != '/',
    ensures
        slash(text) == Some(i),
{
    assert(text.contains('/'));
    assert(!text.take(i).contains('/'));
    let k = slash(text)->Some_0;
    assert(0 <= k < text.len() && text[k] == '/' && !text.take(k).contains('/'));
    if k > i {
        assert(text.take(k)[i] == '/');
        assert(text.take(k).contains('/'));
    }
}

/// The kind of image that a content type names, if it names one that can
/// be decoded.
pub fn image_kind(content_type: &str) -> (kind: Option<ImageKind>)
    ensures
        kind == kind_of(content_type@),
{
    let length: usize = content_type.unicode_len();
    let mut i: usize = 0;
    while i < length
        invariant
            i <= length,
            length == content_type@.len(),
            forall|j: int| 0 <= j < i ==> content_type@[j] != '/',
        decreases length - i,
    {
        if content_type.get_char(i) == '/' {
            proof {
                lemma_first_slash(content_type@, i as int);
            }
            let rest: usize = length - i - 1;
            let ghost subtype = content_type@.skip(i + 1);
            if rest == 4 && content_type.get_char(i + 1) == 'j' && content_type.get_char(i + 2)
                == 'p' && content_type.get_char(i + 3) == 'e' && content_type.get_char(i + 4)
                == 'g' {
                assert(subtype =~= seq!['j', 'p', 'e', 'g']);
                return Some(ImageKind::Jpeg);
            }
            if rest == 3 && content_type.get_char(i + 1) == 'j' && content_type.get_char(i + 2)
                == 'p' && content_type.get_char(i + 3) == 'g' {
                assert(subtype =~= seq!['j', 'p', 'g']);
                return Some(ImageKind::Jpeg);
            }
            if rest == 3 && content_type.get_char(i + 1) == 'p' && content_type.get_char(i + 2)
                == 'n' && content_type.get_char(i + 3) == 'g' {
                assert(subtype =~= seq!['p', 'n', 'g']);
                return Some(ImageKind::Png);
            }
            proof {
                assert(subtype.len() == rest);
                if subtype == seq!['j', 'p', 'e', 'g'] {
                    assert(subtype[0] == 'j' && subtype[1] == 'p' && subtype[2] == 'e'
                        && subtype[3] == 'g');
                }
                if subtype == seq!['j', 'p', 'g'] {
                    assert(subtype[0] == 'j' && subtype[1] == 'p' && subtype[2] == 'g');
                }
                if subtype == seq!['p', 'n', 'g'] {
                    assert(subtype[0] == 'p' && subtype[1] == 'n' && subtype[2] == 'g');
                }
            }
            return None;
        }
        i += 1;
    }
    proof {
        if content_type@.contains('/') {
            let j = choose|j: int| 0 <= j < content_type@.len() && content_type@[j] == '/';
            assert(content_type@[j] != '/');
        }
    }
    None
}

impl Producer {
    /// A poller that has seen nothing yet.
    pub fn new() -> (producer: Producer)
        ensures
            producer@ == (ProducerView { last_song: None, image_cache: None }),
    {
        Producer { last_song: None, image_cache: None }
    }

    /// Whether a track is another one than at the last poll.
    pub fn track_changed(&self, playing: &Playing) -> (changed: bool)
        ensures
            changed == self@.changed(*playing),
    {
        match &self.last_song {
            Some(last) => !(*last == playing.playing.name),
            None => true,
        }
    }

    /// What to do about the cover of the track that a poll found.
    pub fn art_plan(&self, playing: &Playing) -> (plan: ArtPlan)
        ensures
            plan == self@.plan(*playing),
    {
        if playing.playing.image_url.is_none() {
            ArtPlan::Drop
        } else if self.image_cache.is_none() || self.track_changed(playing) {
            ArtPlan::Fetch
        } else {
            ArtPlan::Keep
        }
    }

    /// The event for a poll that found a track, with the cover if one was
    /// fetched for it: the playback state, the cover that is at hand now,
    /// and whether the track is a new one. The poller remembers the track
    /// and the cover.
    pub fn track_event(&mut self, playing: Playing, fetched: Option<Vec<u8>>) -> (event: Event)
        ensures
            final(self)@.last_song == Some(playing.playing.name@),
            final(self)@.image_cache == old(self)@.cover_after(playing, art_bytes(fetched)),
            event matches Event::TrackChanged(state, art, changed) && state == Some(playing)
                && art_bytes(art) == final(self)@.image_cache && changed == old(self)@.changed(
                playing,
            ),
    {
        let changed = self.track_changed(&playing);
        match self.art_plan(&playing) {
            ArtPlan::Fetch => {
                self.image_cache = fetched;
            },
            ArtPlan::Keep => {},
            ArtPlan::Drop => {
                self.image_cache = None;
            },
        }
        self.last_song = Some(playing.playing.name.clone());
        let art = match &self.image_cache {
            Some(bytes) => Some(bytes.clone()),
            None => None,
        };
        Event::TrackChanged(Some(playing), art, changed)
    }

    /// The event for a poll that found nothing playing: no track and no
    /// cover, and the flag says whether something was playing before. The
    /// poller forgets the track.
    pub fn idle_event(&mut self) -> (event: Event)
        ensures
            final(self)@.last_song is None,
            final(self)@.image_cache == old(self)@.image_cache,
            event matches Event::TrackChanged(state, art, changed) && state is None && art is None
                && changed == (old(self)@.last_song is Some),
    {
        let changed = self.last_song.is_some();
        self.last_song = None;
        Event::TrackChanged(None, None, changed)
    }
}

} // verus!
