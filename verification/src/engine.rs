//! The engine that turns the stream of events into redraws.
//!
//! The engine owns what is shown: the track, its cover, and how far each
//! line of text has scrolled. It takes one event at a time, together with
//! the time in milliseconds on the caller's clock, changes its state and
//! hands back the batches to write to the display, in order.
//!
//! Text that is too wide for its line scrolls one pixel for each scroll
//! tick. Title and artists take turns: when the line whose turn it is has
//! come round, or needs no scrolling, the turn passes to the other line and
//! nothing moves for three seconds.
use crate::color::BLACK;
use crate::graphics::{
    advanced, artist_text, artists_line, cover_region, cycle_width, draw_album_cover,
    draw_current_name_and_artist, draw_current_progress, draw_no_song, drawable, is_drawable,
    lemma_shift_comes_round, name_and_artist_region, needs_scroll, no_song_region, overflows,
    progress_region, settled, shift_after, title_text, MAX_COVER_BYTES,
};
use crate::katakana::full_katakana_to_half_katakana;
use crate::raster::Font;
use crate::surface::{Blit, BlitView};
use crate::track::Playing;
use vstd::prelude::*;

verus! {

/// How long nothing scrolls after a track has changed or a line has come
/// round, in milliseconds.
pub const COOL_DOWN_MS: u64 = 3000;

/// What reaches the engine.
#[derive(Debug)]
pub enum Event {
    /// A fresh playback state, or none if nothing is playing; the cover of
    /// the track as big-endian colour words, if it has one; and whether the
    /// track is another one than before.
    TrackChanged(Option<Playing>, Option<Vec<u8>>, bool),
    /// So many seconds have passed since the last playback state.
    ProgressTick(u32),
    /// It is time to scroll by a pixel.
    ScrollTick,
}

/// How far the lines of text have scrolled, and whose turn it is.
#[derive(Debug, Clone, Copy, PartialEq, Eq, Structural)]
pub struct ScrollState {
    /// The shift of the title, in pixels.
    pub title_shift: u32,
    /// The shift of the artists, in pixels.
    pub artist_shift: u32,
    /// It is the title's turn to scroll, not the artists'.
    pub shifting_title: bool,
    /// When the track last changed or a line last came round.
    pub scroll_ended_at: u64,
}

/// What the engine is doing about scrolling.
#[derive(Debug, Clone, Copy, PartialEq, Eq, Structural)]
pub enum Phase {
    /// Nothing scrolls: nothing is playing, or the line whose turn it is
    /// fits.
    Idle,
    /// The title scrolls.
    ScrollingTitle,
    /// The artists scroll.
    ScrollingArtist,
}

impl ScrollState {
    /// Nothing has scrolled, and it is the title's turn.
    pub open spec fn rest(now: u64) -> ScrollState {
        ScrollState { title_shift: 0, artist_shift: 0, shifting_title: true, scroll_ended_at: now }
    }

    /// At most one line is under way, the one whose turn it is.
    pub open spec fn wf(self) -> bool {
        &&& self.title_shift < u32::MAX
        &&& self.artist_shift < u32::MAX
        &&& self.shifting_title ==> self.artist_shift == 0
        &&& !self.shifting_title ==> self.title_shift == 0
    }

    /// More than the cool-down has passed since the last change.
    pub open spec fn cooled_down(self, now: u64) -> bool {
        now - self.scroll_ended_at > COOL_DOWN_MS
    }

    /// The state after a scroll tick that is due, for a track: the line
    /// whose turn it is moves on by a pixel; if that brings it round, or
    /// if it fits and does not scroll, the turn passes to the other line
    /// and the cool-down begins again.
    pub open spec fn ticked(self, playing: Playing, now: u64) -> ScrollState {
        if self.shifting_title {
            let title = settled(Font::Title, title_text(playing), (self.title_shift + 1) as nat);
            let artist = settled(Font::Artist, artist_text(playing), self.artist_shift as nat);
            ScrollState {
                title_shift: title as u32,
                artist_shift: artist as u32,
                shifting_title: title != 0,
                scroll_ended_at: if title == 0 {
                    now
                } else {
                    self.scroll_ended_at
                },
            }
        } else {
            let title = settled(Font::Title, title_text(playing), self.title_shift as nat);
            let artist = settled(
                Font::Artist,
                artist_text(playing),
                (self.artist_shift + 1) as nat,
            );
            ScrollState {
                title_shift: title as u32,
                artist_shift: artist as u32,
                shifting_title: artist == 0,
                scroll_ended_at: if artist == 0 {
                    now
                } else {
                    self.scroll_ended_at
                },
            }
        }
    }

    /// The shifts at which the text is drawn on a scroll tick that is due.
    pub open spec fn drawn_shifts(self) -> (nat, nat) {
        if self.shifting_title {
            ((self.title_shift + 1) as nat, self.artist_shift as nat)
        } else {
            (self.title_shift as nat, (self.artist_shift + 1) as nat)
        }
    }
}

/// What the engine holds.
pub struct EngineView {
    /// The playback state that is shown, if something is playing.
    pub playing: Option<Playing>,
    /// The cover that is shown, if the track has one.
    pub art: Option<Seq<u8>>,
    /// How far the text has scrolled.
    pub scroll: ScrollState,
}

/// The bytes of a cover, if there is one.
pub open spec fn art_bytes(art: Option<Vec<u8>>) -> Option<Seq<u8>> {
    match art {
        Some(bytes) => Some(bytes@),
        None => None,
    }
}

/// The progress that a tick shows: the seconds of the playback state and
/// the seconds passed since, as far as they can be counted.
pub open spec fn estimated_progress(progress_secs: u32, delta: u32) -> nat {
    if progress_secs + delta <= u32::MAX {
        (progress_secs + delta) as nat
    } else {
        u32::MAX as nat
    }
}

impl EngineView {
    /// The shifts are sound, and what is shown can be drawn.
    pub open spec fn wf(self) -> bool {
        &&& self.scroll.wf()
        &&& self.playing is Some ==> drawable(self.playing->Some_0)
        &&& self.art is Some ==> self.art->Some_0.len() <= MAX_COVER_BYTES
    }

    /// What the engine is doing about scrolling.
    pub open spec fn phase(self) -> Phase {
        match self.playing {
            None => Phase::Idle,
            Some(playing) => if self.scroll.shifting_title {
                if overflows(Font::Title, title_text(playing)) {
                    Phase::ScrollingTitle
                } else {
                    Phase::Idle
                }
            } else {
                if overflows(Font::Artist, artist_text(playing)) {
                    Phase::ScrollingArtist
                } else {
                    Phase::Idle
                }
            },
        }
    }

    /// The state after an event, and the batches that the event asks for.
    pub open spec fn step(self, event: Event, now: u64) -> (EngineView, Seq<BlitView>) {
        match event {
            Event::TrackChanged(None, _, _) => (
                EngineView { playing: None, art: None, scroll: ScrollState::rest(now) },
                seq![no_song_region().composite(BLACK)],
            ),
            Event::TrackChanged(Some(playing), art, true) => (
                EngineView {
                    playing: Some(playing),
                    art: art_bytes(art),
                    scroll: ScrollState::rest(now),
                },
                seq![
                    cover_region(
                        match art {
                            Some(bytes) => bytes@,
                            None => Seq::<u8>::empty(),
                        },
                    ).composite(BLACK),
                    name_and_artist_region(playing, 0, 0).composite(BLACK),
                    progress_region(
                        playing.progress_secs as nat,
                        playing.playing.duration as nat,
                    ).composite(BLACK),
                ],
            ),
            Event::TrackChanged(Some(playing), _, false) => (
                EngineView { playing: Some(playing), ..self },
                seq![
                    progress_region(
                        playing.progress_secs as nat,
                        playing.playing.duration as nat,
                    ).composite(BLACK),
                ],
            ),
            Event::ProgressTick(delta) => match self.playing {
                Some(playing) => (
                    self,
                    seq![
                        progress_region(
                            estimated_progress(playing.progress_secs, delta),
                            playing.playing.duration as nat,
                        ).composite(BLACK),
                    ],
                ),
                None => (self, Seq::empty()),
            },
            Event::ScrollTick => match self.playing {
                Some(playing) => if self.scroll.cooled_down(now) {
                    (
                        EngineView { scroll: self.scroll.ticked(playing, now), ..self },
                        seq![
                            name_and_artist_region(
                                playing,
                                self.scroll.drawn_shifts().0,
                                self.scroll.drawn_shifts().1,
                            ).composite(BLACK),
                        ],
                    )
                } else {
                    (self, Seq::empty())
                },
                None => (self, Seq::empty()),
            },
        }
    }
}

/// An event that the engine can take: its track can be drawn, and its
/// cover is not too long.
pub open spec fn acceptable(event: Event) -> bool {
    match event {
        Event::TrackChanged(playing, art, _) => {
            &&& playing is Some ==> drawable(playing->Some_0)
            &&& art is Some ==> art->Some_0@.len() <= MAX_COVER_BYTES
        },
        _ => true,
    }
}

/// The states after a row of events, each taken at its time, in order.
pub open spec fn run(state: EngineView, events: Seq<(Event, u64)>) -> EngineView
    decreases events.len(),
{
    if events.len() == 0 {
        state
    } else {
        run(state, events.drop_last()).step(events.last().0, events.last().1).0
    }
}

/// The batches that a row of events asks for, in the order of the events.
pub open spec fn run_blits(state: EngineView, events: Seq<(Event, u64)>) -> Seq<BlitView>
    decreases events.len(),
{
    if events.len() == 0 {
        Seq::empty()
    } else {
        run_blits(state, events.drop_last()) + run(state, events.drop_last()).step(
            events.last().0,
            events.last().1,
        ).1
    }
}

/// Every step keeps the engine sound.
pub proof fn lemma_step_keeps_wf(state: EngineView, event: Event, now: u64)
    requires
        state.wf(),
        acceptable(event),
    ensures
        state.step(event, now).0.wf(),
{
}

/// A playback state of the track that is shown already changes neither how
/// far the text has scrolled nor the cover: only the progress bar is
/// drawn again.
pub proof fn lemma_same_track_keeps_scroll(
    state: EngineView,
    playing: Playing,
    art: Option<Vec<u8>>,
    now: u64,
)
    ensures
        state.step(Event::TrackChanged(Some(playing), art, false), now).0.scroll == state.scroll,
        state.step(Event::TrackChanged(Some(playing), art, false), now).0.art == state.art,
        state.step(Event::TrackChanged(Some(playing), art, false), now).1 == seq![
            progress_region(
                playing.progress_secs as nat,
                playing.playing.duration as nat,
            ).composite(BLACK),
        ],
{
}

/// A progress tick changes nothing that the engine holds.
pub proof fn lemma_progress_tick_keeps_state(state: EngineView, delta: u32, now: u64)
    ensures
        state.step(Event::ProgressTick(delta), now).0 == state,
{
}

/// A scroll tick that comes while nothing is playing, or before the
/// cool-down is over, changes nothing and draws nothing.
pub proof fn lemma_early_tick_does_nothing(state: EngineView, now: u64)
    requires
        state.playing is None || !state.scroll.cooled_down(now),
    ensures
        state.step(Event::ScrollTick, now) == (state, Seq::<BlitView>::empty()),
{
}

/// A new track, and the end of playback, leave nothing scrolled and give
/// the turn to the title; after a new track the title scrolls if it is too
/// wide, and otherwise nothing scrolls.
pub proof fn lemma_track_change_rests(
    state: EngineView,
    playing: Option<Playing>,
    art: Option<Vec<u8>>,
    changed: bool,
    now: u64,
)
    requires
        playing is None || changed,
    ensures
        state.step(Event::TrackChanged(playing, art, changed), now).0.scroll == ScrollState::rest(
            now,
        ),
        state.step(Event::TrackChanged(playing, art, changed), now).0.phase() == if playing is Some
            && overflows(Font::Title, title_text(playing->Some_0)) {
            Phase::ScrollingTitle
        } else {
            Phase::Idle
        },
{
}

/// A scroll tick that is due moves the line whose turn it is, and no
/// other, by one pixel. The shift of a line stays below the width that the
/// line has when it scrolls. When the shift has come round, and when the line
/// fits and does not scroll, the turn passes to the other line and the
/// cool-down begins again; until then the turn and the clock stay.
pub proof fn lemma_due_tick_moves_one_line(state: EngineView, now: u64)
    requires
        state.wf(),
        state.playing is Some,
        state.scroll.cooled_down(now),
    ensures
        ({
            let playing = state.playing->Some_0;
            let before = state.scroll;
            let after = state.step(Event::ScrollTick, now).0.scroll;
            let title_width = cycle_width(Font::Title, title_text(playing));
            let artist_width = cycle_width(Font::Artist, artist_text(playing));
            &&& after.wf()
            &&& before.shifting_title ==> {
                &&& after.artist_shift == 0
                &&& after.title_shift == if overflows(Font::Title, title_text(playing)) {
                    advanced(title_width, before.title_shift as nat)
                } else {
                    0
                }
                &&& title_width > 0 ==> after.title_shift < title_width
                &&& after.shifting_title == (after.title_shift != 0)
            }
            &&& !before.shifting_title ==> {
                &&& after.title_shift == 0
                &&& after.artist_shift == if overflows(Font::Artist, artist_text(playing)) {
                    advanced(artist_width, before.artist_shift as nat)
                } else {
                    0
                }
                &&& artist_width > 0 ==> after.artist_shift < artist_width
                &&& after.shifting_title == (after.artist_shift == 0)
            }
            &&& after.scroll_ended_at == if after.shifting_title != before.shifting_title {
                now
            } else {
                before.scroll_ended_at
            }
        }),
{
}

/// Scroll ticks at the given times.
pub open spec fn scroll_ticks(times: Seq<u64>) -> Seq<(Event, u64)> {
    times.map_values(|now: u64| (Event::ScrollTick, now))
}

/// A title that is too wide scrolls once round in as many due ticks as it
/// is wide, and in no fewer. From rest, after fewer ticks than the width,
/// the shift is the number of ticks, and it is still the title's turn;
/// with the tick that makes the width full the shift is back at rest, the
/// turn passes to the artists, and the cool-down begins.
pub proof fn lemma_title_scrolls_once_round(state: EngineView, times: Seq<u64>)
    requires
        state.wf(),
        state.playing is Some,
        state.scroll.shifting_title,
        state.scroll.title_shift == 0,
        overflows(Font::Title, title_text(state.playing->Some_0)),
        0 < times.len() <= cycle_width(Font::Title, title_text(state.playing->Some_0)),
        forall|i: int| 0 <= i < times.len() ==> state.scroll.cooled_down(#[trigger] times[i]),
    ensures
        ({
            let width = cycle_width(Font::Title, title_text(state.playing->Some_0));
            let after = run(state, scroll_ticks(times));
            &&& after.playing == state.playing
            &&& after.scroll.title_shift == shift_after(width, times.len())
            &&& after.scroll.artist_shift == 0
            &&& times.len() < width ==> {
                &&& after.scroll.title_shift == times.len()
                &&& after.scroll.shifting_title
                &&& after.scroll.scroll_ended_at == state.scroll.scroll_ended_at
            }
            &&& times.len() == width ==> {
                &&& after.scroll.title_shift == 0
                &&& !after.scroll.shifting_title
                &&& after.scroll.scroll_ended_at == times.last()
            }
        }),
    decreases times.len(),
{
    let width = cycle_width(Font::Title, title_text(state.playing->Some_0));
    let events = scroll_ticks(times);
    let earlier = times.drop_last();
    assert(events.drop_last() =~= scroll_ticks(earlier));
    assert(events.last() == (Event::ScrollTick, times.last()));
    lemma_shift_comes_round(width, times.len());
    if times.len() == 1 {
        assert(run(state, scroll_ticks(earlier)) == state);
        assert(shift_after(width, 0) == 0);
    } else {
        assert forall|i: int| 0 <= i < earlier.len() implies state.scroll.cooled_down(
            #[trigger] earlier[i],
        ) by {
            assert(earlier[i] == times[i]);
        }
        lemma_title_scrolls_once_round(state, earlier);
        lemma_shift_comes_round(width, earlier.len());
    }
}

/// Whether the engine can take an event.
pub fn is_acceptable(event: &Event) -> (ok: bool)
    ensures
        ok == acceptable(*event),
{
    match event {
        Event::TrackChanged(playing, art, _) => {
            let text_fits = match playing {
                Some(playing) => is_drawable(playing),
                None => true,
            };
            let art_fits = match art {
                Some(bytes) => bytes.len() <= MAX_COVER_BYTES,
                None => true,
            };
            text_fits && art_fits
        },
        _ => true,
    }
}

/// The engine: what is shown, and how far the text has scrolled.
#[derive(Debug)]
pub struct Engine {
    playing: Option<Playing>,
    art: Option<Vec<u8>>,
    scroll: ScrollState,
}

impl View for Engine {
    type V = EngineView;

    closed spec fn view(&self) -> EngineView {
        EngineView { playing: self.playing, art: art_bytes(self.art), scroll: self.scroll }
    }
}

impl Engine {
    /// An engine that shows nothing yet.
    pub fn new(now: u64) -> (engine: Engine)
        ensures
            engine@ == (EngineView { playing: None, art: None, scroll: ScrollState::rest(now) }),
            engine@.wf(),
    {
        Engine {
            playing: None,
            art: None,
            scroll: ScrollState {
                title_shift: 0,
                artist_shift: 0,
                shifting_title: true,
                scroll_ended_at: now,
            },
        }
    }

    /// The playback state that is shown.
    pub fn playing(&self) -> (playing: &Option<Playing>)
        ensures
            *playing == self@.playing,
    {
        &self.playing
    }

    /// The cover that is shown.
    pub fn art(&self) -> (art: &Option<Vec<u8>>)
        ensures
            art_bytes(*art) == self@.art,
    {
        &self.art
    }

    /// How far the text has scrolled.
    pub fn scroll(&self) -> (scroll: ScrollState)
        ensures
            scroll == self@.scroll,
    {
        self.scroll
    }

    /// What the engine is doing about scrolling.
    pub fn phase(&self) -> (phase: Phase)
        requires
            self@.wf(),
        ensures
            phase == self@.phase(),
    {
        match &self.playing {
            None => Phase::Idle,
            Some(playing) => {
                if self.scroll.shifting_title {
                    let title = full_katakana_to_half_katakana(playing.playing.name.as_str());
                    if needs_scroll(Font::Title, title.as_str()) {
                        Phase::ScrollingTitle
                    } else {
                        Phase::Idle
                    }
                } else {
                    let artists = artists_line(&playing.playing.artists);
                    if needs_scroll(Font::Artist, artists.as_str()) {
                        Phase::ScrollingArtist
                    } else {
                        Phase::Idle
                    }
                }
            },
        }
    }

    /// Takes a row of events, each with its time, in the order given, and
    /// returns the batches to write to the display, in the same order.
    pub fn handle_all(&mut self, events: Vec<(Event, u64)>) -> (blits: Vec<Blit>)
        requires
            old(self)@.wf(),
            forall|i: int| 0 <= i < events@.len() ==> acceptable(#[trigger] events@[i].0),
        ensures
            final(self)@.wf(),
            final(self)@ == run(old(self)@, events@),
            blits.deep_view() == run_blits(old(self)@, events@),
            forall|i: int| 0 <= i < blits@.len() ==> (#[trigger] blits@[i])@.wf(),
    {
        let mut blits: Vec<Blit> = Vec::new();
        let mut events = events;
        let ghost all = events@;
        let ghost start = self@;
        proof {
            assert(all.take(0) =~= Seq::<(Event, u64)>::empty());
            assert(all.skip(0) =~= all);
        }
        while events.len() > 0
            invariant
                self@.wf(),
                events@.len() <= all.len(),
                events@ == all.skip(all.len() - events@.len()),
                forall|i: int| 0 <= i < all.len() ==> acceptable(#[trigger] all[i].0),
                self@ == run(start, all.take(all.len() - events@.len())),
                blits.deep_view() == run_blits(start, all.take(all.len() - events@.len())),
                forall|i: int| 0 <= i < blits@.len() ==> (#[trigger] blits@[i])@.wf(),
            decreases events@.len(),
        {
            let ghost done = all.len() - events@.len();
            let (event, now) = events.remove(0);
            proof {
                assert(event == all[done as int].0 && now == all[done as int].1);
                assert(events@ =~= all.skip(done + 1));
                assert(all.take(done + 1).drop_last() =~= all.take(done as int));
                assert(all.take(done + 1).last() == all[done as int]);
            }
            let ghost before = blits.deep_view();
            let mut more = self.handle(event, now);
            let ghost added = more.deep_view();
            blits.append(&mut more);
            proof {
                assert(blits.deep_view() =~= before + added);
            }
        }
        proof {
            assert(all.take(all.len() as int) =~= all);
        }
        blits
    }

    /// Takes one event if the engine can take it, and returns the batches
    /// to write to the display. An event whose track or cover is too long
    /// to be drawn is left aside: the engine stays as it is and there is
    /// nothing to write.
    pub fn try_handle(&mut self, event: Event, now: u64) -> (blits: Option<Vec<Blit>>)
        requires
            old(self)@.wf(),
        ensures
            final(self)@.wf(),
            blits is Some <==> acceptable(event),
            blits is Some ==> final(self)@ == old(self)@.step(event, now).0,
            blits is Some ==> blits->Some_0.deep_view() == old(self)@.step(event, now).1,
            blits is Some ==> forall|i: int|
                0 <= i < blits->Some_0@.len() ==> (#[trigger] blits->Some_0@[i])@.wf(),
            blits is None ==> final(self)@ == old(self)@,
    {
        if is_acceptable(&event) {
            Some(self.handle(event, now))
        } else {
            None
        }
    }

    /// Takes one event at the time `now`, in milliseconds, and returns the
    /// batches to write to the display, in order.
    pub fn handle(&mut self, event: Event, now: u64) -> (blits: Vec<Blit>)
        requires
            old(self)@.wf(),
            acceptable(event),
        ensures
            final(self)@.wf(),
            final(self)@ == old(self)@.step(event, now).0,
            blits.deep_view() == old(self)@.step(event, now).1,
            forall|i: int| 0 <= i < blits@.len() ==> (#[trigger] blits@[i])@.wf(),
            event matches Event::TrackChanged(None, _, _) ==> blits@.len() == 1 && blits@[0]@.fills(
                0,
                0,
                128,
                160,
            ),
    {
        let mut blits: Vec<Blit> = Vec::new();
        match event {
            Event::TrackChanged(None, _, _) => {
                self.playing = None;
                self.art = None;
                self.scroll = ScrollState {
                    title_shift: 0,
                    artist_shift: 0,
                    shifting_title: true,
                    scroll_ended_at: now,
                };
                blits.push(draw_no_song());
            },
            Event::TrackChanged(Some(playing), art, true) => {
                let cover = match &art {
                    Some(bytes) => draw_album_cover(Some(bytes.as_slice())),
                    None => draw_album_cover(None),
                };
                let mut title_shift: u32 = 0;
                let mut artist_shift: u32 = 0;
                let text = draw_current_name_and_artist(
                    &playing,
                    &mut title_shift,
                    &mut artist_shift,
                );
                let bar = draw_current_progress(playing.progress_secs, playing.playing.duration);
                self.playing = Some(playing);
                self.art = art;
                self.scroll = ScrollState {
                    title_shift,
                    artist_shift,
                    shifting_title: true,
                    scroll_ended_at: now,
                };
                blits.push(cover);
                blits.push(text);
                blits.push(bar);
            },
            Event::TrackChanged(Some(playing), _, false) => {
                blits.push(draw_current_progress(playing.progress_secs, playing.playing.duration));
                self.playing = Some(playing);
            },
            Event::ProgressTick(delta) => {
                match &self.playing {
                    Some(playing) => {
                        let progress: u32 = playing.progress_secs.saturating_add(delta);
                        blits.push(draw_current_progress(progress, playing.playing.duration));
                    },
                    None => {},
                }
            },
            Event::ScrollTick => {
                let due: bool = now > self.scroll.scroll_ended_at && now
                    - self.scroll.scroll_ended_at > COOL_DOWN_MS;
                if due {
                    let mut scroll = self.scroll;
                    match &self.playing {
                        Some(playing) => {
                            if scroll.shifting_title {
                                scroll.title_shift = scroll.title_shift + 1;
                            } else {
                                scroll.artist_shift = scroll.artist_shift + 1;
                            }
                            blits.push(
                                draw_current_name_and_artist(
                                    playing,
                                    &mut scroll.title_shift,
                                    &mut scroll.artist_shift,
                                ),
                            );
                            if scroll.shifting_title {
                                if scroll.title_shift == 0 {
                                    scroll.shifting_title = false;
                                    scroll.scroll_ended_at = now;
                                }
                            } else {
                                if scroll.artist_shift == 0 {
                                    scroll.shifting_title = true;
                                    scroll.scroll_ended_at = now;
                                }
                            }
                        },
                        None => {},
                    }
                    self.scroll = scroll;
                }
            },
        }
        proof {
            assert(blits.deep_view() =~= old(self)@.step(event, now).1);
        }
        blits
    }
}

} // verus!
