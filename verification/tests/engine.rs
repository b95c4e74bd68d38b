use now_playing::engine::{Engine, Event, Phase, ScrollState, COOL_DOWN_MS};
use now_playing::graphics::{
    draw_album_cover, draw_current_name_and_artist, draw_current_progress, draw_no_song,
    is_drawable,
};
use now_playing::surface::Blit;
use now_playing::track::{Device, DeviceType, Playing, RepeatState, SimpleArtist, SimpleTrack};

const LONG: &str = "The Low Spark of High Heeled Boys";
const LONG_WIDTH: u32 = 7 * 35;

fn track(name: &str, artists: &[&str], duration: u32, progress: u32) -> Playing {
    Playing {
        device: Device {
            id: Some(String::from("d1")),
            is_active: true,
            is_private_session: false,
            is_restricted: false,
            name: String::from("desk"),
            _type: DeviceType::Speaker,
            volume_percent: None,
        },
        context: None,
        repeat: RepeatState::Context,
        shuffled: true,
        playing: SimpleTrack {
            name: String::from(name),
            artists: artists
                .iter()
                .map(|artist| SimpleArtist { name: String::from(*artist), url: None })
                .collect(),
            image_url: Some(String::from("https://covers.example/1.jpg")),
            small_url: None,
            url: None,
            duration,
            },
        progress_secs: progress,
    }
}

fn text_of(playing: &Playing, title_shift: u32, artist_shift: u32) -> Blit {
    let mut title_shift = title_shift;
    let mut artist_shift = artist_shift;
    draw_current_name_and_artist(playing, &mut title_shift, &mut artist_shift)
}

fn art() -> Vec<u8> {
    (0..114 * 114 * 2).map(|i| (i % 251) as u8).collect()
}

fn rest(now: u64) -> ScrollState {
    ScrollState { title_shift: 0, artist_shift: 0, shifting_title: true, scroll_ended_at: now }
}

#[test]
fn new_engine_shows_nothing() {
    let engine = Engine::new(17);
    assert!(engine.playing().is_none());
    assert!(engine.art().is_none());
    assert_eq!(engine.scroll(), rest(17));
    assert_eq!(engine.phase(), Phase::Idle);
}

#[test]
fn new_track_draws_cover_text_and_progress() {
    let mut engine = Engine::new(0);
    let playing = track("So What", &["Miles Davis"], 562, 30);
    let blits = engine.handle(Event::TrackChanged(Some(playing.clone()), Some(art()), true), 100);
    assert_eq!(
        blits,
        vec![
            draw_album_cover(Some(&art())),
            text_of(&playing, 0, 0),
            draw_current_progress(30, 562),
        ]
    );
    assert_eq!(engine.playing().as_ref().unwrap().playing.name, "So What");
    assert_eq!(engine.art(), &Some(art()));
    assert_eq!(engine.scroll(), rest(100));
}

#[test]
fn new_track_without_cover_draws_an_empty_cover() {
    let mut engine = Engine::new(0);
    let playing = track("So What", &["Miles Davis"], 562, 30);
    let blits = engine.handle(Event::TrackChanged(Some(playing), None, true), 100);
    assert_eq!(blits.len(), 3);
    assert_eq!(blits[0], draw_album_cover(None));
    assert!(engine.art().is_none());
}

#[test]
fn same_track_redraws_only_the_progress_bar() {
    let mut engine = Engine::new(0);
    let playing = track(LONG, &["Traffic"], 700, 0);
    engine.handle(Event::TrackChanged(Some(playing.clone()), Some(art()), true), 0);
    for tick in 0..5 {
        engine.handle(Event::ScrollTick, 4000 + tick);
    }
    let scroll = engine.scroll();
    assert_eq!(scroll.title_shift, 5);
    let later = track(LONG, &["Traffic"], 700, 5);
    let blits = engine.handle(Event::TrackChanged(Some(later), None, false), 9000);
    assert_eq!(blits, vec![draw_current_progress(5, 700)]);
    assert_eq!(engine.scroll(), scroll);
    assert_eq!(engine.art(), &Some(art()));
    assert_eq!(engine.playing().as_ref().unwrap().progress_secs, 5);
}

#[test]
fn nothing_playing_draws_the_notice_and_forgets_the_track() {
    let mut engine = Engine::new(0);
    engine.handle(Event::TrackChanged(Some(track(LONG, &[], 700, 0)), Some(art()), true), 0);
    engine.handle(Event::ScrollTick, 5000);
    let blits = engine.handle(Event::TrackChanged(None, None, true), 6000);
    assert_eq!(blits, vec![draw_no_song()]);
    assert!(engine.playing().is_none());
    assert!(engine.art().is_none());
    assert_eq!(engine.scroll(), rest(6000));
    assert_eq!(engine.phase(), Phase::Idle);
    assert_eq!(engine.handle(Event::ScrollTick, 60000), Vec::new());
    assert_eq!(engine.handle(Event::ProgressTick(1), 60000), Vec::new());
}

#[test]
fn progress_tick_shows_the_seconds_passed_and_keeps_the_state() {
    let mut engine = Engine::new(0);
    engine.handle(Event::TrackChanged(Some(track("So What", &[], 562, 30)), None, true), 0);
    assert_eq!(engine.handle(Event::ProgressTick(1), 1000), vec![draw_current_progress(31, 562)]);
    assert_eq!(engine.handle(Event::ProgressTick(4), 4000), vec![draw_current_progress(34, 562)]);
    assert_eq!(engine.playing().as_ref().unwrap().progress_secs, 30);
    assert_eq!(engine.scroll(), rest(0));
}

#[test]
fn progress_tick_does_not_overflow() {
    let mut engine = Engine::new(0);
    let playing = track("So What", &[], 562, u32::MAX - 1);
    engine.handle(Event::TrackChanged(Some(playing), None, true), 0);
    assert_eq!(
        engine.handle(Event::ProgressTick(9), 1000),
        vec![draw_current_progress(u32::MAX, 562)]
    );
}

#[test]
fn scroll_tick_waits_for_the_cool_down() {
    let mut engine = Engine::new(0);
    engine.handle(Event::TrackChanged(Some(track(LONG, &[], 700, 0)), None, true), 1000);
    assert_eq!(engine.handle(Event::ScrollTick, 1000), Vec::new());
    assert_eq!(engine.handle(Event::ScrollTick, 1000 + COOL_DOWN_MS), Vec::new());
    assert_eq!(engine.handle(Event::ScrollTick, 500), Vec::new());
    assert_eq!(engine.scroll(), rest(1000));
    assert_eq!(engine.handle(Event::ScrollTick, 1001 + COOL_DOWN_MS).len(), 1);
    assert_eq!(engine.scroll().title_shift, 1);
}

#[test]
fn scroll_tick_moves_the_title_by_one_pixel() {
    let mut engine = Engine::new(0);
    let playing = track(LONG, &["Traffic"], 700, 0);
    engine.handle(Event::TrackChanged(Some(playing.clone()), None, true), 0);
    assert_eq!(engine.phase(), Phase::ScrollingTitle);
    for tick in 1..=20u32 {
        let blits = engine.handle(Event::ScrollTick, 3001 + tick as u64);
        assert_eq!(blits, vec![text_of(&playing, tick, 0)]);
        let scroll = engine.scroll();
        assert_eq!((scroll.title_shift, scroll.artist_shift), (tick, 0));
        assert!(scroll.shifting_title);
        assert_eq!(scroll.scroll_ended_at, 0);
    }
}

#[test]
fn title_comes_round_after_as_many_ticks_as_it_is_wide() {
    let mut engine = Engine::new(0);
    let playing = track(LONG, &["Traffic"], 700, 0);
    engine.handle(Event::TrackChanged(Some(playing.clone()), None, true), 0);
    for tick in 1..LONG_WIDTH {
        engine.handle(Event::ScrollTick, 4000 + tick as u64);
        let scroll = engine.scroll();
        assert_eq!(scroll.title_shift, tick);
        assert!(scroll.title_shift < LONG_WIDTH);
        assert!(scroll.shifting_title);
    }
    let last = engine.handle(Event::ScrollTick, 9000);
    assert_eq!(last, vec![text_of(&playing, 0, 0)]);
    assert_eq!(
        engine.scroll(),
        ScrollState {
            title_shift: 0,
            artist_shift: 0,
            shifting_title: false,
            scroll_ended_at: 9000
        }
    );
    // The artists fit, so nothing scrolls until the turn is the title's.
    assert_eq!(engine.phase(), Phase::Idle);
    assert_eq!(engine.handle(Event::ScrollTick, 9100), Vec::new());
}

#[test]
fn turn_passes_over_a_line_that_fits() {
    let mut engine = Engine::new(0);
    let playing = track(LONG, &["Traffic"], 700, 0);
    engine.handle(Event::TrackChanged(Some(playing.clone()), None, true), 0);
    for tick in 1..=LONG_WIDTH {
        engine.handle(Event::ScrollTick, 4000 + tick as u64);
    }
    let ended = 4000 + LONG_WIDTH as u64;
    assert!(!engine.scroll().shifting_title);
    // The artists' turn: they fit, so the tick hands the turn back.
    let blits = engine.handle(Event::ScrollTick, ended + 3001);
    assert_eq!(blits, vec![text_of(&playing, 0, 0)]);
    assert_eq!(engine.scroll(), rest(ended + 3001));
    assert_eq!(engine.phase(), Phase::ScrollingTitle);
    engine.handle(Event::ScrollTick, ended + 6002);
    assert_eq!(engine.scroll().title_shift, 1);
}

#[test]
fn title_and_artists_take_turns() {
    let mut engine = Engine::new(0);
    let artists = ["Steve Winwood", "Jim Capaldi", "Chris Wood"];
    let playing = track(LONG, &artists, 700, 0);
    let artists_width = 6 * ("Steve Winwood, Jim Capaldi, Chris Wood".len() as u32 + 2);
    engine.handle(Event::TrackChanged(Some(playing.clone()), None, true), 0);
    let mut now = 4000;
    for _ in 0..LONG_WIDTH {
        now += 13;
        engine.handle(Event::ScrollTick, now);
    }
    assert_eq!(engine.phase(), Phase::ScrollingArtist);
    assert_eq!(engine.scroll().scroll_ended_at, now);
    now += 3001;
    for tick in 1..artists_width {
        let blits = engine.handle(Event::ScrollTick, now + tick as u64);
        assert_eq!(blits.len(), 1);
        let scroll = engine.scroll();
        assert_eq!((scroll.title_shift, scroll.artist_shift), (0, tick));
        assert!(!scroll.shifting_title);
    }
    assert_eq!(engine.handle(Event::ScrollTick, now + 5000), vec![text_of(&playing, 0, 0)]);
    assert_eq!(engine.scroll(), rest(now + 5000));
    assert_eq!(engine.phase(), Phase::ScrollingTitle);
}

#[test]
fn short_text_is_idle_and_redrawn_when_the_turn_passes() {
    let mut engine = Engine::new(0);
    let playing = track("So What", &["Miles Davis"], 562, 0);
    engine.handle(Event::TrackChanged(Some(playing.clone()), None, true), 0);
    assert_eq!(engine.phase(), Phase::Idle);
    assert_eq!(engine.handle(Event::ScrollTick, 2000), Vec::new());
    assert_eq!(engine.handle(Event::ScrollTick, 3001), vec![text_of(&playing, 0, 0)]);
    let scroll = engine.scroll();
    assert_eq!((scroll.title_shift, scroll.artist_shift), (0, 0));
    assert!(!scroll.shifting_title);
    assert_eq!(scroll.scroll_ended_at, 3001);
    assert_eq!(engine.phase(), Phase::Idle);
}

#[test]
fn new_track_resets_the_scroll() {
    let mut engine = Engine::new(0);
    engine.handle(Event::TrackChanged(Some(track(LONG, &[], 700, 0)), None, true), 0);
    for tick in 0..30 {
        engine.handle(Event::ScrollTick, 4000 + tick);
    }
    assert_eq!(engine.scroll().title_shift, 30);
    engine.handle(Event::TrackChanged(Some(track("So What", &[], 562, 0)), None, true), 5000);
    assert_eq!(engine.scroll(), rest(5000));
    assert_eq!(engine.phase(), Phase::Idle);
}

#[test]
fn first_state_with_unchanged_flag_draws_only_the_progress_bar() {
    let mut engine = Engine::new(0);
    let blits = engine.handle(Event::TrackChanged(Some(track("So What", &[], 562, 9)), None, false), 5);
    assert_eq!(blits, vec![draw_current_progress(9, 562)]);
    assert_eq!(engine.scroll(), rest(0));
    assert!(engine.playing().is_some());
}

#[test]
fn events_end_to_end() {
    let playing = track(LONG, &["Traffic"], 700, 12);
    let mut events = vec![
        (Event::TrackChanged(Some(playing.clone()), Some(art()), true), 1000),
        (Event::ProgressTick(1), 2000),
    ];
    for tick in 0..40u64 {
        events.push((Event::ScrollTick, 4001 + 30 * tick));
    }
    events.push((Event::TrackChanged(Some(playing.clone()), Some(art()), false), 6000));
    events.push((Event::TrackChanged(None, None, true), 7000));
    let mut engine = Engine::new(0);
    let blits = engine.handle_all(events);
    let mut expected = vec![
        draw_album_cover(Some(&art())),
        text_of(&playing, 0, 0),
        draw_current_progress(12, 700),
        draw_current_progress(13, 700),
    ];
    for tick in 1..=40 {
        expected.push(text_of(&playing, tick, 0));
    }
    expected.push(draw_current_progress(12, 700));
    expected.push(draw_no_song());
    assert_eq!(blits.len(), 3 + 1 + 40 + 1 + 1);
    assert_eq!(blits, expected);
    assert!(engine.playing().is_none());
    assert!(engine.art().is_none());
    assert_eq!(engine.scroll(), rest(7000));
}

#[test]
fn events_end_to_end_with_text_that_fits() {
    let playing = track("So What", &["Miles Davis"], 562, 12);
    let mut events = vec![
        (Event::TrackChanged(Some(playing.clone()), None, true), 1000),
        (Event::ProgressTick(1), 2000),
    ];
    for tick in 0..40u64 {
        events.push((Event::ScrollTick, 4001 + 30 * tick));
    }
    events.push((Event::TrackChanged(Some(playing.clone()), None, false), 6000));
    events.push((Event::TrackChanged(None, None, true), 7000));
    let mut engine = Engine::new(0);
    let blits = engine.handle_all(events);
    // Only the first scroll tick is due: it passes the turn and begins a
    // new cool-down that the other 39 fall into.
    let expected = vec![
        draw_album_cover(None),
        text_of(&playing, 0, 0),
        draw_current_progress(12, 562),
        draw_current_progress(13, 562),
        text_of(&playing, 0, 0),
        draw_current_progress(12, 562),
        draw_no_song(),
    ];
    assert_eq!(blits, expected);
}

#[test]
fn handle_all_is_handle_in_order() {
    let playing = track(LONG, &["Traffic"], 700, 12);
    let events = || {
        vec![
            (Event::ScrollTick, 10),
            (Event::TrackChanged(Some(playing.clone()), None, true), 1000),
            (Event::ScrollTick, 4500),
            (Event::ProgressTick(2), 4600),
            (Event::ScrollTick, 4700),
        ]
    };
    let mut one = Engine::new(0);
    let mut together = Engine::new(0);
    let mut expected = Vec::new();
    for (event, now) in events() {
        expected.extend(one.handle(event, now));
    }
    assert_eq!(together.handle_all(events()), expected);
    assert_eq!(together.scroll(), one.scroll());
    assert_eq!(together.handle_all(Vec::new()), Vec::new());
}

#[test]
fn long_names_are_not_drawable() {
    assert!(is_drawable(&track("So What", &["Miles Davis"], 1, 0)));
    assert!(is_drawable(&track(&"x".repeat(4094), &[], 1, 0)));
    assert!(!is_drawable(&track(&"x".repeat(4095), &[], 1, 0)));
    assert!(is_drawable(&track("", &[&"y".repeat(4094)], 1, 0)));
    assert!(!is_drawable(&track("", &[&"y".repeat(4095)], 1, 0)));
    // Two names and the comma and blank between them.
    assert!(is_drawable(&track("", &[&"y".repeat(2046), &"z".repeat(2046)], 1, 0)));
    assert!(!is_drawable(&track("", &[&"y".repeat(2046), &"z".repeat(2047)], 1, 0)));
    // Length counts characters, not bytes.
    assert!(is_drawable(&track(&"カ".repeat(4094), &[], 1, 0)));
}

#[test]
fn notice_covers_the_whole_display() {
    let blit = draw_no_song();
    assert_eq!((blit.x, blit.y, blit.width, blit.height), (0, 0, 128, 160));
    assert_eq!(blit.colors.len(), 128 * 160);
    let mut engine = Engine::new(0);
    engine.handle(Event::TrackChanged(Some(track(LONG, &[], 700, 0)), Some(art()), true), 0);
    let blits = engine.handle(Event::TrackChanged(None, None, false), 10);
    assert_eq!(blits.len(), 1);
    assert_eq!(blits[0].colors.len(), 128 * 160);
}

#[test]
fn every_batch_has_a_colour_for_each_cell() {
    let mut engine = Engine::new(0);
    let mut blits = engine.handle(
        Event::TrackChanged(Some(track(LONG, &["Miles Davis"], 700, 3)), Some(art()), true),
        0,
    );
    blits.extend(engine.handle(Event::ProgressTick(2), 100));
    blits.extend(engine.handle(Event::ScrollTick, 5000));
    blits.extend(engine.handle(Event::TrackChanged(None, None, true), 6000));
    let areas: Vec<(i32, i32, u32, u32)> =
        blits.iter().map(|blit| (blit.x, blit.y, blit.width, blit.height)).collect();
    assert_eq!(
        areas,
        vec![(0, 0, 128, 114), (0, 114, 124, 27), (0, 141, 128, 19), (0, 141, 128, 19),
            (0, 114, 124, 27), (0, 0, 128, 160)]
    );
    for blit in &blits {
        assert_eq!(blit.colors.len() as u32, blit.width * blit.height);
    }
}

#[test]
fn track_that_cannot_be_drawn_is_left_aside() {
    let mut engine = Engine::new(0);
    let shown = track("So What", &["Miles Davis"], 545, 12);
    assert!(engine.try_handle(Event::TrackChanged(Some(shown.clone()), None, true), 0).is_some());
    let long = track(&"x".repeat(4095), &[], 1, 0);
    assert_eq!(engine.try_handle(Event::TrackChanged(Some(long), None, true), 7000), None);
    assert_eq!(engine.playing().as_ref().unwrap().playing.name, "So What");
    assert_eq!(engine.playing().as_ref().unwrap().progress_secs, 12);
    assert_eq!(engine.scroll(), rest(0));
    // What can be drawn is taken as `handle` takes it.
    let mut other = Engine::new(0);
    other.handle(Event::TrackChanged(Some(shown), None, true), 0);
    let tick = other.handle(Event::ProgressTick(3), 8000);
    assert_eq!(engine.try_handle(Event::ProgressTick(3), 8000), Some(tick));
    let scroll = other.handle(Event::ScrollTick, 9000);
    assert_eq!(engine.try_handle(Event::ScrollTick, 9000), Some(scroll));
}
