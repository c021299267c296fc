use std::io::Cursor;

use voice_capture::events::ActiveSource;
use voice_capture::events::VoiceEvent;
use voice_capture::events::VoiceTickInput;
use voice_capture::registry::WriterRegistry;
use voice_capture::session::Receiver;
use voice_capture::time::StartTime;
use voice_capture::track::FRAGMENT_SAMPLES;

fn start() -> StartTime {
    StartTime { year: 2024, month: 3, day: 7, hour: 9, minute: 5 }
}

fn live(ssrc: u32, value: i16) -> ActiveSource {
    ActiveSource { ssrc, decoded: Some(vec![value; FRAGMENT_SAMPLES]) }
}

fn tick(speaking: Vec<ActiveSource>, silent: Vec<u32>) -> VoiceTickInput {
    VoiceTickInput { speaking, silent }
}

fn decoded_samples(wav: &[u8]) -> Vec<i16> {
    let reader = hound::WavReader::new(Cursor::new(wav.to_vec())).unwrap();
    let spec = reader.spec();
    assert_eq!(spec.channels, 2);
    assert_eq!(spec.sample_rate, 48000);
    assert_eq!(spec.bits_per_sample, 16);
    assert_eq!(spec.sample_format, hound::SampleFormat::Int);
    reader
        .into_samples::<i16>()
        .map(|s| s.unwrap())
        .collect()
}

fn samples_of(receiver: &Receiver, ssrc: u32) -> Vec<i16> {
    let files = receiver.finish().unwrap();
    let file = files.iter().find(|f| f.ssrc == ssrc).unwrap();
    decoded_samples(&file.wav)
}

#[test]
fn live_then_silent_tick() {
    let mut r = Receiver::with_start_time(start());
    r.on_tick(&tick(vec![live(42, 100)], vec![]));
    r.on_tick(&tick(vec![], vec![42]));

    let samples = samples_of(&r, 42);
    assert_eq!(samples.len(), 2 * FRAGMENT_SAMPLES);
    assert!(samples[..FRAGMENT_SAMPLES].iter().all(|&s| s == 100));
    assert!(samples[FRAGMENT_SAMPLES..].iter().all(|&s| s == 0));
}

#[test]
fn two_sources_in_one_tick() {
    let mut r = Receiver::with_start_time(start());
    r.on_tick(&tick(vec![live(7, 11), live(9, -3)], vec![]));

    let files = r.finish().unwrap();
    assert_eq!(files.len(), 2);
    let seven = samples_of(&r, 7);
    let nine = samples_of(&r, 9);
    assert_eq!(seven, vec![11; FRAGMENT_SAMPLES]);
    assert_eq!(nine, vec![-3; FRAGMENT_SAMPLES]);
}

#[test]
fn silent_only_source_is_all_zeros() {
    let mut r = Receiver::with_start_time(start());
    for _ in 0..3 {
        r.on_tick(&tick(vec![], vec![5]));
    }
    let samples = samples_of(&r, 5);
    assert_eq!(samples, vec![0; 3 * FRAGMENT_SAMPLES]);
}

#[test]
fn consecutive_ticks_accumulate_in_order() {
    let mut r = Receiver::with_start_time(start());
    r.on_tick(&tick(vec![live(1, 1)], vec![]));
    r.on_tick(&tick(vec![], vec![1]));
    r.on_tick(&tick(vec![live(1, 3)], vec![]));
    r.on_tick(&tick(vec![live(1, 4)], vec![]));

    let samples = samples_of(&r, 1);
    assert_eq!(samples.len(), 4 * FRAGMENT_SAMPLES);
    assert!(samples[..FRAGMENT_SAMPLES].iter().all(|&s| s == 1));
    assert!(samples[FRAGMENT_SAMPLES..2 * FRAGMENT_SAMPLES].iter().all(|&s| s == 0));
    assert!(samples[2 * FRAGMENT_SAMPLES..3 * FRAGMENT_SAMPLES].iter().all(|&s| s == 3));
    assert!(samples[3 * FRAGMENT_SAMPLES..].iter().all(|&s| s == 4));
}

#[test]
fn absent_source_is_not_advanced() {
    let mut r = Receiver::with_start_time(start());
    r.on_tick(&tick(vec![live(1, 2)], vec![2]));
    r.on_tick(&tick(vec![live(1, 2)], vec![]));

    assert_eq!(samples_of(&r, 1).len(), 2 * FRAGMENT_SAMPLES);
    assert_eq!(samples_of(&r, 2).len(), FRAGMENT_SAMPLES);
}

#[test]
fn active_without_decoded_fragment_creates_empty_track() {
    let mut r = Receiver::with_start_time(start());
    r.on_tick(&tick(vec![ActiveSource { ssrc: 8, decoded: None }], vec![]));

    let files = r.finish().unwrap();
    assert_eq!(files.len(), 1);
    assert_eq!(files[0].ssrc, 8);
    assert_eq!(decoded_samples(&files[0].wav).len(), 0);
}

#[test]
fn disabled_capture_ignores_events() {
    let mut r = Receiver::with_start_time(start());
    r.set_record(false);
    assert!(!r.get_record());
    r.act(&VoiceEvent::VoiceTick(tick(vec![live(3, 9)], vec![4])));
    r.act(&VoiceEvent::SpeakingStateUpdate { ssrc: 3, user_id: Some(77) });

    assert_eq!(r.finish().unwrap().len(), 0);
    assert_eq!(r.lookup_identity(3), None);

    r.set_record(true);
    assert!(r.get_record());
    r.act(&VoiceEvent::VoiceTick(tick(vec![live(3, 9)], vec![])));
    assert_eq!(r.finish().unwrap().len(), 1);
}

#[test]
fn identity_announcement_after_audio_moves_nothing() {
    let mut r = Receiver::with_start_time(start());
    r.act(&VoiceEvent::VoiceTick(tick(vec![live(42, 5)], vec![])));
    let before = samples_of(&r, 42);
    let path_before = r.output_path(42);

    r.act(&VoiceEvent::SpeakingStateUpdate { ssrc: 42, user_id: Some(123456789) });

    assert_eq!(samples_of(&r, 42), before);
    assert_eq!(r.output_path(42), path_before);
    assert_eq!(r.lookup_identity(42), Some(123456789));
}

#[test]
fn identity_updates_are_last_write_wins() {
    let mut r = Receiver::with_start_time(start());
    r.act(&VoiceEvent::SpeakingStateUpdate { ssrc: 6, user_id: Some(10) });
    r.act(&VoiceEvent::SpeakingStateUpdate { ssrc: 6, user_id: Some(20) });
    r.act(&VoiceEvent::SpeakingStateUpdate { ssrc: 7, user_id: None });

    assert_eq!(r.lookup_identity(6), Some(20));
    assert_eq!(r.lookup_identity(7), None);
}

#[test]
fn raw_packet_and_disconnect_events_change_nothing() {
    let mut r = Receiver::with_start_time(start());
    r.act(&VoiceEvent::VoiceTick(tick(vec![live(1, 1)], vec![])));
    let before = samples_of(&r, 1);

    r.act(&VoiceEvent::RtpPacket { ssrc: 1, sequence: 9, timestamp: 480, payload_len: 120 });
    r.act(&VoiceEvent::RtcpPacket);
    r.act(&VoiceEvent::ClientDisconnect { user_id: 123 });

    let files = r.finish().unwrap();
    assert_eq!(files.len(), 1);
    assert_eq!(samples_of(&r, 1), before);
}

#[test]
fn empty_tick_touches_nothing() {
    let mut r = Receiver::with_start_time(start());
    r.on_tick(&tick(vec![live(3, 1)], vec![]));
    r.on_tick(&tick(vec![], vec![]));

    let files = r.finish().unwrap();
    assert_eq!(files.len(), 1);
    assert_eq!(samples_of(&r, 3).len(), FRAGMENT_SAMPLES);
}

#[test]
fn get_or_create_returns_same_writer() {
    let mut reg = WriterRegistry::new();
    let first = reg.get_or_create(42);
    let second = reg.get_or_create(42);
    assert_eq!(first, second);
    assert_eq!(reg.track_count(), 1);

    let other = reg.get_or_create(7);
    assert_ne!(other, first);
    assert_eq!(reg.track_count(), 2);
    assert_eq!(reg.get_or_create(42), first);
    assert_eq!(reg.track_count(), 2);
}
