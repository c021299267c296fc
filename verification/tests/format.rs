use std::io::Cursor;

use voice_capture::control::CaptureControl;
use voice_capture::session::Receiver;
use voice_capture::text::truncate;
use voice_capture::time::StartTime;
use voice_capture::wav::encode_wav;
use voice_capture::youtube::LookupError;
use voice_capture::youtube::YoutubeSnippet;
use voice_capture::youtube::YoutubeVideoItem;
use voice_capture::youtube::first_video_title;
use voice_capture::youtube::search_results;

#[test]
fn start_time_is_formatted_fixed_width() {
    let t = StartTime { year: 2024, month: 3, day: 7, hour: 9, minute: 5 };
    let r = Receiver::with_start_time(t);
    assert_eq!(r.start_time_formatted(), "2024-03-07_09-05");
    assert_eq!(r.output_path(42), "recordings/2024-03-07_09-05/42.wav");
    assert_eq!(r.output_path(0), "recordings/2024-03-07_09-05/0.wav");
    assert_eq!(r.output_path(4294967295), "recordings/2024-03-07_09-05/4294967295.wav");
}

#[test]
fn start_time_from_parts_clamps_into_calendar_ranges() {
    let t = StartTime::from_parts(2026, 12, 31, 23, 59);
    assert_eq!(t, StartTime { year: 2026, month: 12, day: 31, hour: 23, minute: 59 });

    let clamped = StartTime::from_parts(-5, 0, 99, 99, 99);
    assert_eq!(clamped, StartTime { year: 0, month: 1, day: 31, hour: 23, minute: 59 });

    let high = StartTime::from_parts(20000, 13, 0, 0, 0);
    assert_eq!(high, StartTime { year: 9999, month: 12, day: 1, hour: 0, minute: 0 });
}

#[test]
fn clock_reading_is_a_calendar_time() {
    let t = StartTime::now();
    assert!(t.year <= 9999);
    assert!((1..=12).contains(&t.month));
    assert!((1..=31).contains(&t.day));
    assert!(t.hour < 24);
    assert!(t.minute < 60);
}

#[test]
fn empty_track_is_a_bare_wav_header() {
    let bytes = encode_wav(&vec![]).unwrap();
    let expected: Vec<u8> = vec![
        0x52, 0x49, 0x46, 0x46, // "RIFF"
        36, 0, 0, 0, // chunk size
        0x57, 0x41, 0x56, 0x45, // "WAVE"
        0x66, 0x6d, 0x74, 0x20, // "fmt "
        16, 0, 0, 0, // format chunk size
        1, 0, // PCM
        2, 0, // channels
        0x80, 0xbb, 0, 0, // 48000
        0, 0xee, 0x02, 0, // 192000
        4, 0, // block align
        16, 0, // bits per sample
        0x64, 0x61, 0x74, 0x61, // "data"
        0, 0, 0, 0, // data size
    ];
    assert_eq!(bytes, expected);
}

#[test]
fn samples_are_encoded_little_endian_after_the_header() {
    let bytes = encode_wav(&vec![1, -1, 256]).unwrap();
    assert_eq!(bytes.len(), 44 + 6);
    assert_eq!(&bytes[44..], &[0x01, 0x00, 0xff, 0xff, 0x00, 0x01]);
    assert_eq!(&bytes[4..8], &[42, 0, 0, 0]);
    assert_eq!(&bytes[40..44], &[6, 0, 0, 0]);
}

#[test]
fn encoded_wav_decodes_to_the_same_samples() {
    let samples: Vec<i16> = (0..2000).map(|i| ((i * 37) % 5000) as i16 - 2500).collect();
    let bytes = encode_wav(&samples).unwrap();
    let reader = hound::WavReader::new(Cursor::new(bytes)).unwrap();
    let decoded: Vec<i16> = reader.into_samples::<i16>().map(|s| s.unwrap()).collect();
    assert_eq!(decoded, samples);
}

#[test]
fn toggling_produces_disjoint_sessions() {
    let t1 = StartTime { year: 2024, month: 3, day: 7, hour: 9, minute: 5 };
    let t2 = StartTime { year: 2024, month: 3, day: 7, hour: 9, minute: 6 };

    let mut control = CaptureControl::new();
    assert!(!control.is_recording());

    let (on, finished) = control.toggle_capture(t1);
    assert!(on && control.is_recording());
    assert!(finished.is_none());

    {
        let session = control.current_session().unwrap();
        session.on_tick(&voice_capture::events::VoiceTickInput {
            speaking: vec![],
            silent: vec![9],
        });
    }

    let (off, finished) = control.toggle_capture(t2);
    assert!(!off && !control.is_recording());
    let first = finished.unwrap();
    assert_eq!(first.start_time_formatted(), "2024-03-07_09-05");
    assert_eq!(first.finish().unwrap().len(), 1);

    let (on_again, none) = control.toggle_capture(t2);
    assert!(on_again && none.is_none());
    let second = control.current_session().unwrap();
    assert_eq!(second.start_time_formatted(), "2024-03-07_09-06");
    assert_eq!(second.finish().unwrap().len(), 0);
    assert_ne!(first.output_path(9), second.output_path(9));
}

#[test]
fn truncate_cuts_at_character_count() {
    assert_eq!(truncate("hello", 10), "hello");
    assert_eq!(truncate("hello", 5), "hello");
    assert_eq!(truncate("hello", 3), "hel");
    assert_eq!(truncate("", 4), "");
    assert_eq!(truncate("día de fiesta", 4), "día ");
}

fn item(title: &str) -> YoutubeVideoItem {
    YoutubeVideoItem { id: String::from("x"), snippet: YoutubeSnippet { title: String::from(title) } }
}

#[test]
fn first_video_title_picks_the_first_item() {
    let items = vec![item("first"), item("second")];
    assert_eq!(first_video_title(&items, &None), Ok(String::from("first")));
}

#[test]
fn video_lookup_errors_are_reported() {
    let items = vec![item("first")];
    assert_eq!(
        first_video_title(&items, &Some(String::from("quota"))),
        Err(LookupError::ApiError)
    );
    assert_eq!(first_video_title(&vec![], &None), Err(LookupError::NoResults));
}

#[test]
fn search_results_pass_through_without_error() {
    let ok = search_results(vec![], &None);
    assert!(ok.is_ok());
    let err = search_results(vec![], &Some(String::from("bad key")));
    assert!(matches!(err, Err(LookupError::ApiError)));
}
