use ascii_player::demux::{FrameDemuxer, FrameRead};
use ascii_player::frame::{PlaybackError, StreamInfo};
use ascii_player::metadata::{resolve_stream_info, ProbeStream};
use ascii_player::playback::{Action, PlayState, Playback};

fn info(width: u32, height: u32) -> StreamInfo {
    StreamInfo::new(width, height).unwrap()
}

#[test]
fn stream_info_rejects_zero_sides() {
    assert!(StreamInfo::new(0, 4).is_none());
    assert!(StreamInfo::new(4, 0).is_none());
    assert_eq!(info(4, 3).frame_byte_size(), 36);
}

#[test]
fn whole_frames_then_end_of_stream() {
    let mut d = FrameDemuxer::new(info(2, 1));
    let stream: Vec<u8> = (0..18).collect();
    d.push_bytes(&stream);
    d.finish();
    for k in 0..3u8 {
        match d.next_frame() {
            Ok(FrameRead::Frame(f)) => {
                let expected: Vec<u8> = (6 * k..6 * k + 6).collect();
                assert_eq!(f.bytes(), &expected);
            }
            _ => panic!("expected a frame"),
        }
    }
    assert!(matches!(d.next_frame(), Ok(FrameRead::EndOfStream)));
}

#[test]
fn empty_stream_ends_cleanly() {
    let mut d = FrameDemuxer::new(info(2, 1));
    d.finish();
    assert!(matches!(d.next_frame(), Ok(FrameRead::EndOfStream)));
}

#[test]
fn trailing_bytes_are_a_truncated_frame() {
    let mut d = FrameDemuxer::new(info(2, 1));
    d.push_bytes(&[1, 2, 3, 4, 5, 6, 7, 8, 9, 10, 11]);
    d.finish();
    assert!(matches!(d.next_frame(), Ok(FrameRead::Frame(_))));
    assert!(matches!(d.next_frame(), Err(PlaybackError::TruncatedFrame)));
}

#[test]
fn partial_frame_waits_for_more_bytes() {
    let mut d = FrameDemuxer::new(info(2, 1));
    d.push_bytes(&[1, 2, 3, 4]);
    assert!(matches!(d.next_frame(), Ok(FrameRead::NeedMore)));
    d.push_bytes(&[5, 6, 7]);
    match d.next_frame() {
        Ok(FrameRead::Frame(f)) => assert_eq!(f.bytes(), &vec![1, 2, 3, 4, 5, 6]),
        _ => panic!("expected a frame"),
    }
    assert!(matches!(d.next_frame(), Ok(FrameRead::NeedMore)));
}

#[test]
fn first_stream_with_dimensions_is_used() {
    let streams = vec![
        ProbeStream { width: None, height: None },
        ProbeStream { width: Some(640), height: Some(360) },
        ProbeStream { width: Some(10), height: Some(10) },
    ];
    let i = resolve_stream_info(&streams).unwrap();
    assert_eq!((i.width, i.height), (640, 360));
}

#[test]
fn missing_or_bad_dimensions_are_unavailable() {
    let none: Vec<ProbeStream> = Vec::new();
    assert!(matches!(resolve_stream_info(&none), Err(PlaybackError::MetadataUnavailable)));
    let audio = vec![ProbeStream { width: Some(640), height: None }];
    assert!(matches!(resolve_stream_info(&audio), Err(PlaybackError::MetadataUnavailable)));
    let negative = vec![ProbeStream { width: Some(-1), height: Some(10) }];
    assert!(matches!(resolve_stream_info(&negative), Err(PlaybackError::MetadataUnavailable)));
    let huge = vec![ProbeStream { width: Some(1 << 40), height: Some(10) }];
    assert!(matches!(resolve_stream_info(&huge), Err(PlaybackError::MetadataUnavailable)));
}

#[test]
fn playback_rejects_degenerate_divisor() {
    assert!(matches!(Playback::new(info(10, 40), 20), Err(PlaybackError::DegenerateResize)));
    assert!(Playback::new(info(20, 20), 20).is_ok());
}

#[test]
fn playback_shows_frames_then_finishes() {
    let mut p = Playback::new(info(2, 2), 1).unwrap();
    assert_eq!(p.state(), PlayState::Fetching);
    assert!(matches!(p.poll(), Action::ReadMore));
    p.supply(&[0, 0, 0, 255, 255, 255, 255, 255, 255, 0, 0, 0]);
    match p.poll() {
        Action::Show(text) => assert_eq!(text, "  @ \n@   "),
        _ => panic!("expected a frame to show"),
    }
    assert_eq!(p.state(), PlayState::Displaying);
    p.frame_shown();
    assert!(matches!(p.poll(), Action::ReadMore));
    p.supply_end();
    assert!(matches!(p.poll(), Action::Finish));
    assert_eq!(p.state(), PlayState::Finished);
}

#[test]
fn playback_aborts_on_truncated_frame() {
    let mut p = Playback::new(info(2, 2), 1).unwrap();
    p.supply(&[1, 2, 3]);
    p.supply_end();
    assert!(matches!(p.poll(), Action::Abort(PlaybackError::TruncatedFrame)));
    assert_eq!(p.state(), PlayState::Aborted);
}

#[test]
fn playback_aborts_on_read_failure() {
    let mut p = Playback::new(info(2, 2), 1).unwrap();
    match p.supply_failure("broken pipe".to_string()) {
        Action::Abort(PlaybackError::IoFailure(m)) => assert_eq!(m, "broken pipe"),
        _ => panic!("expected an abort"),
    }
    assert_eq!(p.state(), PlayState::Aborted);
}
