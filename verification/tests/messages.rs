use can_message_data_generator::message::{
    EndOfStream, Message, VideoFrame, VideoFrameBatch,
};

fn frame(pts: i64) -> VideoFrame {
    VideoFrame { pts, width: 640, height: 480 }
}

#[test]
fn message_kinds() {
    let m = Message::unknown("x".to_string());
    assert!(m.is_unknown());
    assert!(!m.is_end_of_stream());
    assert!(!m.is_video_frame());
    assert!(!m.is_video_frame_batch());
    assert_eq!(m.as_unknown(), Some("x".to_string()));
    assert!(m.as_video_frame().is_none());

    let m = Message::end_of_stream(EndOfStream::new("test".to_string()));
    assert!(m.is_end_of_stream());
    assert_eq!(m.as_end_of_stream().unwrap().source_id, "test");

    let m = Message::video_frame(frame(1));
    assert!(m.is_video_frame());
    assert_eq!(m.as_video_frame(), Some(frame(1)));
    assert!(m.as_unknown().is_none());

    let mut batch = VideoFrameBatch::new();
    batch.add(7, frame(7));
    let m = Message::video_frame_batch(batch);
    assert!(m.is_video_frame_batch());
    let b = m.as_video_frame_batch().unwrap();
    assert_eq!(b.get(7), Some(frame(7)));
}

#[test]
fn batch_add_get_del() {
    let mut batch = VideoFrameBatch::new();
    batch.add(1, frame(10));
    batch.add(2, frame(20));
    batch.add(3, frame(30));
    assert_eq!(batch.get(1), Some(frame(10)));
    assert_eq!(batch.get(2), Some(frame(20)));
    assert_eq!(batch.get(3), Some(frame(30)));
    assert_eq!(batch.get(4), None);

    // Adding under an existing identifier replaces the frame.
    batch.add(2, frame(21));
    assert_eq!(batch.get(2), Some(frame(21)));

    assert_eq!(batch.del(1), Some(frame(10)));
    assert_eq!(batch.del(1), None);
    assert_eq!(batch.get(1), None);
    assert_eq!(batch.get(3), Some(frame(30)));
}

#[test]
fn batch_snapshot_restore() {
    let mut batch = VideoFrameBatch::new();
    batch.add(1, frame(10));
    batch.add(2, frame(20));
    batch.snapshot();

    // Changes after the snapshot are undone by restore.
    batch.add(2, frame(99));
    batch.del(1);
    batch.add(5, frame(50));
    batch.restore();

    assert_eq!(batch.get(1), Some(frame(10)));
    assert_eq!(batch.get(2), Some(frame(20)));
    // A frame the snapshot never held survives the restore.
    assert_eq!(batch.get(5), Some(frame(50)));
}
