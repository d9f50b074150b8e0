use std::sync::Arc;
use ximea_capture::capture::{CaptureController, ExportJob, FramesPacket};
use ximea_capture::export::{plan_export, video_metadata_csv};
use ximea_capture::frame::Frame;
use ximea_capture::messages::{decode_message, MessageType, TriggerEvent};

fn frame(seq: u32) -> Arc<Frame> {
    Arc::new(Frame::new(vec![0u8; 16], 4, 4, seq, seq, seq as u64 * 10, 100))
}

fn trigger() -> MessageType {
    MessageType::JsonData(TriggerEvent { obj_id: 1, frame: 100 })
}

fn seqs(p: &FramesPacket) -> Vec<u32> {
    p.images.iter().map(|f| f.nframe).collect()
}

fn expect_clip(job: Option<ExportJob>) -> FramesPacket {
    match job {
        Some(ExportJob::Clip(p)) => p,
        other => panic!("expected a clip, got {}", if other.is_none() { "nothing" } else { "stop" }),
    }
}

#[test]
fn single_trigger_exports_full_window() {
    let mut c = CaptureController::new(5, 5, String::from("out"));
    for s in 1..=5 {
        assert!(c.step(frame(s), &MessageType::Empty).is_none());
    }
    assert_eq!(c.counter(), None);
    assert!(c.step(frame(6), &trigger()).is_none());
    assert_eq!(c.counter(), Some(4));
    for s in 7..=9 {
        assert!(c.step(frame(s), &MessageType::Empty).is_none());
    }
    let p = expect_clip(c.step(frame(10), &MessageType::Empty));
    assert_eq!(seqs(&p), (1..=10).collect::<Vec<u32>>());
    assert_eq!(p.save_path, "out/obj_id_1_frame_100");
    let csv = video_metadata_csv(&p.images);
    assert_eq!(csv.lines().count(), 11);
    assert_eq!(csv.lines().skip(1).count(), 10);
    assert_eq!(c.counter(), None);
    assert_eq!(c.active_trigger(), None);
}

#[test]
fn second_trigger_extends_window() {
    let mut c = CaptureController::new(5, 5, String::from("out"));
    for s in 1..=5 {
        assert!(c.step(frame(s), &MessageType::Empty).is_none());
    }
    assert!(c.step(frame(6), &trigger()).is_none());
    assert!(c.step(frame(7), &MessageType::Empty).is_none());
    assert_eq!(c.counter(), Some(3));
    let second = MessageType::JsonData(TriggerEvent { obj_id: 2, frame: 200 });
    assert!(c.step(frame(8), &second).is_none());
    // reset to n_after = 5, then this iteration's frame counts down one
    assert_eq!(c.counter(), Some(4));
    assert_eq!(c.active_trigger(), Some(TriggerEvent { obj_id: 2, frame: 200 }));
    for s in 9..=11 {
        assert!(c.step(frame(s), &MessageType::Empty).is_none());
    }
    let p = expect_clip(c.step(frame(12), &MessageType::Empty));
    assert_eq!(seqs(&p), (3..=12).collect::<Vec<u32>>());
    assert_eq!(p.save_path, "out/obj_id_2_frame_200");
}

#[test]
fn malformed_message_changes_nothing() {
    let m = decode_message("{not valid");
    match &m {
        MessageType::InvalidJson(raw, why) => {
            assert_eq!(raw, "{not valid");
            assert!(!why.is_empty());
        }
        other => panic!("expected InvalidJson, got {:?}", other),
    }
    let mut c = CaptureController::new(2, 2, String::from("out"));
    assert!(c.step(frame(1), &m).is_none());
    assert_eq!(c.counter(), None);
    assert!(c.step(frame(2), &m).is_none());
    assert_eq!(c.buffered(), 2);
    assert!(c.step(frame(3), &trigger()).is_none());
    assert_eq!(c.counter(), Some(1));
    let p = expect_clip(c.step(frame(4), &m));
    assert_eq!(seqs(&p), vec![1, 2, 3, 4]);
}

#[test]
fn kill_while_recording_discards_clip() {
    let mut c = CaptureController::new(2, 3, String::from("out"));
    let mut queue: Vec<ExportJob> = Vec::new();
    let mut seq = 0u32;
    let mut feed = |c: &mut CaptureController, m: &MessageType, q: &mut Vec<ExportJob>| -> bool {
        seq += 1;
        match c.step(frame(seq), m) {
            Some(ExportJob::Stop) => {
                q.push(ExportJob::Stop);
                true
            }
            Some(job) => {
                q.push(job);
                false
            }
            None => false,
        }
    };
    // a first clip is emitted
    assert!(!feed(&mut c, &MessageType::Empty, &mut queue));
    assert!(!feed(&mut c, &trigger(), &mut queue));
    assert!(!feed(&mut c, &MessageType::Empty, &mut queue));
    assert!(!feed(&mut c, &MessageType::Empty, &mut queue));
    assert_eq!(queue.len(), 1);
    // a second recording reaches Recording(2), then kill arrives
    assert!(!feed(&mut c, &trigger(), &mut queue));
    assert_eq!(c.counter(), Some(2));
    let kill = decode_message("trigger kill");
    assert!(feed(&mut c, &kill, &mut queue));
    assert_eq!(queue.len(), 2);
    assert!(matches!(queue[0], ExportJob::Clip(_)));
    assert!(matches!(queue[1], ExportJob::Stop));
    // the worker drains everything queued ahead of the sentinel
    let mut exported = 0;
    for job in &queue {
        match job {
            ExportJob::Stop => break,
            ExportJob::Clip(p) => {
                assert!(plan_export(p).is_ok());
                exported += 1;
            }
        }
    }
    assert_eq!(exported, 1);
}

#[test]
fn short_stream_exports_what_is_resident() {
    let mut c = CaptureController::new(5, 2, String::from("clips"));
    assert!(c.step(frame(1), &trigger()).is_none());
    let p = expect_clip(c.step(frame(2), &MessageType::Empty));
    assert_eq!(seqs(&p), vec![1, 2]);
}

#[test]
fn n_after_one_exports_on_trigger_frame() {
    let mut c = CaptureController::new(2, 1, String::from("o"));
    assert!(c.step(frame(1), &MessageType::Empty).is_none());
    assert!(c.step(frame(2), &MessageType::Empty).is_none());
    let p = expect_clip(c.step(frame(3), &trigger()));
    assert_eq!(seqs(&p), vec![1, 2, 3]);
}

#[test]
fn unknown_command_is_ignored() {
    let mut c = CaptureController::new(1, 2, String::from("o"));
    assert!(c.step(frame(1), &MessageType::Text(String::from("hello"))).is_none());
    assert_eq!(c.counter(), None);
}

#[test]
fn packet_sequence_numbers_strictly_increase() {
    let mut c = CaptureController::new(3, 3, String::from("o"));
    let mut s = 0u32;
    let mut packets = Vec::new();
    for i in 0..40 {
        s += 1 + (i % 3);
        let m = if i % 7 == 0 { trigger() } else { MessageType::Empty };
        if let Some(ExportJob::Clip(p)) = c.step(frame(s), &m) {
            packets.push(p);
        }
        assert!(c.buffered() <= 6);
    }
    assert!(!packets.is_empty());
    for p in &packets {
        let q = seqs(p);
        assert!(q.windows(2).all(|w| w[0] < w[1]));
    }
}

#[test]
fn second_trigger_exports_later_than_without() {
    let run = |second_at: Option<u32>| -> (u32, String) {
        let mut c = CaptureController::new(2, 4, String::from("o"));
        for s in 1..=30u32 {
            let m = if s == 3 {
                trigger()
            } else if Some(s) == second_at {
                MessageType::JsonData(TriggerEvent { obj_id: 9, frame: 900 })
            } else {
                MessageType::Empty
            };
            if let Some(ExportJob::Clip(p)) = c.step(frame(s), &m) {
                return (p.images.last().unwrap().nframe, p.save_path);
            }
        }
        panic!("no clip");
    };
    let (plain_end, plain_name) = run(None);
    let (extended_end, extended_name) = run(Some(5));
    assert_eq!(plain_end, 6);
    assert_eq!(plain_name, "o/obj_id_1_frame_100");
    assert_eq!(extended_end, 8);
    assert_eq!(extended_name, "o/obj_id_9_frame_900");
}
