use weft::compositor::{
    compositor_socket_path, handle_message, run, use_winit_backend, WeftAppdIpc,
};
use weft::frame::{
    frame_decode, frame_encode, length_prefix, split_frames, u32_from_le, u32_le_bytes,
    FrameDecodeError, FrameEncodeError, MAX_FRAME_LEN,
};
use weft::messages::{AppdToCompositor, CompositorToAppd};

use serde_json::Value;

fn strings(v: &[&str]) -> Vec<String> {
    v.iter().map(|s| s.to_string()).collect()
}

/// A message framed as the daemons frame it: a MessagePack map with its
/// `type` tag, behind the length prefix.
fn message(kind: &str, fields: &[(&str, Value)]) -> Vec<u8> {
    let mut m = serde_json::Map::new();
    m.insert("type".to_string(), Value::String(kind.to_string()));
    for (k, v) in fields {
        m.insert(k.to_string(), v.clone());
    }
    let body = rmp_serde::to_vec_named(&Value::Object(m)).unwrap();
    frame_encode(&body).unwrap()
}

fn decoded(frame: &[u8]) -> serde_json::Map<String, Value> {
    let body = frame_decode(frame).unwrap();
    match rmp_serde::from_slice::<Value>(&body).unwrap() {
        Value::Object(m) => m,
        _ => panic!("unexpected variant"),
    }
}

#[test]
fn roundtrip_appd_to_compositor_surface_created() {
    let frame = message(
        "app_surface_created",
        &[
            ("app_id", Value::from("com.example.app")),
            ("session_id", Value::from(42u64)),
            ("pid", Value::from(1234u32)),
        ],
    );
    let m = decoded(&frame);
    assert_eq!(m["type"], "app_surface_created");
    assert_eq!(m["app_id"], "com.example.app");
    assert_eq!(m["session_id"], 42);
    assert_eq!(m["pid"], 1234);
}

#[test]
fn roundtrip_appd_to_compositor_destroyed() {
    let m = decoded(&message("app_surface_destroyed", &[("session_id", Value::from(7u64))]));
    assert_eq!(m["type"], "app_surface_destroyed");
    assert_eq!(m["session_id"], 7);
}

#[test]
fn roundtrip_appd_to_compositor_focus() {
    let m = decoded(&message("app_focus_request", &[("session_id", Value::from(99u64))]));
    assert_eq!(m["type"], "app_focus_request");
    assert_eq!(m["session_id"], 99);
}

#[test]
fn roundtrip_compositor_to_appd_surface_ready() {
    let m = decoded(&message("surface_ready", &[("session_id", Value::from(3u64))]));
    assert_eq!(m["type"], "surface_ready");
    assert_eq!(m["session_id"], 3);
}

#[test]
fn roundtrip_compositor_to_appd_disconnected() {
    let m = decoded(&message("client_disconnected", &[("pid", Value::from(5678u32))]));
    assert_eq!(m["type"], "client_disconnected");
    assert_eq!(m["pid"], 5678);
}

#[test]
fn frame_decode_rejects_too_short_buffer() {
    let buf = [0u8; 3];
    let result = frame_decode(&buf);
    assert!(matches!(result, Err(FrameDecodeError::TooShort)));
}

#[test]
fn frame_decode_rejects_length_mismatch() {
    let mut frame = message("app_focus_request", &[("session_id", Value::from(1u64))]);
    let body_len = (frame.len() - 4) as u32;
    let bad_len = (body_len + 10).to_le_bytes();
    frame[0] = bad_len[0];
    frame[1] = bad_len[1];
    frame[2] = bad_len[2];
    frame[3] = bad_len[3];
    let result = frame_decode(&frame);
    assert!(matches!(result, Err(FrameDecodeError::LengthMismatch { .. })));
}

#[test]
fn frame_roundtrip_gives_body_back() {
    let body = b"hello frame".to_vec();
    let frame = frame_encode(&body).unwrap();
    assert_eq!(&frame[..4], &[11, 0, 0, 0]);
    assert_eq!(frame_decode(&frame).unwrap(), body);
    assert_eq!(frame_decode(&frame_encode(&[]).unwrap()).unwrap(), Vec::<u8>::new());
}

#[test]
fn frame_decode_reports_mismatch_values_and_too_long() {
    match frame_decode(&[5, 0, 0, 0, 1, 2]) {
        Err(FrameDecodeError::LengthMismatch { declared, actual }) => {
            assert_eq!(declared, 5);
            assert_eq!(actual, 2);
        }
        _ => panic!("expected a mismatch"),
    }
    let n = MAX_FRAME_LEN + 1;
    let mut big = (n as u32).to_le_bytes().to_vec();
    big.resize(4 + n, 0);
    assert!(matches!(frame_decode(&big), Err(FrameDecodeError::TooLong(m)) if m == n));
}

#[test]
fn little_endian_helpers() {
    assert_eq!(u32_le_bytes(0x01020304), vec![4, 3, 2, 1]);
    assert_eq!(u32_from_le(&[4, 3, 2, 1, 9]), 0x01020304);
    assert_eq!(length_prefix(258), vec![2, 1, 0, 0]);
}

#[test]
fn split_frames_cuts_complete_frames() {
    let mut buf = frame_encode(b"ab").unwrap();
    buf.extend(frame_encode(b"c").unwrap());
    buf.extend_from_slice(&[9, 0, 0, 0, 1]);
    let (frames, over) = split_frames(&mut buf);
    assert!(!over);
    assert_eq!(frames, vec![vec![2, 0, 0, 0, b'a', b'b'], vec![1, 0, 0, 0, b'c']]);
    assert_eq!(buf, vec![9, 0, 0, 0, 1]);
}

#[test]
fn split_frames_drops_oversized() {
    let mut buf = frame_encode(b"ok").unwrap();
    buf.extend_from_slice(&(((MAX_FRAME_LEN + 1) as u32).to_le_bytes()));
    let (frames, over) = split_frames(&mut buf);
    assert!(over);
    assert_eq!(frames.len(), 1);
    assert!(buf.is_empty());
}

#[test]
fn compositor_link_reassembles_across_reads() {
    let mut ipc = WeftAppdIpc::new("/tmp/c.sock".into());
    ipc.on_connect();
    assert!(ipc.is_connected());
    let f = frame_encode(b"xyz").unwrap();
    let (m1, eof1) = ipc.on_read(&f[..5], false);
    assert!(m1.is_empty() && !eof1);
    let (m2, _) = ipc.on_read(&f[5..], false);
    assert_eq!(m2, vec![b"xyz".to_vec()]);
    let (m3, eof3) = ipc.on_read(&[], true);
    assert!(m3.is_empty() && eof3);
    assert!(!ipc.is_connected());
}

#[test]
fn compositor_link_oversized_frame_disconnects() {
    let mut ipc = WeftAppdIpc::new("/tmp/c.sock".into());
    ipc.on_connect();
    let bad = ((MAX_FRAME_LEN + 1) as u32).to_le_bytes();
    let (m, _) = ipc.on_read(&bad, false);
    assert!(m.is_empty());
    assert!(!ipc.is_connected());
    ipc.on_connect();
    ipc.on_send_failed();
    assert!(!ipc.is_connected());
}

#[test]
fn compositor_records_announced_surfaces() {
    let mut ipc = WeftAppdIpc::new("/tmp/c.sock".into());
    handle_message(
        &mut ipc,
        AppdToCompositor::AppSurfaceCreated { app_id: "com.example.app".into(), session_id: 42, pid: 1234 },
    );
    assert_eq!(ipc.pending_for(1234), Some(("com.example.app".to_string(), 42)));
    handle_message(
        &mut ipc,
        AppdToCompositor::AppSurfaceCreated { app_id: "other".into(), session_id: 43, pid: 1234 },
    );
    assert_eq!(ipc.pending_for(1234), Some(("other".to_string(), 43)));
    handle_message(&mut ipc, AppdToCompositor::AppSurfaceDestroyed { session_id: 7 });
    handle_message(&mut ipc, AppdToCompositor::AppFocusRequest { session_id: 99 });
    assert_eq!(ipc.pending_for(1234), Some(("other".to_string(), 43)));
    assert_eq!(ipc.pending_for(1), None);
}

#[test]
fn compositor_messages_compare() {
    assert_eq!(CompositorToAppd::SurfaceReady { session_id: 3 }, CompositorToAppd::SurfaceReady { session_id: 3 });
    assert_ne!(CompositorToAppd::ClientDisconnected { pid: 5678 }, CompositorToAppd::SurfaceReady { session_id: 5678 });
}

#[test]
fn compositor_socket_and_backend() {
    assert_eq!(compositor_socket_path(Some("/x"), Some("/r")), "/x");
    assert_eq!(compositor_socket_path(None, Some("/r")), "/r/weft/compositor.sock");
    assert_eq!(compositor_socket_path(None, None), "/tmp/weft-compositor.sock");
    assert!(use_winit_backend(&strings(&["weft-compositor", "--winit"]), false, false));
    assert!(use_winit_backend(&strings(&["weft-compositor"]), false, true));
    assert!(!use_winit_backend(&strings(&["weft-compositor"]), false, false));
    assert!(run().is_err());
}

#[test]
fn frame_encode_rejects_oversized_body() {
    let body = vec![0u8; MAX_FRAME_LEN + 1];
    assert_eq!(frame_encode(&body), Err(FrameEncodeError::TooLong(MAX_FRAME_LEN + 1)));
    assert!(frame_encode(&vec![0u8; MAX_FRAME_LEN]).is_ok());
}
