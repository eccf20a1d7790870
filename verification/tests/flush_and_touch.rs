use round_display::flush::{Area, FlushAction, FlushEvent, FlushPipeline, FlushRequest, Phase};
use round_display::touch::{
    contact_reported, decode_point, PointerEvent, TouchBridge, TouchSample, PANEL_MAX,
};

#[test]
fn one_flush_waits_then_starts_then_signals() {
    let mut p = FlushPipeline::new();
    assert_eq!(p.phase(), Phase::Idle);
    assert!(!p.in_flight());
    let area = Area { x1: 0, y1: 100, x2: 465, y2: 199 };
    assert_eq!(p.step(FlushEvent::Requested(area)), Some(FlushAction::AwaitTransfer));
    let request = FlushRequest { x1: 0, y1: 100, x2: 466, y2: 200 };
    assert_eq!(p.phase(), Phase::Waiting(request));
    assert_eq!(p.step(FlushEvent::TransferDone), Some(FlushAction::StartTransfer(request)));
    assert!(!p.in_flight());
    assert_eq!(p.step(FlushEvent::TransferStarted), Some(FlushAction::SignalReady));
    assert_eq!(p.phase(), Phase::Idle);
    assert!(p.in_flight());
}

#[test]
fn next_flush_waits_for_the_transfer_before() {
    let mut p = FlushPipeline::new();
    let first = Area { x1: 0, y1: 0, x2: 465, y2: 99 };
    let second = Area { x1: 0, y1: 100, x2: 465, y2: 199 };
    let mut calls = Vec::new();
    for area in [first, second] {
        let mut action = p.step(FlushEvent::Requested(area));
        while let Some(a) = action {
            calls.push(a);
            action = match a {
                FlushAction::AwaitTransfer => p.step(FlushEvent::TransferDone),
                FlushAction::StartTransfer(_) => p.step(FlushEvent::TransferStarted),
                FlushAction::SignalReady => None,
            };
        }
    }
    assert_eq!(
        calls,
        vec![
            FlushAction::AwaitTransfer,
            FlushAction::StartTransfer(FlushRequest { x1: 0, y1: 0, x2: 466, y2: 100 }),
            FlushAction::SignalReady,
            FlushAction::AwaitTransfer,
            FlushAction::StartTransfer(FlushRequest { x1: 0, y1: 100, x2: 466, y2: 200 }),
            FlushAction::SignalReady,
        ]
    );
    assert!(p.in_flight());
}

#[test]
fn second_request_cannot_start_before_the_wait_returns() {
    let mut p = FlushPipeline::new();
    let a = Area { x1: 1, y1: 2, x2: 3, y2: 4 };
    p.step(FlushEvent::Requested(a));
    p.step(FlushEvent::TransferDone);
    p.step(FlushEvent::TransferStarted);
    assert!(p.in_flight());
    let b = Area { x1: 5, y1: 6, x2: 7, y2: 8 };
    assert_eq!(p.step(FlushEvent::Requested(b)), Some(FlushAction::AwaitTransfer));
    // The driver's report that a transfer has started is out of turn here:
    // nothing starts before the wait has returned.
    assert_eq!(p.step(FlushEvent::TransferStarted), None);
    assert!(p.in_flight());
    assert_eq!(p.phase(), Phase::Waiting(FlushRequest { x1: 5, y1: 6, x2: 8, y2: 9 }));
    assert_eq!(
        p.step(FlushEvent::TransferDone),
        Some(FlushAction::StartTransfer(FlushRequest { x1: 5, y1: 6, x2: 8, y2: 9 }))
    );
    assert!(!p.in_flight());
}

#[test]
fn events_out_of_turn_change_nothing() {
    let mut p = FlushPipeline::new();
    assert_eq!(p.step(FlushEvent::TransferDone), None);
    assert_eq!(p.step(FlushEvent::TransferStarted), None);
    assert_eq!(p.phase(), Phase::Idle);
    assert!(!p.in_flight());
    let a = Area { x1: 0, y1: 0, x2: 9, y2: 9 };
    let b = Area { x1: 20, y1: 20, x2: 29, y2: 29 };
    p.step(FlushEvent::Requested(a));
    assert_eq!(p.step(FlushEvent::Requested(b)), None);
    assert_eq!(p.phase(), Phase::Waiting(FlushRequest { x1: 0, y1: 0, x2: 10, y2: 10 }));
    p.step(FlushEvent::TransferDone);
    assert_eq!(p.step(FlushEvent::TransferDone), None);
    assert_eq!(p.step(FlushEvent::Requested(b)), None);
    assert_eq!(p.phase(), Phase::Starting(FlushRequest { x1: 0, y1: 0, x2: 10, y2: 10 }));
}

#[test]
fn bridge_reports_no_contact() {
    let mut bridge = TouchBridge::new();
    assert_eq!(bridge.read(), PointerEvent::Released);
    bridge.write(TouchSample { pressed: false, x: 0, y: 0 });
    assert_eq!(bridge.read(), PointerEvent::Released);
    bridge.write(TouchSample { pressed: false, x: 77, y: 88 });
    assert_eq!(bridge.read(), PointerEvent::Released);
}

#[test]
fn bridge_reports_the_point_pressed() {
    let mut bridge = TouchBridge::new();
    bridge.write(TouchSample { pressed: true, x: 10, y: 20 });
    assert_eq!(bridge.read(), PointerEvent::Pressed { x: 10, y: 20 });
    assert_eq!(bridge.read(), PointerEvent::Pressed { x: 10, y: 20 });
}

#[test]
fn bridge_keeps_the_latest_sample_only() {
    let mut bridge = TouchBridge::new();
    bridge.write(TouchSample { pressed: true, x: 1, y: 2 });
    bridge.write(TouchSample { pressed: true, x: 3, y: 4 });
    assert_eq!(bridge.read(), PointerEvent::Pressed { x: 3, y: 4 });
    bridge.write(TouchSample { pressed: false, x: 0, y: 0 });
    assert_eq!(bridge.read(), PointerEvent::Released);
    bridge.write(TouchSample::from_contact(Some((465, 0))));
    assert_eq!(bridge.read(), PointerEvent::Pressed { x: 465, y: 0 });
    bridge.write(TouchSample::from_contact(None));
    assert_eq!(bridge.read(), PointerEvent::Released);
}

#[test]
fn sample_of_a_poll() {
    assert_eq!(TouchSample::from_contact(Some((10, 20))), TouchSample { pressed: true, x: 10, y: 20 });
    assert!(!TouchSample::from_contact(None).pressed);
}

#[test]
fn registers_decode_to_panel_coordinates() {
    assert_eq!(PANEL_MAX, 465);
    assert_eq!(decode_point([0x00, 0x0A, 0x00, 0x14]), (10, 20));
    assert_eq!(decode_point([0x01, 0x00, 0x01, 0xD1]), (256, 465));
    // The high nibble of the first register of each pair holds flags.
    assert_eq!(decode_point([0xF1, 0x02, 0x80, 0x03]), (258, 3));
    // 12-bit values beyond the panel are kept to its last pixel.
    assert_eq!(decode_point([0x01, 0xD2, 0x0F, 0xFF]), (465, 465));
    assert_eq!(decode_point([0xFF, 0xFF, 0x00, 0x00]), (465, 0));
}

#[test]
fn count_register_tells_contact() {
    assert!(!contact_reported(0));
    assert!(contact_reported(1));
    assert!(contact_reported(2));
    assert!(contact_reported(255));
}
