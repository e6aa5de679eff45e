use ergohaven::event::{Action, ControllerEvent, KeyAction, KeyCode};
use ergohaven::font::glyph;
use ergohaven::oled::{oled, OledController, Stage};

/// The four lines of a framebuffer as the given texts would fill it.
fn picture(lines: [&str; 4]) -> [u8; 512] {
    let mut fb = [0u8; 512];
    for (page, line) in lines.iter().enumerate() {
        for (col, ch) in line.bytes().enumerate() {
            let start = page * 128 + col * 6;
            fb[start..start + 5].copy_from_slice(&glyph(ch));
        }
    }
    fb
}

/// Writes everything that is under way and returns it.
fn pump(c: &mut OledController) -> Vec<Vec<u8>> {
    let mut sent = Vec::new();
    loop {
        let packet = match c.next_write() {
            Some(packet) => packet.clone(),
            None => return sent,
        };
        sent.push(packet);
        c.write_done(true);
    }
}

fn shown(events: &[ControllerEvent]) -> [u8; 512] {
    let mut c = OledController::new();
    for event in events {
        c.process_event(*event);
    }
    c.update();
    c.framebuffer
}

#[test]
fn glyphs_of_the_font() {
    assert_eq!(glyph(b'A'), [0x7E, 0x11, 0x11, 0x11, 0x7E]);
    assert_eq!(glyph(b'7'), [0x01, 0x71, 0x09, 0x05, 0x03]);
    assert_eq!(glyph(b'-'), [0x08; 5]);
    assert_eq!(glyph(b'Y'), [0x07, 0x08, 0x70, 0x08, 0x07]);
    for blank in [b' ', b'M', b'a', 0, 255] {
        assert_eq!(glyph(blank), [0; 5]);
    }
}

#[test]
fn controller_at_power_on() {
    let c = OledController::new();
    assert!(c.available && c.dirty);
    assert_eq!(c.status.connection_type, 1);
    assert_eq!(c.status.battery, None);
    assert_eq!(c.framebuffer, [0; 512]);
    assert_eq!(c.stage, Stage::Idle);
    assert!(c.next_write().is_none());
}

#[test]
fn first_screen() {
    assert_eq!(shown(&[]), picture(["LILY58 OLED", "LAYER 0", "BLE P 1", "BAT --   R --"]));
}

#[test]
fn screen_with_everything() {
    let fb = shown(&[
        ControllerEvent::Layer(12),
        ControllerEvent::BleProfile(2),
        ControllerEvent::Battery(87),
        ControllerEvent::SplitPeripheral(0, true),
    ]);
    assert_eq!(fb, picture(["LILY58 OLED", "LAYER 12", "BLE P 3", "BAT 87   R OK"]));
}

#[test]
fn screen_over_usb_while_charging() {
    let fb = shown(&[
        ControllerEvent::ConnectionType(0),
        ControllerEvent::Battery(55),
        ControllerEvent::ChargingState(true),
    ]);
    assert_eq!(fb, picture(["LILY58 OLED", "LAYER 0", "USB", "BAT CHG  R --"]));
}

#[test]
fn numbers_stop_at_one_hundred() {
    let fb = shown(&[
        ControllerEvent::Layer(255),
        ControllerEvent::BleProfile(255),
        ControllerEvent::Battery(100),
    ]);
    assert_eq!(fb, picture(["LILY58 OLED", "LAYER 100", "BLE P 100", "BAT 100  R --"]));
    let fb = shown(&[ControllerEvent::Battery(9), ControllerEvent::Layer(99)]);
    assert_eq!(fb, picture(["LILY58 OLED", "LAYER 99", "BLE P 1", "BAT 9    R --"]));
}

#[test]
fn sleep_screen() {
    let fb = shown(&[ControllerEvent::Layer(3), ControllerEvent::Sleep(true)]);
    assert_eq!(fb, picture(["SLEEP", "WAKE KEY", "TO RESUME", "LILY58"]));
}

#[test]
fn events_ask_for_a_new_screen() {
    let mut c = OledController::new();
    c.update();
    pump(&mut c);
    assert!(!c.dirty);
    c.process_event(ControllerEvent::Other);
    c.process_event(ControllerEvent::Key(KeyAction::Single(Action::Key(KeyCode::User8))));
    assert!(!c.dirty);
    c.update();
    assert!(c.next_write().is_none());
    c.process_event(ControllerEvent::Battery(50));
    assert!(c.dirty);
    c.update();
    assert!(!c.dirty);
    assert!(c.next_write().is_some());
}

#[test]
fn set_up_commands_go_out_in_one_packet() {
    let mut c = OledController::new();
    c.init_display();
    assert_eq!(c.stage, Stage::Init);
    let sent = pump(&mut c);
    assert_eq!(
        sent,
        vec![vec![
            0x00, 0xAE, 0xD5, 0x80, 0xA8, 0x1F, 0xD3, 0x00, 0x40, 0x8D, 0x14, 0x20, 0x00, 0xA1,
            0xC8, 0xDA, 0x02, 0x81, 0x8F, 0xD9, 0xF1, 0xDB, 0x40, 0xA4, 0xA6, 0xAF,
        ]]
    );
    assert!(c.available);
    assert_eq!(c.stage, Stage::Idle);
}

#[test]
fn screen_is_transferred_page_by_page() {
    let mut c = OledController::new();
    c.redraw();
    let fb = c.framebuffer;
    let sent = pump(&mut c);
    assert_eq!(sent.len(), 36);
    let mut data = Vec::new();
    for (i, packet) in sent.iter().enumerate() {
        if i % 9 == 0 {
            assert_eq!(*packet, vec![0x00, 0xB0 + (i / 9) as u8, 0x00, 0x10]);
        } else {
            assert_eq!((packet.len(), packet[0]), (17, 0x40));
            data.extend_from_slice(&packet[1..]);
        }
    }
    assert_eq!(data, fb.to_vec());
    assert_eq!(c.stage, Stage::Idle);
}

#[test]
fn power_on_leads_to_the_first_screen() {
    let mut c = oled();
    assert_eq!(c.stage, Stage::Boot);
    let sent = pump(&mut c);
    assert_eq!(sent.len(), 37);
    assert_eq!(sent[0].len(), 26);
    assert_eq!(sent[1], vec![0x00, 0xB0, 0x00, 0x10]);
    assert_eq!(
        c.framebuffer,
        picture(["LILY58 OLED", "LAYER 0", "BLE P 1", "BAT --   R --"])
    );
    assert!(c.available && !c.dirty);
}

#[test]
fn display_that_does_not_answer_at_power_on() {
    let mut c = oled();
    c.write_done(false);
    assert!(!c.available && !c.dirty);
    assert_eq!(c.stage, Stage::Idle);
    assert!(c.next_write().is_none());
    assert_eq!(c.framebuffer, [0; 512]);
}

#[test]
fn display_that_fails_is_left_alone() {
    let mut c = OledController::new();
    c.redraw();
    c.write_done(true);
    c.write_done(true);
    c.write_done(false);
    assert!(!c.available);
    assert!(c.next_write().is_none());
    for layer in 0..5 {
        c.process_event(ControllerEvent::Layer(layer));
        c.update();
        assert!(!c.dirty);
        c.redraw();
        c.process_event(ControllerEvent::Sleep(true));
        assert!(!c.available);
        assert!(c.next_write().is_none());
    }
    c.init_display();
    pump(&mut c);
    assert!(c.available);
}
