use chip8::instr::Instr;
use chip8::instr::decode;
use chip8::keyboard::Keyboard;
use chip8::keyboard::logical_key_of;
use chip8::monitor::Monitor;

#[test]
fn decode_covers_the_instruction_set() {
    assert_eq!(decode(0x00E0), Instr::ClearScreen);
    assert_eq!(decode(0x00EE), Instr::Return);
    assert_eq!(decode(0x1ABC), Instr::Jump { nnn: 0xABC });
    assert_eq!(decode(0x2123), Instr::Call { nnn: 0x123 });
    assert_eq!(decode(0x3A55), Instr::SkipEqByte { x: 0xA, kk: 0x55 });
    assert_eq!(decode(0x4A55), Instr::SkipNeByte { x: 0xA, kk: 0x55 });
    assert_eq!(decode(0x5AB0), Instr::SkipEqReg { x: 0xA, y: 0xB });
    assert_eq!(decode(0x6A55), Instr::SetByte { x: 0xA, kk: 0x55 });
    assert_eq!(decode(0x7A55), Instr::AddByte { x: 0xA, kk: 0x55 });
    assert_eq!(decode(0x8AB0), Instr::CopyReg { x: 0xA, y: 0xB });
    assert_eq!(decode(0x8AB1), Instr::OrReg { x: 0xA, y: 0xB });
    assert_eq!(decode(0x8AB2), Instr::AndReg { x: 0xA, y: 0xB });
    assert_eq!(decode(0x8AB3), Instr::XorReg { x: 0xA, y: 0xB });
    assert_eq!(decode(0x8AB4), Instr::AddReg { x: 0xA, y: 0xB });
    assert_eq!(decode(0x8AB5), Instr::SubReg { x: 0xA, y: 0xB });
    assert_eq!(decode(0x8AB6), Instr::ShiftRight { x: 0xA });
    assert_eq!(decode(0x8AB7), Instr::SubFrom { x: 0xA, y: 0xB });
    assert_eq!(decode(0x8ABE), Instr::ShiftLeft { x: 0xA });
    assert_eq!(decode(0x9AB0), Instr::SkipNeReg { x: 0xA, y: 0xB });
    assert_eq!(decode(0xA123), Instr::SetIndex { nnn: 0x123 });
    assert_eq!(decode(0xB123), Instr::JumpPlusV0 { nnn: 0x123 });
    assert_eq!(decode(0xCA55), Instr::Random { x: 0xA, kk: 0x55 });
    assert_eq!(decode(0xDAB7), Instr::Draw { x: 0xA, y: 0xB, n: 7 });
    assert_eq!(decode(0xEA9E), Instr::SkipIfKey { x: 0xA });
    assert_eq!(decode(0xEAA1), Instr::SkipIfNotKey { x: 0xA });
    assert_eq!(decode(0xFA07), Instr::GetDelay { x: 0xA });
    assert_eq!(decode(0xFA0A), Instr::WaitForKey { x: 0xA });
    assert_eq!(decode(0xFA15), Instr::SetDelay { x: 0xA });
    assert_eq!(decode(0xFA18), Instr::SetSound { x: 0xA });
    assert_eq!(decode(0xFA1E), Instr::AddIndex { x: 0xA });
    assert_eq!(decode(0xFA29), Instr::FontChar { x: 0xA });
    assert_eq!(decode(0xFA33), Instr::StoreBcd { x: 0xA });
    assert_eq!(decode(0xFA55), Instr::RegDump { x: 0xA });
    assert_eq!(decode(0xFA65), Instr::RegLoad { x: 0xA });
    assert_eq!(decode(0x0000), Instr::Unknown);
    assert_eq!(decode(0x8AB8), Instr::Unknown);
    assert_eq!(decode(0xEA00), Instr::Unknown);
    assert_eq!(decode(0xFAFF), Instr::Unknown);
}

#[test]
fn keyboard_maps_physical_codes() {
    assert_eq!(logical_key_of(49), Some(0x1));
    assert_eq!(logical_key_of(52), Some(0xC));
    assert_eq!(logical_key_of(113), Some(0x4));
    assert_eq!(logical_key_of(99), Some(0x0));
    assert_eq!(logical_key_of(422), Some(0xA));
    // code 118 maps to F: on this layout no physical code reaches key B
    assert_eq!(logical_key_of(118), Some(0xF));
    assert_eq!(logical_key_of(12345), None);
}

#[test]
fn keyboard_press_and_release() {
    let mut kb = Keyboard::new();
    for k in 0..16 {
        assert!(!kb.is_key_pressed(k));
    }
    kb.on_key_down(119); // W -> 5
    assert!(kb.is_key_pressed(5));
    kb.on_key_up(119);
    assert!(!kb.is_key_pressed(5));
    kb.on_key_down(9999); // unmapped: nothing
    for k in 0..16 {
        assert!(!kb.is_key_pressed(k));
    }
    kb.press(7);
    assert!(kb.is_key_pressed(7));
    kb.release(7);
    assert!(!kb.is_key_pressed(7));
}

#[test]
fn monitor_toggles_and_reports_collision() {
    let mut m = Monitor::new();
    // first toggle lights the pixel: no collision
    assert!(!m.set_pixel(3, 2));
    assert_eq!(m.display[2 * 64 + 3], 1);
    // second toggle turns it off: collision
    assert!(m.set_pixel(3, 2));
    assert_eq!(m.display[2 * 64 + 3], 0);
}

#[test]
fn monitor_wraps_coordinates_once_and_clamps() {
    let mut m = Monitor::new();
    // x strictly beyond the width is pulled back once by 64
    m.set_pixel(70, 0);
    assert_eq!(m.display[6], 1);
    // y strictly beyond the height is pulled back once by 32
    m.set_pixel(0, 33);
    assert_eq!(m.display[64], 1);
    // an index still out of range lands on the last cell
    m.set_pixel(63, 100);
    assert_eq!(m.display[2047], 1);
}

#[test]
fn monitor_clear_blanks_everything() {
    let mut m = Monitor::new();
    m.set_pixel(0, 0);
    m.set_pixel(63, 31);
    m.clear();
    assert!(m.display.iter().all(|&p| p == 0));
}
