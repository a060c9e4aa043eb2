use synergy_parser::command::{scale, DEVICE_RANGE};
use synergy_parser::DownstreamCommand;

fn encoded(command: DownstreamCommand) -> Vec<u8> {
    let mut port = Vec::new();
    assert_eq!(command.write_wire(&mut port), Ok(()));
    port
}

#[test]
fn mouse_move_command() {
    assert_eq!(encoded(DownstreamCommand::MouseMove { x: 0x7fff, y: 0x0102 }), vec![0, 0x7f, 0xff, 1, 2]);
}

#[test]
fn mouse_down_command() {
    assert_eq!(encoded(DownstreamCommand::MouseDown { id: 1 }), vec![1, 1]);
    assert_eq!(encoded(DownstreamCommand::MouseDown { id: -2 }), vec![1, 0xfe]);
}

#[test]
fn mouse_up_command() {
    assert_eq!(encoded(DownstreamCommand::MouseUp { id: 3 }), vec![2, 3]);
    assert_eq!(encoded(DownstreamCommand::MouseUp { id: i8::MIN }), vec![2, 0x80]);
}

#[test]
fn key_down_command() {
    assert_eq!(
        encoded(DownstreamCommand::KeyDown { id: 30, mask: 0, button: 30 }),
        vec![3, 0, 30, 0, 0, 0, 30]
    );
}

#[test]
fn key_up_command() {
    assert_eq!(
        encoded(DownstreamCommand::KeyUp { id: 0xef08, mask: 0x2000, button: 0x0102 }),
        vec![4, 0xef, 0x08, 0x20, 0x00, 0x01, 0x02]
    );
}

#[test]
fn mouse_wheel_command() {
    assert_eq!(
        encoded(DownstreamCommand::MouseWheel { x_delta: 120, y_delta: -120 }),
        vec![5, 0x00, 0x78, 0xff, 0x88]
    );
    assert_eq!(
        encoded(DownstreamCommand::MouseWheel { x_delta: i16::MIN, y_delta: i16::MAX }),
        vec![5, 0x80, 0x00, 0x7f, 0xff]
    );
}

#[test]
fn cursor_commands() {
    assert_eq!(encoded(DownstreamCommand::CursorEnter), vec![6]);
    assert_eq!(encoded(DownstreamCommand::CursorLeave), vec![7]);
}

#[test]
fn commands_are_appended() {
    let mut port = vec![0xaa];
    DownstreamCommand::CursorEnter.write_wire(&mut port).unwrap();
    DownstreamCommand::MouseDown { id: 1 }.write_wire(&mut port).unwrap();
    assert_eq!(port, vec![0xaa, 6, 1, 1]);
}

#[test]
fn the_origin_stays_the_origin() {
    assert_eq!(scale(0, 2560), 0);
    assert_eq!(scale(0, 1600), 0);
    assert_eq!(scale(0, 1), 0);
}

#[test]
fn the_far_edge_lands_on_the_top_of_the_range() {
    assert_eq!(DEVICE_RANGE, 32767);
    assert_eq!(scale(2560, 2560), 32767);
    assert_eq!(scale(1600, 1600), 32767);
    assert_eq!(scale(1, 1), 32767);
    assert_eq!(scale(65535, 65535), 32767);
}

#[test]
fn scaling_rounds_up() {
    assert_eq!(scale(1, 2560), 13);
    assert_eq!(scale(1280, 2560), 16384);
    assert_eq!(scale(800, 1600), 16384);
    assert_eq!(scale(1, 32767), 1);
    assert_eq!(scale(1, 32768), 1);
    assert_eq!(scale(2, 32767), 2);
    assert_eq!(scale(100, 1000), 3277);
    assert_eq!(scale(2559, 2560), 32755);
}

#[test]
fn scaling_agrees_with_the_ceiling() {
    for dimension in [1u16, 2, 3, 7, 1600, 2560, 32767, 40000, 65535] {
        for coord in [0u16, 1, 2, 3, 5, 100, 799, 1599, 2559, 30000] {
            if coord > dimension {
                continue;
            }
            let exact = (coord as f64) * 32767.0 / (dimension as f64);
            assert_eq!(scale(coord, dimension) as f64, exact.ceil());
        }
    }
}

#[test]
fn scaling_beyond_the_screen_is_held_at_the_top() {
    assert_eq!(scale(2, 1), 65534);
    assert_eq!(scale(3, 1), 65535);
    assert_eq!(scale(65535, 1), 65535);
    assert_eq!(scale(5121, 2560), 65535);
    assert_eq!(scale(5120, 2560), 65534);
}
