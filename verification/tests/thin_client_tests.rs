use oasis_ui::thin_client::{
    chunk_span, dcache_span, handshake_done, input_response, vram_addr, DoubleBuffer, FrameOp,
    InputState, Link, RecvStep,
};
use oasis_ui::usb_descriptors::{
    driver_interface, driver_string_descriptor, endpoint_descriptors, endpoint_table, UsbDataEndpoint,
    UsbInterface,
};
use oasis_ui::usb_log::{hex_line, hex_row, usb_state_name};

#[test]
fn input_response_layout() {
    let s = InputState { buttons: 0x0102_0304, analog_x: 10, analog_y: 20, battery: 99 };
    assert_eq!(input_response(&s), vec![0x21, 0, 8, 0, 4, 3, 2, 1, 10, 20, 99, 0]);
    let rest = InputState::new();
    assert_eq!(input_response(&rest), vec![0x21, 0, 8, 0, 0, 0, 0, 0, 128, 128, 0, 0]);
}

#[test]
fn messages_decode_to_frame_ops() {
    let mut buf = vec![0x11u8, 3, 10, 0];
    buf.extend(std::iter::repeat(7u8).take(20));
    assert_eq!(
        oasis_ui::thin_client::frame_op(&buf, 24),
        FrameOp::WriteChunk { index: 3, len: 10 }
    );
    // A header that announces more than arrived is cut to what arrived.
    buf[2] = 100;
    assert_eq!(
        oasis_ui::thin_client::frame_op(&buf, 24),
        FrameOp::WriteChunk { index: 3, len: 20 }
    );
    assert_eq!(oasis_ui::thin_client::frame_op(&[0x12, 5, 0, 0], 4), FrameOp::Swap);
    assert_eq!(oasis_ui::thin_client::frame_op(&[0x20, 0, 0, 0], 4), FrameOp::Answer);
    assert_eq!(oasis_ui::thin_client::frame_op(&[0x99, 0, 0, 0], 4), FrameOp::Answer);
    assert_eq!(oasis_ui::thin_client::frame_op(&[0x11, 0, 0], 3), FrameOp::Answer);
}

#[test]
fn chunks_stay_inside_the_framebuffer() {
    assert_eq!(chunk_span(0, 100), (0, 100));
    assert_eq!(chunk_span(17, 16376), (278392, 136));
    assert_eq!(chunk_span(18, 5), (294768, 0));
}

#[test]
fn double_buffer_swaps() {
    assert_eq!(vram_addr(0), 0x4400_0000);
    assert_eq!(vram_addr(1), 0x4404_4000);
    let mut fb = DoubleBuffer::new();
    assert_eq!(fb.swap(), 0x4404_4000);
    assert_eq!((fb.draw, fb.disp, fb.frames_done), (0, 1, 1));
    assert_eq!(fb.swap(), 0x4400_0000);
    assert_eq!((fb.draw, fb.disp, fb.frames_done), (1, 0, 2));
}

#[test]
fn dcache_span_covers_whole_lines() {
    assert_eq!(dcache_span(0x1000_0005, 100), (0x1000_0000, 128));
    assert_eq!(dcache_span(0x40, 64), (0x40, 64));
    assert_eq!(dcache_span(0x41, 0), (0x40, 64));
}

#[test]
fn link_modes_and_completions() {
    let mut link = Link::new();
    assert_eq!(link.on_recv_complete(100, 0), RecvStep::Ignore);
    assert_eq!(link.last_recv_info(), (100, 0));
    link.enable_echo_mode();
    assert_eq!(link.on_recv_complete(100, 0), RecvStep::Echo(100));
    assert_eq!(link.on_recv_complete(20000, 0), RecvStep::Echo(16384));
    assert_eq!(link.on_recv_complete(100, -1), RecvStep::Ignore);
    assert_eq!(link.on_recv_complete(0, 0), RecvStep::Ignore);
    link.enable_thin_client_mode();
    assert!(!link.echo_mode);
    assert_eq!(link.on_recv_complete(100, 0), RecvStep::Message(100));
    assert!(link.on_send_complete(0));
    assert_eq!(link.poll_echo(), (true, 1));
    assert_eq!(link.poll_echo(), (false, 1));
    link.update_input(7, 1, 2, 3);
    assert_eq!(input_response(&link.input)[4..], [7, 0, 0, 0, 1, 2, 3, 0]);
    assert!(handshake_done(5, 0));
    assert!(!handshake_done(0, 0));
    assert!(!handshake_done(5, 1));
}

#[test]
fn log_lines() {
    assert_eq!(hex_line("speed: ", 0x200), b"speed: 00000200".to_vec());
    let long = "a".repeat(60);
    let line = hex_line(&long, 0xDEAD_BEEF);
    assert_eq!(line.len(), 58);
    assert_eq!(&line[50..], b"DEADBEEF");
    assert_eq!(
        hex_row(0xE8, 0x200, 0x20, 0, 0xDEAD_BEEF),
        b"  +E8: 00000200 00000020 00000000 DEADBEEF".to_vec()
    );
    assert_eq!(usb_state_name(0x333), "HW_IDLE+ACT+CON+EST");
    assert_eq!(usb_state_name(0x020), "CON");
    assert_eq!(usb_state_name(0x999), "OTHER");
}

#[test]
fn driver_tables() {
    let eps = endpoint_table();
    for (k, e) in eps.iter().enumerate() {
        assert_eq!(e.endpnum, k as i32);
        assert_eq!((e.unk2, e.unk3), (0, 0));
    }
    assert_eq!(
        driver_interface(),
        UsbInterface { expect_interface: -1, unk8: 0, num_interface: 1 }
    );
    assert_eq!(driver_string_descriptor(), [8, 3, b'<', 0, b'>', 0, 0, 0]);
}

#[test]
fn endpoint_slots_hold_padded_descriptors() {
    let eps = endpoint_descriptors(true);
    let slot = UsbDataEndpoint::from_descriptor(&eps[0]);
    let bytes = eps[0].to_bytes();
    assert_eq!(&slot.desc[..7], &bytes[..]);
    assert!(slot.desc[7..].iter().all(|b| *b == 0));
}

#[test]
fn link_attach_and_handshake() {
    let mut link = Link::new();
    assert!(!link.is_attached());
    link.set_attached(true);
    assert!(link.is_attached());
    assert_eq!(link.handshake_message(), None);
    link.on_recv_complete(12, 0);
    assert_eq!(link.handshake_message(), Some(12));
    link.on_recv_complete(-5, 0);
    assert_eq!(link.handshake_message(), None);
    link.set_attached(false);
    assert!(!link.is_attached());
}
