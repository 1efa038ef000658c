use struart::frame::{send_ops, DeviceOp};

#[test]
fn a_line_is_written_then_terminated_then_flushed() {
    let ops = send_ops("AT+OK");
    assert_eq!(
        ops,
        vec![
            DeviceOp::Write(vec![0x41, 0x54, 0x2b, 0x4f, 0x4b]),
            DeviceOp::Write(vec![0x0d, 0x0a]),
            DeviceOp::Flush,
        ]
    );
}

#[test]
fn empty_text_still_sends_the_terminator() {
    let ops = send_ops("");
    assert_eq!(
        ops,
        vec![
            DeviceOp::Write(Vec::new()),
            DeviceOp::Write(vec![0x0d, 0x0a]),
            DeviceOp::Flush,
        ]
    );
}

#[test]
fn text_goes_out_as_utf8() {
    let ops = send_ops("h\u{e9}\u{20ac}");
    assert_eq!(
        ops[0],
        DeviceOp::Write(vec![0x68, 0xc3, 0xa9, 0xe2, 0x82, 0xac])
    );
    assert_eq!(ops.len(), 3);
}

#[test]
fn text_is_sent_as_it_is_even_with_line_breaks_inside() {
    let ops = send_ops("a\r\nb");
    assert_eq!(ops[0], DeviceOp::Write(vec![0x61, 0x0d, 0x0a, 0x62]));
    assert_eq!(ops[1], DeviceOp::Write(vec![0x0d, 0x0a]));
    assert_eq!(ops[2], DeviceOp::Flush);
}
