use crow_panel_advance_5::gt911::{
    clear_status_frame, decode_point, decode_status, point_register, register_address,
    write_reg_frame, PointsReader, PointsRequest, GT911_ADDR, REG_POINT_1, REG_POINT_INFO,
};

#[test]
fn register_bytes_are_high_byte_first() {
    assert_eq!(register_address(REG_POINT_INFO), [0x81, 0x4E]);
    assert_eq!(register_address(0x00FF), [0x00, 0xFF]);
    assert_eq!(write_reg_frame(0x8040, 0x02), [0x80, 0x40, 0x02]);
    assert_eq!(clear_status_frame(), [0x81, 0x4E, 0x00]);
    assert_eq!(GT911_ADDR, 0x5D);
}

#[test]
fn status_byte_decoding() {
    assert_eq!(decode_status(0x83), (true, 3));
    assert_eq!(decode_status(0x05), (true, 5));
    assert_eq!(decode_status(0xFF), (true, 15));
    assert_eq!(decode_status(0x00), (false, 0));
    assert_eq!(decode_status(0x80), (false, 0));
    assert_eq!(decode_status(0x70), (false, 0));
}

#[test]
fn point_records_are_eight_bytes_apart() {
    assert_eq!(point_register(0), REG_POINT_1);
    assert_eq!(point_register(0), 0x814F);
    assert_eq!(point_register(1), 0x8157);
    assert_eq!(point_register(4), 0x816F);
    assert_eq!(point_register(255), 0x814F + 255 * 8);
}

#[test]
fn point_record_decoding_is_little_endian() {
    let p = decode_point(&[7, 0x20, 0x03, 0xE0, 0x01, 0x10, 0x00]);
    assert_eq!((p.id, p.x, p.y, p.size), (7, 800, 480, 16));
    let p = decode_point(&[0, 0xFF, 0xFF, 0, 0, 1, 0]);
    assert_eq!((p.x, p.y, p.size), (0xFFFF, 0, 1));
}

fn expect_read(r: &PointsReader) -> u16 {
    match r.request() {
        PointsRequest::Read { register } => register,
        other => panic!("expected a read, got {:?}", other),
    }
}

#[test]
fn reading_two_points_then_clearing() {
    let mut r = PointsReader::new(2);
    assert_eq!(expect_read(&r), 0x814F);
    r.point_read(Ok([1, 10, 0, 20, 0, 3, 0]));
    assert_eq!(expect_read(&r), 0x8157);
    r.point_read(Ok([2, 0, 1, 0, 2, 4, 0]));
    match r.request() {
        PointsRequest::Clear { frame } => assert_eq!(frame, [0x81, 0x4E, 0]),
        other => panic!("expected a clear, got {:?}", other),
    }
    r.clear_done(Ok(()));
    assert!(matches!(r.request(), PointsRequest::Finished));
    let pts = r.into_result().unwrap();
    assert_eq!(pts.len(), 2);
    assert_eq!((pts[0].id, pts[0].x, pts[0].y, pts[0].size), (1, 10, 20, 3));
    assert_eq!((pts[1].id, pts[1].x, pts[1].y, pts[1].size), (2, 256, 512, 4));
}

#[test]
fn reading_no_points_only_clears() {
    let mut r = PointsReader::new(0);
    assert!(matches!(r.request(), PointsRequest::Clear { .. }));
    r.clear_done(Ok(()));
    assert!(r.into_result().unwrap().is_empty());
}

#[test]
fn failed_record_read_ends_without_clearing() {
    let mut r = PointsReader::new(3);
    r.point_read(Ok([0; 7]));
    r.point_read(Err(-1));
    assert!(matches!(r.request(), PointsRequest::Finished));
    assert_eq!(r.into_result().unwrap_err(), -1);
}

#[test]
fn failed_clear_is_reported() {
    let mut r = PointsReader::new(1);
    r.point_read(Ok([0; 7]));
    r.clear_done(Err(263));
    assert!(matches!(r.request(), PointsRequest::Finished));
    assert_eq!(r.into_result().unwrap_err(), 263);
}
