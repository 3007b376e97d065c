use framesync::read_frames;

// NAL unit payloads used below (first byte: forbidden bit, then nal_unit_type
// in the low five bits):
// - 0x67.. : type 7 (SPS), never begins an access unit
// - 0x68.. : type 8 (PPS), never begins an access unit
// - 0x65, 0x88 : type 5 (IDR slice) with first_mb_in_slice = 0, begins one
// - 0x41, 0x3f : type 1 (non-IDR slice) with first_mb_in_slice != 0, does not
// - 0x80.. : forbidden_zero_bit set, unclassifiable

#[test]
fn empty_input_yields_empty_output() {
    let frames = read_frames(&[]).expect("empty input must not fail");
    assert_eq!(frames.len(), 0);
}

#[test]
fn no_start_code_yields_empty_output() {
    let frames = read_frames(&[0xaa, 0xbb, 0xcc]).expect("no NAL units, no error");
    assert_eq!(frames.len(), 0);
}

#[test]
fn single_access_unit_collects_all_units() {
    // SPS then PPS, neither begins an access unit; the second unit uses a
    // three-byte start code and must still come out with the canonical
    // four-byte one.
    let buf = [0, 0, 0, 1, 0x67, 0x42, 0, 0, 1, 0x68, 0xce];
    let frames = read_frames(&buf).unwrap();
    assert_eq!(frames.len(), 1);
    assert_eq!(frames[0].data, vec![0, 0, 0, 1, 0x67, 0x42, 0, 0, 0, 1, 0x68, 0xce]);
    assert_eq!(frames[0].pts, 0);
    assert_eq!(frames[0].dts, 0);
}

#[test]
fn k_access_units_get_sequential_timestamps() {
    // Three IDR slices, each beginning an access unit.
    let buf = [
        0, 0, 0, 1, 0x65, 0x88, //
        0, 0, 0, 1, 0x65, 0x88, //
        0, 0, 0, 1, 0x65, 0x88,
    ];
    let frames = read_frames(&buf).unwrap();
    assert_eq!(frames.len(), 3);
    for (k, frame) in frames.iter().enumerate() {
        assert_eq!(frame.data, vec![0, 0, 0, 1, 0x65, 0x88]);
        assert_eq!(frame.pts, k as u64);
        assert_eq!(frame.dts, k as u64);
    }
}

#[test]
fn boundary_splits_four_units_two_and_two() {
    // A = SPS, B = PPS, C = IDR slice (the only boundary), D = non-IDR
    // slice continuing C's access unit: two frames, A,B and C,D.
    let buf = [
        0, 0, 0, 1, 0x67, 0x42, //
        0, 0, 0, 1, 0x68, 0xce, //
        0, 0, 0, 1, 0x65, 0x88, //
        0, 0, 0, 1, 0x41, 0x3f,
    ];
    let frames = read_frames(&buf).unwrap();
    assert_eq!(frames.len(), 2);
    assert_eq!(frames[0].data, vec![0, 0, 0, 1, 0x67, 0x42, 0, 0, 0, 1, 0x68, 0xce]);
    assert_eq!(frames[0].pts, 0);
    assert_eq!(frames[0].dts, 0);
    assert_eq!(frames[1].data, vec![0, 0, 0, 1, 0x65, 0x88, 0, 0, 0, 1, 0x41, 0x3f]);
    assert_eq!(frames[1].pts, 1);
    assert_eq!(frames[1].dts, 1);
}

#[test]
fn access_unit_delimiter_begins_a_unit() {
    // Two access units, each opened by an AUD (type 9) and continued by a
    // non-IDR slice that does not begin one.
    let buf = [
        0, 0, 0, 1, 0x09, 0x10, //
        0, 0, 0, 1, 0x41, 0x3f, //
        0, 0, 0, 1, 0x09, 0x10, //
        0, 0, 0, 1, 0x41, 0x3f,
    ];
    let frames = read_frames(&buf).unwrap();
    assert_eq!(frames.len(), 2);
    assert_eq!(frames[0].data, vec![0, 0, 0, 1, 0x09, 0x10, 0, 0, 0, 1, 0x41, 0x3f]);
    assert_eq!(frames[1].data, vec![0, 0, 0, 1, 0x09, 0x10, 0, 0, 0, 1, 0x41, 0x3f]);
    assert_eq!(frames[1].pts, 1);
}

#[test]
fn leading_garbage_is_ignored() {
    let buf = [0xff, 0x17, 0, 0, 0, 1, 0x65, 0x88];
    let frames = read_frames(&buf).unwrap();
    assert_eq!(frames.len(), 1);
    assert_eq!(frames[0].data, vec![0, 0, 0, 1, 0x65, 0x88]);
}

#[test]
fn unclassifiable_unit_is_fatal() {
    // Forbidden bit set on the only NAL unit: no frames at all.
    let err = read_frames(&[0, 0, 0, 1, 0x80, 0x42]).unwrap_err();
    assert_eq!(err.nalu_index, 0);
}

#[test]
fn unclassifiable_unit_aborts_later_stream() {
    // A good IDR slice followed by a bad unit: the whole run fails and the
    // error names the second unit.
    let buf = [0, 0, 0, 1, 0x65, 0x88, 0, 0, 0, 1, 0x80, 0x42];
    let err = read_frames(&buf).unwrap_err();
    assert_eq!(err.nalu_index, 1);
}

#[test]
fn empty_nal_unit_is_unclassifiable() {
    // A start code at the very end produces one empty NAL unit.
    let err = read_frames(&[0, 0, 1]).unwrap_err();
    assert_eq!(err.nalu_index, 0);
}

#[test]
fn truncated_slice_is_unclassifiable() {
    // A VCL unit needs its first slice-header byte.
    let err = read_frames(&[0, 0, 0, 1, 0x65]).unwrap_err();
    assert_eq!(err.nalu_index, 0);
}
