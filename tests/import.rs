use yozora::{
    check_import, contains_format, import_buffer, DmabufImported, Feedback, Format, ImportError, ImportRequest,
};

const AR24: u32 = 0x3432_5241;
const XR24: u32 = 0x3432_5258;

fn request(n_planes: u32, supplied: usize) -> ImportRequest {
    ImportRequest {
        width: 64,
        height: 64,
        fourcc: AR24,
        modifier: 0,
        n_planes,
        fds: (0..supplied).map(|i| 10 + i as i32).collect(),
        offsets: vec![0; supplied],
        strides: vec![256; supplied],
    }
}

fn ar24_feedback() -> Feedback {
    Feedback::new(0x1234, vec![Format { fourcc: AR24, modifier: 0 }])
}

#[test]
fn feedback_drops_repeated_formats_and_keeps_order() {
    let a = Format { fourcc: AR24, modifier: 0 };
    let b = Format { fourcc: XR24, modifier: 7 };
    let fb = Feedback::new(9, vec![a, b, a, b, a]);
    assert_eq!(fb.main_device, 9);
    assert_eq!(fb.formats, vec![a, b]);
    assert!(fb.supports(XR24, 7));
    assert!(!fb.supports(XR24, 0));
    assert!(contains_format(&fb.formats, a));
}

#[test]
fn well_formed_import_succeeds_and_is_queued() {
    let mut chan = DmabufImported::new();
    let fb = ar24_feedback();
    assert_eq!(import_buffer(&mut chan, &fb, request(1, 1)), Ok(()));
    let d = chan.try_receive().expect("the descriptor was queued");
    assert_eq!((d.width, d.height, d.fourcc, d.modifier, d.n_planes), (64, 64, AR24, 0, 1));
    assert_eq!(d.planes.len(), 1);
    assert_eq!((d.planes[0].fd, d.planes[0].offset, d.planes[0].stride), (10, 0, 256));
    assert!(chan.try_receive().is_none());
}

#[test]
fn declared_two_planes_with_one_supplied_fails_and_queues_nothing() {
    let mut chan = DmabufImported::new();
    let fb = ar24_feedback();
    assert_eq!(import_buffer(&mut chan, &fb, request(2, 1)), Err(ImportError::PlaneCountMismatch));
    assert!(chan.try_receive().is_none());
}

#[test]
fn ragged_plane_data_is_a_plane_count_mismatch() {
    let mut req = request(2, 2);
    req.strides.pop();
    let mut chan = DmabufImported::new();
    assert_eq!(import_buffer(&mut chan, &ar24_feedback(), req), Err(ImportError::PlaneCountMismatch));
    assert!(chan.try_receive().is_none());
}

#[test]
fn too_many_planes_are_refused() {
    let fb = ar24_feedback();
    assert_eq!(check_import(&fb, &request(5, 5)), Some(ImportError::TooManyPlanes));
    assert_eq!(check_import(&fb, &request(4, 4)), None);
}

#[test]
fn unsupported_format_is_refused() {
    let mut chan = DmabufImported::new();
    let fb = ar24_feedback();
    let mut req = request(1, 1);
    req.modifier = 5;
    assert_eq!(import_buffer(&mut chan, &fb, req), Err(ImportError::UnsupportedFormat));
    assert!(chan.try_receive().is_none());
}

#[test]
fn failed_import_leaves_earlier_buffers_queued() {
    let mut chan = DmabufImported::new();
    let fb = ar24_feedback();
    assert_eq!(import_buffer(&mut chan, &fb, request(1, 1)), Ok(()));
    assert!(import_buffer(&mut chan, &fb, request(3, 2)).is_err());
    assert_eq!(chan.drain().len(), 1);
}

#[test]
fn successive_imports_are_queued_in_call_order() {
    let mut chan = DmabufImported::new();
    let fb = ar24_feedback();
    for w in [16u32, 32, 48] {
        let mut req = request(1, 1);
        req.width = w;
        assert_eq!(import_buffer(&mut chan, &fb, req), Ok(()));
    }
    let widths: Vec<u32> = chan.drain().iter().map(|d| d.width).collect();
    assert_eq!(widths, vec![16, 32, 48]);
}

#[test]
fn surface_feedback_prefers_the_supplied_one() {
    let default = ar24_feedback();
    let custom = Feedback::new(7, vec![Format { fourcc: XR24, modifier: 0 }]);
    assert_eq!(yozora::surface_feedback(&default, None).main_device, 0x1234);
    assert_eq!(yozora::surface_feedback(&default, Some(&custom)).main_device, 7);
    assert!(yozora::surface_feedback(&default, Some(&custom)).supports(XR24, 0));
}
