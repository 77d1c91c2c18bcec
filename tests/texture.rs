use yozora::{
    assemble, assemble_checked, import_buffer, BufferDescriptor, CurrentTexture, DmabufImported, Feedback, Format,
    ImportRequest, Plane, TextureBuilder,
};

const AR24: u32 = 0x3432_5241;

fn two_planes() -> BufferDescriptor {
    BufferDescriptor {
        width: 32,
        height: 8,
        fourcc: 0x3231_564e,
        modifier: 9,
        n_planes: 2,
        planes: vec![Plane { fd: 5, offset: 0, stride: 32 }, Plane { fd: 6, offset: 256, stride: 32 }],
    }
}

#[test]
fn fresh_builder_has_one_plane_and_no_descriptors() {
    let b = TextureBuilder::new();
    assert_eq!((b.width, b.height, b.n_planes, b.premultiplied), (0, 0, 1, true));
    assert_eq!(b.fds, vec![-1; 4]);
}

#[test]
fn setters_change_only_their_field() {
    let b = TextureBuilder::new().width(3).height(4).fourcc(5).modifier(6).n_planes(2).premultiplied(false);
    let b = b.fd(1, 11).offset(1, 12).stride(3, 13);
    assert_eq!((b.width, b.height, b.fourcc, b.modifier, b.n_planes, b.premultiplied), (3, 4, 5, 6, 2, false));
    assert_eq!(b.fds, vec![-1, 11, -1, -1]);
    assert_eq!(b.offsets, vec![0, 12, 0, 0]);
    assert_eq!(b.strides, vec![0, 0, 0, 13]);
}

#[test]
fn assembly_copies_every_plane() {
    let b = assemble(&two_planes());
    assert_eq!((b.width, b.height, b.fourcc, b.modifier, b.n_planes), (32, 8, 0x3231_564e, 9, 2));
    assert_eq!(b.fds, vec![5, 6, -1, -1]);
    assert_eq!(b.offsets, vec![0, 256, 0, 0]);
    assert_eq!(b.strides, vec![32, 32, 0, 0]);
}

#[test]
fn checked_assembly_refuses_inconsistent_descriptors() {
    let mut d = two_planes();
    d.n_planes = 3;
    assert!(assemble_checked(&d).is_none());
    assert!(assemble_checked(&two_planes()).is_some());
}

#[test]
fn same_content_assembles_to_the_same_description() {
    let a = assemble(&two_planes());
    let b = assemble(&two_planes());
    assert_eq!((a.width, a.height, a.fourcc, a.modifier, a.n_planes), (b.width, b.height, b.fourcc, b.modifier, b.n_planes));
    assert_eq!((a.fds, a.offsets, a.strides), (b.fds, b.offsets, b.strides));
    let mut current: CurrentTexture<u32> = CurrentTexture::new();
    assert!(current.realized::<()>(Ok(7)).is_none());
    assert!(current.realized::<()>(Ok(7)).is_none());
    assert_eq!(current.current(), Some(&7));
}

#[test]
fn failed_realization_keeps_current_texture() {
    let mut current: CurrentTexture<u32> = CurrentTexture::new();
    assert_eq!(current.current(), None);
    assert_eq!(current.realized(Err("rejected")), Some("rejected"));
    assert_eq!(current.current(), None);
    current.realized::<&str>(Ok(1));
    assert_eq!(current.realized(Err("rejected")), Some("rejected"));
    assert_eq!(current.current(), Some(&1));
}

#[test]
fn imported_ar24_buffer_becomes_a_64_by_64_texture() {
    let fb = Feedback::new(3, vec![Format { fourcc: AR24, modifier: 0 }]);
    let mut chan = DmabufImported::new();
    let req = ImportRequest {
        width: 64,
        height: 64,
        fourcc: AR24,
        modifier: 0,
        n_planes: 1,
        fds: vec![9],
        offsets: vec![0],
        strides: vec![256],
    };
    assert_eq!(import_buffer(&mut chan, &fb, req), Ok(()));
    let mut current: CurrentTexture<TextureBuilder> = CurrentTexture::new();
    for d in chan.drain() {
        let b = assemble_checked(&d).expect("well formed");
        current.realized::<()>(Ok(b));
    }
    let t = current.current().expect("a texture");
    assert_eq!((t.width, t.height), (64, 64));
    assert_eq!((t.fds[0], t.offsets[0], t.strides[0]), (9, 0, 256));
}
