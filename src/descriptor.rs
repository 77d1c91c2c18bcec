use vstd::prelude::*;

verus! {

/// One plane of a GPU buffer: the file descriptor that holds its memory,
/// the byte offset of the plane in it, and the stride of its rows.
#[derive(Clone, Copy, Debug, PartialEq, Eq, Structural)]
pub struct Plane {
    pub fd: i32,
    pub offset: u32,
    pub stride: u32,
}

/// A GPU buffer as it travels from the protocol session to the texture
/// assembly. It owns the file descriptors of its planes.
#[derive(Clone, Debug)]
pub struct BufferDescriptor {
    pub width: u32,
    pub height: u32,
    pub fourcc: u32,
    pub modifier: u64,
    pub n_planes: u32,
    pub planes: Vec<Plane>,
}

impl BufferDescriptor {
    /// The plane-indexed data has exactly one entry per declared plane.
    pub open spec fn well_formed(&self) -> bool {
        self.planes@.len() == self.n_planes as int
    }

    /// The two descriptors describe the same buffer, field by field and
    /// plane by plane.
    pub open spec fn same_content(&self, other: BufferDescriptor) -> bool {
        &&& self.width == other.width
        &&& self.height == other.height
        &&& self.fourcc == other.fourcc
        &&& self.modifier == other.modifier
        &&& self.n_planes == other.n_planes
        &&& self.planes@ == other.planes@
    }
}

} // verus!

verus! {

/// The most planes a buffer may have.
pub const MAX_PLANES: u32 = 4;

/// A pixel format code together with a memory-layout modifier.
#[derive(Clone, Copy, Debug, PartialEq, Eq, Structural)]
pub struct Format {
    pub fourcc: u32,
    pub modifier: u64,
}

/// A client's request to import a GPU buffer: the declared plane count and,
/// per supplied plane, a file descriptor, an offset and a stride.
#[derive(Clone, Debug)]
pub struct ImportRequest {
    pub width: u32,
    pub height: u32,
    pub fourcc: u32,
    pub modifier: u64,
    pub n_planes: u32,
    pub fds: Vec<i32>,
    pub offsets: Vec<u32>,
    pub strides: Vec<u32>,
}

/// Why an import request is refused.
#[derive(Clone, Copy, Debug, PartialEq, Eq, Structural)]
pub enum ImportError {
    /// The declared plane count differs from the number of supplied
    /// (descriptor, offset, stride) triples.
    PlaneCountMismatch,
    /// More planes than a buffer may have.
    TooManyPlanes,
    /// The format and modifier pair is not one the device supports.
    UnsupportedFormat,
}

impl ImportRequest {
    /// Every plane-indexed sequence has one entry per declared plane.
    pub open spec fn planes_match(&self) -> bool {
        &&& self.fds@.len() == self.n_planes as int
        &&& self.offsets@.len() == self.n_planes as int
        &&& self.strides@.len() == self.n_planes as int
    }

    /// `d` carries exactly the data of this request, plane by plane.
    pub open spec fn described_by(&self, d: BufferDescriptor) -> bool {
        &&& d.width == self.width
        &&& d.height == self.height
        &&& d.fourcc == self.fourcc
        &&& d.modifier == self.modifier
        &&& d.n_planes == self.n_planes
        &&& d.planes@.len() == self.n_planes as int
        &&& forall|i: int|
            0 <= i < d.planes@.len() ==> #[trigger] d.planes@[i] == (Plane {
                fd: self.fds@[i],
                offset: self.offsets@[i],
                stride: self.strides@[i],
            })
    }

    /// Gathers the supplied planes into a descriptor.
    pub fn into_descriptor(self) -> (d: BufferDescriptor)
        requires
            self.planes_match(),
        ensures
            self.described_by(d),
            d.well_formed(),
    {
        let mut planes: Vec<Plane> = Vec::new();
        let n: usize = self.n_planes as usize;
        let mut i: usize = 0;
        while i < n
            invariant
                n == self.n_planes as int,
                self.planes_match(),
                i <= n,
                planes@.len() == i as int,
                forall|j: int|
                    0 <= j < i ==> #[trigger] planes@[j] == (Plane {
                        fd: self.fds@[j],
                        offset: self.offsets@[j],
                        stride: self.strides@[j],
                    }),
            decreases n - i,
        {
            planes.push(Plane { fd: self.fds[i], offset: self.offsets[i], stride: self.strides[i] });
            i += 1;
        }
        BufferDescriptor {
            width: self.width,
            height: self.height,
            fourcc: self.fourcc,
            modifier: self.modifier,
            n_planes: self.n_planes,
            planes,
        }
    }
}

} // verus!
