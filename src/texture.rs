use vstd::prelude::*;

use crate::descriptor::{BufferDescriptor, MAX_PLANES};

verus! {

/// What a texture builder describes, plane data as sequences of `MAX_PLANES`
/// entries each.
pub struct TextureDesc {
    pub width: u32,
    pub height: u32,
    pub fourcc: u32,
    pub modifier: u64,
    pub n_planes: u32,
    pub premultiplied: bool,
    pub fds: Seq<i32>,
    pub offsets: Seq<u32>,
    pub strides: Seq<u32>,
}

/// The description of a GPU-buffer texture, filled in field by field and
/// then handed to the rendering side to be realized.
#[derive(Debug)]
pub struct TextureBuilder {
    pub width: u32,
    pub height: u32,
    pub fourcc: u32,
    pub modifier: u64,
    pub n_planes: u32,
    pub premultiplied: bool,
    pub fds: Vec<i32>,
    pub offsets: Vec<u32>,
    pub strides: Vec<u32>,
}

/// The description of a fresh builder: one plane, no descriptor set.
pub open spec fn blank_desc() -> TextureDesc {
    TextureDesc {
        width: 0,
        height: 0,
        fourcc: 0,
        modifier: 0,
        n_planes: 1,
        premultiplied: true,
        fds: Seq::new(MAX_PLANES as nat, |i: int| -1i32),
        offsets: Seq::new(MAX_PLANES as nat, |i: int| 0u32),
        strides: Seq::new(MAX_PLANES as nat, |i: int| 0u32),
    }
}

/// The texture description of a buffer: its size, format, modifier and
/// plane count, and for each of its planes the descriptor, offset and stride.
pub open spec fn texture_of(d: BufferDescriptor) -> TextureDesc {
    let n = d.planes@.len();
    TextureDesc {
        width: d.width,
        height: d.height,
        fourcc: d.fourcc,
        modifier: d.modifier,
        n_planes: d.n_planes,
        premultiplied: true,
        fds: Seq::new(MAX_PLANES as nat, |i: int| if i < n { d.planes@[i].fd } else { -1i32 }),
        offsets: Seq::new(MAX_PLANES as nat, |i: int| if i < n { d.planes@[i].offset } else { 0u32 }),
        strides: Seq::new(MAX_PLANES as nat, |i: int| if i < n { d.planes@[i].stride } else { 0u32 }),
    }
}

impl View for TextureBuilder {
    type V = TextureDesc;

    open spec fn view(&self) -> TextureDesc {
        TextureDesc {
            width: self.width,
            height: self.height,
            fourcc: self.fourcc,
            modifier: self.modifier,
            n_planes: self.n_planes,
            premultiplied: self.premultiplied,
            fds: self.fds@,
            offsets: self.offsets@,
            strides: self.strides@,
        }
    }
}

impl TextureBuilder {
    /// Every plane-indexed sequence has room for `MAX_PLANES` planes.
    pub open spec fn wf(&self) -> bool {
        &&& self.fds@.len() == MAX_PLANES as int
        &&& self.offsets@.len() == MAX_PLANES as int
        &&& self.strides@.len() == MAX_PLANES as int
    }

    pub fn new() -> (r: Self)
        ensures
            r.wf(),
            r@ == blank_desc(),
    {
        let r = TextureBuilder {
            width: 0,
            height: 0,
            fourcc: 0,
            modifier: 0,
            n_planes: 1,
            premultiplied: true,
            fds: vec![-1i32; 4],
            offsets: vec![0u32; 4],
            strides: vec![0u32; 4],
        };
        assert(r.fds@ =~= blank_desc().fds);
        assert(r.offsets@ =~= blank_desc().offsets);
        assert(r.strides@ =~= blank_desc().strides);
        r
    }

    pub fn width(self, width: u32) -> (r: Self)
        requires
            self.wf(),
        ensures
            r.wf(),
            r@ == (TextureDesc { width, ..self@ }),
    {
        TextureBuilder { width, ..self }
    }

    pub fn height(self, height: u32) -> (r: Self)
        requires
            self.wf(),
        ensures
            r.wf(),
            r@ == (TextureDesc { height, ..self@ }),
    {
        TextureBuilder { height, ..self }
    }

    pub fn fourcc(self, fourcc: u32) -> (r: Self)
        requires
            self.wf(),
        ensures
            r.wf(),
            r@ == (TextureDesc { fourcc, ..self@ }),
    {
        TextureBuilder { fourcc, ..self }
    }

    pub fn modifier(self, modifier: u64) -> (r: Self)
        requires
            self.wf(),
        ensures
            r.wf(),
            r@ == (TextureDesc { modifier, ..self@ }),
    {
        TextureBuilder { modifier, ..self }
    }

    pub fn n_planes(self, n_planes: u32) -> (r: Self)
        requires
            self.wf(),
        ensures
            r.wf(),
            r@ == (TextureDesc { n_planes, ..self@ }),
    {
        TextureBuilder { n_planes, ..self }
    }

    pub fn premultiplied(self, premultiplied: bool) -> (r: Self)
        requires
            self.wf(),
        ensures
            r.wf(),
            r@ == (TextureDesc { premultiplied, ..self@ }),
    {
        TextureBuilder { premultiplied, ..self }
    }

    /// Sets the file descriptor of plane `plane`.
    pub fn fd(self, plane: u32, fd: i32) -> (r: Self)
        requires
            self.wf(),
            plane < MAX_PLANES,
        ensures
            r.wf(),
            r@ == (TextureDesc { fds: self@.fds.update(plane as int, fd), ..self@ }),
    {
        let mut b = self;
        b.fds.set(plane as usize, fd);
        b
    }

    /// Sets the byte offset of plane `plane`.
    pub fn offset(self, plane: u32, offset: u32) -> (r: Self)
        requires
            self.wf(),
            plane < MAX_PLANES,
        ensures
            r.wf(),
            r@ == (TextureDesc { offsets: self@.offsets.update(plane as int, offset), ..self@ }),
    {
        let mut b = self;
        b.offsets.set(plane as usize, offset);
        b
    }

    /// Sets the stride of plane `plane`.
    pub fn stride(self, plane: u32, stride: u32) -> (r: Self)
        requires
            self.wf(),
            plane < MAX_PLANES,
        ensures
            r.wf(),
            r@ == (TextureDesc { strides: self@.strides.update(plane as int, stride), ..self@ }),
    {
        let mut b = self;
        b.strides.set(plane as usize, stride);
        b
    }
}

/// Builds the texture description of an imported buffer: size, plane count,
/// format and modifier, then descriptor, offset and stride of each plane.
pub fn assemble(d: &BufferDescriptor) -> (r: TextureBuilder)
    requires
        d.well_formed(),
        d.n_planes <= MAX_PLANES,
    ensures
        r.wf(),
        r@ == texture_of(*d),
{
    let mut b = TextureBuilder::new()
        .width(d.width)
        .height(d.height)
        .n_planes(d.n_planes)
        .fourcc(d.fourcc)
        .modifier(d.modifier);
    let n: usize = d.planes.len();
    let mut i: usize = 0;
    while i < n
        invariant
            n == d.planes@.len(),
            n <= MAX_PLANES,
            i <= n,
            b.wf(),
            b.width == d.width,
            b.height == d.height,
            b.n_planes == d.n_planes,
            b.fourcc == d.fourcc,
            b.modifier == d.modifier,
            b.premultiplied,
            forall|j: int| 0 <= j < MAX_PLANES ==> #[trigger] b.fds@[j] == (if j < i { d.planes@[j].fd } else { -1i32 }),
            forall|j: int| 0 <= j < MAX_PLANES ==> #[trigger] b.offsets@[j] == (if j < i { d.planes@[j].offset } else { 0u32 }),
            forall|j: int| 0 <= j < MAX_PLANES ==> #[trigger] b.strides@[j] == (if j < i { d.planes@[j].stride } else { 0u32 }),
        decreases n - i,
    {
        let p = d.planes[i];
        b = b.fd(i as u32, p.fd).offset(i as u32, p.offset).stride(i as u32, p.stride);
        i += 1;
    }
    assert(b.fds@ =~= texture_of(*d).fds);
    assert(b.offsets@ =~= texture_of(*d).offsets);
    assert(b.strides@ =~= texture_of(*d).strides);
    b
}

/// Builds the texture description of a buffer that has at most `MAX_PLANES`
/// well-formed planes, and refuses any other.
pub fn assemble_checked(d: &BufferDescriptor) -> (r: Option<TextureBuilder>)
    ensures
        r is Some <==> d.well_formed() && d.n_planes <= MAX_PLANES,
        r is Some ==> r->Some_0.wf() && r->Some_0@ == texture_of(*d),
{
    if d.planes.len() == d.n_planes as usize && d.n_planes <= MAX_PLANES {
        Some(assemble(d))
    } else {
        None
    }
}

/// The current texture once a realization attempt came out as `outcome`:
/// replaced on success, unchanged on failure.
pub open spec fn after_realization<T, E>(current: Option<T>, outcome: Result<T, E>) -> Option<T> {
    match outcome {
        Ok(t) => Some(t),
        Err(_) => current,
    }
}

/// The most recently realized texture, read by the paint callback; empty
/// until the first buffer has been realized.
pub struct CurrentTexture<T> {
    pub current: Option<T>,
}

impl<T> CurrentTexture<T> {
    pub fn new() -> (r: Self)
        ensures
            r.current is None,
    {
        CurrentTexture { current: None }
    }

    /// Takes the outcome of realizing a texture: a success replaces the
    /// current texture, a failure leaves it and is handed back.
    pub fn realized<E>(&mut self, outcome: Result<T, E>) -> (r: Option<E>)
        ensures
            final(self).current == after_realization(old(self).current, outcome),
            outcome is Ok ==> r is None,
            outcome is Err ==> r == Some(outcome->Err_0),
    {
        match outcome {
            Ok(t) => {
                self.current = Some(t);
                None
            },
            Err(e) => Some(e),
        }
    }

    /// The texture to paint, or nothing before the first one; never blocks.
    pub fn current(&self) -> (r: Option<&T>)
        ensures
            r is None <==> self.current is None,
            r is Some ==> *r->Some_0 == self.current->Some_0,
    {
        match &self.current {
            Some(t) => Some(t),
            None => None,
        }
    }
}

/// Replacing the current texture is idempotent: buffers with the same
/// content give the same texture description, and replacing the current
/// texture twice by the same texture leaves what replacing it once does.
pub proof fn lemma_replacement_idempotent<T, E>(d1: BufferDescriptor, d2: BufferDescriptor, current: Option<T>, t: T)
    requires
        d1.same_content(d2),
    ensures
        texture_of(d1) == texture_of(d2),
        after_realization(after_realization(current, Ok::<T, E>(t)), Ok::<T, E>(t))
            == after_realization(current, Ok::<T, E>(t)),
{
    assert(texture_of(d1).fds =~= texture_of(d2).fds);
    assert(texture_of(d1).offsets =~= texture_of(d2).offsets);
    assert(texture_of(d1).strides =~= texture_of(d2).strides);
}

/// The current texture after `k` successful realizations, each giving `t`.
pub open spec fn realized_times<T>(current: Option<T>, t: T, k: nat) -> Option<T>
    decreases k,
{
    if k == 0 {
        current
    } else {
        after_realization(realized_times(current, t, (k - 1) as nat), Ok::<T, ()>(t))
    }
}

/// Replacing the current texture any number of times, at least once, by the
/// same texture leaves what replacing it once does.
pub proof fn lemma_replaced_times<T>(current: Option<T>, t: T, k: nat)
    requires
        k >= 1,
    ensures
        realized_times(current, t, k) == Some(t),
    decreases k,
{
    if k > 1 {
        lemma_replaced_times(current, t, (k - 1) as nat);
    }
}

} // verus!
