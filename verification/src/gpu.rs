//! GPU texture handles and the derived textures of a GPU-resident frame.
//!
//! A texture is an integer handle with dimensions and a format; pixel data
//! stays on the GPU. A frame's derived textures (greyscale, quarter-res
//! greyscale, edges, optical flow) get handles derived from the source
//! texture's handle.

use vstd::prelude::*;

verus! {

/// Pixel layout of a texture.
#[derive(Debug, Clone, Copy, PartialEq, Eq, Hash, Structural)]
pub enum TextureFormat {
    /// Single channel (grayscale, flow magnitude, edges)
    R8,
    /// Two channels (optical flow dx, dy)
    Rg16f,
    /// Three channels (RGB, normals XYZ)
    Rgba8,
    /// YUV 4:2:0 (raw camera input on some platforms)
    Yuv420,
}

/// Opaque GPU texture handle.
#[derive(Debug, Clone, Copy, PartialEq, Eq, Hash, Structural)]
pub struct GpuTexture {
    id: u64,
    pub width: u32,
    pub height: u32,
    pub format: TextureFormat,
}

impl View for GpuTexture {
    /// Handle, width, height and format.
    type V = (u64, u32, u32, TextureFormat);

    closed spec fn view(&self) -> (u64, u32, u32, TextureFormat) {
        (self.id, self.width, self.height, self.format)
    }
}

impl GpuTexture {
    /// The texture's handle.
    pub open spec fn handle(&self) -> u64 {
        self@.0
    }

    pub fn new(id: u64, width: u32, height: u32, format: TextureFormat) -> (t: Self)
        ensures
            t@ == (id, width, height, format),
    {
        GpuTexture { id, width, height, format }
    }

    pub fn id(&self) -> (r: u64)
        ensures
            r == self.handle(),
    {
        self.id
    }

    /// Width in pixels.
    pub fn width(&self) -> (r: u32)
        ensures
            r == self@.1,
    {
        self.width
    }

    /// Height in pixels.
    pub fn height(&self) -> (r: u32)
        ensures
            r == self@.2,
    {
        self.height
    }

    /// Pixel layout.
    pub fn format(&self) -> (r: TextureFormat)
        ensures
            r == self@.3,
    {
        self.format
    }

    /// Quarter resolution (for optical flow tier-1 processing).
    pub fn quarter_res(&self) -> (r: (u32, u32))
        ensures
            r == (self@.1 / 4, self@.2 / 4),
    {
        (self.width / 4, self.height / 4)
    }

    /// Half resolution (for feature detection).
    pub fn half_res(&self) -> (r: (u32, u32))
        ensures
            r == (self@.1 / 2, self@.2 / 2),
    {
        (self.width / 2, self.height / 2)
    }
}

/// What the GPU pipeline produces for a camera frame: texture handles,
/// not pixel data.
pub struct GpuFrameOutputs {
    /// The raw camera frame.
    pub source: GpuTexture,
    /// Greyscale at full resolution.
    pub gray: GpuTexture,
    /// Greyscale at quarter resolution (for optical flow).
    pub gray_quarter: GpuTexture,
    /// Edge detection output.
    pub edges: GpuTexture,
    /// Optical flow vectors at quarter resolution, when there was a
    /// previous frame.
    pub flow: Option<GpuTexture>,
}

/// Handle offsets of the derived textures of a frame.
pub const GRAY_OFFSET: u64 = 1000;
pub const GRAY_QUARTER_OFFSET: u64 = 2000;
pub const EDGES_OFFSET: u64 = 3000;
pub const FLOW_OFFSET: u64 = 4000;

/// `t` is the texture with handle `id`, dimensions `width` x `height` and
/// format `format`.
pub open spec fn is_texture(t: GpuTexture, id: int, width: int, height: int, format: TextureFormat) -> bool {
    t@.0 == id && t@.1 == width && t@.2 == height && t@.3 == format
}

/// The full-resolution greyscale texture derived from `source`.
pub open spec fn is_gray_of(t: GpuTexture, source: GpuTexture) -> bool {
    is_texture(t, source.handle() + GRAY_OFFSET, source@.1 as int, source@.2 as int, TextureFormat::R8)
}

/// The quarter-resolution greyscale texture derived from `source`.
pub open spec fn is_gray_quarter_of(t: GpuTexture, source: GpuTexture) -> bool {
    is_texture(
        t,
        source.handle() + GRAY_QUARTER_OFFSET,
        (source@.1 / 4) as int,
        (source@.2 / 4) as int,
        TextureFormat::R8,
    )
}

/// The edge texture derived from `source`.
pub open spec fn is_edges_of(t: GpuTexture, source: GpuTexture) -> bool {
    is_texture(t, source.handle() + EDGES_OFFSET, source@.1 as int, source@.2 as int, TextureFormat::R8)
}

/// The optical-flow texture derived from `source` (two channels at quarter
/// resolution).
pub open spec fn is_flow_of(t: GpuTexture, source: GpuTexture) -> bool {
    is_texture(
        t,
        source.handle() + FLOW_OFFSET,
        (source@.1 / 4) as int,
        (source@.2 / 4) as int,
        TextureFormat::Rg16f,
    )
}

/// A GPU-resident frame: the source texture and, when there was a previous
/// frame, that frame's quarter-resolution greyscale texture.
pub struct GpuFrame {
    source: GpuTexture,
    prev_gray_quarter: Option<GpuTexture>,
}

impl GpuFrame {
    pub closed spec fn source_texture(&self) -> GpuTexture {
        self.source
    }

    pub closed spec fn previous(&self) -> Option<GpuTexture> {
        self.prev_gray_quarter
    }

    pub fn new(source: GpuTexture, prev_gray_quarter: Option<GpuTexture>) -> (f: Self)
        ensures
            f.source_texture() == source,
            f.previous() == prev_gray_quarter,
    {
        GpuFrame { source, prev_gray_quarter }
    }

    /// Source texture.
    pub fn source(&self) -> (t: &GpuTexture)
        ensures
            *t == self.source_texture(),
    {
        &self.source
    }

    /// Greyscale at full resolution.
    pub fn gray(&self) -> (t: GpuTexture)
        requires
            self.source_texture().handle() + GRAY_OFFSET <= u64::MAX,
        ensures
            is_gray_of(t, self.source_texture()),
    {
        GpuTexture::new(
            self.source.id() + GRAY_OFFSET,
            self.source.width,
            self.source.height,
            TextureFormat::R8,
        )
    }

    /// Greyscale at quarter resolution, for optical flow.
    pub fn gray_quarter(&self) -> (t: GpuTexture)
        requires
            self.source_texture().handle() + GRAY_QUARTER_OFFSET <= u64::MAX,
        ensures
            is_gray_quarter_of(t, self.source_texture()),
    {
        let _full = self.gray();
        let (qw, qh) = self.source.quarter_res();
        GpuTexture::new(self.source.id() + GRAY_QUARTER_OFFSET, qw, qh, TextureFormat::R8)
    }

    /// Edge detection output at full resolution.
    pub fn edges(&self) -> (t: GpuTexture)
        requires
            self.source_texture().handle() + EDGES_OFFSET <= u64::MAX,
        ensures
            is_edges_of(t, self.source_texture()),
    {
        let _gray = self.gray();
        GpuTexture::new(
            self.source.id() + EDGES_OFFSET,
            self.source.width,
            self.source.height,
            TextureFormat::R8,
        )
    }

    /// Optical flow against the previous frame; `None` on the first frame.
    pub fn flow(&self) -> (t: Option<GpuTexture>)
        requires
            self.previous() is Some ==> self.source_texture().handle() + FLOW_OFFSET <= u64::MAX,
        ensures
            t is Some <==> self.previous() is Some,
            t matches Some(f) ==> is_flow_of(f, self.source_texture()),
    {
        match self.prev_gray_quarter {
            None => None,
            Some(_prev) => {
                let _curr = self.gray_quarter();
                let (qw, qh) = self.source.quarter_res();
                Some(GpuTexture::new(self.source.id() + FLOW_OFFSET, qw, qh, TextureFormat::Rg16f))
            },
        }
    }

    /// The quarter-resolution greyscale texture that the next frame uses as
    /// its previous frame.
    pub fn gray_quarter_for_next_frame(&self) -> (t: GpuTexture)
        requires
            self.source_texture().handle() + GRAY_QUARTER_OFFSET <= u64::MAX,
        ensures
            is_gray_quarter_of(t, self.source_texture()),
    {
        self.gray_quarter()
    }
}

} // verus!
