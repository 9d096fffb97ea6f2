//! Frames that stay in DMA buffers, and whether the GPU can read them there.

use vstd::prelude::*;
use vstd::string::*;

verus! {

/// Layout of a single-plane frame in a DMA buffer.
#[derive(Clone, Copy, Debug, PartialEq, Eq, Structural)]
pub struct DmaBufFrame {
    pub buffer_index: u32,
    pub width: u32,
    pub height: u32,
    pub fourcc: u32,
    pub modifier: u64,
    pub stride: u32,
    pub offset: u32,
}

/// A frame in a DMA buffer as the camera describes it. Its rows follow one another without tiling.
#[derive(Clone, Copy, Debug, PartialEq, Eq, Structural)]
pub struct CameraBuffer {
    pub buffer_index: u32,
    pub width: u32,
    pub height: u32,
    pub fourcc: u32,
    pub stride: u32,
    pub offset: u32,
}

impl CameraBuffer {
    /// The layout of the frame, with the modifier of rows without tiling.
    pub open spec fn as_frame(self) -> DmaBufFrame {
        DmaBufFrame {
            buffer_index: self.buffer_index,
            width: self.width,
            height: self.height,
            fourcc: self.fourcc,
            modifier: 0,
            stride: self.stride,
            offset: self.offset,
        }
    }

    /// The layout of the frame.
    pub fn frame(&self) -> (r: DmaBufFrame)
        ensures
            r == self.as_frame(),
    {
        DmaBufFrame {
            buffer_index: self.buffer_index,
            width: self.width,
            height: self.height,
            fourcc: self.fourcc,
            modifier: 0,
            stride: self.stride,
            offset: self.offset,
        }
    }
}

/// How the GPU is driven.
#[derive(Clone, Copy, Debug, PartialEq, Eq, Structural)]
pub enum Backend {
    Noop,
    Vulkan,
    Metal,
    Dx12,
    Gl,
    BrowserWebGpu,
}

/// The name of a backend.
pub open spec fn backend_name(backend: Backend) -> Seq<char> {
    match backend {
        Backend::Noop => "Noop"@,
        Backend::Vulkan => "Vulkan"@,
        Backend::Metal => "Metal"@,
        Backend::Dx12 => "Dx12"@,
        Backend::Gl => "Gl"@,
        Backend::BrowserWebGpu => "BrowserWebGpu"@,
    }
}

impl Backend {
    /// The name of the backend.
    pub fn name(self) -> (r: &'static str)
        ensures
            r@ == backend_name(self),
    {
        match self {
            Backend::Noop => "Noop",
            Backend::Vulkan => "Vulkan",
            Backend::Metal => "Metal",
            Backend::Dx12 => "Dx12",
            Backend::Gl => "Gl",
            Backend::BrowserWebGpu => "BrowserWebGpu",
        }
    }
}

/// What matters of a GPU here.
#[derive(Clone, Debug)]
pub struct GpuInfo {
    pub name: String,
    pub backend: Backend,
    /// Textures can be imported from DMA buffers.
    pub imports_dma_buf: bool,
}

/// One line on the GPU and on whether it imports DMA buffers.
pub fn support_status(gpu: &GpuInfo) -> (s: String)
    ensures
        s@ == "GPU: "@ + gpu.name@ + " ("@ + backend_name(gpu.backend)
            + "); Vulkan DMA-BUF/YUYV-R8: "@ + if gpu.imports_dma_buf {
            "true"@
        } else {
            "false"@
        },
{
    let mut s = "GPU: ".to_owned();
    s.append(gpu.name.as_str());
    s.append(" (");
    s.append(gpu.backend.name());
    s.append("); Vulkan DMA-BUF/YUYV-R8: ");
    s.append(
        if gpu.imports_dma_buf {
            "true"
        } else {
            "false"
        },
    );
    s
}

/// Whether frames in DMA buffers can be shown: Vulkan drives the GPU, and it imports them.
pub fn is_supported(gpu: &GpuInfo) -> (r: bool)
    ensures
        r == (gpu.backend == Backend::Vulkan && gpu.imports_dma_buf),
{
    gpu.backend == Backend::Vulkan && gpu.imports_dma_buf
}

/// The texture through which the GPU reads a DMA buffer.
#[derive(Clone, Copy, Debug, PartialEq, Eq, Structural)]
pub struct ImportLayout {
    pub width: u32,
    pub height: u32,
    pub modifier: u64,
    pub stride: u64,
    pub offset: u64,
}

impl DmaBufFrame {
    /// The frame as bytes: two for each pixel of a row, as many as can be counted.
    pub open spec fn as_raw(self) -> DmaBufFrame {
        DmaBufFrame {
            width: if 2 * self.width <= u32::MAX {
                (2 * self.width) as u32
            } else {
                u32::MAX
            },
            ..self
        }
    }

    /// The frame as bytes, where a pixel takes two.
    pub fn raw(&self) -> (r: DmaBufFrame)
        ensures
            r == self.as_raw(),
    {
        let width: u32 = if self.width <= u32::MAX / 2 {
            2 * self.width
        } else {
            u32::MAX
        };
        DmaBufFrame {
            buffer_index: self.buffer_index,
            width,
            height: self.height,
            fourcc: self.fourcc,
            modifier: self.modifier,
            stride: self.stride,
            offset: self.offset,
        }
    }

    /// The texture through which the GPU reads the frame.
    pub fn import_layout(&self) -> (layout: ImportLayout)
        ensures
            layout.width == self.width,
            layout.height == self.height,
            layout.modifier == self.modifier,
            layout.stride == self.stride,
            layout.offset == self.offset,
    {
        ImportLayout {
            width: self.width,
            height: self.height,
            modifier: self.modifier,
            stride: self.stride as u64,
            offset: self.offset as u64,
        }
    }
}

/// Read as bytes, a row is twice as wide as it has pixels, or as wide as can be counted. Nothing
/// else of the layout changes.
pub proof fn law_raw_rows_have_two_bytes_a_pixel(f: DmaBufFrame)
    ensures
        f.as_raw().width <= 2 * f.width,
        f.as_raw().width == 2 * f.width || f.as_raw().width == u32::MAX,
        f.as_raw() == (DmaBufFrame { width: f.as_raw().width, ..f }),
{
}

/// The layout of a camera's buffer is what the camera says, without tiling.
pub proof fn law_camera_buffer_is_taken_as_it_is(b: CameraBuffer)
    ensures
        b.as_frame().modifier == 0,
        b == (CameraBuffer {
            buffer_index: b.as_frame().buffer_index,
            width: b.as_frame().width,
            height: b.as_frame().height,
            fourcc: b.as_frame().fourcc,
            stride: b.as_frame().stride,
            offset: b.as_frame().offset,
        }),
{
}

} // verus!
