use vstd::prelude::*;

use crate::compose::combine_images;
use crate::compose::combine_spec;
use crate::compose::views_of;
use crate::error::Error;
use crate::window::lemma_window_in_range;
use crate::window::select_window;
use crate::window::window_seq;
use crate::window::WindowSpec;

verus! {

/// The 3x3 Sobel gradient-magnitude map of a `width` x `height`
/// grayscale raster, one `u16` magnitude per pixel in row-major order.
/// It is a fixed function of the dimensions and pixel data alone; its
/// pixel values are stated nowhere and enter contracts only by name.
pub uninterp spec fn sobel_of(width: nat, height: nat, data: Seq<u8>) -> Seq<u16>;

/// Each magnitude truncated to its low byte.
pub open spec fn truncate_u16s(s: Seq<u16>) -> Seq<u8> {
    Seq::new(s.len(), |i: int| s[i] as u8)
}

/// The edge buffer extracted from one grayscale frame: the Sobel
/// gradient magnitudes, each truncated to a byte.
pub open spec fn edge_spec(width: nat, height: nat, data: Seq<u8>) -> Seq<u8> {
    truncate_u16s(sobel_of(width, height, data))
}

/// Relies on `imageproc::gradients::sobel_gradients`: the returned map
/// has the same dimensions as the input image and depends only on the
/// input's dimensions and pixel data (clamped-border 3x3 convolution);
/// and on `image::ImageBuffer::from_raw` / `into_raw`, which only wrap
/// and unwrap the raw byte buffer (`from_raw` accepts any buffer of
/// exactly `width * height` bytes).
#[verifier::external_body]
fn sobel_raw(width: u32, height: u32, data: &Vec<u8>) -> (r: Vec<u16>)
    requires
        data@.len() == width * height,
    ensures
        r@ == sobel_of(width as nat, height as nat, data@),
        r@.len() == data@.len(),
{
    let img: image::GrayImage = image::ImageBuffer::from_raw(width, height, data.clone()).unwrap();
    imageproc::gradients::sobel_gradients(&img).into_raw()
}

/// Truncates each gradient magnitude to its low byte.
fn truncate_intensities(v: &Vec<u16>) -> (r: Vec<u8>)
    ensures
        r@ == truncate_u16s(v@),
{
    let n = v.len();
    let mut r: Vec<u8> = Vec::new();
    let mut i: usize = 0;
    while i < n
        invariant
            i <= n,
            n == v@.len(),
            r@.len() == i,
            forall|k: int| 0 <= k < i ==> r@[k] == (v@[k] as u8),
        decreases n - i,
    {
        r.push(v[i] as u8);
        i = i + 1;
    }
    proof {
        assert(r@ =~= truncate_u16s(v@));
    }
    r
}

/// One decoded grayscale input frame: `width * height` pixel bytes in
/// row-major order.
#[derive(Debug)]
pub struct GrayFrame {
    pub width: u32,
    pub height: u32,
    pub data: Vec<u8>,
}

impl GrayFrame {
    /// The buffer holds exactly one byte per declared pixel.
    pub open spec fn wf(&self) -> bool {
        self.data@.len() == self.width * self.height
    }

    /// Wraps a decoded raster, rejecting one whose buffer does not match
    /// the declared dimensions.
    pub fn new(width: u32, height: u32, data: Vec<u8>) -> (r: Result<GrayFrame, Error>)
        ensures
            r is Ok <==> data@.len() == width * height,
            r is Ok ==> r->Ok_0 == (GrayFrame { width, height, data }) && r->Ok_0.wf(),
            r is Err ==> r->Err_0 == Error::DimensionMismatch,
    {
        proof {
            assert((width as int) * (height as int) <= (u32::MAX as int)
                * (u32::MAX as int)) by (nonlinear_arith)
                requires
                    width <= u32::MAX,
                    height <= u32::MAX,
            ;
        }
        let pixels = (width as u64) * (height as u64);
        if (data.len() as u64) != pixels {
            return Err(Error::DimensionMismatch);
        }
        Ok(GrayFrame { width, height, data })
    }
}

/// Extracts the edge buffer of one frame: its Sobel gradient-magnitude
/// map, truncated to one byte per pixel.
pub fn extract_edges(frame: &GrayFrame) -> (r: Vec<u8>)
    requires
        frame.wf(),
    ensures
        r@ == edge_spec(frame.width as nat, frame.height as nat, frame.data@),
        r@.len() == frame.data@.len(),
{
    let gradients = sobel_raw(frame.width, frame.height, &frame.data);
    truncate_intensities(&gradients)
}

/// The ordered, immutable collection of edge buffers, one per input
/// frame, all of identical dimensions.
#[derive(Debug)]
pub struct FrameStore {
    pub width: u32,
    pub height: u32,
    pub buf_size: usize,
    pub frames: Vec<Vec<u8>>,
}

impl FrameStore {
    /// At least one frame; every buffer has exactly `buf_size` bytes,
    /// one per pixel of the shared dimensions.
    pub open spec fn wf(&self) -> bool {
        &&& self.frames@.len() >= 1
        &&& self.buf_size == self.width * self.height
        &&& forall|i: int| 0 <= i < self.frames@.len() ==> self.frames@[i]@.len() == self.buf_size
    }

    /// The number of frames in the store.
    pub open spec fn len_spec(&self) -> nat {
        self.frames@.len()
    }

    /// The edge buffers selected by the window for one target frame,
    /// most recent first.
    pub open spec fn window_views(&self, target: int, window: WindowSpec) -> Seq<Seq<u8>> {
        window_seq(target, window.frames_to_combine as int, window.frame_spacing as int)
            .map_values(|idx: int| self.frames@[idx]@)
    }

    /// Builds the store by extracting the edge buffer of every frame, in
    /// input order. All frames must share the dimensions of the first;
    /// a mismatch, or an empty input, yields no store at all.
    pub fn from_frames(frames: &Vec<GrayFrame>) -> (r: Result<FrameStore, Error>)
        requires
            forall|i: int| 0 <= i < frames@.len() ==> (#[trigger] frames@[i]).wf(),
        ensures
            r is Ok <==> (frames@.len() >= 1 && forall|i: int|
                0 <= i < frames@.len() ==> (#[trigger] frames@[i]).width == frames@[0].width
                    && frames@[i].height == frames@[0].height),
            r is Ok ==> ({
                let store = r->Ok_0;
                &&& store.wf()
                &&& store.width == frames@[0].width
                &&& store.height == frames@[0].height
                &&& store.buf_size == frames@[0].data@.len()
                &&& store.frames@.len() == frames@.len()
                &&& forall|i: int|
                    0 <= i < frames@.len() ==> store.frames@[i]@ == edge_spec(
                        frames@[i].width as nat,
                        frames@[i].height as nat,
                        frames@[i].data@,
                    )
            }),
            r is Err ==> r->Err_0 == (if frames@.len() == 0 {
                Error::EmptyInput
            } else {
                Error::DimensionMismatch
            }),
    {
        let n = frames.len();
        if n == 0 {
            return Err(Error::EmptyInput);
        }
        let width = frames[0].width;
        let height = frames[0].height;

        let mut i: usize = 0;
        while i < n
            invariant
                i <= n,
                n == frames@.len(),
                n >= 1,
                width == frames@[0].width,
                height == frames@[0].height,
                forall|k: int|
                    0 <= k < i ==> (#[trigger] frames@[k]).width == width && frames@[k].height
                        == height,
            decreases n - i,
        {
            if frames[i].width != width || frames[i].height != height {
                return Err(Error::DimensionMismatch);
            }
            i = i + 1;
        }

        let buf_size = frames[0].data.len();
        let mut edges: Vec<Vec<u8>> = Vec::new();
        let mut j: usize = 0;
        while j < n
            invariant
                j <= n,
                n == frames@.len(),
                n >= 1,
                width == frames@[0].width,
                height == frames@[0].height,
                buf_size == frames@[0].data@.len(),
                forall|k: int| 0 <= k < n ==> (#[trigger] frames@[k]).wf(),
                forall|k: int|
                    0 <= k < n ==> (#[trigger] frames@[k]).width == width && frames@[k].height
                        == height,
                edges@.len() == j,
                forall|k: int|
                    0 <= k < j ==> edges@[k]@ == edge_spec(
                        frames@[k].width as nat,
                        frames@[k].height as nat,
                        frames@[k].data@,
                    ),
                forall|k: int| 0 <= k < j ==> (#[trigger] edges@[k])@.len() == buf_size,
            decreases n - j,
        {
            let edge = extract_edges(&frames[j]);
            edges.push(edge);
            j = j + 1;
        }

        Ok(FrameStore { width, height, buf_size, frames: edges })
    }

    /// The number of frames in the store.
    pub fn len(&self) -> (r: usize)
        ensures
            r == self.len_spec(),
    {
        self.frames.len()
    }

    /// A copy of the edge buffers the window selects for one target
    /// frame, most recent first, ready to be combined — all of them of
    /// exactly `buf_size` bytes.
    pub fn window_buffers(&self, target_index: usize, window: &WindowSpec) -> (r: Vec<Vec<u8>>)
        requires
            self.wf(),
            target_index < self.len_spec(),
        ensures
            views_of(r@) == self.window_views(target_index as int, *window),
            forall|k: int| 0 <= k < r@.len() ==> (#[trigger] r@[k])@.len() == self.buf_size,
    {
        let ghost t = target_index as int;
        let ghost c = window.frames_to_combine as int;
        let ghost s = window.frame_spacing as int;
        let indices = select_window(target_index, window);
        let m = indices.len();
        let mut r: Vec<Vec<u8>> = Vec::new();
        let mut k: usize = 0;
        while k < m
            invariant
                k <= m,
                self.wf(),
                target_index < self.len_spec(),
                m == indices@.len(),
                m == window_seq(t, c, s).len(),
                t == target_index as int,
                c == window.frames_to_combine as int,
                s == window.frame_spacing as int,
                forall|k2: int| 0 <= k2 < m ==> indices@[k2] as int == window_seq(t, c, s)[k2],
                r@.len() == k,
                forall|k2: int|
                    0 <= k2 < k ==> (#[trigger] r@[k2])@ == self.window_views(t, *window)[k2],
                forall|k2: int| 0 <= k2 < k ==> (#[trigger] r@[k2])@.len() == self.buf_size,
            decreases m - k,
        {
            proof {
                lemma_window_in_range(t, c, s, k as int);
            }
            let idx = indices[k];
            let buf = copy_buf(&self.frames[idx]);
            r.push(buf);
            k = k + 1;
        }
        proof {
            assert(views_of(r@) =~= self.window_views(t, *window));
        }
        r
    }

    /// The composites of every target frame in sequence order: entry
    /// `i` is the OR-reduction of the edge buffers that frame `i`'s
    /// window selects. Each entry depends only on the read-only store,
    /// so a caller may just as well produce the entries in any order or
    /// in parallel and write each one out as it appears.
    pub fn composite_all(&self, window: &WindowSpec) -> (r: Vec<Vec<u8>>)
        requires
            self.wf(),
        ensures
            r@.len() == self.len_spec(),
            forall|i: int|
                0 <= i < r@.len() ==> (#[trigger] r@[i])@ == combine_spec(
                    self.window_views(i, *window),
                    self.buf_size as nat,
                ),
    {
        let n = self.frames.len();
        let mut r: Vec<Vec<u8>> = Vec::new();
        let mut i: usize = 0;
        while i < n
            invariant
                i <= n,
                self.wf(),
                n == self.len_spec(),
                r@.len() == i,
                forall|k: int|
                    0 <= k < i ==> (#[trigger] r@[k])@ == combine_spec(
                        self.window_views(k, *window),
                        self.buf_size as nat,
                    ),
            decreases n - i,
        {
            let out = self.composite(i, window);
            r.push(out);
            i = i + 1;
        }
        r
    }

    /// The composite for one target frame: the bitwise-OR reduction of
    /// every edge buffer its window selects, in a fresh buffer of
    /// `buf_size` bytes.
    pub fn composite(&self, target_index: usize, window: &WindowSpec) -> (r: Vec<u8>)
        requires
            self.wf(),
            target_index < self.len_spec(),
        ensures
            r@ == combine_spec(
                self.window_views(target_index as int, *window),
                self.buf_size as nat,
            ),
    {
        let bufs = self.window_buffers(target_index, window);
        match combine_images(&bufs, self.buf_size) {
            Ok(out) => out,
            Err(_) => {
                proof {
                    assert(false);
                }
                vstd::pervasive::unreached()
            },
        }
    }
}

/// A fresh buffer with exactly the bytes of `src`.
fn copy_buf(src: &Vec<u8>) -> (r: Vec<u8>)
    ensures
        r@ == src@,
{
    let n = src.len();
    let mut r: Vec<u8> = Vec::new();
    let mut i: usize = 0;
    while i < n
        invariant
            i <= n,
            n == src@.len(),
            r@.len() == i,
            forall|k: int| 0 <= k < i ==> r@[k] == src@[k],
        decreases n - i,
    {
        r.push(src[i]);
        i = i + 1;
    }
    proof {
        assert(r@ =~= src@);
    }
    r
}

} // verus!
