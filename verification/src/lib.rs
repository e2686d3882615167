//! Decoding, atlas packing and animation playback for Aseprite sprite sheets.
//!
//! The pipeline has three stages: a decoder that turns the raw bytes of an
//! `.ase` / `.aseprite` file into frames and tags (`decode`), an atlas
//! packer that assigns each frame a slot in a single texture atlas
//! (`atlas`), and an animation cursor that advances through a tag's frame
//! range by elapsed time (`anim`). This root module ties them into the
//! asset lifecycle: a loaded asset starts with decoded data, `process_load`
//! consumes the data to build the atlas and the frame-to-slot mapping, and
//! only then may animation cursors read the built metadata.

pub mod anim;
pub mod atlas;
pub mod decode;

use vstd::prelude::*;

use crate::anim::{positive_durations, advance_spec, AnimationCursor, AnimationTag};
use crate::atlas::{all_fit, has_degenerate, layout_ok, pack, AtlasBuildError, AtlasLayout};
use crate::decode::{ase_doc, doc_matches, Frame, FormatError, SpriteDoc};

verus! {

/// Why an asset could not be loaded or ticked.
#[derive(Clone, Copy, Debug, PartialEq, Eq, Structural)]
pub enum LoadError {
    /// The input bytes could not be decoded.
    Format(FormatError),
    /// The decoded frames could not be packed into an atlas; the asset is
    /// left permanently without a built mapping.
    AtlasBuild(AtlasBuildError),
    /// The asset holds neither decoded data nor built metadata: its data
    /// was already consumed, so this step is skipped.
    MissingAssetData,
    /// The cursor's tag reaches past the asset's frames.
    InvalidTagSelection,
    /// A frame of the asset declares a zero duration, on which playback
    /// time cannot advance.
    ZeroFrameDuration,
}

/// The metadata kept after the atlas is built: the canvas size, the frame
/// count with the per-frame durations, and the tags and slices. The pixel
/// data is gone.
#[derive(Debug)]
pub struct SpriteInfo {
    pub width: u32,
    pub height: u32,
    pub frame_count: usize,
    pub durations: Vec<u32>,
    pub tags: Vec<AnimationTag>,
    pub slices: Vec<crate::decode::SliceMeta>,
}

impl SpriteInfo {
    /// One duration per frame, every tag a non-empty range within the
    /// frames, and tag and slice names distinct.
    pub open spec fn wf(self) -> bool {
        &&& self.durations@.len() == self.frame_count
        &&& (forall|i: int|
            0 <= i < self.tags@.len() ==> ((#[trigger] self.tags@[i]).wf() && self.tags@[i].last
                < self.frame_count))
        &&& (forall|i: int, j: int|
            0 <= i < j < self.tags@.len() ==> self.tags@[i].name@ != self.tags@[j].name@)
        &&& (forall|i: int, j: int|
            0 <= i < j < self.slices@.len() ==> self.slices@[i].name@ != self.slices@[j].name@)
    }

    /// Checks `wf` at run time, so that callers outside verified code can
    /// test the pipeline's precondition before handing the metadata in.
    pub fn check_wf(&self) -> (b: bool)
        ensures
            b == self.wf(),
    {
        if self.durations.len() != self.frame_count {
            return false;
        }
        let m = self.tags.len();
        let mut t: usize = 0;
        while t < m
            invariant
                t <= m,
                m == self.tags@.len(),
                forall|k: int|
                    0 <= k < t ==> ((#[trigger] self.tags@[k]).wf() && self.tags@[k].last
                        < self.frame_count),
            decreases m - t,
        {
            let tag = &self.tags[t];
            if !(tag.first <= tag.last && tag.last < self.frame_count) {
                return false;
            }
            t = t + 1;
        }
        let mut p: usize = 0;
        while p < m
            invariant
                p <= m,
                m == self.tags@.len(),
                forall|k: int, j: int|
                    0 <= k < j < p ==> self.tags@[k].name@ != self.tags@[j].name@,
            decreases m - p,
        {
            let mut q: usize = 0;
            while q < p
                invariant
                    q <= p,
                    p < m,
                    m == self.tags@.len(),
                    forall|k: int| 0 <= k < q ==> self.tags@[k].name@ != self.tags@[p as int].name@,
                decreases p - q,
            {
                if self.tags[q].name == self.tags[p].name {
                    return false;
                }
                q = q + 1;
            }
            p = p + 1;
        }
        let s = self.slices.len();
        let mut u: usize = 0;
        while u < s
            invariant
                u <= s,
                s == self.slices@.len(),
                forall|k: int, j: int|
                    0 <= k < j < u ==> self.slices@[k].name@ != self.slices@[j].name@,
            decreases s - u,
        {
            let mut q: usize = 0;
            while q < u
                invariant
                    q <= u,
                    u < s,
                    s == self.slices@.len(),
                    forall|k: int|
                        0 <= k < q ==> self.slices@[k].name@ != self.slices@[u as int].name@,
                decreases u - q,
            {
                if self.slices[q].name == self.slices[u].name {
                    return false;
                }
                q = q + 1;
            }
            u = u + 1;
        }
        true
    }

    /// Returns whether every frame duration is at least one millisecond,
    /// the condition under which a cursor can be advanced.
    pub fn durations_positive(&self) -> (b: bool)
        ensures
            b == positive_durations(self.durations@),
    {
        let mut i: usize = 0;
        while i < self.durations.len()
            invariant
                i <= self.durations@.len(),
                forall|k: int| 0 <= k < i ==> self.durations@[k] >= 1,
            decreases self.durations@.len() - i,
        {
            if self.durations[i] == 0 {
                return false;
            }
            i = i + 1;
        }
        true
    }

    /// Looks a tag up by name. Returns the index of the tag with that name,
    /// or `None` exactly when no tag carries it; callers must check before
    /// selecting a tag.
    pub fn tag_by_name(&self, name: &String) -> (r: Option<usize>)
        ensures
            r matches Some(i) ==> (i < self.tags@.len() && self.tags@[i as int].name@ == name@),
            r is None ==> (forall|i: int|
                0 <= i < self.tags@.len() ==> (#[trigger] self.tags@[i]).name@ != name@),
    {
        let mut i: usize = 0;
        while i < self.tags.len()
            invariant
                i <= self.tags@.len(),
                forall|k: int| 0 <= k < i ==> (#[trigger] self.tags@[k]).name@ != name@,
            decreases self.tags@.len() - i,
        {
            if self.tags[i].name == *name {
                return Some(i);
            }
            i = i + 1;
        }
        None
    }
}

/// A sprite asset in the two-phase lifecycle: freshly loaded it holds the
/// decoded document in `data`; building the atlas consumes `data` and
/// populates `info` and `frame_to_idx`, which maps each source frame index
/// to its atlas slot index.
#[derive(Debug)]
pub struct AsepriteAsset {
    pub data: Option<SpriteDoc>,
    pub info: Option<SpriteInfo>,
    pub frame_to_idx: Vec<usize>,
}

/// The sizes of the document's frames, in frame order.
pub open spec fn spec_sizes(frames: Seq<Frame>) -> Seq<(u32, u32)> {
    frames.map_values(|f: Frame| (f.width, f.height))
}

/// The durations of the document's frames, in frame order.
pub open spec fn doc_durations(doc: SpriteDoc) -> Seq<u32> {
    doc.frames@.map_values(|f: Frame| f.duration_ms)
}

/// The document's frames pack into a square atlas of side `max`.
pub open spec fn build_ok(doc: SpriteDoc, max: int) -> bool {
    !has_degenerate(spec_sizes(doc.frames@)) && all_fit(spec_sizes(doc.frames@), max)
}

/// The kept metadata agrees with the document it was built from.
pub open spec fn info_matches(si: SpriteInfo, doc: SpriteDoc) -> bool {
    &&& si.width == doc.width
    &&& si.height == doc.height
    &&& si.frame_count == doc.frames@.len()
    &&& si.durations@ == doc_durations(doc)
    &&& si.tags@ == doc.tags@
    &&& si.slices@ == doc.slices@
}

/// The loader's compute half: turns the bytes read from an `.ase` /
/// `.aseprite` file into a fresh asset whose data awaits the atlas build.
pub struct AsepriteLoader;

impl AsepriteLoader {
    /// Decodes `buffer` into a fresh asset: on success the asset holds the
    /// decoded document, no built metadata yet and an empty mapping; every
    /// decode failure is reported as a `Format` error, exactly as `decode`
    /// classifies it.
    pub fn load(&self, buffer: &Vec<u8>) -> (r: Result<AsepriteAsset, LoadError>)
        ensures
            r is Ok <==> (crate::decode::prescan_ok(buffer@) && ase_doc(buffer@) is Some
                && ase_doc(buffer@)->Some_0.durations.len() <= u16::MAX
                && ase_doc(buffer@)->Some_0.images_ok && crate::decode::all_tags_valid(
                ase_doc(buffer@)->Some_0,
            )),
            r matches Ok(a) ==> (a.data matches Some(d) && doc_matches(
                d,
                ase_doc(buffer@)->Some_0,
            ) && d.wf() && a.info is None && a.frame_to_idx@.len() == 0),
            (r == Err::<AsepriteAsset, LoadError>(LoadError::Format(FormatError::Malformed)))
                <==> (!crate::decode::prescan_ok(buffer@) || ase_doc(buffer@) is None),
            ase_doc(buffer@) matches Some(v) ==> (crate::decode::prescan_ok(buffer@) ==> ((r
                == Err::<AsepriteAsset, LoadError>(LoadError::Format(FormatError::TooManyFrames)))
                <==> v.durations.len() > u16::MAX)),
            ase_doc(buffer@) matches Some(v) ==> (crate::decode::prescan_ok(buffer@) ==> ((r
                == Err::<AsepriteAsset, LoadError>(LoadError::Format(FormatError::FrameData)))
                <==> (v.durations.len() <= u16::MAX && !v.images_ok))),
            ase_doc(buffer@) matches Some(v) ==> (crate::decode::prescan_ok(buffer@) ==> ((r
                == Err::<AsepriteAsset, LoadError>(LoadError::Format(FormatError::TagRange))) <==> (
            v.durations.len() <= u16::MAX && v.images_ok && !crate::decode::all_tags_valid(v)))),
    {
        match crate::decode::decode(buffer) {
            Ok(doc) => Ok(AsepriteAsset { data: Some(doc), info: None, frame_to_idx: Vec::new() }),
            Err(e) => Err(LoadError::Format(e)),
        }
    }

    /// The two file extensions the loader recognizes.
    pub fn extensions(&self) -> (r: Vec<&'static str>)
        ensures
            r@.len() == 2,
            r@[0]@ == "ase"@,
            r@[1]@ == "aseprite"@,
    {
        let mut v: Vec<&'static str> = Vec::new();
        v.push("ase");
        v.push("aseprite");
        v
    }
}

/// The result of building an asset's atlas: the layout with the
/// frame-to-slot mapping, and the composed RGBA atlas image. The image is
/// `None` only when its byte length would not fit the address space.
#[derive(Debug)]
pub struct BuiltAtlas {
    pub layout: AtlasLayout,
    pub image: Option<Vec<u8>>,
}

/// Builds the atlas for an asset whose decoded data is pending.
///
/// Consumes the decoded document, packs the frames, composes the packed
/// atlas image from the frames' pixels, and on success stores the
/// frame-to-slot mapping and the kept metadata on the asset, returning the
/// layout and the image. An asset without pending data is left unchanged
/// and reported as `MissingAssetData`. A packing failure consumes the data
/// and leaves the asset permanently without built metadata.
pub fn process_load(ase: &mut AsepriteAsset, max_dim: u32) -> (r: Result<BuiltAtlas, LoadError>)
    requires
        old(ase).data matches Some(d) ==> d.wf(),
    ensures
        old(ase).data is None ==> (r == Err::<BuiltAtlas, LoadError>(LoadError::MissingAssetData)
            && *final(ase) == *old(ase)),
        old(ase).data matches Some(doc) ==> {
            &&& final(ase).data is None
            &&& (r is Ok <==> build_ok(doc, max_dim as int))
            &&& (r matches Ok(b) ==> (layout_ok(b.layout, spec_sizes(doc.frames@), max_dim as int)
                && final(ase).frame_to_idx@ == b.layout.frame_to_slot@
                && (final(ase).info matches Some(si) && info_matches(si, doc) && si.wf())))
            &&& (r matches Ok(b) ==> ((b.image is Some) <==> 4 * (b.layout.width as int) * (
            b.layout.height as int) <= usize::MAX))
            &&& (r matches Ok(b) ==> (b.image matches Some(img) ==> (img@.len() == 4 * (
            b.layout.width as int) * (b.layout.height as int) && (forall|i: int, x: int, y: int, c: int|
                (0 <= i < b.layout.slots@.len() && 0 <= x < b.layout.slots@[i].width && 0 <= y
                    < b.layout.slots@[i].height && 0 <= c < 4) ==> #[trigger] slot_pixel_done(
                    img@,
                    doc,
                    b.layout,
                    i,
                    x,
                    y,
                    c,
                )))))
            &&& ((r == Err::<BuiltAtlas, LoadError>(
                LoadError::AtlasBuild(AtlasBuildError::DegenerateFrame),
            )) <==> has_degenerate(spec_sizes(doc.frames@)))
            &&& (!has_degenerate(spec_sizes(doc.frames@)) ==> ((r == Err::<BuiltAtlas, LoadError>(
                LoadError::AtlasBuild(AtlasBuildError::CapacityExceeded),
            )) <==> !all_fit(spec_sizes(doc.frames@), max_dim as int)))
            &&& (r is Err ==> (final(ase).info == old(ase).info && final(ase).frame_to_idx
                == old(ase).frame_to_idx))
        },
{
    let doc = match ase.data.take() {
        Some(doc) => doc,
        None => {
            return Err(LoadError::MissingAssetData);
        },
    };

    let mut sizes: Vec<(u32, u32)> = Vec::new();
    let mut i: usize = 0;
    let n = doc.frames.len();
    while i < n
        invariant
            i <= n,
            n == doc.frames@.len(),
            sizes@.len() == i,
            forall|k: int|
                0 <= k < i ==> #[trigger] sizes@[k] == (doc.frames@[k].width, doc.frames@[k].height),
        decreases n - i,
    {
        sizes.push((doc.frames[i].width, doc.frames[i].height));
        i = i + 1;
    }
    proof {
        assert(sizes@ =~= spec_sizes(doc.frames@));
    }

    let layout = match pack(&sizes, max_dim) {
        Ok(l) => l,
        Err(e) => {
            return Err(LoadError::AtlasBuild(e));
        },
    };

    // compose the packed image while the frame pixels are still here
    proof {
        assert(4 * (layout.width as int) * (layout.height as int) <= u128::MAX)
            by (nonlinear_arith)
            requires
                layout.width <= u32::MAX && layout.height <= u32::MAX,
        ;
    }
    let image: Option<Vec<u8>> = if 4u128 * (layout.width as u128) * (layout.height as u128)
        <= usize::MAX as u128 {
        proof {
            assert forall|q: int| 0 <= q < layout.slots@.len() implies (
            (#[trigger] layout.slots@[q]).width == doc.frames@[q].width && layout.slots@[q].height
                == doc.frames@[q].height) by {
                assert(spec_sizes(doc.frames@)[q] == (doc.frames@[q].width, doc.frames@[q].height));
            }
            assert forall|q: int, r2: int|
                0 <= q < r2 < layout.slots@.len() implies crate::atlas::slots_disjoint(
                layout.slots@[q],
                layout.slots@[r2],
            ) by {
                crate::atlas::lemma_layout_slots_disjoint(
                    layout,
                    spec_sizes(doc.frames@),
                    max_dim as int,
                    q,
                    r2,
                );
            }
            assert(composable(doc, layout));
        }
        Some(compose_atlas(&doc, &layout))
    } else {
        None
    };

    let mut durations: Vec<u32> = Vec::new();
    let mut j: usize = 0;
    while j < n
        invariant
            j <= n,
            n == doc.frames@.len(),
            durations@.len() == j,
            forall|k: int| 0 <= k < j ==> #[trigger] durations@[k] == doc.frames@[k].duration_ms,
        decreases n - j,
    {
        durations.push(doc.frames[j].duration_ms);
        j = j + 1;
    }
    proof {
        assert(durations@ =~= doc_durations(doc));
    }

    let mut idx: Vec<usize> = Vec::new();
    let mut k: usize = 0;
    let m = layout.frame_to_slot.len();
    while k < m
        invariant
            k <= m,
            m == layout.frame_to_slot@.len(),
            idx@.len() == k,
            forall|q: int| 0 <= q < k ==> #[trigger] idx@[q] == layout.frame_to_slot@[q],
        decreases m - k,
    {
        idx.push(layout.frame_to_slot[k]);
        k = k + 1;
    }
    proof {
        assert(idx@ =~= layout.frame_to_slot@);
    }

    let info = SpriteInfo {
        width: doc.width,
        height: doc.height,
        frame_count: n,
        durations,
        tags: doc.tags,
        slices: doc.slices,
    };
    ase.frame_to_idx = idx;
    ase.info = Some(info);
    Ok(BuiltAtlas { layout, image })
}

/// Law: a successful decode followed by a successful atlas build yields a
/// frame-to-slot mapping with exactly one entry per source frame of the
/// decoded document, and no two frames share a slot.
pub proof fn lemma_mapping_covers_frames(
    d: SpriteDoc,
    v: crate::decode::DocView,
    l: AtlasLayout,
    max: int,
)
    requires
        doc_matches(d, v),
        layout_ok(l, spec_sizes(d.frames@), max),
    ensures
        l.frame_to_slot@.len() == v.durations.len(),
        forall|i: int, j: int|
            0 <= i < j < l.frame_to_slot@.len() ==> l.frame_to_slot@[i] != l.frame_to_slot@[j],
{
}

/// The byte index of channel `c` of the pixel at `(x, y)` in an RGBA image
/// of width `w`.
pub open spec fn rgba_index(w: int, x: int, y: int, c: int) -> int {
    4 * (y * w + x) + c
}

proof fn lemma_rgba_index_bound(w: int, h: int, x: int, y: int, c: int)
    requires
        0 <= x < w,
        0 <= y < h,
        0 <= c < 4,
    ensures
        0 <= rgba_index(w, x, y, c) < 4 * (w * h),
        0 <= y * w + x < w * h,
        4 * (w * h) == 4 * w * h,
        w * h <= 4 * (w * h),
{
    assert(4 * (y * w + x) + c < 4 * (w * h) && 0 <= y * w + x < w * h && 4 * (w * h) == 4 * w * h
        && w * h <= 4 * (w * h)) by (nonlinear_arith)
        requires
            0 <= x < w,
            0 <= y < h,
            0 <= c < 4,
    ;
}

proof fn lemma_rgba_index_injective(w: int, x1: int, y1: int, c1: int, x2: int, y2: int, c2: int)
    requires
        0 <= x1 < w,
        0 <= x2 < w,
        0 <= y1,
        0 <= y2,
        0 <= c1 < 4,
        0 <= c2 < 4,
        !(x1 == x2 && y1 == y2 && c1 == c2),
    ensures
        rgba_index(w, x1, y1, c1) != rgba_index(w, x2, y2, c2),
{
    if y1 != y2 {
        assert(4 * (y1 * w + x1) + c1 != 4 * (y2 * w + x2) + c2) by (nonlinear_arith)
            requires
                0 <= x1 < w,
                0 <= x2 < w,
                0 <= c1 < 4,
                0 <= c2 < 4,
                y1 != y2,
                0 <= y1,
                0 <= y2,
        ;
    }
}

/// Channel `c` of pixel `(x, y)` of frame `i` has been copied to its place
/// in the atlas image.
pub open spec fn slot_pixel_done(
    img: Seq<u8>,
    doc: SpriteDoc,
    l: AtlasLayout,
    i: int,
    x: int,
    y: int,
    c: int,
) -> bool {
    img[rgba_index(l.width as int, l.slots@[i].x + x, l.slots@[i].y + y, c)] == doc.frames@[i].pixels@[rgba_index(
        doc.frames@[i].width as int,
        x,
        y,
        c,
    )]
}

/// `(i2, y2, x2, c2)` comes strictly before `(i, y, x, c)` in the copy
/// order: frame by frame, row by row, pixel by pixel, channel by channel.
pub open spec fn copied_before(
    i2: int,
    y2: int,
    x2: int,
    c2: int,
    i: int,
    y: int,
    x: int,
    c: int,
) -> bool {
    ||| i2 < i
    ||| (i2 == i && y2 < y)
    ||| (i2 == i && y2 == y && x2 < x)
    ||| (i2 == i && y2 == y && x2 == x && c2 < c)
}

/// All channels strictly before position `(i, y, x, c)` in the copy order
/// are already in place.
pub open spec fn copied_upto(
    img: Seq<u8>,
    doc: SpriteDoc,
    l: AtlasLayout,
    i: int,
    y: int,
    x: int,
    c: int,
) -> bool {
    forall|i2: int, y2: int, x2: int, c2: int|
        (0 <= i2 < l.slots@.len() && 0 <= y2 < l.slots@[i2].height && 0 <= x2 < l.slots@[i2].width
            && 0 <= c2 < 4 && copied_before(i2, y2, x2, c2, i, y, x, c))
            ==> #[trigger] slot_pixel_done(img, doc, l, i2, x2, y2, c2)
}

/// The slots carry the document's frame sizes, lie inside the layout's
/// extent, and do not overlap, so every frame can be copied to its own
/// region of one image.
pub open spec fn composable(doc: SpriteDoc, l: AtlasLayout) -> bool {
    &&& doc.wf()
    &&& l.slots@.len() == doc.frames@.len()
    &&& (forall|i: int|
        0 <= i < l.slots@.len() ==> ((#[trigger] l.slots@[i]).width == doc.frames@[i].width
            && l.slots@[i].height == doc.frames@[i].height && l.slots@[i].x + l.slots@[i].width
            <= l.width && l.slots@[i].y + l.slots@[i].height <= l.height))
    &&& (forall|i: int, j: int|
        0 <= i < j < l.slots@.len() ==> crate::atlas::slots_disjoint(l.slots@[i], l.slots@[j]))
}

proof fn lemma_slot_pixel_targets_differ(
    doc: SpriteDoc,
    l: AtlasLayout,
    i1: int,
    x1: int,
    y1: int,
    c1: int,
    i2: int,
    x2: int,
    y2: int,
    c2: int,
)
    requires
        composable(doc, l),
        0 <= i1 < l.slots@.len(),
        0 <= x1 < l.slots@[i1].width,
        0 <= y1 < l.slots@[i1].height,
        0 <= c1 < 4,
        0 <= i2 < l.slots@.len(),
        0 <= x2 < l.slots@[i2].width,
        0 <= y2 < l.slots@[i2].height,
        0 <= c2 < 4,
        !(i1 == i2 && x1 == x2 && y1 == y2 && c1 == c2),
    ensures
        rgba_index(l.width as int, l.slots@[i1].x + x1, l.slots@[i1].y + y1, c1) != rgba_index(
            l.width as int,
            l.slots@[i2].x + x2,
            l.slots@[i2].y + y2,
            c2,
        ),
{
    let ax1 = l.slots@[i1].x + x1;
    let ay1 = l.slots@[i1].y + y1;
    let ax2 = l.slots@[i2].x + x2;
    let ay2 = l.slots@[i2].y + y2;
    if i1 != i2 {
        if i1 < i2 {
            assert(crate::atlas::slots_disjoint(l.slots@[i1], l.slots@[i2]));
        } else {
            assert(crate::atlas::slots_disjoint(l.slots@[i2], l.slots@[i1]));
        }
    }
    assert(l.width > 0) by {
        assert(l.slots@[i1].x + l.slots@[i1].width <= l.width);
    }
    lemma_rgba_index_injective(l.width as int, ax1, ay1, c1, ax2, ay2, c2);
}

/// Composes the packed atlas image: one RGBA buffer of the layout's extent
/// with every frame's pixels copied into its slot. The returned buffer has
/// exactly `4 * width * height` bytes, and inside each slot it agrees with
/// that frame's pixel data channel for channel.
pub fn compose_atlas(doc: &SpriteDoc, layout: &AtlasLayout) -> (img: Vec<u8>)
    requires
        composable(*doc, *layout),
        4 * (layout.width as int) * (layout.height as int) <= usize::MAX,
    ensures
        img@.len() == 4 * (layout.width as int) * (layout.height as int),
        forall|i: int, x: int, y: int, c: int|
            (0 <= i < layout.slots@.len() && 0 <= x < layout.slots@[i].width && 0 <= y
                < layout.slots@[i].height && 0 <= c < 4) ==> #[trigger] slot_pixel_done(
                img@,
                *doc,
                *layout,
                i,
                x,
                y,
                c,
            ),
{
    let w = layout.width as usize;
    let h = layout.height as usize;
    proof {
        assert(0 <= (layout.width as int) * (layout.height as int) && (layout.width as int) * (
        layout.height as int) <= 4 * ((layout.width as int) * (layout.height as int)) && 4 * ((
        layout.width as int) * (layout.height as int)) == 4 * (layout.width as int) * (
        layout.height as int)) by (nonlinear_arith);
    }
    let total = 4 * (w * h);
    let mut img: Vec<u8> = Vec::new();
    let mut k: usize = 0;
    while k < total
        invariant
            k <= total,
            img@.len() == k,
        decreases total - k,
    {
        img.push(0);
        k = k + 1;
    }

    let n = layout.slots.len();
    let mut i: usize = 0;
    while i < n
        invariant
            i <= n,
            n == layout.slots@.len(),
            composable(*doc, *layout),
            4 * (layout.width as int) * (layout.height as int) <= usize::MAX,
            w == layout.width as usize,
            img@.len() == 4 * (layout.width as int) * (layout.height as int),
            copied_upto(img@, *doc, *layout, i as int, 0, 0, 0),
        decreases n - i,
    {
        let slot = layout.slots[i];
        let fw = slot.width;
        let fh = slot.height;
        let mut y: u32 = 0;
        while y < fh
            invariant
                y <= fh,
                i < n,
                n == layout.slots@.len(),
                composable(*doc, *layout),
                4 * (layout.width as int) * (layout.height as int) <= usize::MAX,
                w == layout.width as usize,
                img@.len() == 4 * (layout.width as int) * (layout.height as int),
                slot == layout.slots@[i as int],
                fw == slot.width,
                fh == slot.height,
                copied_upto(img@, *doc, *layout, i as int, y as int, 0, 0),
            decreases fh - y,
        {
            let mut x: u32 = 0;
            while x < fw
                invariant
                    x <= fw,
                    y < fh,
                    i < n,
                    n == layout.slots@.len(),
                    composable(*doc, *layout),
                    4 * (layout.width as int) * (layout.height as int) <= usize::MAX,
                    w == layout.width as usize,
                    img@.len() == 4 * (layout.width as int) * (layout.height as int),
                    slot == layout.slots@[i as int],
                    fw == slot.width,
                    fh == slot.height,
                    copied_upto(img@, *doc, *layout, i as int, y as int, x as int, 0),
                decreases fw - x,
            {
                let mut c: usize = 0;
                while c < 4
                    invariant
                        c <= 4,
                        x < fw,
                        y < fh,
                        i < n,
                        n == layout.slots@.len(),
                        composable(*doc, *layout),
                        4 * (layout.width as int) * (layout.height as int) <= usize::MAX,
                        w == layout.width as usize,
                        img@.len() == 4 * (layout.width as int) * (layout.height as int),
                        slot == layout.slots@[i as int],
                        fw == slot.width,
                        fh == slot.height,
                        copied_upto(img@, *doc, *layout, i as int, y as int, x as int, c as int),
                    decreases 4 - c,
                {
                    let ghost before = img@;
                    let ax = slot.x + x;
                    let ay = slot.y + y;
                    proof {
                        lemma_rgba_index_bound(
                            layout.width as int,
                            layout.height as int,
                            ax as int,
                            ay as int,
                            c as int,
                        );
                        lemma_rgba_index_bound(fw as int, fh as int, x as int, y as int, c as int);
                        assert(doc.frames@[i as int].pixels@.len() == 4 * (fw as int) * (
                        fh as int)) by {
                            assert(4 * doc.width * doc.height == 4 * (fw as int) * (fh as int))
                                by (nonlinear_arith)
                                requires
                                    doc.width == fw && doc.height == fh,
                            ;
                        }
                    }
                    let dst = 4 * ((ay as usize) * w + ax as usize) + c;
                    let plen = doc.frames[i].pixels.len();
                    proof {
                        assert(plen == 4 * (fw as int) * (fh as int));
                    }
                    let src = 4 * ((y as usize) * (fw as usize) + x as usize) + c;
                    let v = doc.frames[i].pixels[src];
                    img[dst] = v;
                    proof {
                        assert(slot_pixel_done(
                            img@,
                            *doc,
                            *layout,
                            i as int,
                            x as int,
                            y as int,
                            c as int,
                        ));
                        assert forall|i2: int, y2: int, x2: int, c2: int|
                            (0 <= i2 < layout.slots@.len() && 0 <= y2 < layout.slots@[i2].height
                                && 0 <= x2 < layout.slots@[i2].width && 0 <= c2 < 4
                                && copied_before(
                                i2,
                                y2,
                                x2,
                                c2,
                                i as int,
                                y as int,
                                x as int,
                                c as int + 1,
                            )) implies #[trigger] slot_pixel_done(
                            img@,
                            *doc,
                            *layout,
                            i2,
                            x2,
                            y2,
                            c2,
                        ) by {
                            if !(i2 == i as int && y2 == y as int && x2 == x as int && c2
                                == c as int) {
                                lemma_slot_pixel_targets_differ(
                                    *doc,
                                    *layout,
                                    i2,
                                    x2,
                                    y2,
                                    c2,
                                    i as int,
                                    x as int,
                                    y as int,
                                    c as int,
                                );
                                lemma_rgba_index_bound(
                                    layout.width as int,
                                    layout.height as int,
                                    layout.slots@[i2].x + x2,
                                    layout.slots@[i2].y + y2,
                                    c2,
                                );
                                assert(slot_pixel_done(before, *doc, *layout, i2, x2, y2, c2));
                            }
                        }
                    }
                    c = c + 1;
                }
                x = x + 1;
            }
            y = y + 1;
        }
        i = i + 1;
    }
    img
}

/// The pipeline driver: runs the stages for one asset in their required
/// order, atlas build strictly before the animation advance.
pub struct AsepritePlugin;

/// The per-frame durations an asset offers a cursor: those of the pending
/// document if the atlas is not built yet, else those of the kept metadata.
pub open spec fn eff_durations(a: AsepriteAsset) -> Seq<u32> {
    if a.data is Some {
        doc_durations(a.data->Some_0)
    } else if a.info is Some {
        a.info->Some_0.durations@
    } else {
        Seq::empty()
    }
}

/// The cursor's tag lies within the frames and every duration is positive,
/// so the cursor can be advanced.
pub open spec fn cursor_fits(c: AnimationCursor, durs: Seq<u32>) -> bool {
    c.tag.last < durs.len() && positive_durations(durs)
}

impl AsepritePlugin {
    /// One scheduler tick for one asset and one cursor: builds the atlas
    /// first if decoded data is pending, and only then advances the cursor
    /// by `dt_ms` against the built metadata. Returns the built atlas when
    /// a build happened, `None` when the asset was already built. Fails
    /// without touching the cursor when the build fails, when the asset
    /// holds nothing, when the cursor's tag reaches past the frames, or
    /// when a frame duration is zero.
    pub fn tick(
        ase: &mut AsepriteAsset,
        cursor: &mut AnimationCursor,
        dt_ms: u32,
        max_dim: u32,
    ) -> (r: Result<Option<BuiltAtlas>, LoadError>)
        requires
            old(ase).data matches Some(d) ==> d.wf(),
            old(ase).info matches Some(si) ==> si.wf(),
            old(cursor).wf(),
        ensures
            r is Ok <==> ((old(ase).data is Some || old(ase).info is Some) && (old(
                ase,
            ).data matches Some(doc) ==> build_ok(doc, max_dim as int)) && cursor_fits(
                *old(cursor),
                eff_durations(*old(ase)),
            )),
            r is Ok ==> *final(cursor) == advance_spec(
                *old(cursor),
                eff_durations(*old(ase)),
                dt_ms as u64,
            ),
            r is Ok ==> (final(cursor).wf() && final(cursor).tag == old(cursor).tag),
            r is Err ==> *final(cursor) == *old(cursor),
            r is Ok ==> (final(ase).info matches Some(si) && si.wf() && final(ase).data is None),
            old(ase).data is None ==> (final(ase).info == old(ase).info && final(ase).frame_to_idx
                == old(ase).frame_to_idx),
            old(ase).data is Some ==> final(ase).data is None,
            old(ase).data matches Some(doc) ==> (r matches Ok(b) ==> (b matches Some(ba)
                && layout_ok(ba.layout, spec_sizes(doc.frames@), max_dim as int)
                && final(ase).frame_to_idx@ == ba.layout.frame_to_slot@)),
            old(ase).data is None ==> (r matches Ok(b) ==> b is None),
            (r == Err::<Option<BuiltAtlas>, LoadError>(LoadError::MissingAssetData)) <==> (old(
                ase,
            ).data is None && old(ase).info is None),
            ((old(ase).data is Some || old(ase).info is Some) && (old(
                ase,
            ).data matches Some(doc) ==> build_ok(doc, max_dim as int)) && !(old(
                cursor,
            ).tag.last < eff_durations(*old(ase)).len())) ==> r == Err::<
                Option<BuiltAtlas>,
                LoadError,
            >(LoadError::InvalidTagSelection),
            ((old(ase).data is Some || old(ase).info is Some) && (old(
                ase,
            ).data matches Some(doc) ==> build_ok(doc, max_dim as int)) && old(cursor).tag.last
                < eff_durations(*old(ase)).len() && !positive_durations(eff_durations(*old(ase))))
                ==> r == Err::<Option<BuiltAtlas>, LoadError>(LoadError::ZeroFrameDuration),
    {
        let built: Option<BuiltAtlas> = if ase.data.is_some() {
            let ghost doc = ase.data->Some_0;
            match process_load(ase, max_dim) {
                Ok(l) => {
                    proof {
                        assert(ase.info->Some_0.durations@ =~= doc_durations(doc));
                    }
                    Some(l)
                },
                Err(e) => {
                    return Err(e);
                },
            }
        } else {
            None
        };
        match &ase.info {
            Some(si) => {
                if !(cursor.tag.last < si.frame_count) {
                    return Err(LoadError::InvalidTagSelection);
                }
                if !si.durations_positive() {
                    return Err(LoadError::ZeroFrameDuration);
                }
                cursor.advance(&si.durations, dt_ms);
                Ok(built)
            },
            None => Err(LoadError::MissingAssetData),
        }
    }
}

} // verus!
