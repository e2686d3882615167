//! Decoding: from the raw bytes of an `.ase` / `.aseprite` file to frames
//! and tags.
//!
//! The binary parsing itself is done by the `bevy_aseprite_reader` crate
//! behind a small trusted boundary. Parsing is a pure function of the byte
//! buffer, so its outcome is named by the uninterpreted function `ase_doc`;
//! the contents of a parsed value are named by `doc_view`. The verified
//! `decode` assembles the library's own `SpriteDoc` from what the wrappers
//! hand out and validates every tag range against the frame count.

use vstd::prelude::*;

use crate::anim::{AnimDirection, AnimationTag, RepeatKind};
use bevy_aseprite_reader as reader;

verus! {

/// What one tag holds: its frame range `start..end` (end exclusive) and its
/// declared playback direction.
pub struct TagView {
    pub start: nat,
    pub end: nat,
    pub direction: AnimDirection,
}

/// The center region of a nine-patch slice, relative to the slice bounds.
#[derive(Clone, Copy, Debug, PartialEq, Eq, Structural)]
pub struct NinePatch {
    pub x_center: i32,
    pub y_center: i32,
    pub width: u32,
    pub height: u32,
}

/// What one slice holds: the frame it is valid from, its position and size
/// relative to the sprite, and its nine-patch center if it has one.
pub struct SliceView {
    pub valid_frame: u16,
    pub x: i32,
    pub y: i32,
    pub width: u32,
    pub height: u32,
    pub nine_patch: Option<NinePatch>,
}

/// The mathematical content of a parsed sprite file: the canvas size shared
/// by all frames, the per-frame durations in milliseconds, whether every
/// cel's geometry keeps compositing within the canvas and the reader's
/// 16-bit pixel arithmetic, whether the per-frame images can be composited,
/// the composited RGBA bytes of each frame, and the tags and slices, each
/// keyed by name.
pub struct DocView {
    pub width: nat,
    pub height: nat,
    pub durations: Seq<nat>,
    pub cels_bounded: bool,
    pub images_ok: bool,
    pub pixels: Seq<Seq<u8>>,
    pub tags: Map<Seq<char>, TagView>,
    pub slices: Map<Seq<char>, SliceView>,
}

/// What parsing a byte buffer yields: `None` when the buffer is rejected,
/// otherwise the parsed document. Parsing is deterministic, so this is a
/// function of the bytes alone.
pub uninterp spec fn ase_doc(bytes: Seq<u8>) -> Option<DocView>;

/// The document a parsed `bevy_aseprite_reader::Aseprite` value holds.
pub uninterp spec fn doc_view(a: reader::Aseprite) -> DocView;

/// Bounds the file format imposes on a parsed document: the canvas size and
/// the frame count and durations are 16-bit quantities, every frame image is
/// one RGBA byte quadruple per canvas pixel, and tag bounds are 16-bit.
pub open spec fn doc_bounds(d: DocView) -> bool {
    &&& d.width <= u16::MAX
    &&& d.height <= u16::MAX
    &&& d.durations.len() >= 1
    &&& (forall|i: int| 0 <= i < d.durations.len() ==> #[trigger] d.durations[i] <= u16::MAX)
    &&& (d.images_ok ==> d.pixels.len() == d.durations.len())
    &&& (d.images_ok ==> (forall|i: int|
        0 <= i < d.pixels.len() ==> (#[trigger] d.pixels[i]).len() == 4 * d.width * d.height))
    &&& (forall|n: Seq<char>|
        d.tags.contains_key(n) ==> ((#[trigger] d.tags[n]).start <= u16::MAX && d.tags[n].end
            <= u16::MAX + 1))
}

/// One little-endian 16-bit word of the byte stream.
pub open spec fn le16(b: Seq<u8>, i: int) -> int {
    b[i] + 0x100 * b[i + 1]
}

/// One little-endian 32-bit word of the byte stream.
pub open spec fn le32(b: Seq<u8>, i: int) -> int {
    le16(b, i) + 0x10000 * le16(b, i + 2)
}

/// A 16-bit word read as a signed (two's-complement) value.
pub open spec fn le16_signed(b: Seq<u8>, i: int) -> int {
    if le16(b, i) < 0x8000 {
        le16(b, i)
    } else {
        le16(b, i) - 0x10000
    }
}

/// The reader survives a palette chunk with these header fields: the range
/// is not inverted and does not end at the last 32-bit value (its length
/// arithmetic would wrap), and the declared palette size does not reach past
/// the entries the range provides (the reader indexes the parsed entries up
/// to the palette size).
pub open spec fn palette_fields_safe(psize: int, from: int, to: int) -> bool {
    from <= to && to < 0xffff_ffff && psize <= to + 1
}

/// No tag in the chunk ends at frame 65535, on which the reader's 16-bit
/// `to + 1` wraps. Walks the `k` tags from `p` as the reader does; a tag
/// that runs past `end` only makes the reader report a parse error.
pub open spec fn tags_fields_safe(b: Seq<u8>, p: int, end: int, k: int) -> bool
    decreases k,
{
    if k <= 0 {
        true
    } else if p + 19 > end {
        true
    } else if le16(b, p + 2) == 0xffff {
        false
    } else {
        tags_fields_safe(b, p + 19 + le16(b, p + 17), end, k - 1)
    }
}

/// A cel of this geometry composites without leaving the canvas or the
/// reader's 16-bit pixel arithmetic: empty, or fully inside the canvas with
/// its extent and pixel count within the reader's index types.
pub open spec fn cel_bounds_safe(x: int, y: int, w: int, h: int, cw: int, ch: int) -> bool {
    ||| w == 0
    ||| h == 0
    ||| (x + w <= cw && y + h <= ch && w <= cw && h <= ch && w <= 0x8000 && h <= 0x8000 && x + w
        <= 0x8000 && y + h <= 0x8000)
}

/// The reader survives a cel chunk: an image cel obeys `cel_bounds_safe`,
/// and a linked cel sits at the origin (it is drawn with its own position
/// but the linked cel's size, so only the origin is covered by the image
/// cels' own bounds). A chunk too short to parse only yields a parse error.
pub open spec fn cel_fields_safe(b: Seq<u8>, d: int, dl: int, cw: int, ch: int) -> bool {
    if dl < 9 {
        true
    } else {
        let t = le16(b, d + 7);
        if t == 0 || t == 2 {
            dl < 20 || cel_bounds_safe(
                le16_signed(b, d + 2),
                le16_signed(b, d + 4),
                le16(b, d + 16),
                le16(b, d + 18),
                cw,
                ch,
            )
        } else if t == 1 {
            le16(b, d + 2) == 0 && le16(b, d + 4) == 0
        } else {
            true
        }
    }
}

/// The reader survives the chunk starting at `off` with declared size
/// `size`: palette, tag and cel chunks pass their field checks; every other
/// chunk either parses or only yields a parse error.
pub open spec fn chunk_fields_safe(b: Seq<u8>, off: int, size: int, cw: int, ch: int) -> bool {
    let t = le16(b, off + 4);
    let d = off + 6;
    let dl = size - 6;
    if t == 0x2019 {
        dl < 12 || palette_fields_safe(le32(b, d), le32(b, d + 4), le32(b, d + 8))
    } else if t == 0x2018 {
        dl < 10 || tags_fields_safe(b, d + 10, d + dl, le16(b, d))
    } else if t == 0x2005 {
        cel_fields_safe(b, d, dl, cw, ch)
    } else {
        true
    }
}

/// Walks the frame and chunk framing from `off` exactly as the reader does
/// (`rem` chunks left in the current frame; at `rem == 0` a frame header
/// follows) and accepts the stream only if every chunk the reader could
/// reach passes its field check and declares a size of at least the chunk
/// header's six bytes. Wherever the data runs out or a frame magic
/// mismatches, the reader stops with a parse error, which is safe.
pub open spec fn scan_from(b: Seq<u8>, off: int, rem: int, cw: int, ch: int) -> bool
    decreases b.len() - off,
{
    if off < 0 || off > b.len() {
        true
    } else if rem <= 0 {
        if b.len() - off < 16 {
            true
        } else if le16(b, off + 4) != 0xf1fa {
            true
        } else {
            let cnt = if le32(b, off + 12) == 0 {
                le16(b, off + 6)
            } else {
                le32(b, off + 12)
            };
            scan_from(b, off + 16, cnt, cw, ch)
        }
    } else {
        if b.len() - off < 6 {
            true
        } else {
            let size = le32(b, off);
            if size < 6 {
                false
            } else if size > b.len() - off {
                true
            } else if !chunk_fields_safe(b, off, size, cw, ch) {
                false
            } else {
                scan_from(b, off + size, rem - 1, cw, ch)
            }
        }
    }
}

/// The byte stream is free of the patterns on which the reader panics
/// instead of returning an error: the canvas is small enough for the
/// reader's 16-bit blank-cel arithmetic, and every reachable chunk passes
/// `scan_from`. A stream shorter than the 128-byte header only yields a
/// parse error.
pub open spec fn prescan_ok(b: Seq<u8>) -> bool {
    ||| b.len() < 128
    ||| (le16(b, 8) * le16(b, 10) <= 0xffff && le16(b, 8) <= 0x8000 && le16(b, 10) <= 0x8000
        && scan_from(b, 128, 0, le16(b, 8), le16(b, 10)))
}

fn le16_at(b: &Vec<u8>, i: usize) -> (r: u16)
    requires
        i + 2 <= b@.len(),
    ensures
        r as int == le16(b@, i as int),
{
    let _n = b.len();
    let v: u32 = b[i] as u32 + 0x100 * (b[i + 1] as u32);
    v as u16
}

fn le32_at(b: &Vec<u8>, i: usize) -> (r: u32)
    requires
        i + 4 <= b@.len(),
    ensures
        r as int == le32(b@, i as int),
{
    let _n = b.len();
    let v: u64 = le16_at(b, i) as u64 + 0x10000 * (le16_at(b, i + 2) as u64);
    v as u32
}

fn cel_fields_ok(b: &Vec<u8>, d: usize, dl: usize, cw: u16, ch: u16) -> (r: bool)
    requires
        d + dl <= b@.len(),
    ensures
        r == cel_fields_safe(b@, d as int, dl as int, cw as int, ch as int),
{
    let _n = b.len();
    if dl < 9 {
        return true;
    }
    let t = le16_at(b, d + 7);
    if t == 0 || t == 2 {
        if dl < 20 {
            return true;
        }
        let xv = le16_at(b, d + 2);
        let yv = le16_at(b, d + 4);
        let x: i64 = if xv < 0x8000 {
            xv as i64
        } else {
            xv as i64 - 0x10000
        };
        let y: i64 = if yv < 0x8000 {
            yv as i64
        } else {
            yv as i64 - 0x10000
        };
        let w = le16_at(b, d + 16) as i64;
        let h = le16_at(b, d + 18) as i64;
        w == 0 || h == 0 || (x + w <= cw as i64 && y + h <= ch as i64 && w <= cw as i64 && h
            <= ch as i64 && w <= 0x8000 && h <= 0x8000 && x + w <= 0x8000 && y + h <= 0x8000)
    } else if t == 1 {
        le16_at(b, d + 2) == 0 && le16_at(b, d + 4) == 0
    } else {
        true
    }
}

fn tags_fields_ok(b: &Vec<u8>, p0: usize, end: usize, k0: u16) -> (r: bool)
    requires
        p0 <= end,
        end <= b@.len(),
    ensures
        r == tags_fields_safe(b@, p0 as int, end as int, k0 as int),
{
    let _n = b.len();
    let mut p = p0;
    let mut k = k0;
    loop
        invariant
            p <= end,
            end <= b@.len(),
            tags_fields_safe(b@, p as int, end as int, k as int) == tags_fields_safe(
                b@,
                p0 as int,
                end as int,
                k0 as int,
            ),
        decreases k,
    {
        if k == 0 {
            return true;
        }
        if end - p < 19 {
            return true;
        }
        let to = le16_at(b, p + 2);
        if to == 0xffff {
            return false;
        }
        let namelen = le16_at(b, p + 17) as usize;
        if namelen > end - p - 19 {
            proof {
                assert(tags_fields_safe(b@, p as int + 19 + namelen, end as int, k as int - 1));
            }
            return true;
        }
        proof {
            assert(tags_fields_safe(b@, p as int, end as int, k as int) == tags_fields_safe(
                b@,
                p as int + 19 + namelen,
                end as int,
                k as int - 1,
            ));
        }
        p = p + 19 + namelen;
        k = k - 1;
    }
}

fn chunk_fields_ok(b: &Vec<u8>, off: usize, size: usize, cw: u16, ch: u16) -> (r: bool)
    requires
        size >= 6,
        off + size <= b@.len(),
    ensures
        r == chunk_fields_safe(b@, off as int, size as int, cw as int, ch as int),
{
    let _n = b.len();
    let t = le16_at(b, off + 4);
    let d = off + 6;
    let dl = size - 6;
    if t == 0x2019 {
        if dl < 12 {
            return true;
        }
        let psize = le32_at(b, d) as u64;
        let from = le32_at(b, d + 4) as u64;
        let to = le32_at(b, d + 8) as u64;
        from <= to && to < 0xffff_ffff && psize <= to + 1
    } else if t == 0x2018 {
        if dl < 10 {
            return true;
        }
        let k = le16_at(b, d);
        tags_fields_ok(b, d + 10, d + dl, k)
    } else if t == 0x2005 {
        cel_fields_ok(b, d, dl, cw, ch)
    } else {
        true
    }
}

/// Returns whether the byte stream passes the pre-check `prescan_ok`: it is
/// free of the byte patterns on which the reader panics instead of
/// returning an error. `decode` rejects every stream that fails it.
pub fn prescan(bytes: &Vec<u8>) -> (r: bool)
    ensures
        r == prescan_ok(bytes@),
{
    let len = bytes.len();
    if len < 128 {
        return true;
    }
    let cw = le16_at(bytes, 8);
    let ch = le16_at(bytes, 10);
    proof {
        assert(cw as int * ch as int <= 0xffff_ffff) by (nonlinear_arith)
            requires
                cw <= 0xffff && ch <= 0xffff,
        ;
    }
    if !(cw as u64 * ch as u64 <= 0xffff && cw <= 0x8000 && ch <= 0x8000) {
        return false;
    }
    let mut off: usize = 128;
    let mut rem: u64 = 0;
    loop
        invariant
            128 <= off <= len,
            len == bytes@.len(),
            cw as int == le16(bytes@, 8),
            ch as int == le16(bytes@, 10),
            cw as int * ch as int <= 0xffff,
            cw <= 0x8000,
            ch <= 0x8000,
            scan_from(bytes@, off as int, rem as int, cw as int, ch as int) == scan_from(
                bytes@,
                128,
                0,
                cw as int,
                ch as int,
            ),
        decreases len - off,
    {
        if rem == 0 {
            if len - off < 16 {
                return true;
            }
            if le16_at(bytes, off + 4) != 0xf1fa {
                return true;
            }
            let big = le32_at(bytes, off + 12);
            let cnt: u64 = if big == 0 {
                le16_at(bytes, off + 6) as u64
            } else {
                big as u64
            };
            proof {
                assert(scan_from(bytes@, off as int, rem as int, cw as int, ch as int)
                    == scan_from(bytes@, off as int + 16, cnt as int, cw as int, ch as int));
            }
            off = off + 16;
            rem = cnt;
        } else {
            if len - off < 6 {
                return true;
            }
            let size32 = le32_at(bytes, off);
            if size32 < 6 {
                return false;
            }
            if size32 as u64 > (len - off) as u64 {
                return true;
            }
            let size = size32 as usize;
            if !chunk_fields_ok(bytes, off, size, cw, ch) {
                return false;
            }
            proof {
                assert(scan_from(bytes@, off as int, rem as int, cw as int, ch as int)
                    == scan_from(bytes@, off as int + size as int, rem as int - 1, cw as int, ch as int));
            }
            off = off + size;
            rem = rem - 1;
        }
    }
}

#[verifier::external_type_specification]
#[verifier::external_body]
pub struct ExAseprite(reader::Aseprite);

#[verifier::external_type_specification]
#[verifier::external_body]
pub struct ExAsepriteError(reader::error::AsepriteError);

/// Relies on `bevy_aseprite_reader::Aseprite::from_bytes`: parsing reads the
/// buffer alone and is deterministic, succeeds exactly on the bytes that
/// form a well-formed file (valid header magic, not truncated, supported
/// color depth, well-formed chunks), and yields the document whose bounds
/// the format dictates (16-bit canvas size, frame count and durations; tag
/// bounds from 16-bit fields; one frame info per parsed frame, at least
/// one frame in a well-formed file).
///
/// On some byte patterns the reader panics instead of returning an error
/// (a palette chunk declaring more entries than its range parses, an
/// inverted palette range, a chunk size below the six-byte chunk header, a
/// tag ending at frame 65535), so `requires` admits only pre-checked bytes:
/// `prescan_ok` excludes exactly those patterns, walking the same chunk
/// framing the reader uses. The pre-check also bounds every cel and the
/// canvas, which is what `cels_bounded` records on the parsed value — the
/// value's cels come from the stream's cel chunks, and its blank cels have
/// the canvas size.
#[verifier::external_body]
fn parse_sprite(bytes: &Vec<u8>) -> (r: Result<reader::Aseprite, reader::error::AsepriteError>)
    requires
        prescan_ok(bytes@),
    ensures
        r is Ok <==> ase_doc(bytes@) is Some,
        r matches Ok(a) ==> doc_view(a) == ase_doc(bytes@)->Some_0,
        r matches Ok(a) ==> doc_bounds(doc_view(a)),
        r matches Ok(a) ==> doc_view(a).cels_bounded,
{
    reader::Aseprite::from_bytes(bytes)
}

/// Relies on the `dimensions` field carried over into
/// `bevy_aseprite_reader::AsepriteInfo`: the canvas size from the file
/// header, which every composited frame image has.
#[verifier::external_body]
fn sprite_dimensions(a: &reader::Aseprite) -> (r: (u16, u16))
    ensures
        r.0 as nat == doc_view(*a).width,
        r.1 as nat == doc_view(*a).height,
{
    let info: reader::AsepriteInfo = a.clone().into();
    (info.dimensions.0, info.dimensions.1)
}

/// Relies on `bevy_aseprite_reader::Aseprite::frame_infos`: one entry per
/// frame, holding that frame's delay in milliseconds (a 16-bit value in the
/// file).
#[verifier::external_body]
fn frame_durations(a: &reader::Aseprite) -> (r: Vec<u32>)
    ensures
        r@.len() == doc_view(*a).durations.len(),
        forall|i: int| 0 <= i < r@.len() ==> #[trigger] r@[i] as nat == doc_view(*a).durations[i],
{
    a.frame_infos().iter().map(|info| info.delay_ms as u32).collect()
}

/// Relies on `bevy_aseprite_reader::AsepriteFrames::count`: the number of
/// parsed frames, which the frame infos and images follow.
#[verifier::external_body]
fn frame_count(a: &reader::Aseprite) -> (n: usize)
    ensures
        n == doc_view(*a).durations.len(),
{
    a.frames().count()
}

/// One frame's composited image as plain values.
#[derive(Debug)]
pub struct FrameImage {
    pub width: u32,
    pub height: u32,
    pub pixels: Vec<u8>,
}

/// Relies on `bevy_aseprite_reader::AsepriteFrameRange::get_images` over the
/// file's whole frame range: compositing either fails as a whole or yields
/// one RGBA image of the canvas size per frame, deterministically. The
/// range is addressed with 16-bit indices, so the frame count must fit one;
/// and on a value whose cel geometry leaves the canvas or the reader's
/// 16-bit pixel arithmetic the reader's pixel writes panic instead of
/// returning an error, so `requires` admits only values whose cels are
/// bounded (`cels_bounded`, established by `parse_sprite` on pre-checked
/// bytes).
#[verifier::external_body]
fn frame_images(a: &reader::Aseprite) -> (r: Result<
    Vec<FrameImage>,
    reader::error::AsepriteError,
>)
    requires
        doc_view(*a).durations.len() <= u16::MAX,
        doc_view(*a).cels_bounded,
    ensures
        r is Ok <==> doc_view(*a).images_ok,
        r matches Ok(v) ==> v@.len() == doc_view(*a).durations.len(),
        r matches Ok(v) ==> forall|i: int|
            0 <= i < v@.len() ==> ((#[trigger] v@[i]).width as nat == doc_view(*a).width
                && v@[i].height as nat == doc_view(*a).height && v@[i].pixels@ == doc_view(
                *a,
            ).pixels[i]),
{
    let frames = a.frames();
    let count = frames.count() as u16;
    let images = frames.get_for(&(0..count)).get_images()?;
    Ok(
        images.into_iter().map(
            |img| FrameImage { width: img.width(), height: img.height(), pixels: img.into_raw() },
        ).collect(),
    )
}

/// A tag as the file records it: a half-open frame range and a direction.
#[derive(Debug)]
pub struct RawTag {
    pub name: String,
    pub start: u16,
    pub end: u16,
    pub direction: AnimDirection,
}

/// The raw tag agrees with the entry of the same name in the tag map.
pub open spec fn raw_tag_matches(t: RawTag, tags: Map<Seq<char>, TagView>) -> bool {
    &&& tags.contains_key(t.name@)
    &&& tags[t.name@].start == t.start as nat
    &&& tags[t.name@].end == t.end as nat
    &&& tags[t.name@].direction == t.direction
}

/// Relies on `bevy_aseprite_reader::AsepriteTags::all`: hands out exactly
/// the tags of the document, each name once; the tag table is a hash map, so
/// no order is promised.
#[verifier::external_body]
fn tag_list(a: &reader::Aseprite) -> (r: Vec<RawTag>)
    ensures
        forall|i: int| 0 <= i < r@.len() ==> raw_tag_matches(#[trigger] r@[i], doc_view(*a).tags),
        forall|n: Seq<char>|
            doc_view(*a).tags.contains_key(n) ==> exists|i: int|
                0 <= i < r@.len() && (#[trigger] r@[i]).name@ == n,
        forall|i: int, j: int| 0 <= i < j < r@.len() ==> r@[i].name@ != r@[j].name@,
{
    a.tags().all().map(
        |t| RawTag {
            name: t.name.clone(),
            start: t.frames.start,
            end: t.frames.end,
            direction: match t.animation_direction {
                reader::raw::AsepriteAnimationDirection::Forward => AnimDirection::Forward,
                reader::raw::AsepriteAnimationDirection::Reverse => AnimDirection::Reverse,
                reader::raw::AsepriteAnimationDirection::PingPong => AnimDirection::PingPong,
            },
        },
    ).collect()
}

/// Auxiliary slice metadata, as the file records it and the reader keeps
/// it: a named rectangle valid from one frame on, with an optional
/// nine-patch center.
#[derive(Debug)]
pub struct SliceMeta {
    pub name: String,
    pub valid_frame: u16,
    pub x: i32,
    pub y: i32,
    pub width: u32,
    pub height: u32,
    pub nine_patch: Option<NinePatch>,
}

/// The slice agrees with the entry of the same name in the slice map.
pub open spec fn slice_matches(s: SliceMeta, slices: Map<Seq<char>, SliceView>) -> bool {
    &&& slices.contains_key(s.name@)
    &&& slices[s.name@].valid_frame == s.valid_frame
    &&& slices[s.name@].x == s.x
    &&& slices[s.name@].y == s.y
    &&& slices[s.name@].width == s.width
    &&& slices[s.name@].height == s.height
    &&& slices[s.name@].nine_patch == s.nine_patch
}

/// The slice vector holds exactly the slices of the map, each name once.
pub open spec fn slices_listed(ss: Seq<SliceMeta>, vslices: Map<Seq<char>, SliceView>) -> bool {
    &&& (forall|i: int| 0 <= i < ss.len() ==> slice_matches(#[trigger] ss[i], vslices))
    &&& (forall|n: Seq<char>|
        vslices.contains_key(n) ==> exists|i: int| 0 <= i < ss.len() && (#[trigger] ss[i]).name@
            == n)
    &&& (forall|i: int, j: int| 0 <= i < j < ss.len() ==> ss[i].name@ != ss[j].name@)
}

/// Relies on `bevy_aseprite_reader::AsepriteSlices::get_all`: hands out
/// exactly the slices of the document, each name once; the slice table is a
/// hash map, so no order is promised.
#[verifier::external_body]
fn slice_list(a: &reader::Aseprite) -> (r: Vec<SliceMeta>)
    ensures
        forall|i: int| 0 <= i < r@.len() ==> slice_matches(#[trigger] r@[i], doc_view(*a).slices),
        forall|n: Seq<char>|
            doc_view(*a).slices.contains_key(n) ==> exists|i: int|
                0 <= i < r@.len() && (#[trigger] r@[i]).name@ == n,
        forall|i: int, j: int| 0 <= i < j < r@.len() ==> r@[i].name@ != r@[j].name@,
{
    a.slices().get_all().map(|s| SliceMeta {
        name: s.name.clone(),
        valid_frame: s.valid_frame,
        x: s.position_x,
        y: s.position_y,
        width: s.width,
        height: s.height,
        nine_patch: s.nine_patch_info.as_ref().map(|np| NinePatch {
            x_center: np.x_center, y_center: np.y_center, width: np.width, height: np.height,
        }),
    }).collect()
}

/// Why a byte buffer could not be decoded.
#[derive(Clone, Copy, Debug, PartialEq, Eq, Structural)]
pub enum FormatError {
    /// The bytes are not a well-formed sprite file (bad magic, truncated,
    /// unsupported color depth, malformed chunk).
    Malformed,
    /// The file parsed, but it holds more frames than a 16-bit frame index
    /// can address.
    TooManyFrames,
    /// The file parsed, but its frames could not be composited into images.
    FrameData,
    /// A tag's frame range is empty or reaches past the last frame.
    TagRange,
}

/// One decoded frame: an RGBA image and its display duration; immutable
/// once decoded.
#[derive(Debug)]
pub struct Frame {
    pub width: u32,
    pub height: u32,
    pub duration_ms: u32,
    pub pixels: Vec<u8>,
}

/// A decoded sprite document: the shared canvas size, the frames in file
/// order, and the tags and slices (each in no particular order, with
/// distinct names).
#[derive(Debug)]
pub struct SpriteDoc {
    pub width: u32,
    pub height: u32,
    pub frames: Vec<Frame>,
    pub tags: Vec<AnimationTag>,
    pub slices: Vec<SliceMeta>,
}

/// Frame `i` of the document carries the view's canvas size, duration and
/// pixel bytes.
pub open spec fn frame_matches(f: Frame, v: DocView, i: int) -> bool {
    &&& f.width as nat == v.width
    &&& f.height as nat == v.height
    &&& f.duration_ms as nat == v.durations[i]
    &&& f.pixels@ == v.pixels[i]
}

/// The library tag is the view tag with the half-open range turned into an
/// inclusive one; decoded tags always loop, as the file format has no
/// repeat flag.
pub open spec fn tag_converted(t: AnimationTag, v: TagView) -> bool {
    &&& t.first as nat == v.start
    &&& t.last as nat + 1 == v.end
    &&& t.direction == v.direction
    &&& t.repeat == RepeatKind::Looping
}

/// The tag vector holds exactly the tags of the view's map, each name once.
pub open spec fn tags_converted(tags: Seq<AnimationTag>, vtags: Map<Seq<char>, TagView>) -> bool {
    &&& (forall|i: int|
        0 <= i < tags.len() ==> (vtags.contains_key((#[trigger] tags[i]).name@) && tag_converted(
            tags[i],
            vtags[tags[i].name@],
        )))
    &&& (forall|n: Seq<char>|
        vtags.contains_key(n) ==> exists|i: int| 0 <= i < tags.len() && (#[trigger] tags[i]).name@
            == n)
    &&& (forall|i: int, j: int| 0 <= i < j < tags.len() ==> tags[i].name@ != tags[j].name@)
}

/// A tag range is valid when it is non-empty and stays within the frames.
pub open spec fn valid_tag_view(t: TagView, frame_count: nat) -> bool {
    t.start < t.end && t.end <= frame_count
}

/// Every tag of the view has a valid range.
pub open spec fn all_tags_valid(v: DocView) -> bool {
    forall|n: Seq<char>|
        v.tags.contains_key(n) ==> valid_tag_view(#[trigger] v.tags[n], v.durations.len())
}

/// The decoded document agrees with the view in every part.
pub open spec fn doc_matches(d: SpriteDoc, v: DocView) -> bool {
    &&& d.width as nat == v.width
    &&& d.height as nat == v.height
    &&& d.frames@.len() == v.durations.len()
    &&& (forall|i: int| 0 <= i < d.frames@.len() ==> frame_matches(#[trigger] d.frames@[i], v, i))
    &&& tags_converted(d.tags@, v.tags)
    &&& slices_listed(d.slices@, v.slices)
}

impl SpriteDoc {
    /// Internal consistency of a decoded document: every frame has the
    /// shared canvas size and a full RGBA buffer, every tag is a non-empty
    /// range within the frames, and tag and slice names are distinct.
    pub open spec fn wf(self) -> bool {
        &&& (forall|i: int|
            0 <= i < self.frames@.len() ==> ((#[trigger] self.frames@[i]).width == self.width
                && self.frames@[i].height == self.height && self.frames@[i].pixels@.len() == 4
                * self.width * self.height))
        &&& (forall|i: int|
            0 <= i < self.tags@.len() ==> ((#[trigger] self.tags@[i]).wf()
                && self.tags@[i].last < self.frames@.len()))
        &&& (forall|i: int, j: int|
            0 <= i < j < self.tags@.len() ==> self.tags@[i].name@ != self.tags@[j].name@)
        &&& (forall|i: int, j: int|
            0 <= i < j < self.slices@.len() ==> self.slices@[i].name@ != self.slices@[j].name@)
    }

    /// Checks `wf` at run time, so that callers outside verified code can
    /// test the pipeline's precondition before handing a document in.
    pub fn check_wf(&self) -> (b: bool)
        ensures
            b == self.wf(),
    {
        let n = self.frames.len();
        let mut i: usize = 0;
        while i < n
            invariant
                i <= n,
                n == self.frames@.len(),
                forall|k: int|
                    0 <= k < i ==> ((#[trigger] self.frames@[k]).width == self.width
                        && self.frames@[k].height == self.height && self.frames@[k].pixels@.len()
                        == 4 * self.width * self.height),
            decreases n - i,
        {
            proof {
                assert(4 * (self.width as int) * (self.height as int) <= u128::MAX)
                    by (nonlinear_arith)
                    requires
                        self.width <= u32::MAX && self.height <= u32::MAX,
                ;
            }
            let want = 4u128 * (self.width as u128) * (self.height as u128);
            let f = &self.frames[i];
            if !(f.width == self.width && f.height == self.height && f.pixels.len() as u128
                == want) {
                return false;
            }
            i = i + 1;
        }
        let m = self.tags.len();
        let mut t: usize = 0;
        while t < m
            invariant
                t <= m,
                m == self.tags@.len(),
                n == self.frames@.len(),
                forall|k: int|
                    0 <= k < t ==> ((#[trigger] self.tags@[k]).wf() && self.tags@[k].last < n),
            decreases m - t,
        {
            let tag = &self.tags[t];
            if !(tag.first <= tag.last && tag.last < n) {
                return false;
            }
            t = t + 1;
        }
        let mut p: usize = 0;
        while p < m
            invariant
                p <= m,
                m == self.tags@.len(),
                forall|k: int, j: int|
                    0 <= k < j < p ==> self.tags@[k].name@ != self.tags@[j].name@,
            decreases m - p,
        {
            let mut q: usize = 0;
            while q < p
                invariant
                    q <= p,
                    p < m,
                    m == self.tags@.len(),
                    forall|k: int| 0 <= k < q ==> self.tags@[k].name@ != self.tags@[p as int].name@,
                decreases p - q,
            {
                if self.tags[q].name == self.tags[p].name {
                    return false;
                }
                q = q + 1;
            }
            p = p + 1;
        }
        let s = self.slices.len();
        let mut u: usize = 0;
        while u < s
            invariant
                u <= s,
                s == self.slices@.len(),
                forall|k: int, j: int|
                    0 <= k < j < u ==> self.slices@[k].name@ != self.slices@[j].name@,
            decreases s - u,
        {
            let mut q: usize = 0;
            while q < u
                invariant
                    q <= u,
                    u < s,
                    s == self.slices@.len(),
                    forall|k: int|
                        0 <= k < q ==> self.slices@[k].name@ != self.slices@[u as int].name@,
                decreases u - q,
            {
                if self.slices[q].name == self.slices[u].name {
                    return false;
                }
                q = q + 1;
            }
            u = u + 1;
        }
        true
    }
}

/// Decodes a sprite file.
///
/// Fails with `Malformed` exactly when the bytes fail the pre-check
/// (`prescan_ok`, which rejects the byte patterns the reader cannot process
/// without panicking) or do not parse, with `TooManyFrames` exactly when
/// the frame count does not fit a 16-bit index, with `FrameData` exactly
/// when the parsed frames cannot be composited, and with `TagRange` exactly
/// when some tag's range is empty or out of bounds. On success the document
/// carries exactly the parsed frames, tags and slices.
pub fn decode(bytes: &Vec<u8>) -> (r: Result<SpriteDoc, FormatError>)
    ensures
        (r == Err::<SpriteDoc, FormatError>(FormatError::Malformed)) <==> (!prescan_ok(bytes@)
            || ase_doc(bytes@) is None),
        ase_doc(bytes@) matches Some(v) ==> (prescan_ok(bytes@) ==> ((r == Err::<
            SpriteDoc,
            FormatError,
        >(FormatError::TooManyFrames)) <==> v.durations.len() > u16::MAX)),
        ase_doc(bytes@) matches Some(v) ==> (prescan_ok(bytes@) ==> ((r == Err::<
            SpriteDoc,
            FormatError,
        >(FormatError::FrameData)) <==> (v.durations.len() <= u16::MAX && !v.images_ok))),
        ase_doc(bytes@) matches Some(v) ==> (prescan_ok(bytes@) ==> ((r == Err::<
            SpriteDoc,
            FormatError,
        >(FormatError::TagRange)) <==> (v.durations.len() <= u16::MAX && v.images_ok
            && !all_tags_valid(v)))),
        r is Ok <==> (prescan_ok(bytes@) && ase_doc(bytes@) is Some
            && ase_doc(bytes@)->Some_0.durations.len() <= u16::MAX
            && ase_doc(bytes@)->Some_0.images_ok && all_tags_valid(ase_doc(bytes@)->Some_0)),
        r matches Ok(d) ==> doc_matches(d, ase_doc(bytes@)->Some_0),
        r matches Ok(d) ==> d.wf(),
{
    if !prescan(bytes) {
        return Err(FormatError::Malformed);
    }
    let a = match parse_sprite(bytes) {
        Ok(a) => a,
        Err(_) => {
            return Err(FormatError::Malformed);
        },
    };
    let ghost v = doc_view(a);
    if frame_count(&a) > u16::MAX as usize {
        return Err(FormatError::TooManyFrames);
    }
    let mut imgs = match frame_images(&a) {
        Ok(v) => v,
        Err(_) => {
            return Err(FormatError::FrameData);
        },
    };
    let durs = frame_durations(&a);
    let (width16, height16) = sprite_dimensions(&a);
    let width = width16 as u32;
    let height = height16 as u32;
    let mut raw_tags = tag_list(&a);
    let slices = slice_list(&a);
    let ghost imgs0 = imgs@;
    let ghost raw_tags0 = raw_tags@;

    let n = durs.len();
    let mut frames: Vec<Frame> = Vec::new();
    let mut i: usize = 0;
    while i < n
        invariant
            i <= n,
            n == v.durations.len(),
            durs@.len() == n,
            imgs0.len() == n,
            v.images_ok,
            doc_bounds(v),
            forall|k: int| 0 <= k < n ==> #[trigger] durs@[k] as nat == v.durations[k],
            forall|k: int|
                0 <= k < n ==> ((#[trigger] imgs0[k]).width as nat == v.width
                    && imgs0[k].height as nat == v.height && imgs0[k].pixels@ == v.pixels[k]),
            imgs@ == imgs0.skip(i as int),
            width as nat == v.width,
            height as nat == v.height,
            frames@.len() == i,
            forall|k: int| 0 <= k < i ==> frame_matches(#[trigger] frames@[k], v, k),
            forall|k: int|
                0 <= k < i ==> ((#[trigger] frames@[k]).width == width && frames@[k].height
                    == height && frames@[k].pixels@.len() == 4 * width * height),
        decreases n - i,
    {
        let img = imgs.remove(0);
        assert(img == imgs0[i as int]);
        frames.push(
            Frame { width: img.width, height: img.height, duration_ms: durs[i], pixels: img.pixels },
        );
        proof {
            assert(imgs@ =~= imgs0.skip(i as int + 1));
        }
        i = i + 1;
    }

    let mut tags: Vec<AnimationTag> = Vec::new();
    let mut t: usize = 0;
    let m = raw_tags.len();
    while t < m
        invariant
            t <= m,
            m == raw_tags0.len(),
            prescan_ok(bytes@),
            ase_doc(bytes@) is Some,
            v == ase_doc(bytes@)->Some_0,
            v.images_ok,
            doc_bounds(v),
            n == v.durations.len(),
            n <= u16::MAX,
            raw_tags@ == raw_tags0.skip(t as int),
            forall|k: int| 0 <= k < m ==> raw_tag_matches(#[trigger] raw_tags0[k], v.tags),
            forall|nm: Seq<char>|
                v.tags.contains_key(nm) ==> exists|k: int|
                    0 <= k < m && (#[trigger] raw_tags0[k]).name@ == nm,
            forall|k: int, j: int| 0 <= k < j < m ==> raw_tags0[k].name@ != raw_tags0[j].name@,
            tags@.len() == t,
            forall|k: int| 0 <= k < t ==> (#[trigger] tags@[k]).name@ == raw_tags0[k].name@,
            forall|k: int|
                0 <= k < t ==> (v.tags.contains_key((#[trigger] tags@[k]).name@) && tag_converted(
                    tags@[k],
                    v.tags[tags@[k].name@],
                )),
            forall|k: int|
                0 <= k < t ==> ((#[trigger] tags@[k]).wf() && tags@[k].last < n),
        decreases m - t,
    {
        let rt = raw_tags.remove(0);
        assert(rt == raw_tags0[t as int]);
        assert(raw_tag_matches(rt, v.tags));
        if !(rt.start < rt.end && rt.end as usize <= n) {
            proof {
                assert(v.tags.contains_key(rt.name@));
                assert(!valid_tag_view(v.tags[rt.name@], v.durations.len()));
                assert(!all_tags_valid(v));
            }
            return Err(FormatError::TagRange);
        }
        tags.push(
            AnimationTag {
                name: rt.name,
                first: rt.start as usize,
                last: (rt.end - 1) as usize,
                direction: rt.direction,
                repeat: RepeatKind::Looping,
            },
        );
        proof {
            assert(raw_tags@ =~= raw_tags0.skip(t as int + 1));
        }
        t = t + 1;
    }

    proof {
        assert forall|nm: Seq<char>| v.tags.contains_key(nm) implies valid_tag_view(
            #[trigger] v.tags[nm],
            v.durations.len(),
        ) by {
            let k = choose|k: int| 0 <= k < m && (#[trigger] raw_tags0[k]).name@ == nm;
            assert(tags@[k].name@ == nm);
            assert(tag_converted(tags@[k], v.tags[nm]));
            assert(tags@[k].wf() && tags@[k].last < n);
        }
        assert forall|nm: Seq<char>| v.tags.contains_key(nm) implies exists|k: int|
            0 <= k < tags@.len() && (#[trigger] tags@[k]).name@ == nm by {
            let k = choose|k: int| 0 <= k < m && (#[trigger] raw_tags0[k]).name@ == nm;
            assert(tags@[k].name@ == nm);
        }
        assert forall|k: int, j: int| 0 <= k < j < tags@.len() implies tags@[k].name@
            != tags@[j].name@ by {
            assert(tags@[k].name@ == raw_tags0[k].name@);
            assert(tags@[j].name@ == raw_tags0[j].name@);
        }
    }
    Ok(SpriteDoc { width, height, frames, tags, slices })
}

/// There is a tag with this name in the vector.
pub open spec fn has_tag(tags: Seq<AnimationTag>, nm: Seq<char>) -> bool {
    exists|i: int| 0 <= i < tags.len() && (#[trigger] tags[i]).name@ == nm
}

/// The tag with this name (meaningful when `has_tag` holds; with distinct
/// names it is unique).
pub open spec fn tag_named(tags: Seq<AnimationTag>, nm: Seq<char>) -> AnimationTag {
    tags[choose|i: int| 0 <= i < tags.len() && (#[trigger] tags[i]).name@ == nm]
}

/// There is a slice with this name in the vector.
pub open spec fn has_slice(ss: Seq<SliceMeta>, nm: Seq<char>) -> bool {
    exists|i: int| 0 <= i < ss.len() && (#[trigger] ss[i]).name@ == nm
}

/// The slice with this name (meaningful when `has_slice` holds; with
/// distinct names it is unique).
pub open spec fn slice_named(ss: Seq<SliceMeta>, nm: Seq<char>) -> SliceMeta {
    ss[choose|i: int| 0 <= i < ss.len() && (#[trigger] ss[i]).name@ == nm]
}

/// Law: decoding is deterministic. Two successful decodes of the same byte
/// buffer yield structurally identical frame, tag and slice metadata: the
/// same canvas size, the same frame sequence (size, duration and pixel
/// bytes, frame by frame), the same tags (the same name set, and for each
/// name the same range, direction and repeat kind), and the same slices
/// (the same name set, and for each name the same frame, bounds and
/// nine-patch center).
pub proof fn lemma_decode_deterministic(d1: SpriteDoc, d2: SpriteDoc, bytes: Seq<u8>)
    requires
        ase_doc(bytes) is Some,
        doc_matches(d1, ase_doc(bytes)->Some_0),
        doc_matches(d2, ase_doc(bytes)->Some_0),
    ensures
        d1.width == d2.width,
        d1.height == d2.height,
        d1.frames@.len() == d2.frames@.len(),
        forall|i: int|
            0 <= i < d1.frames@.len() ==> ((#[trigger] d1.frames@[i]).width
                == d2.frames@[i].width && d1.frames@[i].height == d2.frames@[i].height
                && d1.frames@[i].duration_ms == d2.frames@[i].duration_ms
                && d1.frames@[i].pixels@ == d2.frames@[i].pixels@),
        forall|nm: Seq<char>| has_tag(d1.tags@, nm) <==> has_tag(d2.tags@, nm),
        forall|nm: Seq<char>|
            has_tag(d1.tags@, nm) ==> {
                let t1 = tag_named(d1.tags@, nm);
                let t2 = tag_named(d2.tags@, nm);
                t1.name@ == t2.name@ && t1.first == t2.first && t1.last == t2.last && t1.direction
                    == t2.direction && t1.repeat == t2.repeat
            },
        forall|nm: Seq<char>| has_slice(d1.slices@, nm) <==> has_slice(d2.slices@, nm),
        forall|nm: Seq<char>|
            has_slice(d1.slices@, nm) ==> {
                let s1 = slice_named(d1.slices@, nm);
                let s2 = slice_named(d2.slices@, nm);
                s1.name@ == s2.name@ && s1.valid_frame == s2.valid_frame && s1.x == s2.x && s1.y
                    == s2.y && s1.width == s2.width && s1.height == s2.height && s1.nine_patch
                    == s2.nine_patch
            },
{
    let v = ase_doc(bytes)->Some_0;
    assert forall|nm: Seq<char>| has_tag(d1.tags@, nm) implies has_tag(d2.tags@, nm) by {
        let i = choose|i: int| 0 <= i < d1.tags@.len() && (#[trigger] d1.tags@[i]).name@ == nm;
        assert(v.tags.contains_key(nm));
    }
    assert forall|nm: Seq<char>| has_tag(d2.tags@, nm) implies has_tag(d1.tags@, nm) by {
        let i = choose|i: int| 0 <= i < d2.tags@.len() && (#[trigger] d2.tags@[i]).name@ == nm;
        assert(v.tags.contains_key(nm));
    }
    assert forall|nm: Seq<char>| has_tag(d1.tags@, nm) implies {
        let t1 = tag_named(d1.tags@, nm);
        let t2 = tag_named(d2.tags@, nm);
        t1.name@ == t2.name@ && t1.first == t2.first && t1.last == t2.last && t1.direction
            == t2.direction && t1.repeat == t2.repeat
    } by {
        let i1 = choose|i: int| 0 <= i < d1.tags@.len() && (#[trigger] d1.tags@[i]).name@ == nm;
        assert(v.tags.contains_key(nm));
        assert(has_tag(d2.tags@, nm));
        let i2 = choose|i: int| 0 <= i < d2.tags@.len() && (#[trigger] d2.tags@[i]).name@ == nm;
        assert(tag_converted(d1.tags@[i1], v.tags[nm]));
        assert(tag_converted(d2.tags@[i2], v.tags[nm]));
        assert(tag_named(d1.tags@, nm) == d1.tags@[i1]);
        assert(tag_named(d2.tags@, nm) == d2.tags@[i2]);
    }
    assert forall|nm: Seq<char>| has_slice(d1.slices@, nm) implies has_slice(d2.slices@, nm) by {
        let i = choose|i: int| 0 <= i < d1.slices@.len() && (#[trigger] d1.slices@[i]).name@ == nm;
        assert(v.slices.contains_key(nm));
    }
    assert forall|nm: Seq<char>| has_slice(d2.slices@, nm) implies has_slice(d1.slices@, nm) by {
        let i = choose|i: int| 0 <= i < d2.slices@.len() && (#[trigger] d2.slices@[i]).name@ == nm;
        assert(v.slices.contains_key(nm));
    }
    assert forall|nm: Seq<char>| has_slice(d1.slices@, nm) implies {
        let s1 = slice_named(d1.slices@, nm);
        let s2 = slice_named(d2.slices@, nm);
        s1.name@ == s2.name@ && s1.valid_frame == s2.valid_frame && s1.x == s2.x && s1.y == s2.y
            && s1.width == s2.width && s1.height == s2.height && s1.nine_patch == s2.nine_patch
    } by {
        let i1 = choose|i: int| 0 <= i < d1.slices@.len() && (#[trigger] d1.slices@[i]).name@ == nm;
        assert(v.slices.contains_key(nm));
        assert(has_slice(d2.slices@, nm));
        let i2 = choose|i: int| 0 <= i < d2.slices@.len() && (#[trigger] d2.slices@[i]).name@ == nm;
        assert(slice_matches(d1.slices@[i1], v.slices));
        assert(slice_matches(d2.slices@[i2], v.slices));
        assert(slice_named(d1.slices@, nm) == d1.slices@[i1]);
        assert(slice_named(d2.slices@, nm) == d2.slices@[i2]);
    }
}

} // verus!
