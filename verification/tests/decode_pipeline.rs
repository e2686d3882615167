use ase_sprite::anim::{AnimDirection, AnimationCursor, AnimationTag, PlayDirection, RepeatKind};
use ase_sprite::atlas::{pack, AtlasBuildError};
use ase_sprite::decode::{decode, FormatError};
use ase_sprite::{process_load, AsepriteLoader, AsepritePlugin, LoadError};

fn push_u16(v: &mut Vec<u8>, x: u16) {
    v.extend_from_slice(&x.to_le_bytes());
}

fn push_u32(v: &mut Vec<u8>, x: u32) {
    v.extend_from_slice(&x.to_le_bytes());
}

fn header_bytes(frames: u16, width: u16, height: u16) -> Vec<u8> {
    let mut v = Vec::new();
    push_u32(&mut v, 0); // file size (not validated)
    push_u16(&mut v, 0xA5E0); // magic
    push_u16(&mut v, frames);
    push_u16(&mut v, width);
    push_u16(&mut v, height);
    push_u16(&mut v, 32); // RGBA color depth
    push_u32(&mut v, 0); // flags
    push_u16(&mut v, 100); // deprecated speed
    push_u32(&mut v, 0);
    push_u32(&mut v, 0);
    v.push(0); // transparent palette entry
    v.extend_from_slice(&[0, 0, 0]);
    push_u16(&mut v, 0); // color count
    v.push(1); // pixel width
    v.push(1); // pixel height
    push_u16(&mut v, 0); // grid x
    push_u16(&mut v, 0); // grid y
    push_u16(&mut v, 0); // grid width
    push_u16(&mut v, 0); // grid height
    v.extend_from_slice(&[0u8; 84]);
    assert_eq!(v.len(), 128);
    v
}

fn chunk_bytes(chunk_type: u16, data: &[u8]) -> Vec<u8> {
    let mut v = Vec::new();
    push_u32(&mut v, (data.len() + 6) as u32);
    push_u16(&mut v, chunk_type);
    v.extend_from_slice(data);
    v
}

fn layer_chunk() -> Vec<u8> {
    let mut d = Vec::new();
    push_u16(&mut d, 1); // flags: visible
    push_u16(&mut d, 0); // type: normal
    push_u16(&mut d, 0); // child level
    push_u16(&mut d, 0); // width (ignored)
    push_u16(&mut d, 0); // height (ignored)
    push_u16(&mut d, 0); // blend mode: normal
    d.push(255); // opacity
    d.extend_from_slice(&[0, 0, 0]);
    let name = b"layer";
    push_u16(&mut d, name.len() as u16);
    d.extend_from_slice(name);
    chunk_bytes(0x2004, &d)
}

fn cel_chunk(width: u16, height: u16, rgba: &[u8]) -> Vec<u8> {
    assert_eq!(rgba.len(), width as usize * height as usize * 4);
    let mut d = Vec::new();
    push_u16(&mut d, 0); // layer index
    push_u16(&mut d, 0); // x
    push_u16(&mut d, 0); // y
    d.push(255); // opacity
    push_u16(&mut d, 0); // cel type: raw
    d.extend_from_slice(&[0u8; 7]);
    push_u16(&mut d, width);
    push_u16(&mut d, height);
    d.extend_from_slice(rgba);
    chunk_bytes(0x2005, &d)
}

fn tags_chunk(tags: &[(u16, u16, u8, &str)]) -> Vec<u8> {
    let mut d = Vec::new();
    push_u16(&mut d, tags.len() as u16);
    d.extend_from_slice(&[0u8; 8]);
    for (from, to, dir, name) in tags {
        push_u16(&mut d, *from);
        push_u16(&mut d, *to);
        d.push(*dir);
        d.extend_from_slice(&[0u8; 12]);
        push_u16(&mut d, name.len() as u16);
        d.extend_from_slice(name.as_bytes());
    }
    chunk_bytes(0x2018, &d)
}

fn frame_bytes(duration_ms: u16, chunks: &[Vec<u8>]) -> Vec<u8> {
    let mut body = Vec::new();
    push_u16(&mut body, 0xF1FA); // frame magic
    push_u16(&mut body, chunks.len() as u16);
    push_u16(&mut body, duration_ms);
    body.extend_from_slice(&[0, 0]);
    push_u32(&mut body, chunks.len() as u32);
    for c in chunks {
        body.extend_from_slice(c);
    }
    let mut v = Vec::new();
    push_u32(&mut v, (body.len() + 4) as u32);
    v.extend_from_slice(&body);
    v
}

/// A 2x1 canvas, two frames (red+green, then blue+white), durations 100 and
/// 200 ms, and one forward tag "walk" over both frames.
fn sample_file() -> Vec<u8> {
    let mut v = header_bytes(2, 2, 1);
    let f0 = frame_bytes(
        100,
        &[
            layer_chunk(),
            cel_chunk(2, 1, &[255, 0, 0, 255, 0, 255, 0, 255]),
            tags_chunk(&[(0, 1, 0, "walk")]),
        ],
    );
    let f1 = frame_bytes(200, &[cel_chunk(2, 1, &[0, 0, 255, 255, 255, 255, 255, 255])]);
    v.extend_from_slice(&f0);
    v.extend_from_slice(&f1);
    v
}

#[test]
fn decode_sample_file() {
    let bytes = sample_file();
    let doc = decode(&bytes).expect("sample file should decode");
    assert_eq!(doc.width, 2);
    assert_eq!(doc.height, 1);
    assert_eq!(doc.frames.len(), 2);
    assert_eq!(doc.frames[0].duration_ms, 100);
    assert_eq!(doc.frames[1].duration_ms, 200);
    assert_eq!(doc.frames[0].width, 2);
    assert_eq!(doc.frames[0].height, 1);
    assert_eq!(doc.frames[0].pixels, vec![255, 0, 0, 255, 0, 255, 0, 255]);
    assert_eq!(doc.frames[1].pixels, vec![0, 0, 255, 255, 255, 255, 255, 255]);
    assert_eq!(doc.tags.len(), 1);
    assert_eq!(doc.tags[0].name, "walk");
    assert_eq!(doc.tags[0].first, 0);
    assert_eq!(doc.tags[0].last, 1);
    assert_eq!(doc.tags[0].direction, AnimDirection::Forward);
    assert_eq!(doc.tags[0].repeat, RepeatKind::Looping);
}

#[test]
fn decode_twice_identical() {
    let bytes = sample_file();
    let d1 = decode(&bytes).expect("decode");
    let d2 = decode(&bytes).expect("decode");
    assert_eq!(d1.width, d2.width);
    assert_eq!(d1.height, d2.height);
    assert_eq!(d1.frames.len(), d2.frames.len());
    for (f1, f2) in d1.frames.iter().zip(d2.frames.iter()) {
        assert_eq!(f1.width, f2.width);
        assert_eq!(f1.height, f2.height);
        assert_eq!(f1.duration_ms, f2.duration_ms);
        assert_eq!(f1.pixels, f2.pixels);
    }
    assert_eq!(d1.tags.len(), d2.tags.len());
    for t1 in d1.tags.iter() {
        let t2 = d2.tags.iter().find(|t| t.name == t1.name).expect("tag present in both");
        assert_eq!(t1.first, t2.first);
        assert_eq!(t1.last, t2.last);
        assert_eq!(t1.direction, t2.direction);
        assert_eq!(t1.repeat, t2.repeat);
    }
}

#[test]
fn decode_rejects_bad_magic() {
    let mut bytes = sample_file();
    bytes[4] = 0; // corrupt the header magic
    bytes[5] = 0;
    assert_eq!(decode(&bytes).unwrap_err(), FormatError::Malformed);
}

#[test]
fn decode_rejects_truncated() {
    let bytes = sample_file();
    let cut = bytes[..64].to_vec();
    assert_eq!(decode(&cut).unwrap_err(), FormatError::Malformed);
    assert_eq!(decode(&Vec::new()).unwrap_err(), FormatError::Malformed);
}

#[test]
fn decode_rejects_unsupported_color_depth() {
    let mut bytes = sample_file();
    bytes[12] = 7; // color depth: not 32/16/8
    bytes[13] = 0;
    assert_eq!(decode(&bytes).unwrap_err(), FormatError::Malformed);
}

#[test]
fn decode_rejects_empty_tag_range() {
    let mut v = header_bytes(1, 2, 1);
    let f0 = frame_bytes(
        100,
        &[
            layer_chunk(),
            cel_chunk(2, 1, &[1, 2, 3, 255, 4, 5, 6, 255]),
            tags_chunk(&[(1, 0, 0, "broken")]), // from 1, to 0: empty range
        ],
    );
    v.extend_from_slice(&f0);
    assert_eq!(decode(&v).unwrap_err(), FormatError::TagRange);
}

#[test]
fn decode_rejects_out_of_bounds_tag() {
    let mut v = header_bytes(1, 2, 1);
    let f0 = frame_bytes(
        100,
        &[
            layer_chunk(),
            cel_chunk(2, 1, &[1, 2, 3, 255, 4, 5, 6, 255]),
            tags_chunk(&[(0, 5, 0, "beyond")]), // only one frame exists
        ],
    );
    v.extend_from_slice(&f0);
    assert_eq!(decode(&v).unwrap_err(), FormatError::TagRange);
}

#[test]
fn pack_five_equal_frames() {
    let sizes = vec![(16u32, 16u32); 5];
    let layout = pack(&sizes, 64).expect("five 16x16 frames fit in 64x64");
    assert_eq!(layout.frame_to_slot, vec![0, 1, 2, 3, 4]);
    assert_eq!(layout.slots.len(), 5);
    let expected = [(0, 0), (16, 0), (32, 0), (48, 0), (0, 16)];
    for (i, slot) in layout.slots.iter().enumerate() {
        assert_eq!((slot.x, slot.y), expected[i]);
        assert_eq!((slot.width, slot.height), (16, 16));
        assert!(slot.x + slot.width <= 64 && slot.y + slot.height <= 64);
    }
    assert_eq!((layout.width, layout.height), (64, 32));
    // all five slots are distinct
    for i in 0..5 {
        for j in (i + 1)..5 {
            assert_ne!(
                (layout.slots[i].x, layout.slots[i].y),
                (layout.slots[j].x, layout.slots[j].y)
            );
        }
    }
}

#[test]
fn pack_rejects_zero_sized_frame() {
    let sizes = vec![(16u32, 16u32), (0u32, 8u32)];
    assert_eq!(pack(&sizes, 64).unwrap_err(), AtlasBuildError::DegenerateFrame);
}

#[test]
fn pack_rejects_overflowing_frames() {
    let sizes = vec![(16u32, 16u32), (16u32, 16u32)];
    assert_eq!(pack(&sizes, 16).unwrap_err(), AtlasBuildError::CapacityExceeded);
    assert_eq!(pack(&vec![(32u32, 8u32)], 16).unwrap_err(), AtlasBuildError::CapacityExceeded);
}

#[test]
fn loader_and_process_load() {
    let loader = AsepriteLoader;
    let bytes = sample_file();
    let mut asset = loader.load(&bytes).expect("load");
    assert!(asset.data.is_some());
    assert!(asset.info.is_none());
    assert_eq!(asset.frame_to_idx.len(), 0);

    let built = process_load(&mut asset, 1024).expect("atlas build");
    assert!(asset.data.is_none());
    assert_eq!(asset.frame_to_idx.len(), 2);
    assert_eq!(asset.frame_to_idx, vec![0, 1]);
    assert_eq!(built.layout.slots.len(), 2);
    assert!(built.image.is_some());
    let info = asset.info.as_ref().expect("info built");
    assert_eq!(info.frame_count, 2);
    assert_eq!(info.durations, vec![100, 200]);
    assert_eq!(info.tags.len(), 1);
    assert_eq!(info.slices.len(), 0);

    // the data was consumed: a second build reports it missing
    assert_eq!(process_load(&mut asset, 1024).unwrap_err(), LoadError::MissingAssetData);
}

#[test]
fn loader_error_is_format() {
    let loader = AsepriteLoader;
    let bytes = vec![1u8, 2, 3];
    assert_eq!(loader.load(&bytes).unwrap_err(), LoadError::Format(FormatError::Malformed));
}

#[test]
fn loader_extensions() {
    let loader = AsepriteLoader;
    assert_eq!(loader.extensions(), vec!["ase", "aseprite"]);
}

#[test]
fn tag_lookup_by_name() {
    let loader = AsepriteLoader;
    let bytes = sample_file();
    let mut asset = loader.load(&bytes).expect("load");
    process_load(&mut asset, 1024).expect("atlas build");
    let info = asset.info.as_ref().expect("info");
    assert_eq!(info.tag_by_name(&String::from("walk")), Some(0));
    assert_eq!(info.tag_by_name(&String::from("missing")), None);
}

#[test]
fn tick_builds_then_advances() {
    let loader = AsepriteLoader;
    let bytes = sample_file();
    let mut asset = loader.load(&bytes).expect("load");
    let tag = AnimationTag {
        name: String::from("walk"),
        first: 0,
        last: 1,
        direction: AnimDirection::Forward,
        repeat: RepeatKind::Looping,
    };
    let mut cursor = AnimationCursor::new(tag);

    // first tick: builds the atlas, then advances 150ms into frame 1
    let built = AsepritePlugin::tick(&mut asset, &mut cursor, 150, 1024).expect("tick");
    assert!(built.is_some());
    assert!(asset.data.is_none());
    assert!(asset.info.is_some());
    assert_eq!(cursor.frame, 1);
    assert_eq!(cursor.elapsed_ms, 50);

    // second tick: nothing to build, advances 150ms more, wrapping to frame 0
    let built = AsepritePlugin::tick(&mut asset, &mut cursor, 150, 1024).expect("tick");
    assert!(built.is_none());
    assert_eq!(cursor.frame, 0);
    assert_eq!(cursor.elapsed_ms, 0);
    assert_eq!(cursor.direction, PlayDirection::Forward);
}

#[test]
fn tick_rejects_foreign_tag() {
    let loader = AsepriteLoader;
    let bytes = sample_file();
    let mut asset = loader.load(&bytes).expect("load");
    let tag = AnimationTag {
        name: String::from("off-sheet"),
        first: 0,
        last: 7,
        direction: AnimDirection::Forward,
        repeat: RepeatKind::Looping,
    };
    let mut cursor = AnimationCursor::new(tag);
    assert_eq!(
        AsepritePlugin::tick(&mut asset, &mut cursor, 10, 1024).unwrap_err(),
        LoadError::InvalidTagSelection
    );
    assert_eq!(cursor.frame, 0);
    assert_eq!(cursor.elapsed_ms, 0);
}

#[test]
fn tick_on_empty_asset() {
    let mut asset = ase_sprite::AsepriteAsset { data: None, info: None, frame_to_idx: Vec::new() };
    let tag = AnimationTag {
        name: String::from("walk"),
        first: 0,
        last: 0,
        direction: AnimDirection::Forward,
        repeat: RepeatKind::Looping,
    };
    let mut cursor = AnimationCursor::new(tag);
    assert_eq!(
        AsepritePlugin::tick(&mut asset, &mut cursor, 10, 1024).unwrap_err(),
        LoadError::MissingAssetData
    );
}

#[test]
fn process_load_degenerate_frame_fails() {
    // a canvas of zero height parses but cannot be packed
    let mut v = header_bytes(1, 2, 0);
    let f0 = frame_bytes(100, &[layer_chunk(), cel_chunk(2, 0, &[])]);
    v.extend_from_slice(&f0);
    let loader = AsepriteLoader;
    let mut asset = loader.load(&v).expect("load");
    assert_eq!(
        process_load(&mut asset, 1024).unwrap_err(),
        LoadError::AtlasBuild(AtlasBuildError::DegenerateFrame)
    );
    assert!(asset.data.is_none());
    assert!(asset.info.is_none());
}

#[test]
fn decode_rejects_linked_cel_loop() {
    // a cel that links to another linked cel cannot be composited
    let mut d = Vec::new();
    push_u16(&mut d, 0); // layer index
    push_u16(&mut d, 0); // x
    push_u16(&mut d, 0); // y
    d.push(255); // opacity
    push_u16(&mut d, 1); // cel type: linked
    d.extend_from_slice(&[0u8; 7]);
    push_u16(&mut d, 0); // linked frame: itself
    let linked = chunk_bytes(0x2005, &d);

    let mut v = header_bytes(1, 2, 1);
    let f0 = frame_bytes(100, &[layer_chunk(), linked]);
    v.extend_from_slice(&f0);
    assert_eq!(decode(&v).unwrap_err(), FormatError::FrameData);
}

#[test]
fn decode_rejects_more_frames_than_a_16_bit_index() {
    let mut v = header_bytes(2, 2, 1);
    let empty_frame = frame_bytes(1, &[]);
    for _ in 0..65536 {
        v.extend_from_slice(&empty_frame);
    }
    assert_eq!(decode(&v).unwrap_err(), FormatError::TooManyFrames);
}

#[test]
fn zero_durations_are_reported() {
    let info = ase_sprite::SpriteInfo {
        width: 2,
        height: 1,
        frame_count: 2,
        durations: vec![100, 0],
        tags: Vec::new(),
        slices: Vec::new(),
    };
    assert!(!info.durations_positive());
    assert!(info.check_wf());
    let ok = ase_sprite::SpriteInfo {
        width: 2,
        height: 1,
        frame_count: 2,
        durations: vec![100, 1],
        tags: Vec::new(),
        slices: Vec::new(),
    };
    assert!(ok.durations_positive());
}

#[test]
fn compose_atlas_places_every_frame() {
    let bytes = sample_file();
    let doc = decode(&bytes).expect("decode");
    let sizes: Vec<(u32, u32)> = doc.frames.iter().map(|f| (f.width, f.height)).collect();
    let layout = pack(&sizes, 64).expect("pack");
    assert_eq!((layout.width, layout.height), (4, 1));
    let img = ase_sprite::compose_atlas(&doc, &layout);
    assert_eq!(img.len(), 16);
    // the pipeline hands back the same composed image
    let loader = AsepriteLoader;
    let mut asset = loader.load(&bytes).expect("load");
    let built = process_load(&mut asset, 64).expect("atlas build");
    assert_eq!(built.image.as_deref(), Some(&img[..]));
    // frame 0 (red, green) at x 0..2, frame 1 (blue, white) at x 2..4
    assert_eq!(
        img,
        vec![
            255, 0, 0, 255, 0, 255, 0, 255, // frame 0
            0, 0, 255, 255, 255, 255, 255, 255, // frame 1
        ]
    );
}


fn slice_chunk(name: &str, frame: u32, x: i32, y: i32, w: u32, h: u32) -> Vec<u8> {
    let mut d = Vec::new();
    push_u32(&mut d, 1); // one slice key
    push_u32(&mut d, 0); // flags: no nine-patch, no pivot
    push_u32(&mut d, 0); // reserved
    push_u16(&mut d, name.len() as u16);
    d.extend_from_slice(name.as_bytes());
    push_u32(&mut d, frame);
    d.extend_from_slice(&x.to_le_bytes());
    d.extend_from_slice(&y.to_le_bytes());
    push_u32(&mut d, w);
    push_u32(&mut d, h);
    chunk_bytes(0x2022, &d)
}

#[test]
fn decode_reads_slice_metadata() {
    let mut v = header_bytes(1, 2, 1);
    let f0 = frame_bytes(
        100,
        &[
            layer_chunk(),
            cel_chunk(2, 1, &[1, 2, 3, 255, 4, 5, 6, 255]),
            slice_chunk("hitbox", 0, 1, 0, 1, 1),
        ],
    );
    v.extend_from_slice(&f0);
    let doc = decode(&v).expect("decode");
    assert_eq!(doc.slices.len(), 1);
    let s = &doc.slices[0];
    assert_eq!(s.name, "hitbox");
    assert_eq!(s.valid_frame, 0);
    assert_eq!((s.x, s.y), (1, 0));
    assert_eq!((s.width, s.height), (1, 1));
    assert!(s.nine_patch.is_none());

    // the kept metadata carries the slices through the atlas build
    let loader = AsepriteLoader;
    let mut asset = loader.load(&v).expect("load");
    process_load(&mut asset, 64).expect("atlas build");
    let info = asset.info.as_ref().expect("info");
    assert_eq!(info.slices.len(), 1);
    assert_eq!(info.slices[0].name, "hitbox");
}

#[test]
fn tick_rejects_zero_frame_duration() {
    let mut v = header_bytes(1, 2, 1);
    let f0 = frame_bytes(0, &[layer_chunk(), cel_chunk(2, 1, &[1, 2, 3, 255, 4, 5, 6, 255])]);
    v.extend_from_slice(&f0);
    let loader = AsepriteLoader;
    let mut asset = loader.load(&v).expect("load");
    let tag = AnimationTag {
        name: String::from("all"),
        first: 0,
        last: 0,
        direction: AnimDirection::Forward,
        repeat: RepeatKind::Looping,
    };
    let mut cursor = AnimationCursor::new(tag);
    assert_eq!(
        AsepritePlugin::tick(&mut asset, &mut cursor, 10, 64).unwrap_err(),
        LoadError::ZeroFrameDuration
    );
    assert_eq!(cursor.elapsed_ms, 0);
}

#[test]
fn decode_rejects_overdeclared_palette() {
    // a palette chunk declaring more entries than its color range provides:
    // the reader would index past the parsed entries
    let mut d = Vec::new();
    push_u32(&mut d, 9); // declared palette size
    push_u32(&mut d, 0); // first color
    push_u32(&mut d, 1); // last color: only two entries follow
    d.extend_from_slice(&[0u8; 8]);
    for _ in 0..2 {
        push_u16(&mut d, 0); // entry flags
        d.extend_from_slice(&[1, 2, 3, 255]); // rgba
    }
    let palette = chunk_bytes(0x2019, &d);

    let mut v = header_bytes(1, 2, 1);
    let f0 = frame_bytes(
        100,
        &[layer_chunk(), cel_chunk(2, 1, &[1, 2, 3, 255, 4, 5, 6, 255]), palette],
    );
    v.extend_from_slice(&f0);
    assert_eq!(decode(&v).unwrap_err(), FormatError::Malformed);
}

#[test]
fn decode_rejects_inverted_palette_range() {
    let mut d = Vec::new();
    push_u32(&mut d, 1); // declared palette size
    push_u32(&mut d, 5); // first color
    push_u32(&mut d, 2); // last color below the first
    d.extend_from_slice(&[0u8; 8]);
    let palette = chunk_bytes(0x2019, &d);

    let mut v = header_bytes(1, 2, 1);
    let f0 = frame_bytes(
        100,
        &[layer_chunk(), cel_chunk(2, 1, &[1, 2, 3, 255, 4, 5, 6, 255]), palette],
    );
    v.extend_from_slice(&f0);
    assert_eq!(decode(&v).unwrap_err(), FormatError::Malformed);
}

#[test]
fn decode_rejects_undersized_chunk() {
    // a chunk declaring a size below its own six-byte header
    let mut tiny = Vec::new();
    push_u32(&mut tiny, 5);
    push_u16(&mut tiny, 0x2020);

    let mut v = header_bytes(1, 2, 1);
    let f0 = frame_bytes(
        100,
        &[layer_chunk(), cel_chunk(2, 1, &[1, 2, 3, 255, 4, 5, 6, 255]), tiny],
    );
    v.extend_from_slice(&f0);
    assert_eq!(decode(&v).unwrap_err(), FormatError::Malformed);
}

#[test]
fn decode_rejects_tag_ending_at_last_index() {
    // a tag ending at frame 65535: the reader's 16-bit end-plus-one wraps
    let mut v = header_bytes(1, 2, 1);
    let f0 = frame_bytes(
        100,
        &[
            layer_chunk(),
            cel_chunk(2, 1, &[1, 2, 3, 255, 4, 5, 6, 255]),
            tags_chunk(&[(0, 0xffff, 0, "wrap")]),
        ],
    );
    v.extend_from_slice(&f0);
    assert_eq!(decode(&v).unwrap_err(), FormatError::Malformed);
}

#[test]
fn decode_rejects_cel_outside_canvas() {
    // a 2x1 cel on a 1x1 canvas: the reader's pixel writes would leave it
    let mut v = header_bytes(1, 1, 1);
    let f0 = frame_bytes(100, &[layer_chunk(), cel_chunk(2, 1, &[1, 2, 3, 255, 4, 5, 6, 255])]);
    v.extend_from_slice(&f0);
    assert_eq!(decode(&v).unwrap_err(), FormatError::Malformed);
}

#[test]
fn decode_rejects_oversized_canvas() {
    // a canvas of more than 65535 pixels: the reader's blank-cel arithmetic
    // cannot represent it
    let mut v = header_bytes(1, 1024, 1024);
    let f0 = frame_bytes(100, &[]);
    v.extend_from_slice(&f0);
    assert_eq!(decode(&v).unwrap_err(), FormatError::Malformed);
}
