use sprity_aseprite::loader::{AsepriteFile, LoadSpriteError};
use sprity_aseprite::make_image::Hitbox;
use sprity_aseprite::output::{tl_offset_to_centered_doubled, AnimationSet};

fn word(value: u16) -> Vec<u8> {
    value.to_le_bytes().to_vec()
}

fn dword(value: u32) -> Vec<u8> {
    value.to_le_bytes().to_vec()
}

fn string(text: &str) -> Vec<u8> {
    let mut bytes = word(text.len() as u16);
    bytes.extend_from_slice(text.as_bytes());
    bytes
}

fn chunk(kind: u16, body: &[u8]) -> Vec<u8> {
    let mut bytes = dword(body.len() as u32 + 6);
    bytes.extend(word(kind));
    bytes.extend_from_slice(body);
    bytes
}

fn layer(flags: u16, name: &str) -> Vec<u8> {
    let mut body = word(flags);
    body.extend([0u8; 10]);
    body.push(255);
    body.extend([0u8; 3]);
    body.extend(string(name));
    chunk(0x2004, &body)
}

fn cel(layer: u16, x: i16, y: i16, width: u16, height: u16, pixel: [u8; 4]) -> Vec<u8> {
    let mut body = word(layer);
    body.extend(x.to_le_bytes());
    body.extend(y.to_le_bytes());
    body.push(255);
    body.extend(word(0));
    body.extend([0u8; 7]);
    body.extend(word(width));
    body.extend(word(height));
    for _ in 0..width * height {
        body.extend_from_slice(&pixel);
    }
    chunk(0x2005, &body)
}

fn user_data(text: &str) -> Vec<u8> {
    let mut body = dword(1);
    body.extend(string(text));
    chunk(0x2020, &body)
}

fn tags(tags: &[(u16, u16, &str)]) -> Vec<u8> {
    let mut body = word(tags.len() as u16);
    body.extend([0u8; 8]);
    for (from, to, name) in tags {
        body.extend(word(*from));
        body.extend(word(*to));
        body.extend([0u8; 13]);
        body.extend(string(name));
    }
    chunk(0x2018, &body)
}

fn frame(duration: u16, chunks: &[Vec<u8>]) -> Vec<u8> {
    let size: usize = 16 + chunks.iter().map(|c| c.len()).sum::<usize>();
    let mut bytes = dword(size as u32);
    bytes.extend(word(0xF1FA));
    bytes.extend(word(chunks.len() as u16));
    bytes.extend(word(duration));
    bytes.extend([0u8; 2]);
    bytes.extend(dword(chunks.len() as u32));
    for chunk in chunks {
        bytes.extend_from_slice(chunk);
    }
    bytes
}

fn file(width: u16, height: u16, frames: &[Vec<u8>]) -> Vec<u8> {
    let size: usize = 128 + frames.iter().map(|f| f.len()).sum::<usize>();
    let mut bytes = dword(size as u32);
    bytes.extend(word(0xA5E0));
    bytes.extend(word(frames.len() as u16));
    bytes.extend(word(width));
    bytes.extend(word(height));
    bytes.extend(word(32));
    bytes.extend([0u8; 114]);
    for frame in frames {
        bytes.extend_from_slice(frame);
    }
    bytes
}

const RED: [u8; 4] = [255, 0, 0, 255];
const BLUE: [u8; 4] = [0, 0, 255, 255];

fn animated() -> Vec<u8> {
    file(
        8,
        8,
        &[
            frame(
                100,
                &[
                    layer(1, "body"),
                    layer(1, "hurt"),
                    user_data("hitbox, invisible"),
                    tags(&[("idle", 0, 1), ("all", 0, 4), ("idle", 2, 3)].map(|(n, f, t)| (f, t, n))),
                    cel(0, 1, 1, 2, 2, RED),
                    cel(1, 0, 0, 3, 1, BLUE),
                ],
            ),
            frame(110, &[cel(0, 1, 1, 2, 2, RED)]),
            frame(120, &[cel(0, 2, 1, 2, 2, RED)]),
            frame(130, &[cel(1, 4, 4, 1, 1, BLUE)]),
            frame(140, &[cel(0, 1, 1, 2, 2, BLUE), cel(1, 5, 5, 2, 2, BLUE)]),
        ],
    )
}

#[test]
fn frames_that_show_the_same_image_share_it() {
    let bytes = animated();
    let sprite = AsepriteFile::load(&bytes).unwrap();
    let (set, images) = AnimationSet::from_ase(sprite, "hero", ).unwrap();
    let names: Vec<&str> = images.iter().map(|i| i.name.as_str()).collect();
    assert_eq!(names, vec!["hero0", "hero4"]);
    assert_eq!(images[0].image.to_bytes(), RED.repeat(4));
    assert_eq!(images[1].image.to_bytes(), BLUE.repeat(4));
    assert_eq!(set.canvas_size, (8, 8));
    assert_eq!(set.layer_parameters.len(), 2);
    assert!(set.layer_parameters[0].is_empty());
    assert_eq!(set.layer_parameters[1].len(), 2);

    let all = set.animations.get("all").unwrap();
    assert_eq!(all.frames.len(), 5);
    let durations: Vec<u32> = all.frames.iter().map(|f| f.duration).collect();
    assert_eq!(durations, vec![100, 110, 120, 130, 140]);
    let refs: Vec<Option<(&str, (i32, i32))>> = all
        .frames
        .iter()
        .map(|f| f.image_ids.as_ref().map(|id| (id.image_ref.as_str(), id.tl_offset)))
        .collect();
    assert_eq!(
        refs,
        vec![
            Some(("hero0", (1, 1))),
            Some(("hero0", (1, 1))),
            Some(("hero0", (2, 1))),
            None,
            Some(("hero4", (1, 1))),
        ]
    );
    assert_eq!(all.frames[0].hitboxes, vec![Hitbox { offset: (0, 0), size: (3, 1), layer_id: 1 }]);
    assert_eq!(all.frames[1].hitboxes, vec![]);
    assert_eq!(all.frames[3].hitboxes, vec![Hitbox { offset: (4, 4), size: (1, 1), layer_id: 1 }]);
    assert_eq!(all.frames[4].hitboxes, vec![Hitbox { offset: (5, 5), size: (2, 2), layer_id: 1 }]);
    assert!(all.actions.is_empty());
}

#[test]
fn a_later_tag_takes_the_place_of_an_earlier_one_of_its_name() {
    let bytes = animated();
    let sprite = AsepriteFile::load(&bytes).unwrap();
    let (set, _) = AnimationSet::from_ase(sprite, "x").unwrap();
    assert_eq!(set.animations.len(), 2);
    let idle = set.animations.get("idle").unwrap();
    let durations: Vec<u32> = idle.frames.iter().map(|f| f.duration).collect();
    assert_eq!(durations, vec![120, 130]);
}

#[test]
fn image_names_count_in_decimal() {
    let mut frames = vec![frame(1, &[layer(1, "a"), cel(0, 0, 0, 1, 1, [0, 0, 0, 255])])];
    for n in 1..=120u8 {
        frames.push(frame(1, &[cel(0, 0, 0, 1, 1, [n, 0, 0, 255])]));
    }
    let bytes = file(1, 1, &frames);
    let sprite = AsepriteFile::load(&bytes).unwrap();
    let (_, images) = AnimationSet::from_ase(sprite, "f_").unwrap();
    assert_eq!(images.len(), 121);
    for (n, image) in images.iter().enumerate() {
        assert_eq!(image.name, format!("f_{n}"));
    }
    assert_eq!(images[0].name, "f_0");
    assert_eq!(images[9].name, "f_9");
    assert_eq!(images[10].name, "f_10");
    assert_eq!(images[120].name, "f_120");
}

#[test]
fn a_tag_beyond_the_frames_is_refused() {
    let bytes = file(
        1,
        1,
        &[frame(1, &[layer(1, "a"), tags(&[(0, 0, "ok"), (0, 1, "far")]), cel(0, 0, 0, 1, 1, RED)])],
    );
    let sprite = AsepriteFile::load(&bytes).unwrap();
    let error = match AnimationSet::from_ase(sprite, "x") {
        Err(error) => error,
        Ok(_) => panic!("built"),
    };
    assert_eq!(error, LoadSpriteError::FrameIndexOutOfRange(1));
}

#[test]
fn distinct_frame_images_skip_repeats_and_empty_frames() {
    let bytes = animated();
    let sprite = AsepriteFile::load(&bytes).unwrap();
    let images = sprite.distinct_frame_images().unwrap();
    let places: Vec<(i32, i32)> = images.iter().map(|i| (i.displacement_x, i.displacement_y)).collect();
    assert_eq!(places, vec![(1, 1), (2, 1), (1, 1)]);
    assert_eq!(images[0].img.to_bytes(), RED.repeat(4));
    assert_eq!(images[1].img.to_bytes(), RED.repeat(4));
    assert_eq!(images[2].img.to_bytes(), BLUE.repeat(4));
}

#[test]
fn it_has_no_half_pixel_vertices() {
    for (c_w, c_h, s_w, s_h) in [
        (22, 22, 16, 16), // even even
        (22, 22, 17, 17), // even odd
        (21, 21, 17, 17), // odd odd
        (21, 21, 16, 16), // odd even
    ] {
        let doubled = tl_offset_to_centered_doubled((0, 0), (s_w, s_h), (c_w, c_h));
        let off = (doubled.0 as f32 / 2.0, doubled.1 as f32 / 2.0);
        let left_top_pos = (off.0 + s_w as f32 / 2.0, off.1 + s_h as f32 / 2.0);

        // should never have 0.5 offsets, no matter the even/odd combo of sprite/canvas
        assert!(left_top_pos.0.fract() < 0.00001);
        assert!(left_top_pos.1.fract() < 0.00001);
    }
}

#[test]
fn centered_offsets_are_exact() {
    assert_eq!(tl_offset_to_centered_doubled((3, 3), (13, 13), (17, 17)), (-1, -1));
    assert_eq!(tl_offset_to_centered_doubled((0, 0), (16, 16), (22, 22)), (6, 6));
    assert_eq!(tl_offset_to_centered_doubled((0, 0), (17, 16), (22, 21)), (5, 6));
    assert_eq!(tl_offset_to_centered_doubled((-2, 4), (2, 2), (8, 9)), (10, 0));
    assert_eq!(
        tl_offset_to_centered_doubled((i32::MIN, i32::MAX), (0, u32::MAX), (u32::MAX, 0)),
        (u32::MAX as i64 + 1 + (1i64 << 32), -(u32::MAX as i64) - 2 * (i32::MAX as i64))
    );
}
