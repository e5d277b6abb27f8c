use std::io::Write;

use sprity_aseprite::binary::chunks::cel::CelContent;
use sprity_aseprite::binary::chunks::tags::AnimationDirection;
use sprity_aseprite::binary::errors::ParseError;
use sprity_aseprite::binary::raw_file::parse_raw_file;
use sprity_aseprite::binary::scalars::Color;
use sprity_aseprite::loader::{AsepriteFile, LoadSpriteError};
use sprity_aseprite::make_image::LoadImageError;
use sprity_aseprite::wrappers::LayerParameter;

fn word(value: u16) -> Vec<u8> {
    value.to_le_bytes().to_vec()
}

fn dword(value: u32) -> Vec<u8> {
    value.to_le_bytes().to_vec()
}

fn string(text: &str) -> Vec<u8> {
    let mut bytes = word(text.len() as u16);
    bytes.extend_from_slice(text.as_bytes());
    bytes
}

fn chunk(kind: u16, body: &[u8]) -> Vec<u8> {
    let mut bytes = dword(body.len() as u32 + 6);
    bytes.extend(word(kind));
    bytes.extend_from_slice(body);
    bytes
}

fn layer_of_type(flags: u16, layer_type: u16, blend: u16, opacity: u8, name: &str) -> Vec<u8> {
    let mut body = word(flags);
    body.extend(word(layer_type));
    body.extend(word(0));
    body.extend(word(0));
    body.extend(word(0));
    body.extend(word(blend));
    body.push(opacity);
    body.extend([0u8; 3]);
    body.extend(string(name));
    chunk(0x2004, &body)
}

fn layer(name: &str) -> Vec<u8> {
    layer_of_type(1, 0, 0, 255, name)
}

fn cel_head(layer: u16, x: i16, y: i16, kind: u16) -> Vec<u8> {
    let mut body = word(layer);
    body.extend(x.to_le_bytes());
    body.extend(y.to_le_bytes());
    body.push(255);
    body.extend(word(kind));
    body.extend(0i16.to_le_bytes());
    body.extend([0u8; 5]);
    body
}

fn cel_raw(layer: u16, x: i16, y: i16, width: u16, height: u16, data: &[u8]) -> Vec<u8> {
    let mut body = cel_head(layer, x, y, 0);
    body.extend(word(width));
    body.extend(word(height));
    body.extend_from_slice(data);
    chunk(0x2005, &body)
}

fn zlib(data: &[u8]) -> Vec<u8> {
    let mut encoder = flate2::write::ZlibEncoder::new(Vec::new(), flate2::Compression::default());
    encoder.write_all(data).unwrap();
    encoder.finish().unwrap()
}

fn cel_compressed(layer: u16, x: i16, y: i16, width: u16, height: u16, data: &[u8]) -> Vec<u8> {
    let mut body = cel_head(layer, x, y, 2);
    body.extend(word(width));
    body.extend(word(height));
    body.extend(zlib(data));
    chunk(0x2005, &body)
}

fn cel_linked(layer: u16, frame: u16) -> Vec<u8> {
    let mut body = cel_head(layer, 0, 0, 1);
    body.extend(word(frame));
    chunk(0x2005, &body)
}

fn cel_of_kind(layer: u16, kind: u16, tail: &[u8]) -> Vec<u8> {
    let mut body = cel_head(layer, 0, 0, kind);
    body.extend_from_slice(tail);
    chunk(0x2005, &body)
}

fn user_data(text: &str) -> Vec<u8> {
    let mut body = dword(1);
    body.extend(string(text));
    chunk(0x2020, &body)
}

fn color_profile() -> Vec<u8> {
    let mut body = word(1);
    body.extend(word(0));
    body.extend(dword(0));
    body.extend([0u8; 8]);
    chunk(0x2007, &body)
}

fn tags(tags: &[(u16, u16, u8, u16, &str)]) -> Vec<u8> {
    let mut body = word(tags.len() as u16);
    body.extend([0u8; 8]);
    for (from, to, direction, repeat, name) in tags {
        body.extend(word(*from));
        body.extend(word(*to));
        body.push(*direction);
        body.extend(word(*repeat));
        body.extend([0u8; 10]);
        body.extend(string(name));
    }
    chunk(0x2018, &body)
}

fn palette(first: u32, colors: &[[u8; 4]]) -> Vec<u8> {
    let mut body = dword(colors.len() as u32);
    body.extend(dword(first));
    body.extend(dword(first + colors.len() as u32 - 1));
    body.extend([0u8; 8]);
    for color in colors {
        body.extend(word(0));
        body.extend_from_slice(color);
    }
    chunk(0x2019, &body)
}

fn frame(duration: u16, chunks: &[Vec<u8>]) -> Vec<u8> {
    let size: usize = 16 + chunks.iter().map(|c| c.len()).sum::<usize>();
    let mut bytes = dword(size as u32);
    bytes.extend(word(0xF1FA));
    bytes.extend(word(chunks.len() as u16));
    bytes.extend(word(duration));
    bytes.extend([0u8; 2]);
    bytes.extend(dword(chunks.len() as u32));
    for chunk in chunks {
        bytes.extend_from_slice(chunk);
    }
    bytes
}

fn file(width: u16, height: u16, depth: u16, transparent: u8, frames: &[Vec<u8>]) -> Vec<u8> {
    let size: usize = 128 + frames.iter().map(|f| f.len()).sum::<usize>();
    let mut bytes = dword(size as u32);
    bytes.extend(word(0xA5E0));
    bytes.extend(word(frames.len() as u16));
    bytes.extend(word(width));
    bytes.extend(word(height));
    bytes.extend(word(depth));
    bytes.extend(dword(1));
    bytes.extend(word(100));
    bytes.extend([0u8; 8]);
    bytes.push(transparent);
    bytes.extend([0u8; 99]);
    assert_eq!(bytes.len(), 128);
    for frame in frames {
        bytes.extend_from_slice(frame);
    }
    bytes
}

const RED: [u8; 4] = [255, 0, 0, 255];
const GREEN: [u8; 4] = [0, 255, 0, 255];
const BLUE: [u8; 4] = [0, 0, 255, 255];

fn tags_file() -> Vec<u8> {
    file(
        1,
        1,
        32,
        0,
        &[frame(
            100,
            &[
                color_profile(),
                layer("Layer 1"),
                tags(&[(0, 0, 0, 0, "Tag 1"), (0, 0, 0, 0, "Tag 2"), (0, 0, 0, 0, "Tag 3")]),
                cel_raw(0, 0, 0, 1, 1, &RED),
            ],
        )],
    )
}

fn userdata_file() -> Vec<u8> {
    file(
        2,
        2,
        32,
        0,
        &[
            frame(
                100,
                &[
                    color_profile(),
                    layer("Layer 1"),
                    user_data("l1"),
                    layer("Layer 2"),
                    user_data("l2"),
                    layer("Layer 3"),
                    user_data("l3"),
                    tags(&[(0, 2, 0, 0, "Tag 13"), (0, 1, 0, 0, "Tag 12"), (1, 2, 0, 0, "Tag 23")]),
                    user_data("t13"),
                    user_data("t12"),
                    user_data("t23"),
                    cel_raw(0, 0, 0, 1, 1, &RED),
                    cel_raw(1, 0, 0, 1, 1, &GREEN),
                    user_data("l2f1"),
                    cel_raw(2, 0, 0, 1, 1, &BLUE),
                ],
            ),
            frame(
                100,
                &[cel_raw(0, 1, 0, 1, 1, &RED), user_data("l1f2"), cel_raw(2, 1, 1, 1, 1, &BLUE), user_data("l3f2")],
            ),
            frame(
                100,
                &[
                    cel_raw(0, 0, 1, 1, 1, &RED),
                    user_data("l1f3"),
                    cel_raw(1, 0, 1, 1, 1, &GREEN),
                    cel_raw(2, 0, 1, 1, 1, &BLUE),
                    user_data("l3f3"),
                ],
            ),
        ],
    )
}

#[test]
fn test_tags() {
    let input = tags_file();
    let file = AsepriteFile::from_bytes(&input).unwrap();
    assert_eq!(file.frames.len(), 1);
    assert_eq!(file.frames[0].duration, 100);
    assert_eq!(file.tags.len(), 3);
    assert_eq!(file.tags[0].name(), "Tag 1");
    assert_eq!(file.tags[1].name(), "Tag 2");
    assert_eq!(file.tags[2].name(), "Tag 3");
}

#[test]
fn tests_test_userdata() {
    let input = userdata_file();
    let file = AsepriteFile::load(&input).unwrap();

    assert!(file.layers[0].user_data.text.unwrap() == "l1");
    assert!(file.layers[1].user_data.text.unwrap() == "l2");
    assert!(file.layers[2].user_data.text.unwrap() == "l3");

    assert!(file.frames[1].cells[0].user_data.text.unwrap() == "l1f2");
    assert!(file.frames[0].cells[1].user_data.text.unwrap() == "l2f1");
    assert!(file.frames[2].cells[0].user_data.text.unwrap() == "l1f3");
    assert!(file.frames[2].cells[2].user_data.text.unwrap() == "l3f3");
}

#[test]
fn integration_tests_test_userdata() {
    let input = userdata_file();
    let file = AsepriteFile::from_bytes(&input).unwrap();

    assert!(file.layers[0].user_data.text.unwrap() == "l1");
    assert!(file.layers[1].user_data.text.unwrap() == "l2");
    assert!(file.layers[2].user_data.text.unwrap() == "l3");

    assert!(file.frames[1].cell_at_layer_index(0).unwrap().user_data.text.unwrap() == "l1f2");
    assert!(file.frames[1].cell_at_layer_index(2).unwrap().user_data.text.unwrap() == "l3f2");
    assert!(file.frames[0].cell_at_layer_index(1).unwrap().user_data.text.unwrap() == "l2f1");
    assert!(file.frames[2].cell_at_layer_index(0).unwrap().user_data.text.unwrap() == "l1f3");
    assert!(file.frames[2].cell_at_layer_index(2).unwrap().user_data.text.unwrap() == "l3f3");

    assert!(file.tags[0].name() == "Tag 13");
    assert!(file.tags[0].user_data.text.unwrap() == "t13");
    assert!(file.tags[1].name() == "Tag 12");
    assert!(file.tags[1].user_data.text.unwrap() == "t12");
    assert!(file.tags[2].name() == "Tag 23");
    assert!(file.tags[2].user_data.text.unwrap() == "t23");
}

#[test]
fn user_data_goes_only_to_the_chunk_right_before_it() {
    let input = userdata_file();
    let file = AsepriteFile::from_bytes(&input).unwrap();
    assert_eq!(file.frames[0].cells[0].user_data.text, None);
    assert_eq!(file.frames[0].cells[2].user_data.text, None);
    assert_eq!(file.frames[2].cells[1].user_data.text, None);
    assert!(file.frames[1].cell_at_layer_index(1).is_none());
    assert!(file.frames[1].cell_at_layer_index(3).is_none());
    assert_eq!(file.frames[1].iter_cells().len(), 2);
    assert_eq!(file.frames[1].cells[1].layer_index(), 2);
    assert_eq!((file.frames[1].cells[1].x(), file.frames[1].cells[1].y()), (1, 1));
    assert_eq!(file.frames[1].cells[1].z_index(), 0);
}

#[test]
fn tags_take_user_data_in_their_order_until_another_chunk_comes() {
    let input = file(
        1,
        1,
        32,
        0,
        &[frame(
            100,
            &[
                layer("a"),
                tags(&[(0, 0, 0, 0, "one"), (0, 0, 1, 2, "two"), (0, 0, 7, 0, "three")]),
                user_data("first"),
                layer("b"),
                user_data("for b"),
                user_data("stray"),
            ],
        )],
    );
    let file = AsepriteFile::load(&input).unwrap();
    assert_eq!(file.tags.len(), 3);
    assert_eq!(file.tags[0].user_data.text, Some("first"));
    assert_eq!(file.tags[1].user_data.text, None);
    assert_eq!(file.tags[2].user_data.text, None);
    assert_eq!(file.tags[1].chunk.animation_direction, AnimationDirection::Reverse);
    assert_eq!(file.tags[1].chunk.animation_repeat, 2);
    assert_eq!(file.tags[2].chunk.animation_direction, AnimationDirection::Unknown(7));
    assert_eq!(file.tags[0].frame_range(), 0..=0);
    assert!(file.tags[0].parameters.is_empty());
    assert_eq!(file.layers.len(), 2);
    assert_eq!(file.layers[0].user_data.text, None);
    assert_eq!(file.layers[1].user_data.text, Some("for b"));
    assert_eq!(file.layers[1].name(), "b");
}

#[test]
fn linked_cels_share_the_image_of_the_frame_they_name() {
    let pixels: Vec<u8> = vec![1, 2, 3, 255, 4, 5, 6, 255];
    let input = file(
        2,
        1,
        32,
        0,
        &[
            frame(100, &[layer("a"), layer("b"), cel_compressed(0, 0, 0, 2, 1, &pixels), cel_raw(1, 0, 0, 1, 1, &RED)]),
            frame(100, &[cel_linked(0, 0), cel_raw(1, 1, 0, 1, 1, &GREEN)]),
            frame(100, &[cel_linked(0, 0), cel_linked(1, 1)]),
        ],
    );
    let file = AsepriteFile::load(&input).unwrap();
    assert_eq!(file.image_count(), 3);
    assert_eq!(file.images_decompressed.len(), 3);
    assert_eq!(file.frames[0].cells[0].image_index, 0);
    assert_eq!(file.frames[1].cells[0].image_index, 0);
    assert_eq!(file.frames[2].cells[0].image_index, 0);
    assert_eq!(file.frames[0].cells[1].image_index, 1);
    assert_eq!(file.frames[1].cells[1].image_index, 2);
    assert_eq!(file.frames[2].cells[1].image_index, 2);
    assert!(matches!(file.frames[1].cells[0].chunk.content, CelContent::LinkedCel { frame_position: 0 }));
    let direct = &file.images_decompressed[file.frames[0].cells[0].image_index];
    let linked = &file.images_decompressed[file.frames[2].cells[0].image_index];
    assert_eq!(direct, linked);
    assert_eq!(direct.to_bytes(), pixels);
    assert_eq!(file.combined_frame_image(0).unwrap().to_bytes(), vec![255, 0, 0, 255, 4, 5, 6, 255]);
    assert_eq!(file.combined_frame_image(1).unwrap().to_bytes(), vec![1, 2, 3, 255, 0, 255, 0, 255]);
    assert_eq!(file.combined_frame_image(2).unwrap().to_bytes(), vec![0, 255, 0, 255, 4, 5, 6, 255]);
}

#[test]
fn linked_cel_must_name_an_earlier_frame_with_an_image_on_its_layer() {
    let unresolved = |frames: &[Vec<u8>]| match AsepriteFile::load(&file(1, 1, 32, 0, frames)) {
        Err(error) => error,
        Ok(_) => panic!("loaded"),
    };
    assert_eq!(
        unresolved(&[frame(1, &[layer("a"), cel_linked(0, 0)])]),
        LoadSpriteError::UnresolvedLinkedCel { frame: 0, layer: 0 }
    );
    assert_eq!(
        unresolved(&[frame(1, &[layer("a"), cel_raw(0, 0, 0, 1, 1, &RED), cel_linked(0, 0)])]),
        LoadSpriteError::UnresolvedLinkedCel { frame: 0, layer: 0 }
    );
    assert_eq!(
        unresolved(&[
            frame(1, &[layer("a"), layer("b"), cel_raw(0, 0, 0, 1, 1, &RED)]),
            frame(1, &[cel_linked(1, 0)]),
        ]),
        LoadSpriteError::UnresolvedLinkedCel { frame: 0, layer: 1 }
    );
    assert_eq!(
        unresolved(&[
            frame(1, &[layer("a"), cel_raw(0, 0, 0, 1, 1, &RED)]),
            frame(1, &[cel_linked(0, 0)]),
            frame(1, &[cel_linked(0, 1)]),
        ]),
        LoadSpriteError::UnresolvedLinkedCel { frame: 1, layer: 0 }
    );
    assert_eq!(
        unresolved(&[
            frame(1, &[layer("a"), cel_raw(0, 0, 0, 1, 1, &RED)]),
            frame(1, &[cel_linked(0, 5)]),
        ]),
        LoadSpriteError::UnresolvedLinkedCel { frame: 5, layer: 0 }
    );
}

#[test]
fn structural_failures_are_parse_errors() {
    let mut bytes = tags_file();
    bytes[4] = 0;
    assert_eq!(
        AsepriteFile::load(&bytes).unwrap_err(),
        LoadSpriteError::Parse { error: ParseError::InvalidFileMagic(0xa500) }
    );
    let mut bytes = tags_file();
    bytes[128 + 4] = 0;
    assert_eq!(
        AsepriteFile::from_bytes(&bytes).unwrap_err(),
        LoadSpriteError::Parse { error: ParseError::InvalidFrameMagic(0xf100) }
    );
    let reversed = file(1, 1, 32, 0, &[frame(1, &[tags(&[(2, 1, 0, 0, "t")])])]);
    assert_eq!(
        AsepriteFile::load(&reversed).unwrap_err(),
        LoadSpriteError::Parse { error: ParseError::InvalidFrameRange(2, 1) }
    );
    assert_eq!(
        AsepriteFile::load(&[]).unwrap_err(),
        LoadSpriteError::Parse { error: ParseError::UnexpectedEof }
    );
}

#[test]
fn features_that_are_not_implemented_are_model_errors() {
    let load = |chunks: &[Vec<u8>]| match AsepriteFile::load(&file(1, 1, 32, 0, &[frame(1, chunks)])) {
        Err(error) => error,
        Ok(_) => panic!("loaded"),
    };
    assert_eq!(load(&[layer_of_type(1, 1, 0, 255, "group")]), LoadSpriteError::LayerGroupsNotImplemented);
    assert_eq!(load(&[layer_of_type(1, 9, 0, 255, "odd")]), LoadSpriteError::UnknownLayerType(9));
    assert_eq!(load(&[layer("a"), cel_of_kind(0, 3, &[0u8; 32])]), LoadSpriteError::TilemapsNotImplemented);
    assert_eq!(load(&[layer("a"), cel_of_kind(0, 8, &[])]), LoadSpriteError::UnknownCelContent(8));
    assert_eq!(load(&[color_profile(), color_profile()]), LoadSpriteError::DuplicateColorProfile);
    assert_eq!(load(&[layer("a"), cel_raw(1, 0, 0, 1, 1, &RED)]), LoadSpriteError::MissingLayer(1));
}

#[test]
fn cels_of_a_frame_must_come_in_the_order_of_their_layers() {
    let out_of_order = file(
        1,
        1,
        32,
        0,
        &[
            frame(1, &[layer("a"), layer("b"), cel_raw(0, 0, 0, 1, 1, &RED), cel_raw(1, 0, 0, 1, 1, &RED)]),
            frame(1, &[cel_raw(1, 0, 0, 1, 1, &RED), cel_raw(0, 0, 0, 1, 1, &RED)]),
        ],
    );
    assert_eq!(
        AsepriteFile::load(&out_of_order).unwrap_err(),
        LoadSpriteError::CelsOutOfOrder { frame: 1, layer: 0 }
    );
    let twice = file(
        1,
        1,
        32,
        0,
        &[frame(1, &[layer("a"), cel_raw(0, 0, 0, 1, 1, &RED), cel_raw(0, 0, 0, 1, 1, &GREEN)])],
    );
    let sprite = AsepriteFile::load(&twice).unwrap();
    assert!(sprite.is_well_formed());
    assert_eq!(sprite.frames[0].cell_at_layer_index(0).unwrap().image_index, 0);
    assert_eq!(sprite.combined_frame_image(0).unwrap().to_bytes(), GREEN.to_vec());
}

#[test]
fn tilemap_layers_are_taken_like_layers_of_images() {
    let mut tilemap = layer_of_type(1, 2, 0, 255, "tiles");
    tilemap.extend(dword(3));
    let size = (tilemap.len() as u32).to_le_bytes();
    tilemap[..4].copy_from_slice(&size);
    let input = file(1, 1, 32, 0, &[frame(1, &[tilemap])]);
    let sprite = AsepriteFile::load(&input).unwrap();
    assert_eq!(sprite.layers.len(), 1);
    assert_eq!(sprite.layers[0].chunk.tileset_index, Some(3));
}

#[test]
fn color_profile_is_required_by_from_bytes_only() {
    let bytes = file(1, 1, 32, 0, &[frame(1, &[layer("a"), cel_raw(0, 0, 0, 1, 1, &RED)])]);
    assert_eq!(AsepriteFile::from_bytes(&bytes).unwrap_err(), LoadSpriteError::MissingColorProfile);
    let sprite = AsepriteFile::load(&bytes).unwrap();
    assert!(sprite.color_profile.is_none());
    let with_profile = tags_file();
    assert!(AsepriteFile::from_bytes(&with_profile).unwrap().color_profile.is_some());
}

#[test]
fn indexed_files_need_a_palette_and_clear_the_transparent_color() {
    let without = file(1, 1, 8, 0, &[frame(1, &[layer("a"), cel_raw(0, 0, 0, 1, 1, &[0])])]);
    assert_eq!(AsepriteFile::load(&without).unwrap_err(), LoadSpriteError::MissingPalette);
    let with = file(
        2,
        1,
        8,
        1,
        &[frame(1, &[palette(0, &[RED, GREEN, BLUE]), layer("a"), cel_raw(0, 0, 0, 2, 1, &[2, 1])])],
    );
    let sprite = AsepriteFile::load(&with).unwrap();
    assert_eq!(
        sprite.palette.colors,
        vec![
            Color { red: 255, green: 0, blue: 0, alpha: 255 },
            Color { red: 0, green: 255, blue: 0, alpha: 0 },
            Color { red: 0, green: 0, blue: 255, alpha: 255 },
        ]
    );
    assert_eq!(sprite.images_decompressed[0].to_bytes(), vec![0, 0, 255, 255, 0, 255, 0, 0]);
    let out_of_palette = file(
        1,
        1,
        8,
        0,
        &[frame(1, &[palette(0, &[RED, GREEN]), layer("a"), cel_raw(0, 0, 0, 1, 1, &[2])])],
    );
    assert_eq!(
        AsepriteFile::load(&out_of_palette).unwrap_err(),
        LoadSpriteError::Image { index: 0, reason: LoadImageError::InvalidImageData }
    );
}

#[test]
fn palette_chunks_are_laid_over_each_other() {
    let input = file(
        1,
        1,
        32,
        0,
        &[
            frame(1, &[palette(0, &[RED, GREEN])]),
            frame(1, &[{
                let mut body = dword(2);
                body.extend(dword(1));
                body.extend(dword(2));
                body.extend([0u8; 8]);
                for color in [BLUE, [9, 9, 9, 9]] {
                    body.extend(word(0));
                    body.extend_from_slice(&color);
                }
                chunk(0x2019, &body)
            }]),
        ],
    );
    let sprite = AsepriteFile::load(&input).unwrap();
    assert_eq!(
        sprite.palette.colors,
        vec![
            Color { red: 255, green: 0, blue: 0, alpha: 255 },
            Color { red: 0, green: 0, blue: 255, alpha: 255 },
            Color { red: 9, green: 9, blue: 9, alpha: 9 },
        ]
    );
}

#[test]
fn images_fail_with_their_index() {
    let short = file(
        2,
        2,
        32,
        0,
        &[frame(1, &[layer("a"), cel_raw(0, 0, 0, 1, 1, &RED), cel_raw(0, 0, 0, 2, 1, &RED)])],
    );
    assert_eq!(
        AsepriteFile::load(&short).unwrap_err(),
        LoadSpriteError::Image { index: 1, reason: LoadImageError::InvalidImageData }
    );
    let depth = file(1, 1, 24, 0, &[frame(1, &[layer("a"), cel_raw(0, 0, 0, 1, 1, &RED)])]);
    assert_eq!(
        AsepriteFile::load(&depth).unwrap_err(),
        LoadSpriteError::Image { index: 0, reason: LoadImageError::UnsupportedColorDepth }
    );
    let mut garbage = cel_head(0, 0, 0, 2);
    garbage.extend(word(1));
    garbage.extend(word(1));
    garbage.extend([1u8, 2, 3, 4, 5, 6]);
    let corrupt = file(1, 1, 32, 0, &[frame(1, &[layer("a"), chunk(0x2005, &garbage)])]);
    assert_eq!(
        AsepriteFile::load(&corrupt).unwrap_err(),
        LoadSpriteError::Image { index: 0, reason: LoadImageError::DecompressError }
    );
    let too_much = file(1, 1, 32, 0, &[frame(1, &[layer("a"), cel_compressed(0, 0, 0, 1, 1, &[1, 2, 3, 4, 5])])]);
    assert_eq!(
        AsepriteFile::load(&too_much).unwrap_err(),
        LoadSpriteError::Image { index: 0, reason: LoadImageError::DecompressError }
    );
    let too_little = file(1, 1, 32, 0, &[frame(1, &[layer("a"), cel_compressed(0, 0, 0, 1, 1, &[1, 2, 3])])]);
    assert_eq!(
        AsepriteFile::load(&too_little).unwrap_err(),
        LoadSpriteError::Image { index: 0, reason: LoadImageError::DecompressError }
    );
}

#[test]
fn grayscale_files_spread_the_value_over_the_color_channels() {
    let input = file(
        2,
        1,
        16,
        0,
        &[frame(1, &[layer("a"), cel_compressed(0, 0, 0, 2, 1, &[10, 20, 30, 40])])],
    );
    let sprite = AsepriteFile::load(&input).unwrap();
    assert_eq!(sprite.images_decompressed[0].to_bytes(), vec![10, 10, 10, 20, 30, 30, 30, 40]);
    assert_eq!(sprite.images_decompressed[0].dimensions(), (2, 1));
}

#[test]
fn accessors_give_the_parts_of_the_sprite() {
    let input = userdata_file();
    let sprite = AsepriteFile::from_bytes(&input).unwrap();
    assert_eq!(sprite.size(), (2, 2));
    assert_eq!(sprite.canvas_width(), 2);
    assert_eq!(sprite.canvas_height(), 2);
    assert_eq!(sprite.pixel_count(), 4);
    assert_eq!(sprite.tags().len(), 3);
    assert_eq!(sprite.layers().len(), 3);
    assert_eq!(sprite.frames().len(), 3);
    assert_eq!(sprite.slices().len(), 0);
    assert_eq!(sprite.image_count(), 8);
    assert_eq!(sprite.layers[0].name(), "Layer 1");
    assert!(sprite.layers[0].visible());
    assert!(sprite.layers[0].shown());
    assert!(!sprite.layers[0].has(LayerParameter::Hitbox));
}

#[test]
fn load_image_writes_rgba_bytes_to_the_front_of_the_target() {
    let input = file(
        2,
        1,
        16,
        0,
        &[frame(1, &[layer("a"), cel_raw(0, 0, 0, 2, 1, &[10, 20, 30, 40])])],
    );
    let sprite = AsepriteFile::load(&input).unwrap();
    let mut target = vec![7u8; 10];
    sprite.load_image(0, &mut target).unwrap();
    assert_eq!(target, vec![10, 10, 10, 20, 30, 30, 30, 40, 7, 7]);
    let mut small = vec![7u8; 7];
    assert_eq!(sprite.load_image(0, &mut small).unwrap_err(), LoadImageError::TargetBufferTooSmall);
    assert_eq!(small, vec![7u8; 7]);
}

#[test]
fn raw_file_keeps_every_chunk() {
    let input = userdata_file();
    let raw = parse_raw_file(&input).unwrap();
    assert_eq!(raw.frames.len(), 3);
    assert_eq!(raw.frames[0].chunks.len(), 15);
    assert_eq!(raw.frames[0].cels().len(), 3);
    assert_eq!(raw.header.frames, 3);
}
