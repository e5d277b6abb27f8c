use sprity_aseprite::binary::blend_mode::BlendMode;
use sprity_aseprite::binary::chunk::{parse_chunk, parse_chunks, Chunk};
use sprity_aseprite::binary::chunks::cel::{parse_cel_chunk, CelContent};
use sprity_aseprite::binary::chunks::cel_extra::parse_cel_extra_chunk;
use sprity_aseprite::binary::chunks::color_profile::{parse_color_profile_chunk, ColorProfileType};
use sprity_aseprite::binary::chunks::external_files::parse_external_files_chunk;
use sprity_aseprite::binary::chunks::layer::{parse_layer_chunk, LayerType};
use sprity_aseprite::binary::chunks::mask::parse_mask_chunk;
use sprity_aseprite::binary::chunks::old_palette::parse_old_palette_chunk;
use sprity_aseprite::binary::chunks::palette::{parse_palette_chunk, parse_palette_entry};
use sprity_aseprite::binary::chunks::slice::parse_slice_chunk;
use sprity_aseprite::binary::chunks::tags::{parse_tag, parse_tags_chunk, AnimationDirection};
use sprity_aseprite::binary::chunks::tileset::{
    parse_external_file, parse_tiles, parse_tileset_chunk, TilesetTiles,
};
use sprity_aseprite::binary::chunks::user_data::parse_user_data_chunk;
use sprity_aseprite::binary::color_depth::ColorDepth;
use sprity_aseprite::binary::errors::ParseError;
use sprity_aseprite::binary::header::parse_header;
use sprity_aseprite::binary::raw_file::parse_raw_file;
use sprity_aseprite::binary::raw_frame::{parse_frames, parse_rawframe};
use sprity_aseprite::binary::scalars::Color;

fn word(value: u16) -> Vec<u8> {
    value.to_le_bytes().to_vec()
}

fn dword(value: u32) -> Vec<u8> {
    value.to_le_bytes().to_vec()
}

fn string(text: &str) -> Vec<u8> {
    let mut bytes = word(text.len() as u16);
    bytes.extend_from_slice(text.as_bytes());
    bytes
}

fn palette_chunk(size: u32, first: u32, last: u32, entries: &[(u16, [u8; 4], Option<&str>)]) -> Vec<u8> {
    let mut bytes = dword(size);
    bytes.extend(dword(first));
    bytes.extend(dword(last));
    bytes.extend([0u8; 8]);
    for (flags, color, name) in entries {
        bytes.extend(word(*flags));
        bytes.extend_from_slice(color);
        if let Some(name) = name {
            bytes.extend(string(name));
        }
    }
    bytes
}

fn tag(from: u16, to: u16, direction: u8, repeat: u16, name: &str) -> Vec<u8> {
    let mut bytes = word(from);
    bytes.extend(word(to));
    bytes.push(direction);
    bytes.extend(word(repeat));
    bytes.extend([0u8; 6]);
    bytes.extend([9u8, 9, 9]);
    bytes.push(0);
    bytes.extend(string(name));
    bytes
}

fn tags_chunk(tags: &[Vec<u8>]) -> Vec<u8> {
    let mut bytes = word(tags.len() as u16);
    bytes.extend([0u8; 8]);
    for tag in tags {
        bytes.extend_from_slice(tag);
    }
    bytes
}

fn layer(flags: u16, layer_type: u16, child_level: u16, blend: u16, opacity: u8, name: &str) -> Vec<u8> {
    let mut bytes = word(flags);
    bytes.extend(word(layer_type));
    bytes.extend(word(child_level));
    bytes.extend(word(0));
    bytes.extend(word(0));
    bytes.extend(word(blend));
    bytes.push(opacity);
    bytes.extend([0u8; 3]);
    bytes.extend(string(name));
    bytes
}

fn cel_head(layer: u16, x: i16, y: i16, opacity: u8, kind: u16, z: i16) -> Vec<u8> {
    let mut bytes = word(layer);
    bytes.extend(x.to_le_bytes());
    bytes.extend(y.to_le_bytes());
    bytes.push(opacity);
    bytes.extend(word(kind));
    bytes.extend(z.to_le_bytes());
    bytes.extend([0u8; 5]);
    bytes
}

fn chunk(kind: u16, body: &[u8]) -> Vec<u8> {
    let mut bytes = dword(body.len() as u32 + 6);
    bytes.extend(word(kind));
    bytes.extend_from_slice(body);
    bytes
}

fn frame(duration: u16, old_count: u16, new_count: u32, chunks: &[Vec<u8>]) -> Vec<u8> {
    let size: usize = 16 + chunks.iter().map(|c| c.len()).sum::<usize>();
    let mut bytes = dword(size as u32);
    bytes.extend(word(0xF1FA));
    bytes.extend(word(old_count));
    bytes.extend(word(duration));
    bytes.extend([0u8; 2]);
    bytes.extend(dword(new_count));
    for chunk in chunks {
        bytes.extend_from_slice(chunk);
    }
    bytes
}

fn header(file_size: u32, frames: u16, width: u16, height: u16, depth: u16) -> Vec<u8> {
    let mut bytes = dword(file_size);
    bytes.extend(word(0xA5E0));
    bytes.extend(word(frames));
    bytes.extend(word(width));
    bytes.extend(word(height));
    bytes.extend(word(depth));
    bytes.extend(dword(1));
    bytes.extend(word(100));
    bytes.extend(dword(0));
    bytes.extend(dword(0));
    bytes.push(3);
    bytes.extend([0u8; 3]);
    bytes.extend(word(16));
    bytes.push(1);
    bytes.push(2);
    bytes.extend((-4i16).to_le_bytes());
    bytes.extend(5i16.to_le_bytes());
    bytes.extend(word(16));
    bytes.extend(word(8));
    bytes.extend([0u8; 84]);
    assert_eq!(bytes.len(), 128);
    bytes
}

#[test]
fn header_fields_are_read_at_their_offsets() {
    let mut bytes = header(1000, 7, 32, 24, 8);
    bytes.push(0xee);
    let (rest, header) = parse_header(&bytes).unwrap();
    assert_eq!(rest, &[0xeeu8][..]);
    assert_eq!(header.file_size, 1000);
    assert_eq!(header.frames, 7);
    assert_eq!(header.width, 32);
    assert_eq!(header.height, 24);
    assert_eq!(header.color_depth, ColorDepth::Indexed);
    assert_eq!(header.flags, 1);
    assert_eq!(header.speed, 100);
    assert_eq!(header.transparent_index, 3);
    assert_eq!(header.color_count, 16);
    assert_eq!(header.pixel_width, 1);
    assert_eq!(header.pixel_height, 2);
    assert_eq!(header.grid_x, -4);
    assert_eq!(header.grid_y, 5);
    assert_eq!(header.grid_width, 16);
    assert_eq!(header.grid_height, 8);
}

#[test]
fn header_color_depths() {
    let depth = |word: u16| parse_header(&header(128, 1, 1, 1, word)).unwrap().1.color_depth;
    assert_eq!(depth(32), ColorDepth::Rgba);
    assert_eq!(depth(16), ColorDepth::Grayscale);
    assert_eq!(depth(8), ColorDepth::Indexed);
    assert_eq!(depth(24), ColorDepth::Unknown(24));
    assert_eq!(ColorDepth::Rgba.bytes_per_pixel(), Some(4));
    assert_eq!(ColorDepth::Grayscale.bytes_per_pixel(), Some(2));
    assert_eq!(ColorDepth::Indexed.bytes_per_pixel(), Some(1));
    assert_eq!(ColorDepth::Unknown(24).bytes_per_pixel(), None);
}

#[test]
fn header_refuses_short_input_and_bad_magic() {
    let bytes = header(128, 1, 1, 1, 32);
    assert_eq!(parse_header(&bytes[..127]).unwrap_err(), ParseError::UnexpectedEof);
    let mut bad = bytes.clone();
    bad[4] = 0x34;
    bad[5] = 0x12;
    assert_eq!(parse_header(&bad).unwrap_err(), ParseError::InvalidFileMagic(0x1234));
}

#[test]
fn palette_chunk_reads_entries_from_first_index() {
    let bytes = palette_chunk(
        3,
        1,
        3,
        &[(0, [1, 2, 3, 4], None), (1, [5, 6, 7, 8], Some("sky")), (0, [9, 10, 11, 12], None)],
    );
    let (rest, chunk) = parse_palette_chunk(&bytes).unwrap();
    assert!(rest.is_empty());
    assert_eq!(chunk.first_index, 1);
    assert_eq!(chunk.entries.len(), 3);
    assert_eq!(chunk.entries[0].color, Color { red: 1, green: 2, blue: 3, alpha: 4 });
    assert_eq!(chunk.entries[0].name, None);
    assert_eq!(chunk.entries[1].color, Color { red: 5, green: 6, blue: 7, alpha: 8 });
    assert_eq!(chunk.entries[1].name, Some("sky"));
    assert_eq!(chunk.entries[2].color, Color { red: 9, green: 10, blue: 11, alpha: 12 });
}

#[test]
fn palette_chunk_range_must_match_size() {
    for size in 0u32..6 {
        for first in 0u32..6 {
            for last in 0u32..8 {
                let entries: Vec<(u16, [u8; 4], Option<&str>)> =
                    (0..size).map(|i| (0u16, [i as u8, 0, 0, 255], None)).collect();
                let bytes = palette_chunk(size, first, last, &entries);
                let agree = first < size && last >= first && last - first + 1 == size;
                match parse_palette_chunk(&bytes) {
                    Ok((_, chunk)) => {
                        assert!(agree, "size {size} first {first} last {last}");
                        assert_eq!(last - first + 1, size);
                        assert_eq!(chunk.entries.len() as u32, size);
                        assert_eq!(chunk.first_index, first);
                    }
                    Err(error) => {
                        assert!(!agree, "size {size} first {first} last {last}");
                        assert_eq!(error, ParseError::InvalidPaletteRange);
                    }
                }
            }
        }
    }
}

#[test]
fn palette_chunk_refuses_short_input() {
    let bytes = palette_chunk(2, 0, 1, &[(0, [1, 2, 3, 4], None)]);
    assert_eq!(parse_palette_chunk(&bytes).unwrap_err(), ParseError::UnexpectedEof);
    assert_eq!(parse_palette_chunk(&bytes[..11]).unwrap_err(), ParseError::UnexpectedEof);
    assert_eq!(parse_palette_entry(&[0, 0, 1, 2, 3]).unwrap_err(), ParseError::UnexpectedEof);
}

#[test]
fn tag_fields() {
    let mut bytes = tag(2, 5, 2, 3, "walk");
    bytes.push(0x77);
    let (rest, tag) = parse_tag(&bytes).unwrap();
    assert_eq!(rest, &[0x77u8][..]);
    assert_eq!(tag.frames, (2, 5));
    assert_eq!(tag.animation_direction, AnimationDirection::PingPong);
    assert_eq!(tag.animation_repeat, 3);
    assert_eq!(tag.name, "walk");
}

#[test]
fn tag_directions() {
    let direction = |byte: u8| parse_tag(&tag(0, 0, byte, 0, "")).unwrap().1.animation_direction;
    assert_eq!(direction(0), AnimationDirection::Forward);
    assert_eq!(direction(1), AnimationDirection::Reverse);
    assert_eq!(direction(2), AnimationDirection::PingPong);
    assert_eq!(direction(3), AnimationDirection::PingPongReverse);
    assert_eq!(direction(4), AnimationDirection::Unknown(4));
    assert_eq!(direction(255), AnimationDirection::Unknown(255));
    assert_eq!(AnimationDirection::from(1u8), AnimationDirection::Reverse);
    assert_eq!(AnimationDirection::from(9u8), AnimationDirection::Unknown(9));
}

#[test]
fn tag_range_must_not_run_backwards() {
    for from in 0u16..5 {
        for to in 0u16..5 {
            let bytes = tag(from, to, 0, 0, "t");
            match parse_tag(&bytes) {
                Ok((_, tag)) => {
                    assert!(from <= to);
                    assert_eq!(tag.frames, (from, to));
                }
                Err(error) => {
                    assert!(from > to);
                    assert_eq!(error, ParseError::InvalidFrameRange(from, to));
                }
            }
        }
    }
    assert_eq!(
        parse_tag(&[3, 0, 1, 0]).unwrap_err(),
        ParseError::InvalidFrameRange(3, 1)
    );
    assert_eq!(parse_tag(&[1, 0, 3, 0]).unwrap_err(), ParseError::UnexpectedEof);
}

#[test]
fn tags_chunk_keeps_the_order_of_the_tags() {
    let bytes = tags_chunk(&[tag(0, 0, 0, 0, "Tag 1"), tag(0, 0, 1, 0, "Tag 2"), tag(0, 0, 0, 2, "Tag 3")]);
    let (rest, chunk) = parse_tags_chunk(&bytes).unwrap();
    assert!(rest.is_empty());
    let names: Vec<&str> = chunk.tags.iter().map(|t| t.name).collect();
    assert_eq!(names, vec!["Tag 1", "Tag 2", "Tag 3"]);
}

#[test]
fn tags_chunk_fails_with_its_first_bad_tag() {
    let bytes = tags_chunk(&[tag(0, 1, 0, 0, "a"), tag(4, 2, 0, 0, "b"), tag(0, 0, 0, 0, "c")]);
    assert_eq!(parse_tags_chunk(&bytes).unwrap_err(), ParseError::InvalidFrameRange(4, 2));
    let mut short = tags_chunk(&[tag(0, 1, 0, 0, "a")]);
    short[0] = 2;
    assert_eq!(parse_tags_chunk(&short).unwrap_err(), ParseError::UnexpectedEof);
}

#[test]
fn layer_chunk_fields() {
    let bytes = layer(0b11, 0, 2, 1, 200, "Layer 1");
    let (rest, chunk) = parse_layer_chunk(&bytes).unwrap();
    assert!(rest.is_empty());
    assert!(chunk.flags.visible());
    assert_eq!(chunk.flags.bits, 3);
    assert_eq!(chunk.layer_type, LayerType::Normal);
    assert_eq!(chunk.child_level, 2);
    assert_eq!(chunk.blend_mode, BlendMode::Multiply);
    assert_eq!(chunk.opacity, 200);
    assert_eq!(chunk.name, "Layer 1");
    assert_eq!(chunk.tileset_index, None);
}

#[test]
fn layer_chunk_types_and_tileset_index() {
    let bytes = layer(0, 1, 0, 0, 255, "g");
    let (_, group) = parse_layer_chunk(&bytes).unwrap();
    assert_eq!(group.layer_type, LayerType::Group);
    assert!(!group.flags.visible());
    let bytes = layer(0, 7, 0, 0, 255, "u");
    let (_, unknown) = parse_layer_chunk(&bytes).unwrap();
    assert_eq!(unknown.layer_type, LayerType::Unknown(7));
    let mut bytes = layer(1, 2, 0, 0, 255, "tiles");
    assert_eq!(parse_layer_chunk(&bytes).unwrap_err(), ParseError::UnexpectedEof);
    bytes.extend(dword(5));
    let (_, tilemap) = parse_layer_chunk(&bytes).unwrap();
    assert_eq!(tilemap.layer_type, LayerType::Tilemap);
    assert_eq!(tilemap.tileset_index, Some(5));
    assert_eq!(parse_layer_chunk(&bytes[..15]).unwrap_err(), ParseError::UnexpectedEof);
}

#[test]
fn blend_modes_by_number() {
    let mode = |word: u16| parse_layer_chunk(&layer(1, 0, 0, word, 255, "")).unwrap().1.blend_mode;
    assert_eq!(mode(0), BlendMode::Normal);
    assert_eq!(mode(1), BlendMode::Multiply);
    assert_eq!(mode(2), BlendMode::Screen);
    assert_eq!(mode(3), BlendMode::Overlay);
    assert_eq!(mode(4), BlendMode::Darken);
    assert_eq!(mode(5), BlendMode::Lighten);
    assert_eq!(mode(10), BlendMode::Difference);
    assert_eq!(mode(16), BlendMode::Addition);
    assert_eq!(mode(17), BlendMode::Subtract);
    assert_eq!(mode(18), BlendMode::Divide);
    assert_eq!(mode(19), BlendMode::Unknown(19));
}

#[test]
fn cel_chunk_with_raw_image() {
    let mut bytes = cel_head(2, -3, 4, 128, 0, -1);
    bytes.extend(word(2));
    bytes.extend(word(1));
    bytes.extend([1u8, 2, 3, 4, 5, 6, 7, 8]);
    let (rest, chunk) = parse_cel_chunk(&bytes).unwrap();
    assert!(rest.is_empty());
    assert_eq!(chunk.layer_index, 2);
    assert_eq!(chunk.x, -3);
    assert_eq!(chunk.y, 4);
    assert_eq!(chunk.opacity, 128);
    assert_eq!(chunk.z_index, -1);
    match chunk.content {
        CelContent::Image(image) => {
            assert_eq!(image.width, 2);
            assert_eq!(image.height, 1);
            assert!(!image.compressed);
            assert_eq!(image.data, &[1u8, 2, 3, 4, 5, 6, 7, 8][..]);
            assert_eq!(image.pixel_count(), 2);
        }
        other => panic!("{other:?}"),
    }
}

#[test]
fn cel_chunk_with_compressed_image_keeps_the_stream() {
    let mut bytes = cel_head(0, 0, 0, 255, 2, 0);
    bytes.extend(word(3));
    bytes.extend(word(3));
    bytes.extend([0x78u8, 0x9c, 1, 2, 3]);
    let (_, chunk) = parse_cel_chunk(&bytes).unwrap();
    match chunk.content {
        CelContent::Image(image) => {
            assert_eq!((image.width, image.height), (3, 3));
            assert!(image.compressed);
            assert_eq!(image.data, &[0x78u8, 0x9c, 1, 2, 3][..]);
        }
        other => panic!("{other:?}"),
    }
}

#[test]
fn cel_chunk_linked_and_unknown() {
    let mut bytes = cel_head(1, 0, 0, 255, 1, 0);
    bytes.extend(word(4));
    let (rest, chunk) = parse_cel_chunk(&bytes).unwrap();
    assert!(rest.is_empty());
    assert!(matches!(chunk.content, CelContent::LinkedCel { frame_position: 4 }));
    let bytes = cel_head(1, 0, 0, 255, 9, 0);
    let (_, chunk) = parse_cel_chunk(&bytes).unwrap();
    assert!(matches!(chunk.content, CelContent::Unknown(9)));
    let bytes = cel_head(1, 0, 0, 255, 1, 0);
    assert_eq!(parse_cel_chunk(&bytes).unwrap_err(), ParseError::UnexpectedEof);
    assert_eq!(parse_cel_chunk(&bytes[..15]).unwrap_err(), ParseError::UnexpectedEof);
}

#[test]
fn cel_chunk_with_tilemap() {
    let mut bytes = cel_head(1, 0, 0, 255, 3, 0);
    bytes.extend(word(4));
    bytes.extend(word(5));
    bytes.extend(word(32));
    bytes.extend(dword(0x1fffffff));
    bytes.extend(dword(0x20000000));
    bytes.extend(dword(0x40000000));
    bytes.extend(dword(0x80000000));
    bytes.extend([0u8; 10]);
    bytes.extend([7u8, 8, 9]);
    let (_, chunk) = parse_cel_chunk(&bytes).unwrap();
    match chunk.content {
        CelContent::CompressedTilemap {
            width,
            height,
            bits_per_tile,
            bitmask_tile_id,
            bitmask_x_flip,
            bitmask_y_flip,
            bitmask_diagonal_flip,
            data,
        } => {
            assert_eq!((width, height, bits_per_tile), (4, 5, 32));
            assert_eq!(bitmask_tile_id, 0x1fffffff);
            assert_eq!(bitmask_x_flip, 0x20000000);
            assert_eq!(bitmask_y_flip, 0x40000000);
            assert_eq!(bitmask_diagonal_flip, 0x80000000);
            assert_eq!(data, &[7u8, 8, 9][..]);
        }
        other => panic!("{other:?}"),
    }
}

#[test]
fn user_data_text_and_color() {
    let mut bytes = dword(3);
    bytes.extend(string("l1f2"));
    bytes.extend([10u8, 20, 30, 40]);
    let (rest, chunk) = parse_user_data_chunk(&bytes).unwrap();
    assert!(rest.is_empty());
    assert_eq!(chunk.text, Some("l1f2"));
    assert_eq!(chunk.color, Some(Color { red: 10, green: 20, blue: 30, alpha: 40 }));
    let empty = dword(0);
    let (_, none) = parse_user_data_chunk(&empty).unwrap();
    assert_eq!(none.text, None);
    assert_eq!(none.color, None);
    let mut only_color = dword(2);
    only_color.extend([1u8, 2, 3, 4]);
    let (_, chunk) = parse_user_data_chunk(&only_color).unwrap();
    assert_eq!(chunk.text, None);
    assert_eq!(chunk.color, Some(Color { red: 1, green: 2, blue: 3, alpha: 4 }));
    assert_eq!(parse_user_data_chunk(&dword(1)).unwrap_err(), ParseError::UnexpectedEof);
}

fn tileset(flags: u32, name: &str, tail: &[u8]) -> Vec<u8> {
    let mut bytes = dword(11);
    bytes.extend(dword(flags));
    bytes.extend(dword(4));
    bytes.extend(word(16));
    bytes.extend(word(8));
    bytes.extend((-1i16).to_le_bytes());
    bytes.extend([0u8; 14]);
    bytes.extend(string(name));
    bytes.extend_from_slice(tail);
    bytes
}

#[test]
fn tileset_with_tiles_and_with_external_file() {
    let mut tail = dword(3);
    tail.extend([1u8, 2, 3, 99]);
    let bytes = tileset(2 | 4, "tiles", &tail);
    let (rest, chunk) = parse_tileset_chunk(&bytes).unwrap();
    assert_eq!(rest, &[99u8][..]);
    assert_eq!(chunk.id, 11);
    assert_eq!(chunk.number_of_tiles, 4);
    assert_eq!((chunk.width, chunk.height), (16, 8));
    assert_eq!(chunk.base_index, -1);
    assert_eq!(chunk.name, "tiles");
    assert!(chunk.flags.tiles());
    assert!(!chunk.flags.external_file());
    assert!(matches!(chunk.tiles, TilesetTiles::CompressedTiles(data) if data == &[1u8, 2, 3][..]));

    let mut tail = dword(7);
    tail.extend(dword(8));
    let bytes = tileset(1, "ext", &tail);
    let (rest, chunk) = parse_tileset_chunk(&bytes).unwrap();
    assert!(rest.is_empty());
    assert!(matches!(
        chunk.tiles,
        TilesetTiles::TilesetExternalFile { external_file_id: 7, tileset_id: 8 }
    ));
}

#[test]
fn tileset_must_hold_tiles_or_a_link_and_not_both() {
    assert_eq!(parse_tileset_chunk(&tileset(0, "n", &[])).unwrap_err(), ParseError::InvalidTilesetFlags(0));
    assert_eq!(parse_tileset_chunk(&tileset(3, "n", &[])).unwrap_err(), ParseError::InvalidTilesetFlags(3));
    assert_eq!(parse_tileset_chunk(&tileset(4, "n", &[])).unwrap_err(), ParseError::InvalidTilesetFlags(4));
    assert_eq!(parse_tileset_chunk(&tileset(1, "n", &[])).unwrap_err(), ParseError::UnexpectedEof);
    assert_eq!(parse_tileset_chunk(&[0u8; 7]).unwrap_err(), ParseError::UnexpectedEof);
}

#[test]
fn external_file_and_tiles_on_their_own() {
    let mut bytes = dword(0x01020304);
    bytes.extend(dword(0x0a0b0c0d));
    bytes.push(1);
    let (rest, tiles) = parse_external_file(&bytes).unwrap();
    assert_eq!(rest, &[1u8][..]);
    assert!(matches!(
        tiles,
        TilesetTiles::TilesetExternalFile { external_file_id: 0x01020304, tileset_id: 0x0a0b0c0d }
    ));
    assert_eq!(parse_external_file(&bytes[..7]).unwrap_err(), ParseError::UnexpectedEof);
    let mut bytes = dword(2);
    bytes.extend([5u8, 6, 7]);
    let (rest, tiles) = parse_tiles(&bytes).unwrap();
    assert_eq!(rest, &[7u8][..]);
    assert!(matches!(tiles, TilesetTiles::CompressedTiles(data) if data == &[5u8, 6][..]));
    assert_eq!(parse_tiles(&bytes[..5]).unwrap_err(), ParseError::UnexpectedEof);
}

#[test]
fn color_profile_with_and_without_icc() {
    let mut bytes = word(1);
    bytes.extend(word(1));
    bytes.extend(dword(0x00023333));
    bytes.extend([0u8; 8]);
    let (rest, chunk) = parse_color_profile_chunk(&bytes).unwrap();
    assert!(rest.is_empty());
    assert_eq!(chunk.profile_type, ColorProfileType::Srgb);
    assert_eq!(chunk.flags, 1);
    assert_eq!(chunk.fixed_gamma, 0x00023333);
    assert_eq!(chunk.icc_profile, None);
    let mut bytes = word(2);
    bytes.extend(word(0));
    bytes.extend(dword(0));
    bytes.extend([0u8; 8]);
    bytes.extend(dword(2));
    bytes.extend([0xaau8, 0xbb]);
    let (_, chunk) = parse_color_profile_chunk(&bytes).unwrap();
    assert_eq!(chunk.profile_type, ColorProfileType::EmbeddedIcc);
    assert_eq!(chunk.icc_profile, Some(&[0xaau8, 0xbb][..]));
    assert_eq!(parse_color_profile_chunk(&bytes[..21]).unwrap_err(), ParseError::UnexpectedEof);
}

#[test]
fn external_files_chunk_entries() {
    let mut bytes = dword(2);
    bytes.extend([0u8; 8]);
    bytes.extend(dword(1));
    bytes.push(0);
    bytes.extend([0u8; 7]);
    bytes.extend(string("pal.aseprite"));
    bytes.extend(dword(2));
    bytes.push(1);
    bytes.extend([0u8; 7]);
    bytes.extend(string("tiles.aseprite"));
    let (rest, chunk) = parse_external_files_chunk(&bytes).unwrap();
    assert!(rest.is_empty());
    assert_eq!(chunk.files.len(), 2);
    assert_eq!((chunk.files[0].id, chunk.files[0].file_type, chunk.files[0].name), (1, 0, "pal.aseprite"));
    assert_eq!((chunk.files[1].id, chunk.files[1].file_type, chunk.files[1].name), (2, 1, "tiles.aseprite"));
}

#[test]
fn slice_chunk_keys_follow_the_flags() {
    let mut bytes = dword(2);
    bytes.extend(dword(3));
    bytes.extend(dword(0));
    bytes.extend(string("hit"));
    for frame in 0u32..2 {
        bytes.extend(dword(frame));
        bytes.extend((-1i32).to_le_bytes());
        bytes.extend(2i32.to_le_bytes());
        bytes.extend(dword(10));
        bytes.extend(dword(20));
        bytes.extend(1i32.to_le_bytes());
        bytes.extend(1i32.to_le_bytes());
        bytes.extend(dword(8));
        bytes.extend(dword(18));
        bytes.extend(5i32.to_le_bytes());
        bytes.extend((-6i32).to_le_bytes());
    }
    let (rest, chunk) = parse_slice_chunk(&bytes).unwrap();
    assert!(rest.is_empty());
    assert_eq!(chunk.name, "hit");
    assert!(chunk.flags.nine_patch() && chunk.flags.pivot());
    assert_eq!(chunk.slice_keys.len(), 2);
    let key = chunk.slice_keys[1];
    assert_eq!((key.frame_number, key.x, key.y, key.width, key.height), (1, -1, 2, 10, 20));
    let center = key.nine_patch.unwrap();
    assert_eq!((center.x, center.y, center.width, center.height), (1, 1, 8, 18));
    let pivot = key.pivot.unwrap();
    assert_eq!((pivot.x, pivot.y), (5, -6));

    let mut plain = dword(1);
    plain.extend(dword(0));
    plain.extend(dword(0));
    plain.extend(string("s"));
    plain.extend(dword(0));
    plain.extend(0i32.to_le_bytes());
    plain.extend(0i32.to_le_bytes());
    plain.extend(dword(1));
    plain.extend(dword(1));
    let (_, chunk) = parse_slice_chunk(&plain).unwrap();
    assert_eq!(chunk.slice_keys[0].nine_patch, None);
    assert_eq!(chunk.slice_keys[0].pivot, None);
    assert_eq!(parse_slice_chunk(&plain[..plain.len() - 1]).unwrap_err(), ParseError::UnexpectedEof);
}

#[test]
fn cel_extra_mask_and_old_palette() {
    let mut bytes = dword(1);
    bytes.extend(0x00018000i32.to_le_bytes());
    bytes.extend((-0x00010000i32).to_le_bytes());
    bytes.extend(0x00100000i32.to_le_bytes());
    bytes.extend(0x00200000i32.to_le_bytes());
    bytes.extend([0u8; 16]);
    let (rest, extra) = parse_cel_extra_chunk(&bytes).unwrap();
    assert!(rest.is_empty());
    assert_eq!((extra.flags, extra.x, extra.y), (1, 0x18000, -0x10000));
    assert_eq!((extra.width, extra.height), (0x100000, 0x200000));
    assert_eq!(parse_cel_extra_chunk(&bytes[..35]).unwrap_err(), ParseError::UnexpectedEof);

    let mut bytes = (-2i16).to_le_bytes().to_vec();
    bytes.extend(3i16.to_le_bytes());
    bytes.extend(word(9));
    bytes.extend(word(2));
    bytes.extend([0u8; 8]);
    bytes.extend(string("m"));
    bytes.extend([1u8, 2, 3, 4, 5]);
    let (rest, mask) = parse_mask_chunk(&bytes).unwrap();
    assert_eq!(rest, &[5u8][..]);
    assert_eq!((mask.x, mask.y, mask.width, mask.height, mask.name), (-2, 3, 9, 2, "m"));
    assert_eq!(mask.data, &[1u8, 2, 3, 4][..]);

    let mut bytes = word(2);
    bytes.extend([0u8, 2, 1, 2, 3, 4, 5, 6]);
    bytes.extend([3u8, 1, 7, 8, 9]);
    let (rest, chunk) = parse_old_palette_chunk(&bytes).unwrap();
    assert!(rest.is_empty());
    assert_eq!(chunk.packets.len(), 2);
    assert_eq!(chunk.packets[0].entries_to_skip, 0);
    assert_eq!(chunk.packets[0].colors, &[1u8, 2, 3, 4, 5, 6][..]);
    assert_eq!(chunk.packets[1].entries_to_skip, 3);
    assert_eq!(chunk.packets[1].colors, &[7u8, 8, 9][..]);
    let mut full = word(1);
    full.extend([0u8, 0]);
    full.extend(vec![7u8; 768]);
    let (_, chunk) = parse_old_palette_chunk(&full).unwrap();
    assert_eq!(chunk.packets[0].colors.len(), 768);
}

#[test]
fn chunk_is_framed_by_its_size() {
    let mut bytes = chunk(0x2020, &{
        let mut body = dword(1);
        body.extend(string("hello"));
        body.extend([1u8, 2, 3]);
        body
    });
    bytes.extend([0xabu8, 0xcd]);
    let (rest, parsed) = parse_chunk(&bytes).unwrap();
    assert_eq!(rest, &[0xabu8, 0xcd][..]);
    match parsed {
        Chunk::UserData(user_data) => assert_eq!(user_data.text, Some("hello")),
        other => panic!("{other:?}"),
    }
}

#[test]
fn chunk_of_unknown_type_keeps_its_bytes() {
    let bytes = chunk(0x1234, &[1, 2, 3]);
    let (rest, parsed) = parse_chunk(&bytes).unwrap();
    assert!(rest.is_empty());
    assert!(matches!(parsed, Chunk::Unsupported(0x1234, data) if data == &[1u8, 2, 3][..]));
    let bytes = chunk(0x2017, &[]);
    let (_, path) = parse_chunk(&bytes).unwrap();
    assert!(matches!(path, Chunk::Path));
}

#[test]
fn chunk_size_must_fit() {
    for size in 0u32..6 {
        let mut bytes = dword(size);
        bytes.extend(word(0x2017));
        assert_eq!(parse_chunk(&bytes).unwrap_err(), ParseError::InvalidChunkSize(size));
    }
    let mut bytes = dword(7);
    bytes.extend(word(0x2017));
    assert_eq!(parse_chunk(&bytes).unwrap_err(), ParseError::InvalidChunkSize(7));
    assert_eq!(parse_chunk(&[6, 0, 0]).unwrap_err(), ParseError::UnexpectedEof);
    let inner = chunk(0x2018, &[5, 0]);
    assert_eq!(parse_chunk(&inner).unwrap_err(), ParseError::UnexpectedEof);
}

#[test]
fn chunks_are_read_by_count() {
    let mut bytes = chunk(0x2017, &[]);
    bytes.extend(chunk(0x9999, &[1]));
    bytes.extend(chunk(0x2017, &[]));
    let (rest, chunks) = parse_chunks(&bytes, 2).unwrap();
    assert_eq!(chunks.len(), 2);
    assert_eq!(rest.len(), 6);
    assert!(chunks[1].is_user_data() == false);
    assert_eq!(parse_chunks(&bytes, 4).unwrap_err(), ParseError::UnexpectedEof);
    let (rest, none) = parse_chunks(&bytes, 0).unwrap();
    assert!(none.is_empty());
    assert_eq!(rest.len(), bytes.len());
}

#[test]
fn frame_uses_the_new_chunk_count_unless_it_is_zero() {
    let chunks = vec![chunk(0x2017, &[]), chunk(0x2017, &[]), chunk(0x2017, &[])];
    let bytes = frame(100, 1, 3, &chunks);
    let (_, both) = parse_rawframe(&bytes).unwrap();
    assert_eq!(both.chunks.len(), 3);
    assert_eq!(both.duration, 100);
    let bytes = frame(50, 2, 0, &chunks);
    let (_, old_only) = parse_rawframe(&bytes).unwrap();
    assert_eq!(old_only.chunks.len(), 2);
    let bytes = frame(50, 0xffff, 1, &chunks);
    let (_, new_only) = parse_rawframe(&bytes).unwrap();
    assert_eq!(new_only.chunks.len(), 1);
}

#[test]
fn frame_magic_and_size_are_checked() {
    let good = frame(1, 0, 0, &[]);
    let mut bad_magic = good.clone();
    bad_magic[4] = 0xfb;
    assert_eq!(parse_rawframe(&bad_magic).unwrap_err(), ParseError::InvalidFrameMagic(0xf1fb));
    let mut small = good.clone();
    small[0] = 15;
    assert_eq!(parse_rawframe(&small).unwrap_err(), ParseError::InvalidFrameSize(15));
    let mut large = good.clone();
    large[0] = 17;
    assert_eq!(parse_rawframe(&large).unwrap_err(), ParseError::InvalidFrameSize(17));
    assert_eq!(parse_rawframe(&good[..3]).unwrap_err(), ParseError::UnexpectedEof);
    let missing = frame(1, 0, 2, &[chunk(0x2017, &[])]);
    assert_eq!(parse_rawframe(&missing).unwrap_err(), ParseError::UnexpectedEof);
}

#[test]
fn frames_take_every_byte() {
    let mut bytes = frame(10, 0, 0, &[]);
    bytes.extend(frame(20, 0, 1, &[chunk(0x2017, &[])]));
    let (rest, frames) = parse_frames(&bytes).unwrap();
    assert!(rest.is_empty());
    assert_eq!(frames.len(), 2);
    assert_eq!(frames[0].duration, 10);
    assert_eq!(frames[1].duration, 20);
    assert_eq!(parse_frames(&[]).unwrap_err(), ParseError::NoFrames);
    bytes.extend([1u8, 2, 3]);
    assert_eq!(parse_frames(&bytes).unwrap_err(), ParseError::UnexpectedEof);
}

#[test]
fn raw_frame_lists_its_cels() {
    let mut cel = cel_head(3, 1, 2, 255, 1, 0);
    cel.extend(word(0));
    let chunks = vec![chunk(0x2017, &[]), chunk(0x2005, &cel), chunk(0x2020, &dword(0)), chunk(0x2005, &cel)];
    let bytes = frame(1, 4, 4, &chunks);
    let (_, raw) = parse_rawframe(&bytes).unwrap();
    let cels = raw.cels();
    assert_eq!(cels.len(), 2);
    assert_eq!(cels[0].layer_index, 3);
    assert_eq!((cels[1].x, cels[1].y), (1, 2));
}

#[test]
fn file_is_bounded_by_its_declared_size() {
    let body = frame(100, 0, 0, &[]);
    let mut bytes = header(128 + body.len() as u32, 1, 4, 4, 32);
    bytes.extend_from_slice(&body);
    let file = parse_raw_file(&bytes).unwrap();
    assert_eq!(file.frames.len(), 1);
    assert_eq!(file.header.width, 4);
    let mut padded = bytes.clone();
    padded.extend([0xffu8; 5]);
    assert_eq!(parse_raw_file(&padded).unwrap().frames.len(), 1);
    let mut too_long = header(128 + body.len() as u32 + 1, 1, 4, 4, 32);
    too_long.extend_from_slice(&body);
    assert_eq!(
        parse_raw_file(&too_long).unwrap_err(),
        ParseError::InvalidFileSize(128 + body.len() as u32 + 1)
    );
    let mut too_short = header(127, 1, 4, 4, 32);
    too_short.extend_from_slice(&body);
    assert_eq!(parse_raw_file(&too_short).unwrap_err(), ParseError::InvalidFileSize(127));
    let empty = header(128, 0, 4, 4, 32);
    assert_eq!(parse_raw_file(&empty).unwrap_err(), ParseError::NoFrames);
    assert_eq!(parse_raw_file(&bytes[..100]).unwrap_err(), ParseError::UnexpectedEof);
}
