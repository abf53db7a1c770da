use voxel::renderer::textures::{decode_text_atlas, decode_texture_array, mip_levels_for, TextureError};
use voxel::renderer::text_renderer::{
    index_buffer_contents, load_glyph_table, r8g8b8a8_to_r6g6b6a3, u32_r8g8b8a8_to_r6g6b6a3, Align, ColorRange,
    Extent2D, GlyphData, GlyphTableError, GlyphVertex, Linebreaks, Style, TextColor, TextRenderer,
};
use voxel::renderer::ui_renderer::{UiRenderer, UiVertex};

fn glyphs(advance: u8) -> Vec<GlyphData> {
    (0..256u32).map(|i| GlyphData { char: i, base_and_dims: 0, advance, layer: 0 }).collect()
}

fn renderer(advance: u8) -> TextRenderer {
    TextRenderer::new(glyphs(advance), Extent2D { width: 800, height: 600 }, GlyphVertex { d1: 0, d2: 0 })
}

#[test]
fn colors_pack_to_r6g6b6a3() {
    assert_eq!(r8g8b8a8_to_r6g6b6a3(255, 255, 255, 255), 0x1F_FFFF);
    assert_eq!(r8g8b8a8_to_r6g6b6a3(0, 0, 0, 0), 0);
    assert_eq!(u32_r8g8b8a8_to_r6g6b6a3(0xa7a4bfFF), 1397639);
    assert_eq!(TextColor::from_rgba32(0xa7a4bfFF), TextColor::from_rgba(0xa7, 0xa4, 0xbf, 0xff));
    // Channels are rounded to the nearest representable value.
    assert_eq!(r8g8b8a8_to_r6g6b6a3(2, 0, 0, 0), 1 << 15);
    assert_eq!(r8g8b8a8_to_r6g6b6a3(1, 0, 0, 0), 0);
}

#[test]
fn index_buffer_makes_two_triangles_per_quad() {
    let idx = index_buffer_contents();
    assert_eq!(&idx[..12], &[0, 1, 2, 1, 2, 3, 4, 5, 6, 5, 6, 7]);
}

#[test]
fn widths_and_glyph_positions() {
    let tr = renderer(6);
    assert_eq!(tr.compute_width("abc"), 54);
    assert_eq!(tr.compute_width(""), 0);
    assert_eq!(tr.compute_glyph_idx_at_pos("abc", 0), 0);
    assert_eq!(tr.compute_glyph_idx_at_pos("abc", 10), 1);
    assert_eq!(tr.compute_glyph_idx_at_pos("abc", 1000), 3);
}

#[test]
fn linebreaks_end_with_the_byte_length() {
    let tr = renderer(6);
    // 18 pixels per character: "aaaa bbbb" breaks before "bbbb" at 100 pixels.
    let lb: Linebreaks = tr.compute_linebreaks("aaaa bbbb", 100);
    assert_eq!(lb.to_vec(), vec![5, 9]);
    assert_eq!(tr.compute_linebreaks("", 100).to_vec(), vec![0]);
    assert_eq!(tr.compute_linebreaks("ab", 1000).to_vec(), vec![2]);
    let breaks = tr.compute_linebreaks("äbc def ghi", 60).to_vec();
    assert_eq!(*breaks.last().unwrap() as usize, "äbc def ghi".len());
    assert!(breaks.windows(2).all(|w| w[0] < w[1]));
}

#[test]
fn drawing_text_queues_one_vertex_per_visible_glyph() {
    let mut tr = renderer(6);
    let colors = [ColorRange::new(TextColor::from_rgba32(0xFF0000FF), u32::MAX)];
    let style = Style { align: Align::Left, italic: false, max_line_width_px: u32::MAX, colors: &colors };
    let end = tr.draw_2d("a b", 10, 20, style);
    // The text's width: three glyphs of 6 font pixels, 3 screen pixels each.
    assert_eq!(end, (54, 20));
    assert_eq!(tr.compute_width("a b"), 54);
    // An empty string has no width.
    assert_eq!(tr.draw_2d("", 5, 7, style), (0, 7));
    // The scale entry and two glyphs; the space has none.
    assert_eq!(tr.vertices().len(), 3);
}

#[test]
fn glyph_table_loads_from_lz4() {
    let mut raw = Vec::new();
    for i in 0..256u32 {
        raw.extend_from_slice(&i.to_le_bytes());
        raw.extend_from_slice(&0x1234u16.to_le_bytes());
        raw.push(7);
        raw.push(3);
    }
    let compressed = lz4::block::compress(&raw, None, true).unwrap();
    let table = load_glyph_table(&compressed).unwrap();
    assert_eq!(table.len(), 256);
    assert_eq!(table[65], GlyphData { char: 65, base_and_dims: 0x1234, advance: 7, layer: 3 });

    let short = lz4::block::compress(&raw[..16], None, true).unwrap();
    assert_eq!(load_glyph_table(&short), Err(GlyphTableError::WrongSize));
    assert_eq!(load_glyph_table(&[1, 2]), Err(GlyphTableError::Decompress));
    // A size prefix with its top bit set is negative and refused.
    assert_eq!(load_glyph_table(&[0, 0, 0, 0x80, 1, 2, 3]), Err(GlyphTableError::Decompress));
}

#[test]
fn rectangles_are_two_triangles_in_big_endian_color() {
    let mut ui = UiRenderer::new(renderer(6));
    ui.draw_rect_xy_wh((1, 2), (3, 4), 0x11223344);
    let v = ui.vertices();
    assert_eq!(v.len(), 6);
    let c = 0x11223344u32.to_be();
    assert_eq!(v[0], UiVertex { x: 1, y: 2, color_or_uv: c });
    assert_eq!(v[5], UiVertex { x: 4, y: 6, color_or_uv: c });
    // In memory the color's bytes are red, green, blue, alpha.
    assert_eq!(v[0].color_or_uv.to_ne_bytes(), [0x11, 0x22, 0x33, 0x44]);
}

#[test]
fn colored_vertices_pack_channels_and_cut_positions() {
    let mut ui = UiRenderer::new(renderer(5));
    ui.draw_colored(&[((10, 20), (0x11, 0x22, 0x33, 0x44)), ((70000, -1), (0x1ff, 0, 0, 1))]);
    let v = ui.vertices();
    assert_eq!(v.len(), 2);
    assert_eq!(v[0], UiVertex { x: 10, y: 20, color_or_uv: 0x11223344 });
    // 70000 is cut to 70000 - 65536; -1 to 0xffff; the ninth bit of red is shifted out.
    assert_eq!(v[1], UiVertex { x: 4464, y: 0xffff, color_or_uv: 0xff000001 });
}

#[test]
fn texture_assets_decode() {
    let raw: Vec<u8> = (0..2048 + 5).map(|i| (i % 251) as u8).collect();
    let compressed = lz4::block::compress(&raw, None, true).unwrap();
    let t = decode_texture_array(&compressed).ok().unwrap();
    assert_eq!(t.bytes, raw);
    assert_eq!(t.layers, 2);
    assert_eq!(t.mip_levels, 5);
    assert_eq!(decode_text_atlas(&compressed), Ok(raw));
    assert!(decode_texture_array(&[1, 2]).is_err());
    assert_eq!(decode_text_atlas(&[0, 0, 0, 0x80]), Err(TextureError::Decompress));
    assert_eq!(mip_levels_for(16), 5);
    assert_eq!(mip_levels_for(128), 8);
}
