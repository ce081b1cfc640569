use render_core::compose::compose_border;
use render_core::frame::{GlCommand, Renderer};
use render_core::geometry::{
    modulation_matrix, DrawConfig, QuadDraw, Rectangle, Texture, TextureSection, UNIT_CHANNEL,
};

const COLOR: (u32, u32, u32) = (111, 222, 333);

fn config(flip_horizontally: bool, flip_vertically: bool) -> DrawConfig {
    DrawConfig { color_modulation: COLOR, flip_horizontally, flip_vertically }
}

fn full(texture: &Texture) -> TextureSection {
    TextureSection { texture: *texture, offset: (0, 0), extent: (texture.width, texture.height) }
}

#[test]
fn end_to_end_forty_square_with_sixteen_tiles() {
    // 40 = 2 * 16 + 8 on both axes: per side two full tiles plus one
    // remainder of 8 pixels, mirrored onto the opposite edge.
    let rect = Rectangle { position: (3, 7), size: (40, 40), color: COLOR };
    let vertical = Texture { id: 10, width: 16, height: 16 };
    let horizontal = Texture { id: 11, width: 16, height: 16 };
    let quads = compose_border(&rect, &vertical, &horizontal);

    let v_rem = TextureSection { texture: vertical, offset: (0, 8), extent: (16, 8) };
    let h_rem = TextureSection { texture: horizontal, offset: (8, 0), extent: (8, 16) };
    let expected = vec![
        // Vertical edges, full tiles bottom-up: left unflipped, right mirrored.
        QuadDraw { section: full(&vertical), position: (3, 31), config: config(false, false) },
        QuadDraw { section: full(&vertical), position: (27, 31), config: config(true, false) },
        QuadDraw { section: full(&vertical), position: (3, 15), config: config(false, false) },
        QuadDraw { section: full(&vertical), position: (27, 15), config: config(true, false) },
        // Vertical remainder: bottom 8 rows of the tile, at the rectangle's top.
        QuadDraw { section: v_rem, position: (3, 7), config: config(false, false) },
        QuadDraw { section: v_rem, position: (27, 7), config: config(true, false) },
        // Horizontal edges, full tiles right-to-left: bottom unflipped, top mirrored.
        QuadDraw { section: full(&horizontal), position: (27, 31), config: config(false, false) },
        QuadDraw { section: full(&horizontal), position: (27, 7), config: config(false, true) },
        QuadDraw { section: full(&horizontal), position: (11, 31), config: config(false, false) },
        QuadDraw { section: full(&horizontal), position: (11, 7), config: config(false, true) },
        // Horizontal remainder: rightmost 8 columns of the tile, at the left edge.
        QuadDraw { section: h_rem, position: (3, 31), config: config(false, false) },
        QuadDraw { section: h_rem, position: (3, 7), config: config(false, true) },
    ];
    assert_eq!(quads, expected);
}

#[test]
fn tiling_counts_follow_division() {
    // height 50 = 3 * 16 + 2: three full pairs and a remainder pair of height 2.
    let rect = Rectangle { position: (0, 0), size: (50, 50), color: COLOR };
    let vertical = Texture { id: 1, width: 16, height: 16 };
    let horizontal = Texture { id: 2, width: 16, height: 16 };
    let quads = compose_border(&rect, &vertical, &horizontal);
    let vertical_draws: Vec<&QuadDraw> =
        quads.iter().filter(|q| q.section.texture.id == 1).collect();
    assert_eq!(vertical_draws.len(), 2 * 3 + 2);
    let remainder = vertical_draws[6];
    assert_eq!(remainder.section.offset, (0, 14));
    assert_eq!(remainder.section.extent, (16, 2));
}

#[test]
fn exact_multiple_leaves_no_remainder() {
    let rect = Rectangle { position: (5, 6), size: (32, 48), color: COLOR };
    let vertical = Texture { id: 1, width: 16, height: 16 };
    let horizontal = Texture { id: 2, width: 16, height: 16 };
    let quads = compose_border(&rect, &vertical, &horizontal);
    // 48 / 16 = 3 vertical pairs, 32 / 16 = 2 horizontal pairs, nothing else.
    assert_eq!(quads.len(), 2 * 3 + 2 * 2);
    for quad in &quads {
        assert_eq!(quad.section.offset, (0, 0));
        assert!(quad.section.extent.0 > 0 && quad.section.extent.1 > 0);
    }
}

#[test]
fn rectangle_smaller_than_tile_is_all_remainder() {
    let rect = Rectangle { position: (-4, -9), size: (10, 10), color: COLOR };
    let vertical = Texture { id: 1, width: 16, height: 16 };
    let horizontal = Texture { id: 2, width: 16, height: 16 };
    let quads = compose_border(&rect, &vertical, &horizontal);
    assert_eq!(quads.len(), 4);
    // Bottom 10 rows of the vertical tile at the rectangle's top corners.
    assert_eq!(quads[0].section, TextureSection { texture: vertical, offset: (0, 6), extent: (16, 10) });
    assert_eq!(quads[0].position, (-4, -9));
    assert_eq!(quads[1].position, (-4 + 10 - 16, -9));
    assert!(quads[1].config.flip_horizontally);
    // Rightmost 10 columns of the horizontal tile at the left edge.
    assert_eq!(quads[2].section, TextureSection { texture: horizontal, offset: (6, 0), extent: (10, 16) });
    assert_eq!(quads[2].position, (-4, -9 + 10 - 16));
    assert_eq!(quads[3].position, (-4, -9));
    assert!(quads[3].config.flip_vertically);
}

#[test]
fn remainder_sits_at_the_origin_corner() {
    let rect = Rectangle { position: (100, 200), size: (20, 20), color: COLOR };
    let vertical = Texture { id: 1, width: 16, height: 16 };
    let horizontal = Texture { id: 2, width: 16, height: 16 };
    let quads = compose_border(&rect, &vertical, &horizontal);
    // One full pair per axis, then the remainder pair.
    // Vertical remainder (draws 2 and 3) is top-aligned.
    assert_eq!(quads[2].position.1, 200);
    assert_eq!(quads[3].position.1, 200);
    // Horizontal remainder (draws 6 and 7) is left-aligned.
    assert_eq!(quads[6].position.0, 100);
    assert_eq!(quads[7].position.0, 100);
}

#[test]
fn every_border_draw_has_positive_area() {
    let vertical = Texture { id: 1, width: 16, height: 16 };
    let horizontal = Texture { id: 2, width: 16, height: 16 };
    for (w, h) in [(1u32, 1u32), (16, 16), (17, 15), (40, 40), (33, 64)] {
        let rect = Rectangle { position: (0, 0), size: (w, h), color: COLOR };
        let quads = compose_border(&rect, &vertical, &horizontal);
        for quad in &quads {
            assert!(quad.section.extent.0 > 0, "{}x{}", w, h);
            assert!(quad.section.extent.1 > 0, "{}x{}", w, h);
        }
    }
}

#[test]
fn drawing_a_border_interleaves_binds_and_draws() {
    let mut renderer = Renderer::new(1, 0, 0);
    renderer.clear_color(0, (0, 0, 0, 0));
    let rect = Rectangle { position: (3, 7), size: (40, 40), color: COLOR };
    let vertical = Texture { id: 10, width: 16, height: 16 };
    let horizontal = Texture { id: 11, width: 16, height: 16 };
    // One quad per draw call, as the execution protocol demands; each
    // quad's run would be executed before the next draw.
    let mut cmds: Vec<GlCommand> = Vec::new();
    for quad in compose_border(&rect, &vertical, &horizontal) {
        cmds.extend(renderer.draw(quad));
    }
    // Twelve draws, one texture bind per edge texture, no program rebinds.
    assert_eq!(cmds.len(), 14);
    assert_eq!(cmds[0], GlCommand::BindTexture(10));
    assert!(matches!(cmds[1], GlCommand::DrawQuad(_)));
    assert_eq!(cmds[7], GlCommand::BindTexture(11));
    let draws = cmds
        .iter()
        .filter(|c| matches!(c, GlCommand::DrawQuad(_)))
        .count();
    assert_eq!(draws, 12);
    let binds = cmds
        .iter()
        .filter(|c| matches!(c, GlCommand::BindTexture(_)))
        .count();
    assert_eq!(binds, 2);
}

#[test]
fn modulation_matrix_is_diagonal_with_unit_alpha() {
    let matrix = modulation_matrix((7, 8, 9));
    assert_eq!(
        matrix,
        vec![7, 0, 0, 0, 0, 8, 0, 0, 0, 0, 9, 0, 0, 0, 0, UNIT_CHANNEL]
    );
}

#[test]
fn default_config_is_neutral() {
    let config = DrawConfig::default();
    assert_eq!(config.color_modulation, (UNIT_CHANNEL, UNIT_CHANNEL, UNIT_CHANNEL));
    assert!(!config.flip_horizontally);
    assert!(!config.flip_vertically);
}
