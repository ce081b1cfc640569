//! Tiled-rectangle border composition.
//!
//! A bordered rectangle is built from two small repeating edge textures: a
//! vertical tile repeated along the left edge (and mirrored onto the right
//! edge) and a horizontal tile repeated along the bottom edge (and mirrored
//! onto the top edge). Where a dimension is not an exact multiple of the
//! tile's, one partial tile — a section of the tile — fills the rest.
//!
//! Vertical tiles are stacked from the bottom of the rectangle upward and
//! horizontal tiles from the right edge leftward, so that the partial tile
//! always lands at the rectangle's origin corner: at its top for the
//! vertical edges, at its left for the horizontal edges. A partial tile of
//! zero size is skipped entirely rather than drawn.

use vstd::prelude::*;
use vstd::arithmetic::div_mod::{
    lemma_fundamental_div_mod, lemma_fundamental_div_mod_converse,
    lemma_mod_division_less_than_divisor, lemma_mod_sub_multiples_vanish, lemma_small_mod,
};
use crate::geometry::{DrawConfig, QuadDraw, Rectangle, Texture, TextureSection};

verus! {

/// Surface x of the mirrored right-edge column of vertical tiles.
pub open spec fn right_edge_x(rect: Rectangle, vertical: Texture) -> int {
    rect.position.0 + rect.size.0 - vertical.width
}

/// Surface y of the bottom row of horizontal tiles.
pub open spec fn bottom_edge_y(rect: Rectangle, horizontal: Texture) -> int {
    rect.position.1 + rect.size.1 - horizontal.height
}

/// The pair of full vertical-tile draws whose top edge sits `height`
/// surface pixels below the rectangle's top: left edge unflipped, right
/// edge mirrored horizontally.
pub open spec fn vertical_pair(rect: Rectangle, vertical: Texture, height: int) -> Seq<QuadDraw> {
    seq![
        QuadDraw {
            section: vertical.spec_full_section(),
            position: (rect.position.0, (rect.position.1 + height) as i32),
            config: DrawConfig::spec_new(rect.color, false, false),
        },
        QuadDraw {
            section: vertical.spec_full_section(),
            position: (right_edge_x(rect, vertical) as i32, (rect.position.1 + height) as i32),
            config: DrawConfig::spec_new(rect.color, true, false),
        },
    ]
}

/// All full vertical-tile draw pairs for a rectangle of remaining height
/// `height`, stacked bottom-up: the first pair is the lowest.
pub open spec fn vertical_full_draws(rect: Rectangle, vertical: Texture, height: int) -> Seq<
    QuadDraw,
>
    decreases height,
{
    if vertical.height <= 0 || height < vertical.height {
        seq![]
    } else {
        vertical_pair(rect, vertical, height - vertical.height) + vertical_full_draws(
            rect,
            vertical,
            height - vertical.height,
        )
    }
}

/// The pair of partial vertical-tile draws for a leftover height of
/// `height` pixels: the bottom `height` rows of the tile, drawn at the
/// rectangle's top on both edges. Empty when nothing is left over.
pub open spec fn vertical_remainder_draws(rect: Rectangle, vertical: Texture, height: int) -> Seq<
    QuadDraw,
> {
    if height <= 0 {
        seq![]
    } else {
        seq![
            QuadDraw {
                section: TextureSection {
                    texture: vertical,
                    offset: (0, (vertical.height - height) as u32),
                    extent: (vertical.width, height as u32),
                },
                position: rect.position,
                config: DrawConfig::spec_new(rect.color, false, false),
            },
            QuadDraw {
                section: TextureSection {
                    texture: vertical,
                    offset: (0, (vertical.height - height) as u32),
                    extent: (vertical.width, height as u32),
                },
                position: (right_edge_x(rect, vertical) as i32, rect.position.1),
                config: DrawConfig::spec_new(rect.color, true, false),
            },
        ]
    }
}

/// The pair of full horizontal-tile draws whose left edge sits `pos`
/// surface pixels right of the rectangle's left edge: bottom edge
/// unflipped, top edge mirrored vertically.
pub open spec fn horizontal_pair(rect: Rectangle, horizontal: Texture, pos: int) -> Seq<QuadDraw> {
    seq![
        QuadDraw {
            section: horizontal.spec_full_section(),
            position: ((rect.position.0 + pos) as i32, bottom_edge_y(rect, horizontal) as i32),
            config: DrawConfig::spec_new(rect.color, false, false),
        },
        QuadDraw {
            section: horizontal.spec_full_section(),
            position: ((rect.position.0 + pos) as i32, rect.position.1),
            config: DrawConfig::spec_new(rect.color, false, true),
        },
    ]
}

/// All full horizontal-tile draw pairs for a rectangle of remaining width
/// `pos`, laid right-to-left: the first pair is the rightmost.
pub open spec fn horizontal_full_draws(rect: Rectangle, horizontal: Texture, pos: int) -> Seq<
    QuadDraw,
>
    decreases pos,
{
    if horizontal.width <= 0 || pos < horizontal.width {
        seq![]
    } else {
        horizontal_pair(rect, horizontal, pos - horizontal.width) + horizontal_full_draws(
            rect,
            horizontal,
            pos - horizontal.width,
        )
    }
}

/// The pair of partial horizontal-tile draws for a leftover width of `pos`
/// pixels: the rightmost `pos` columns of the tile, drawn at the
/// rectangle's left on both edges. Empty when nothing is left over.
pub open spec fn horizontal_remainder_draws(rect: Rectangle, horizontal: Texture, pos: int) -> Seq<
    QuadDraw,
> {
    if pos <= 0 {
        seq![]
    } else {
        seq![
            QuadDraw {
                section: TextureSection {
                    texture: horizontal,
                    offset: ((horizontal.width - pos) as u32, 0),
                    extent: (pos as u32, horizontal.height),
                },
                position: (rect.position.0, bottom_edge_y(rect, horizontal) as i32),
                config: DrawConfig::spec_new(rect.color, false, false),
            },
            QuadDraw {
                section: TextureSection {
                    texture: horizontal,
                    offset: ((horizontal.width - pos) as u32, 0),
                    extent: (pos as u32, horizontal.height),
                },
                position: rect.position,
                config: DrawConfig::spec_new(rect.color, false, true),
            },
        ]
    }
}

/// The whole border of a rectangle, in emission order: full vertical pairs
/// bottom-up, the vertical partial pair, full horizontal pairs
/// right-to-left, the horizontal partial pair.
pub open spec fn border_draws(rect: Rectangle, vertical: Texture, horizontal: Texture) -> Seq<
    QuadDraw,
> {
    vertical_full_draws(rect, vertical, rect.size.1 as int) + vertical_remainder_draws(
        rect,
        vertical,
        rect.size.1 as int % vertical.height as int,
    ) + horizontal_full_draws(rect, horizontal, rect.size.0 as int) + horizontal_remainder_draws(
        rect,
        horizontal,
        rect.size.0 as int % horizontal.width as int,
    )
}

/// What composition asks of its inputs: well-formed shapes and tiles, and
/// surface coordinates whose tile placements stay representable.
pub open spec fn compose_pre(rect: Rectangle, vertical: Texture, horizontal: Texture) -> bool {
    &&& rect.wf()
    &&& vertical.wf()
    &&& horizontal.wf()
    &&& rect.size.0 <= i32::MAX
    &&& rect.size.1 <= i32::MAX
    &&& vertical.width <= i32::MAX
    &&& horizontal.height <= i32::MAX
    &&& rect.position.0 + rect.size.0 <= i32::MAX
    &&& rect.position.1 + rect.size.1 <= i32::MAX
    &&& i32::MIN <= right_edge_x(rect, vertical)
    &&& i32::MIN <= bottom_edge_y(rect, horizontal)
}

/// Decomposes the border of `rect` into the textured-quad draw calls that
/// cover it: per axis, one mirrored pair of draws for every full tile and —
/// only when the rectangle's dimension is not an exact multiple of the
/// tile's — one mirrored pair drawing the partial tile at the rectangle's
/// origin corner.
#[verifier::loop_isolation(false)]
pub fn compose_border(rect: &Rectangle, vertical: &Texture, horizontal: &Texture) -> (quads: Vec<
    QuadDraw,
>)
    requires
        compose_pre(*rect, *vertical, *horizontal),
    ensures
        quads@ == border_draws(*rect, *vertical, *horizontal),
{
    let ghost v_full = vertical_full_draws(*rect, *vertical, rect.size.1 as int);
    let ghost v_rem = vertical_remainder_draws(
        *rect,
        *vertical,
        rect.size.1 as int % vertical.height as int,
    );
    let ghost h_full = horizontal_full_draws(*rect, *horizontal, rect.size.0 as int);
    let ghost h_rem = horizontal_remainder_draws(
        *rect,
        *horizontal,
        rect.size.0 as int % horizontal.width as int,
    );

    let mut quads: Vec<QuadDraw> = Vec::new();

    let right_x = rect.position.0 + rect.size.0 as i32 - vertical.width as i32;
    let mut height: u32 = rect.size.1;
    while height >= vertical.height
        invariant
            height <= rect.size.1,
            height as int % vertical.height as int == rect.size.1 as int
                % vertical.height as int,
            quads@ + vertical_full_draws(*rect, *vertical, height as int) == v_full,
        decreases height,
    {
        height = height - vertical.height;
        proof {
            lemma_mod_sub_multiples_vanish(
                height as int + vertical.height as int,
                vertical.height as int,
            );
        }
        let ghost before = quads@;
        quads.push(
            QuadDraw {
                section: vertical.full_section(),
                position: (rect.position.0, rect.position.1 + height as i32),
                config: DrawConfig {
                    color_modulation: rect.color,
                    flip_horizontally: false,
                    flip_vertically: false,
                },
            },
        );
        quads.push(
            QuadDraw {
                section: vertical.full_section(),
                position: (right_x, rect.position.1 + height as i32),
                config: DrawConfig {
                    color_modulation: rect.color,
                    flip_horizontally: true,
                    flip_vertically: false,
                },
            },
        );
        proof {
            assert(quads@ =~= before + vertical_pair(*rect, *vertical, height as int));
            assert(quads@ + vertical_full_draws(*rect, *vertical, height as int) =~= before
                + vertical_full_draws(*rect, *vertical, height as int + vertical.height as int));
        }
    }
    proof {
        lemma_small_mod(height as nat, vertical.height as nat);
        assert(vertical_full_draws(*rect, *vertical, height as int) =~= Seq::<QuadDraw>::empty());
        assert(quads@ =~= v_full);
    }
    if height > 0 {
        let section = TextureSection {
            texture: *vertical,
            offset: (0, vertical.height - height),
            extent: (vertical.width, height),
        };
        quads.push(
            QuadDraw {
                section,
                position: (rect.position.0, rect.position.1),
                config: DrawConfig {
                    color_modulation: rect.color,
                    flip_horizontally: false,
                    flip_vertically: false,
                },
            },
        );
        quads.push(
            QuadDraw {
                section,
                position: (right_x, rect.position.1),
                config: DrawConfig {
                    color_modulation: rect.color,
                    flip_horizontally: true,
                    flip_vertically: false,
                },
            },
        );
    }
    proof {
        assert(quads@ =~= v_full + v_rem);
    }

    let bottom_y = rect.position.1 + rect.size.1 as i32 - horizontal.height as i32;
    let mut pos: u32 = rect.size.0;
    while pos >= horizontal.width
        invariant
            pos <= rect.size.0,
            pos as int % horizontal.width as int == rect.size.0 as int
                % horizontal.width as int,
            quads@ + horizontal_full_draws(*rect, *horizontal, pos as int) == v_full + v_rem
                + h_full,
        decreases pos,
    {
        pos = pos - horizontal.width;
        proof {
            lemma_mod_sub_multiples_vanish(
                pos as int + horizontal.width as int,
                horizontal.width as int,
            );
        }
        let ghost before = quads@;
        quads.push(
            QuadDraw {
                section: horizontal.full_section(),
                position: (rect.position.0 + pos as i32, bottom_y),
                config: DrawConfig {
                    color_modulation: rect.color,
                    flip_horizontally: false,
                    flip_vertically: false,
                },
            },
        );
        quads.push(
            QuadDraw {
                section: horizontal.full_section(),
                position: (rect.position.0 + pos as i32, rect.position.1),
                config: DrawConfig {
                    color_modulation: rect.color,
                    flip_horizontally: false,
                    flip_vertically: true,
                },
            },
        );
        proof {
            assert(quads@ =~= before + horizontal_pair(*rect, *horizontal, pos as int));
            assert(quads@ + horizontal_full_draws(*rect, *horizontal, pos as int) =~= before
                + horizontal_full_draws(
                    *rect,
                    *horizontal,
                    pos as int + horizontal.width as int,
                ));
        }
    }
    proof {
        lemma_small_mod(pos as nat, horizontal.width as nat);
        assert(horizontal_full_draws(*rect, *horizontal, pos as int) =~= Seq::<
            QuadDraw,
        >::empty());
        assert(quads@ =~= v_full + v_rem + h_full);
    }
    if pos > 0 {
        let section = TextureSection {
            texture: *horizontal,
            offset: (horizontal.width - pos, 0),
            extent: (pos, horizontal.height),
        };
        quads.push(
            QuadDraw {
                section,
                position: (rect.position.0, bottom_y),
                config: DrawConfig {
                    color_modulation: rect.color,
                    flip_horizontally: false,
                    flip_vertically: false,
                },
            },
        );
        quads.push(
            QuadDraw {
                section,
                position: (rect.position.0, rect.position.1),
                config: DrawConfig {
                    color_modulation: rect.color,
                    flip_horizontally: false,
                    flip_vertically: true,
                },
            },
        );
    }
    proof {
        assert(quads@ =~= v_full + v_rem + h_full + h_rem);
        assert(quads@ =~= border_draws(*rect, *vertical, *horizontal));
    }
    quads
}

/// Two draws per full tile: for a remaining height of `height` pixels there
/// are exactly `height / tile height` full pairs.
proof fn lemma_vertical_full_count(rect: Rectangle, vertical: Texture, height: int)
    requires
        vertical.wf(),
        height >= 0,
    ensures
        vertical_full_draws(rect, vertical, height).len() == 2 * (height
            / vertical.height as int),
    decreases height,
{
    let vh = vertical.height as int;
    if height < vh {
        lemma_fundamental_div_mod_converse(height, vh, 0, height);
    } else {
        lemma_vertical_full_count(rect, vertical, height - vh);
        let q = (height - vh) / vh;
        let r = (height - vh) % vh;
        lemma_fundamental_div_mod(height - vh, vh);
        lemma_mod_division_less_than_divisor(height - vh, vh);
        assert(height == (q + 1) * vh + r) by (nonlinear_arith)
            requires
                height - vh == vh * q + r,
        ;
        lemma_fundamental_div_mod_converse(height, vh, q + 1, r);
    }
}

/// Two draws per full tile: for a remaining width of `pos` pixels there are
/// exactly `pos / tile width` full pairs.
proof fn lemma_horizontal_full_count(rect: Rectangle, horizontal: Texture, pos: int)
    requires
        horizontal.wf(),
        pos >= 0,
    ensures
        horizontal_full_draws(rect, horizontal, pos).len() == 2 * (pos
            / horizontal.width as int),
    decreases pos,
{
    let hw = horizontal.width as int;
    if pos < hw {
        lemma_fundamental_div_mod_converse(pos, hw, 0, pos);
    } else {
        lemma_horizontal_full_count(rect, horizontal, pos - hw);
        let q = (pos - hw) / hw;
        let r = (pos - hw) % hw;
        lemma_fundamental_div_mod(pos - hw, hw);
        lemma_mod_division_less_than_divisor(pos - hw, hw);
        assert(pos == (q + 1) * hw + r) by (nonlinear_arith)
            requires
                pos - hw == hw * q + r,
        ;
        lemma_fundamental_div_mod_converse(pos, hw, q + 1, r);
    }
}

/// Tiling completeness along the vertical axis: a rectangle whose height is
/// `k` full tiles plus a leftover of `r` pixels gets exactly `k` full-tile
/// draw pairs, one remainder pair when `r > 0`, and none when `r == 0`.
pub proof fn lemma_tiling_completeness(rect: Rectangle, vertical: Texture, k: int, r: int)
    requires
        vertical.wf(),
        rect.size.1 == k * vertical.height + r,
        0 <= r < vertical.height,
    ensures
        vertical_full_draws(rect, vertical, rect.size.1 as int).len() == 2 * k,
        r > 0 ==> vertical_remainder_draws(
            rect,
            vertical,
            rect.size.1 as int % vertical.height as int,
        ).len() == 2,
        r == 0 ==> vertical_remainder_draws(
            rect,
            vertical,
            rect.size.1 as int % vertical.height as int,
        ).len() == 0,
{
    lemma_fundamental_div_mod_converse(rect.size.1 as int, vertical.height as int, k, r);
    lemma_vertical_full_count(rect, vertical, rect.size.1 as int);
}

/// Tiling completeness along the horizontal axis, symmetric to the
/// vertical law: `k` full tiles across the width give `k` full-tile draw
/// pairs plus one remainder pair exactly when `r > 0`.
pub proof fn lemma_tiling_completeness_horizontal(
    rect: Rectangle,
    horizontal: Texture,
    k: int,
    r: int,
)
    requires
        horizontal.wf(),
        rect.size.0 == k * horizontal.width + r,
        0 <= r < horizontal.width,
    ensures
        horizontal_full_draws(rect, horizontal, rect.size.0 as int).len() == 2 * k,
        r > 0 ==> horizontal_remainder_draws(
            rect,
            horizontal,
            rect.size.0 as int % horizontal.width as int,
        ).len() == 2,
        r == 0 ==> horizontal_remainder_draws(
            rect,
            horizontal,
            rect.size.0 as int % horizontal.width as int,
        ).len() == 0,
{
    lemma_fundamental_div_mod_converse(rect.size.0 as int, horizontal.width as int, k, r);
    lemma_horizontal_full_count(rect, horizontal, rect.size.0 as int);
}

/// Remainder placement: both draws of the vertical remainder pair sit at
/// the rectangle's top, and both draws of the horizontal remainder pair sit
/// at the rectangle's left edge.
pub proof fn lemma_remainder_placement(
    rect: Rectangle,
    vertical: Texture,
    horizontal: Texture,
    leftover_height: int,
    leftover_width: int,
)
    requires
        leftover_height > 0,
        leftover_width > 0,
    ensures
        vertical_remainder_draws(rect, vertical, leftover_height)[0].position.1
            == rect.position.1,
        vertical_remainder_draws(rect, vertical, leftover_height)[1].position.1
            == rect.position.1,
        horizontal_remainder_draws(rect, horizontal, leftover_width)[0].position.0
            == rect.position.0,
        horizontal_remainder_draws(rect, horizontal, leftover_width)[1].position.0
            == rect.position.0,
{
}

/// A draw samples at least one texture pixel in each direction.
pub open spec fn positive_area(quad: QuadDraw) -> bool {
    quad.section.extent.0 > 0 && quad.section.extent.1 > 0
}

/// Every draw of the run samples a section of positive area.
pub open spec fn all_positive_area(draws: Seq<QuadDraw>) -> bool {
    forall|i: int| 0 <= i < draws.len() ==> positive_area(#[trigger] draws[i])
}

/// Every full vertical-tile draw covers the whole (positive) tile.
proof fn lemma_vertical_full_positive(rect: Rectangle, vertical: Texture, height: int)
    requires
        vertical.wf(),
    ensures
        all_positive_area(vertical_full_draws(rect, vertical, height)),
    decreases height,
{
    let vh = vertical.height as int;
    if vertical.height <= 0 || height < vh {
    } else {
        lemma_vertical_full_positive(rect, vertical, height - vh);
        let pair = vertical_pair(rect, vertical, height - vh);
        let rest = vertical_full_draws(rect, vertical, height - vh);
        assert forall|i: int|
            0 <= i < vertical_full_draws(rect, vertical, height).len() implies positive_area(
            #[trigger] vertical_full_draws(rect, vertical, height)[i],
        ) by {
            if i < 2 {
                assert(vertical_full_draws(rect, vertical, height)[i] == pair[i]);
            } else {
                assert(vertical_full_draws(rect, vertical, height)[i] == rest[i - 2]);
            }
        }
    }
}

/// Every full horizontal-tile draw covers the whole (positive) tile.
proof fn lemma_horizontal_full_positive(rect: Rectangle, horizontal: Texture, pos: int)
    requires
        horizontal.wf(),
    ensures
        all_positive_area(horizontal_full_draws(rect, horizontal, pos)),
    decreases pos,
{
    let hw = horizontal.width as int;
    if horizontal.width <= 0 || pos < hw {
    } else {
        lemma_horizontal_full_positive(rect, horizontal, pos - hw);
        let pair = horizontal_pair(rect, horizontal, pos - hw);
        let rest = horizontal_full_draws(rect, horizontal, pos - hw);
        assert forall|i: int|
            0 <= i < horizontal_full_draws(rect, horizontal, pos).len() implies positive_area(
            #[trigger] horizontal_full_draws(rect, horizontal, pos)[i],
        ) by {
            if i < 2 {
                assert(horizontal_full_draws(rect, horizontal, pos)[i] == pair[i]);
            } else {
                assert(horizontal_full_draws(rect, horizontal, pos)[i] == rest[i - 2]);
            }
        }
    }
}

/// No degenerate draws: every draw call a border composition emits samples
/// a section of positive area — a zero-size remainder is skipped, never
/// drawn.
pub proof fn lemma_no_zero_area_draws(rect: Rectangle, vertical: Texture, horizontal: Texture)
    requires
        vertical.wf(),
        horizontal.wf(),
    ensures
        all_positive_area(border_draws(rect, vertical, horizontal)),
{
    let v_full = vertical_full_draws(rect, vertical, rect.size.1 as int);
    let leftover_height = rect.size.1 as int % vertical.height as int;
    let v_rem = vertical_remainder_draws(rect, vertical, leftover_height);
    let h_full = horizontal_full_draws(rect, horizontal, rect.size.0 as int);
    let leftover_width = rect.size.0 as int % horizontal.width as int;
    let h_rem = horizontal_remainder_draws(rect, horizontal, leftover_width);
    let all = border_draws(rect, vertical, horizontal);
    lemma_vertical_full_positive(rect, vertical, rect.size.1 as int);
    lemma_horizontal_full_positive(rect, horizontal, rect.size.0 as int);
    lemma_mod_division_less_than_divisor(rect.size.1 as int, vertical.height as int);
    lemma_mod_division_less_than_divisor(rect.size.0 as int, horizontal.width as int);
    assert forall|i: int| 0 <= i < all.len() implies positive_area(#[trigger] all[i]) by {
        if i < v_full.len() {
            assert(all[i] == v_full[i]);
        } else if i < v_full.len() + v_rem.len() {
            assert(all[i] == v_rem[i - v_full.len()]);
        } else if i < v_full.len() + v_rem.len() + h_full.len() {
            assert(all[i] == h_full[i - v_full.len() - v_rem.len()]);
        } else {
            assert(all[i] == h_rem[i - v_full.len() - v_rem.len() - h_full.len()]);
        }
    }
}

} // verus!
