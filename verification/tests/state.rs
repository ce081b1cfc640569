use render_core::cache::BindingCache;
use render_core::error::{program_bind_outcome, RenderError, GL_INVALID_OPERATION, GL_NO_ERROR};
use render_core::frame::{GlCommand, Renderer};
use render_core::geometry::{DrawConfig, QuadDraw, Texture};
use render_core::limits::{pixel_byte_count, GlConstants};

fn quad_for(texture_id: u32) -> QuadDraw {
    let texture = Texture { id: texture_id, width: 16, height: 16 };
    QuadDraw {
        section: texture.full_section(),
        position: (0, 0),
        config: DrawConfig::default(),
    }
}

#[test]
fn bind_count_matches_run_length_encoding() {
    // Requests [5, 5, 5, 7, 7, 5] issue binds exactly where the id changes.
    let mut cache = BindingCache::new(0, 0, 0);
    let requests = [5u32, 5, 5, 7, 7, 5];
    let mut issued = 0;
    let mut issued_at = Vec::new();
    for (i, &id) in requests.iter().enumerate() {
        if cache.ensure_texture(id) {
            issued += 1;
            issued_at.push(i);
        }
    }
    assert_eq!(issued, 3);
    assert_eq!(issued_at, vec![0, 3, 5]);
}

#[test]
fn repeated_bind_issues_exactly_one_call() {
    let mut cache = BindingCache::new(0, 0, 0);
    assert!(cache.ensure_texture(5));
    assert!(!cache.ensure_texture(5));
}

#[test]
fn each_resource_kind_is_cached_independently() {
    let mut cache = BindingCache::new(1, 2, 3);
    assert!(!cache.ensure_program(1));
    assert!(!cache.ensure_texture(2));
    assert!(!cache.ensure_framebuffer(3));
    assert!(cache.ensure_program(4));
    assert!(!cache.ensure_texture(2));
    assert!(!cache.ensure_framebuffer(3));
}

#[test]
fn program_bind_error_classification() {
    assert_eq!(program_bind_outcome(GL_NO_ERROR, GL_NO_ERROR), Ok(()));
    assert_eq!(
        program_bind_outcome(GL_INVALID_OPERATION, GL_NO_ERROR),
        Err(RenderError::BindFailure)
    );
    assert_eq!(
        program_bind_outcome(GL_INVALID_OPERATION, 0x0500),
        Err(RenderError::InternalInconsistency)
    );
    assert_eq!(
        program_bind_outcome(0x0505, GL_NO_ERROR),
        Err(RenderError::InternalInconsistency)
    );
}

#[test]
fn constants_take_minimum_per_axis() {
    let constants = GlConstants::load(100, 200, 50, 300).unwrap();
    assert_eq!(constants.max_texture_size, (50, 100));
}

#[test]
fn negative_size_query_is_an_internal_inconsistency() {
    assert_eq!(
        GlConstants::load(100, -1, 50, 300),
        Err(RenderError::InternalInconsistency)
    );
    assert_eq!(
        GlConstants::load(-5, 1, 1, 1),
        Err(RenderError::InternalInconsistency)
    );
}

#[test]
fn zero_size_query_is_an_internal_inconsistency() {
    // A zero limit would deny the driver any texture at all; the loaded
    // constants must keep both components positive.
    assert_eq!(
        GlConstants::load(0, 1, 1, 1),
        Err(RenderError::InternalInconsistency)
    );
    assert_eq!(
        GlConstants::load(100, 200, 50, 0),
        Err(RenderError::InternalInconsistency)
    );
    let constants = GlConstants::load(1, 1, 1, 1).unwrap();
    assert!(constants.max_texture_size.0 > 0 && constants.max_texture_size.1 > 0);
}

#[test]
fn byte_count_is_four_bytes_per_pixel() {
    assert_eq!(pixel_byte_count(2, 3), Ok(24));
    assert_eq!(pixel_byte_count(0, 5), Ok(0));
    assert_eq!(pixel_byte_count(1024, 720), Ok(1024 * 720 * 4));
}

#[test]
fn overflowing_byte_count_fails_fast() {
    assert_eq!(
        pixel_byte_count(u32::MAX, u32::MAX),
        Err(RenderError::InternalInconsistency)
    );
}

#[test]
fn clear_binds_framebuffer_only_on_change() {
    let mut renderer = Renderer::new(1, 0, 0);
    let color = (10, 20, 30, 40);
    // Default framebuffer already bound: no bind command.
    let cmds = renderer.clear_color(0, color);
    assert_eq!(
        cmds,
        vec![GlCommand::SetClearColor(color), GlCommand::ClearColorBuffer]
    );
    // A different framebuffer must be bound first.
    let cmds = renderer.clear_color(2, color);
    assert_eq!(
        cmds,
        vec![
            GlCommand::BindFramebuffer(2),
            GlCommand::SetClearColor(color),
            GlCommand::ClearColorBuffer,
        ]
    );
    let cmds = renderer.clear_depth(2);
    assert_eq!(cmds, vec![GlCommand::ClearDepthBuffer]);
}

#[test]
fn draw_elides_redundant_binds() {
    let mut renderer = Renderer::new(1, 0, 0);
    renderer.clear_color(0, (0, 0, 0, 0));
    // First draw binds the new texture; the program is already bound.
    let cmds = renderer.draw(quad_for(5));
    assert_eq!(
        cmds,
        vec![GlCommand::BindTexture(5), GlCommand::DrawQuad(quad_for(5))]
    );
    // Same texture again: only the draw itself.
    let cmds = renderer.draw(quad_for(5));
    assert_eq!(cmds, vec![GlCommand::DrawQuad(quad_for(5))]);
    // Switching textures binds again.
    let cmds = renderer.draw(quad_for(6));
    assert_eq!(
        cmds,
        vec![GlCommand::BindTexture(6), GlCommand::DrawQuad(quad_for(6))]
    );
}

#[test]
fn finalize_presents_and_resets_the_default_target() {
    let mut renderer = Renderer::new(1, 0, 0);
    renderer.clear_color(3, (0, 0, 0, 0));
    let cmds = renderer.finalize_frame();
    assert_eq!(
        cmds,
        vec![
            GlCommand::SwapBuffers,
            GlCommand::BindFramebuffer(0),
            GlCommand::ClearDepthBuffer,
        ]
    );
    // Already on the default target: no bind on the next finalize.
    renderer.clear_color(0, (0, 0, 0, 0));
    let cmds = renderer.finalize_frame();
    assert_eq!(
        cmds,
        vec![GlCommand::SwapBuffers, GlCommand::ClearDepthBuffer]
    );
}
