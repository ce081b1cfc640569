//! Frame lifecycle: clearing, drawing and presenting, sequenced as a
//! stream of driver commands.
//!
//! Every operation decides which driver calls are due — going through the
//! binding cache, so redundant binds are never emitted — and returns them
//! in issue order, together with the bound state the driver will hold once
//! they ran.
//!
//! Execution protocol: the embedding layer executes every command of a
//! returned run, in order, before calling the next operation, stopping at
//! the first failing command — except after the present in
//! `finalize_frame`'s run, whose remaining commands cannot fail and are
//! executed even when the present fails. Under this protocol the cache
//! equals the driver's bound state after every operation: each contract
//! states `driver_after(old cache, commands) == new cache` for a full run,
//! and a run cut short at its first failure leaves the driver in the same
//! bound state as a full run, because every run keeps its bind commands
//! ahead of its fallible commands (`binds_precede_failures`, and
//! `lemma_stop_at_first_failure_keeps_sync`). A shape composed of many
//! quads is therefore drawn one quad at a time through `draw`, never as
//! one long pre-advanced stream.

use vstd::prelude::*;
use crate::cache::BindingCache;
use crate::geometry::QuadDraw;

verus! {

/// One driver call, to be executed in stream order.
///
/// Executing `BindProgram` can fail recoverably (`BindFailure`); a failing
/// `DrawQuad` surfaces `DrawFailure` and a failing `SwapBuffers`
/// `PresentFailure`. The remaining commands are treated as infallible at
/// this layer, mirroring the driver's own error model.
#[derive(Clone, Copy, Debug, PartialEq, Eq)]
pub enum GlCommand {
    /// Make this program identifier the bound program.
    BindProgram(u32),
    /// Make this texture identifier the bound 2D texture.
    BindTexture(u32),
    /// Make this framebuffer identifier the bound target (0 is the default).
    BindFramebuffer(u32),
    /// Set the clear color: encoded red, green, blue and alpha channels.
    SetClearColor((u32, u32, u32, u32)),
    /// Clear the color buffer of the bound framebuffer.
    ClearColorBuffer,
    /// Clear the depth buffer of the bound framebuffer.
    ClearDepthBuffer,
    /// Draw one textured quad with the bound texture and program.
    DrawQuad(QuadDraw),
    /// Present the finished frame (buffer swap).
    SwapBuffers,
}

/// Whether executing (or attempting) `cmd` changes which resources the
/// driver has bound. A rejected program bind still changes the driver's
/// visible bound state, so attempting a bind counts as applying it.
pub open spec fn command_rebinds(cmd: GlCommand) -> bool {
    cmd is BindProgram || cmd is BindTexture || cmd is BindFramebuffer
}

/// Whether the driver can reject `cmd`: a program bind (recoverable, and
/// still applied when rejected), a draw, or the present. Every other
/// command is infallible at this layer.
pub open spec fn command_can_fail(cmd: GlCommand) -> bool {
    cmd is BindProgram || cmd is DrawQuad || cmd is SwapBuffers
}

/// The bound state the driver holds after executing (or attempting) `cmd`
/// from bound state `driver`.
pub open spec fn driver_apply(driver: BindingCache, cmd: GlCommand) -> BindingCache {
    match cmd {
        GlCommand::BindProgram(id) => BindingCache {
            program: id,
            texture: driver.texture,
            framebuffer: driver.framebuffer,
        },
        GlCommand::BindTexture(id) => BindingCache {
            program: driver.program,
            texture: id,
            framebuffer: driver.framebuffer,
        },
        GlCommand::BindFramebuffer(id) => BindingCache {
            program: driver.program,
            texture: driver.texture,
            framebuffer: id,
        },
        _ => driver,
    }
}

/// The bound state the driver holds after executing a run of commands in
/// order from bound state `driver`.
pub open spec fn driver_after(driver: BindingCache, cmds: Seq<GlCommand>) -> BindingCache
    decreases cmds.len(),
{
    if cmds.len() == 0 {
        driver
    } else {
        driver_after(driver_apply(driver, cmds[0]), cmds.drop_first())
    }
}

/// Every command of the run that changes bound state stands before every
/// command that can fail: however early execution stops at a failure,
/// every bind of the run has already been applied or attempted.
pub open spec fn binds_precede_failures(cmds: Seq<GlCommand>) -> bool {
    forall|i: int, j: int|
        #![trigger cmds[i], cmds[j]]
        0 <= i < j < cmds.len() && command_can_fail(cmds[i]) ==> !command_rebinds(cmds[j])
}

/// The framebuffer bind due when `framebuffer` is requested against
/// `cache`: none when it is already bound.
pub open spec fn framebuffer_binds(cache: BindingCache, framebuffer: u32) -> Seq<GlCommand> {
    if cache.framebuffer == framebuffer {
        seq![]
    } else {
        seq![GlCommand::BindFramebuffer(framebuffer)]
    }
}

/// The texture bind due when `texture` is requested against `cache`.
pub open spec fn texture_binds(cache: BindingCache, texture: u32) -> Seq<GlCommand> {
    if cache.texture == texture {
        seq![]
    } else {
        seq![GlCommand::BindTexture(texture)]
    }
}

/// The program bind due when `program` is requested against `cache`.
pub open spec fn program_binds(cache: BindingCache, program: u32) -> Seq<GlCommand> {
    if cache.program == program {
        seq![]
    } else {
        seq![GlCommand::BindProgram(program)]
    }
}

/// The commands one quad draw issues against `cache`: bind its texture and
/// `program` where not already bound, then draw.
pub open spec fn draw_commands(cache: BindingCache, program: u32, quad: QuadDraw) -> Seq<
    GlCommand,
> {
    texture_binds(cache, quad.section.texture.id) + program_binds(cache, program) + seq![
        GlCommand::DrawQuad(quad),
    ]
}

/// The cache after one quad draw: its texture and `program` recorded as
/// bound, the framebuffer untouched.
pub open spec fn cache_after_draw(cache: BindingCache, program: u32, quad: QuadDraw) -> BindingCache {
    BindingCache { program, texture: quad.section.texture.id, framebuffer: cache.framebuffer }
}

/// Executing one command applies it.
proof fn lemma_driver_after_one(driver: BindingCache, only: GlCommand)
    ensures
        driver_after(driver, seq![only]) == driver_apply(driver, only),
{
    assert(seq![only].drop_first() =~= Seq::<GlCommand>::empty());
    assert(driver_after(driver_apply(driver, only), Seq::<GlCommand>::empty()) == driver_apply(
        driver,
        only,
    ));
}

/// Executing two commands applies them in order.
proof fn lemma_driver_after_two(driver: BindingCache, first: GlCommand, second: GlCommand)
    ensures
        driver_after(driver, seq![first, second]) == driver_apply(
            driver_apply(driver, first),
            second,
        ),
{
    let after_first = driver_apply(driver, first);
    assert(seq![second].drop_first() =~= Seq::<GlCommand>::empty());
    assert(driver_after(driver_apply(after_first, second), Seq::<GlCommand>::empty())
        == driver_apply(after_first, second));
    assert(driver_after(after_first, seq![second]) == driver_apply(after_first, second));
    assert(seq![first, second].drop_first() =~= seq![second]);
    assert(driver_after(driver, seq![first, second]) == driver_after(after_first, seq![second]));
}

/// Executing three commands applies them in order.
proof fn lemma_driver_after_three(
    driver: BindingCache,
    first: GlCommand,
    second: GlCommand,
    third: GlCommand,
)
    ensures
        driver_after(driver, seq![first, second, third]) == driver_apply(
            driver_apply(driver_apply(driver, first), second),
            third,
        ),
{
    let after_first = driver_apply(driver, first);
    lemma_driver_after_two(after_first, second, third);
    assert(seq![first, second, third].drop_first() =~= seq![second, third]);
    assert(driver_after(driver, seq![first, second, third]) == driver_after(
        after_first,
        seq![second, third],
    ));
}

/// Executing a concatenation executes the first part, then the second.
proof fn lemma_driver_after_append(driver: BindingCache, a: Seq<GlCommand>, b: Seq<GlCommand>)
    ensures
        driver_after(driver, a + b) == driver_after(driver_after(driver, a), b),
    decreases a.len(),
{
    if a.len() == 0 {
        assert(a + b =~= b);
    } else {
        assert((a + b)[0] == a[0]);
        assert((a + b).drop_first() =~= a.drop_first() + b);
        lemma_driver_after_append(driver_apply(driver, a[0]), a.drop_first(), b);
    }
}

/// A run with no bind commands leaves the driver's bound state untouched.
proof fn lemma_driver_after_no_rebinds(driver: BindingCache, cmds: Seq<GlCommand>)
    requires
        forall|i: int| 0 <= i < cmds.len() ==> !command_rebinds(#[trigger] cmds[i]),
    ensures
        driver_after(driver, cmds) == driver,
    decreases cmds.len(),
{
    if cmds.len() > 0 {
        assert(!command_rebinds(cmds[0]));
        assert(driver_apply(driver, cmds[0]) == driver);
        assert(forall|i: int|
            0 <= i < cmds.drop_first().len() ==> !command_rebinds(
                #[trigger] cmds.drop_first()[i],
            ));
        lemma_driver_after_no_rebinds(driver, cmds.drop_first());
    }
}

/// Stopping at the first failure keeps the cache synchronized: when every
/// bind of a run precedes every command that can fail, executing the run
/// only up to and including its first failing command leaves the driver in
/// the same bound state as executing the whole run — so the driver still
/// equals the cache that the emitting operation recorded. (A rejected
/// program bind still changes the driver's bound state, so the failing
/// command itself counts as applied.)
pub proof fn lemma_stop_at_first_failure_keeps_sync(
    driver: BindingCache,
    cmds: Seq<GlCommand>,
    stop: int,
)
    requires
        binds_precede_failures(cmds),
        0 <= stop < cmds.len(),
        command_can_fail(cmds[stop]),
    ensures
        driver_after(driver, cmds.take(stop + 1)) == driver_after(driver, cmds),
{
    let executed = cmds.take(stop + 1);
    let rest = cmds.skip(stop + 1);
    assert(cmds =~= executed + rest);
    lemma_driver_after_append(driver, executed, rest);
    assert forall|i: int| 0 <= i < rest.len() implies !command_rebinds(#[trigger] rest[i]) by {
        assert(rest[i] == cmds[stop + 1 + i]);
    }
    lemma_driver_after_no_rebinds(driver_after(driver, executed), rest);
}

/// Sequences frames against the driver: clears, quad draws and the final
/// present, every bound-state change going through the binding cache.
#[derive(Clone, Copy, Debug, PartialEq, Eq, Structural)]
pub struct Renderer {
    /// What the driver currently has bound.
    pub cache: BindingCache,
    /// The shader program all quad draws use.
    pub program: u32,
    /// Whether a frame is open: set by the first clear of a frame, reset by
    /// presenting it. Draws are accepted only while a frame is open.
    pub frame_open: bool,
}

impl Renderer {
    /// A renderer over a driver that currently has `program` bound as the
    /// program, `texture` as the texture and `framebuffer` as the target;
    /// the caller vouches that the driver state matches and that nothing
    /// else ever binds these resource kinds.
    pub fn new(program: u32, texture: u32, framebuffer: u32) -> (renderer: Renderer)
        ensures
            renderer == (Renderer {
                cache: BindingCache { program, texture, framebuffer },
                program,
                frame_open: false,
            }),
    {
        Renderer { cache: BindingCache::new(program, texture, framebuffer), program, frame_open: false }
    }

    /// Clears the color buffer of `framebuffer` to `color`, binding the
    /// framebuffer first where needed, and opens the frame. No command of
    /// the run can fail, so a full execution is always possible and leaves
    /// the driver equal to the new cache.
    pub fn clear_color(&mut self, framebuffer: u32, color: (u32, u32, u32, u32)) -> (cmds: Vec<
        GlCommand,
    >)
        ensures
            cmds@ == framebuffer_binds(old(self).cache, framebuffer) + seq![
                GlCommand::SetClearColor(color),
                GlCommand::ClearColorBuffer,
            ],
            final(self).cache == driver_after(old(self).cache, cmds@),
            binds_precede_failures(cmds@),
            forall|i: int| 0 <= i < cmds@.len() ==> !command_can_fail(#[trigger] cmds@[i]),
            final(self).cache.framebuffer == framebuffer,
            final(self).cache.program == old(self).cache.program,
            final(self).cache.texture == old(self).cache.texture,
            final(self).program == old(self).program,
            final(self).frame_open,
    {
        let mut cmds: Vec<GlCommand> = Vec::new();
        let issued = self.cache.ensure_framebuffer(framebuffer);
        if issued {
            cmds.push(GlCommand::BindFramebuffer(framebuffer));
        }
        cmds.push(GlCommand::SetClearColor(color));
        cmds.push(GlCommand::ClearColorBuffer);
        self.frame_open = true;
        proof {
            let c0 = old(self).cache;
            assert(cmds@ =~= framebuffer_binds(c0, framebuffer) + seq![
                GlCommand::SetClearColor(color),
                GlCommand::ClearColorBuffer,
            ]);
            if issued {
                lemma_driver_after_three(
                    c0,
                    GlCommand::BindFramebuffer(framebuffer),
                    GlCommand::SetClearColor(color),
                    GlCommand::ClearColorBuffer,
                );
                assert(cmds@ =~= seq![
                    GlCommand::BindFramebuffer(framebuffer),
                    GlCommand::SetClearColor(color),
                    GlCommand::ClearColorBuffer,
                ]);
            } else {
                lemma_driver_after_two(
                    c0,
                    GlCommand::SetClearColor(color),
                    GlCommand::ClearColorBuffer,
                );
                assert(cmds@ =~= seq![
                    GlCommand::SetClearColor(color),
                    GlCommand::ClearColorBuffer,
                ]);
            }
        }
        cmds
    }

    /// Clears the depth buffer of `framebuffer`, binding it first where
    /// needed; the frame state is unchanged. No command of the run can
    /// fail.
    pub fn clear_depth(&mut self, framebuffer: u32) -> (cmds: Vec<GlCommand>)
        ensures
            cmds@ == framebuffer_binds(old(self).cache, framebuffer) + seq![
                GlCommand::ClearDepthBuffer,
            ],
            final(self).cache == driver_after(old(self).cache, cmds@),
            binds_precede_failures(cmds@),
            forall|i: int| 0 <= i < cmds@.len() ==> !command_can_fail(#[trigger] cmds@[i]),
            final(self).cache.framebuffer == framebuffer,
            final(self).cache.program == old(self).cache.program,
            final(self).cache.texture == old(self).cache.texture,
            final(self).program == old(self).program,
            final(self).frame_open == old(self).frame_open,
    {
        let mut cmds: Vec<GlCommand> = Vec::new();
        let issued = self.cache.ensure_framebuffer(framebuffer);
        if issued {
            cmds.push(GlCommand::BindFramebuffer(framebuffer));
        }
        cmds.push(GlCommand::ClearDepthBuffer);
        proof {
            let c0 = old(self).cache;
            assert(cmds@ =~= framebuffer_binds(c0, framebuffer) + seq![
                GlCommand::ClearDepthBuffer,
            ]);
            if issued {
                lemma_driver_after_two(
                    c0,
                    GlCommand::BindFramebuffer(framebuffer),
                    GlCommand::ClearDepthBuffer,
                );
                assert(cmds@ =~= seq![
                    GlCommand::BindFramebuffer(framebuffer),
                    GlCommand::ClearDepthBuffer,
                ]);
            } else {
                assert(cmds@ =~= seq![GlCommand::ClearDepthBuffer]);
                lemma_driver_after_one(c0, GlCommand::ClearDepthBuffer);
            }
        }
        cmds
    }

    /// Draws one textured quad: binds its texture and the renderer's
    /// program where not already bound, then draws. Valid only while a
    /// frame is open.
    ///
    /// This is the unit of execution for composed shapes: the embedding
    /// draws them one quad at a time, executing each quad's run before the
    /// next, so that composition stops at the first failing draw with the
    /// cache still mirroring the driver — within one run every bind stands
    /// before the commands that can fail.
    pub fn draw(&mut self, quad: QuadDraw) -> (cmds: Vec<GlCommand>)
        requires
            old(self).frame_open,
        ensures
            cmds@ == draw_commands(old(self).cache, old(self).program, quad),
            final(self).cache == cache_after_draw(old(self).cache, old(self).program, quad),
            final(self).cache == driver_after(old(self).cache, cmds@),
            binds_precede_failures(cmds@),
            final(self).program == old(self).program,
            final(self).frame_open,
    {
        let mut cmds: Vec<GlCommand> = Vec::new();
        let issued_texture = self.cache.ensure_texture(quad.section.texture.id);
        if issued_texture {
            cmds.push(GlCommand::BindTexture(quad.section.texture.id));
        }
        let issued_program = self.cache.ensure_program(self.program);
        if issued_program {
            cmds.push(GlCommand::BindProgram(self.program));
        }
        cmds.push(GlCommand::DrawQuad(quad));
        proof {
            let c0 = old(self).cache;
            let program = old(self).program;
            let texture_bind = GlCommand::BindTexture(quad.section.texture.id);
            let program_bind = GlCommand::BindProgram(program);
            let draw = GlCommand::DrawQuad(quad);
            assert(cmds@ =~= draw_commands(c0, program, quad));
            if issued_texture && issued_program {
                assert(cmds@ =~= seq![texture_bind, program_bind, draw]);
                lemma_driver_after_three(c0, texture_bind, program_bind, draw);
            } else if issued_texture {
                assert(cmds@ =~= seq![texture_bind, draw]);
                lemma_driver_after_two(c0, texture_bind, draw);
            } else if issued_program {
                assert(cmds@ =~= seq![program_bind, draw]);
                lemma_driver_after_two(c0, program_bind, draw);
            } else {
                assert(cmds@ =~= seq![draw]);
                lemma_driver_after_one(c0, draw);
            }
        }
        cmds
    }

    /// Ends the frame: presents it, resets the framebuffer binding to the
    /// default target, clears the default target's depth buffer for the
    /// next frame, and closes the frame.
    ///
    /// Only the leading present can fail; every command after it is
    /// infallible, and the embedding executes them even when the present
    /// fails, so the driver always ends on the default target as the cache
    /// records.
    pub fn finalize_frame(&mut self) -> (cmds: Vec<GlCommand>)
        ensures
            cmds@ == seq![GlCommand::SwapBuffers] + framebuffer_binds(old(self).cache, 0) + seq![
                GlCommand::ClearDepthBuffer,
            ],
            final(self).cache == driver_after(old(self).cache, cmds@),
            cmds@[0] == GlCommand::SwapBuffers,
            forall|i: int| 1 <= i < cmds@.len() ==> !command_can_fail(#[trigger] cmds@[i]),
            final(self).cache.framebuffer == 0,
            final(self).cache.program == old(self).cache.program,
            final(self).cache.texture == old(self).cache.texture,
            final(self).program == old(self).program,
            !final(self).frame_open,
    {
        let mut cmds: Vec<GlCommand> = Vec::new();
        cmds.push(GlCommand::SwapBuffers);
        let issued = self.cache.ensure_framebuffer(0);
        if issued {
            cmds.push(GlCommand::BindFramebuffer(0));
        }
        cmds.push(GlCommand::ClearDepthBuffer);
        self.frame_open = false;
        proof {
            let c0 = old(self).cache;
            assert(cmds@ =~= seq![GlCommand::SwapBuffers] + framebuffer_binds(c0, 0) + seq![
                GlCommand::ClearDepthBuffer,
            ]);
            if issued {
                assert(cmds@ =~= seq![
                    GlCommand::SwapBuffers,
                    GlCommand::BindFramebuffer(0),
                    GlCommand::ClearDepthBuffer,
                ]);
                lemma_driver_after_three(
                    c0,
                    GlCommand::SwapBuffers,
                    GlCommand::BindFramebuffer(0),
                    GlCommand::ClearDepthBuffer,
                );
            } else {
                assert(cmds@ =~= seq![GlCommand::SwapBuffers, GlCommand::ClearDepthBuffer]);
                lemma_driver_after_two(c0, GlCommand::SwapBuffers, GlCommand::ClearDepthBuffer);
            }
        }
        cmds
    }
}

} // verus!
