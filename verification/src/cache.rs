//! Cache of the driver's currently bound program, texture and framebuffer.
//!
//! The cache is the single authority through which bound state changes: each
//! `ensure_*` operation reports whether a driver bind call must be issued —
//! exactly when the requested identifier differs from the cached one — and
//! records the requested identifier unconditionally, so that the cache always
//! mirrors what was last asked of the driver, even when the driver reports an
//! error for the bind itself.

use vstd::prelude::*;

verus! {

/// The identifiers the driver currently has bound, one per resource kind.
///
/// Invariant (maintained by discipline, not by type): no code path outside
/// this type issues a bind for these three resource kinds, so the fields
/// equal what was last requested of the driver.
#[derive(Clone, Copy, Debug, PartialEq, Eq, Structural)]
pub struct BindingCache {
    /// Identifier of the bound shader program.
    pub program: u32,
    /// Identifier of the bound 2D texture.
    pub texture: u32,
    /// Identifier of the bound framebuffer (0 is the default target).
    pub framebuffer: u32,
}

/// How many bind calls one `ensure_*` request issues against a cache that
/// currently holds `current`: one exactly when the request differs.
pub open spec fn bind_step(current: u32, requested: u32) -> nat {
    if current != requested {
        1nat
    } else {
        0nat
    }
}

/// Total bind calls issued by a run of `ensure_*` requests for one resource
/// kind, starting from a cache that holds `initial`: the operational fold of
/// `bind_step` over the run.
pub open spec fn binds_issued(initial: u32, requests: Seq<u32>) -> nat
    decreases requests.len(),
{
    if requests.len() == 0 {
        0nat
    } else {
        bind_step(initial, requests[0]) + binds_issued(requests[0], requests.drop_first())
    }
}

/// The identifier a cache holds after serving a run of requests: the last
/// request, or the initial identifier when the run is empty.
pub open spec fn bound_after(initial: u32, requests: Seq<u32>) -> u32 {
    if requests.len() == 0 {
        initial
    } else {
        requests.last()
    }
}

/// Number of positions of a run at which the requested identifier differs
/// from the immediately preceding requested identifier (the initial cached
/// identifier standing before the first position).
pub open spec fn change_count(initial: u32, requests: Seq<u32>) -> nat
    decreases requests.len(),
{
    if requests.len() == 0 {
        0nat
    } else {
        change_count(initial, requests.drop_last()) + bind_step(
            bound_after(initial, requests.drop_last()),
            requests.last(),
        )
    }
}

/// Appending one request to a run adds one issued bind exactly when the new
/// request differs from the identifier the run leaves bound.
proof fn lemma_binds_issued_push(initial: u32, requests: Seq<u32>, next: u32)
    ensures
        binds_issued(initial, requests.push(next)) == binds_issued(initial, requests) + bind_step(
            bound_after(initial, requests),
            next,
        ),
    decreases requests.len(),
{
    let pushed = requests.push(next);
    if requests.len() == 0 {
        assert(pushed.drop_first() =~= Seq::<u32>::empty());
        assert(pushed[0] == next);
        assert(binds_issued(next, Seq::<u32>::empty()) == 0);
        assert(binds_issued(initial, pushed) == bind_step(initial, next) + binds_issued(
            next,
            pushed.drop_first(),
        ));
    } else {
        assert(pushed.drop_first() =~= requests.drop_first().push(next));
        assert(pushed[0] == requests[0]);
        lemma_binds_issued_push(requests[0], requests.drop_first(), next);
        assert(binds_issued(initial, pushed) == bind_step(initial, requests[0]) + binds_issued(
            requests[0],
            pushed.drop_first(),
        ));
        assert(binds_issued(initial, requests) == bind_step(initial, requests[0]) + binds_issued(
            requests[0],
            requests.drop_first(),
        ));
        if requests.len() == 1 {
            assert(bound_after(requests[0], requests.drop_first()) == requests[0]);
            assert(bound_after(initial, requests) == requests[0]);
        } else {
            assert(requests.drop_first().last() == requests.last());
        }
    }
}

/// Run-length-encoding law: over any run of `ensure_*` requests for one
/// resource kind, the number of driver bind calls issued equals the number
/// of positions at which the requested identifier differs from the
/// immediately preceding one.
pub proof fn lemma_binds_issued_is_change_count(initial: u32, requests: Seq<u32>)
    ensures
        binds_issued(initial, requests) == change_count(initial, requests),
    decreases requests.len(),
{
    if requests.len() > 0 {
        lemma_binds_issued_is_change_count(initial, requests.drop_last());
        lemma_binds_issued_push(initial, requests.drop_last(), requests.last());
        assert(requests.drop_last().push(requests.last()) =~= requests);
    }
}

/// Idempotence law: a repeated identical request issues no further bind —
/// two calls in a row with the same identifier issue exactly as many binds
/// as the first alone, hence exactly one when the identifier was not already
/// bound.
pub proof fn lemma_ensure_bound_idempotent(initial: u32, id: u32)
    ensures
        binds_issued(initial, seq![id, id]) == binds_issued(initial, seq![id]),
        initial != id ==> binds_issued(initial, seq![id, id]) == 1,
{
    let s2 = seq![id, id];
    let s1 = seq![id];
    assert(s1.drop_first() =~= Seq::<u32>::empty());
    assert(binds_issued(id, Seq::<u32>::empty()) == 0);
    assert(binds_issued(id, s1) == bind_step(id, id) + binds_issued(id, s1.drop_first()));
    assert(binds_issued(initial, s1) == bind_step(initial, id) + binds_issued(id, s1.drop_first()));
    assert(s2.drop_first() =~= s1);
    assert(binds_issued(initial, s2) == bind_step(initial, id) + binds_issued(id, s1));
}

impl BindingCache {
    /// A cache describing a driver that currently has these identifiers
    /// bound; the caller vouches that the driver state matches.
    pub fn new(program: u32, texture: u32, framebuffer: u32) -> (cache: BindingCache)
        ensures
            cache == (BindingCache { program, texture, framebuffer }),
    {
        BindingCache { program, texture, framebuffer }
    }

    /// Decides whether making `id` the bound program needs a driver call,
    /// and records `id` as bound.
    pub fn ensure_program(&mut self, id: u32) -> (issue: bool)
        ensures
            issue == (old(self).program != id),
            bind_step(old(self).program, id) == if issue {
                1nat
            } else {
                0nat
            },
            final(self).program == id,
            final(self).texture == old(self).texture,
            final(self).framebuffer == old(self).framebuffer,
    {
        if self.program != id {
            self.program = id;
            true
        } else {
            false
        }
    }

    /// Decides whether making `id` the bound texture needs a driver call,
    /// and records `id` as bound.
    pub fn ensure_texture(&mut self, id: u32) -> (issue: bool)
        ensures
            issue == (old(self).texture != id),
            bind_step(old(self).texture, id) == if issue {
                1nat
            } else {
                0nat
            },
            final(self).texture == id,
            final(self).program == old(self).program,
            final(self).framebuffer == old(self).framebuffer,
    {
        if self.texture != id {
            self.texture = id;
            true
        } else {
            false
        }
    }

    /// Decides whether making `id` the bound framebuffer needs a driver
    /// call, and records `id` as bound.
    pub fn ensure_framebuffer(&mut self, id: u32) -> (issue: bool)
        ensures
            issue == (old(self).framebuffer != id),
            bind_step(old(self).framebuffer, id) == if issue {
                1nat
            } else {
                0nat
            },
            final(self).framebuffer == id,
            final(self).program == old(self).program,
            final(self).texture == old(self).texture,
    {
        if self.framebuffer != id {
            self.framebuffer = id;
            true
        } else {
            false
        }
    }
}

} // verus!
