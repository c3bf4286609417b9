//! The command layer of the editor: an arena of rails with their placement
//! transforms, the draggable control-point handles bound to them, and the
//! agents that traverse them.
//!
//! Entities hold index-based handles into the arena instead of owning
//! references. Destroying a rail leaves a vacant slot; a handle or agent
//! still bound to it reports `DanglingReference` instead of sampling
//! garbage. Within a tick, edits are applied synchronously and completely
//! (each drag rebuilds the curve and its tessellation before returning), so
//! an agent never samples a curve mid-edit.

use vstd::prelude::*;

use crate::curve::{
    is_evaluation, point_in_world, points_in_world, CurveKind, Point, COORD_LIMIT, EVAL_LIMIT,
    MIN_CONTROL_POINTS,
};
use crate::error::CoreError;
use crate::rail::Rail;
use crate::traversal::{tick_spec, Direction, Traversal, PROGRESS_UNIT};

verus! {

/// A rail placed in the scene: the curve entity itself plus the translation
/// of its placement transform. Dragging the rail moves the transform, never
/// the curve shape.
#[derive(Debug)]
pub struct PlacedRail {
    pub rail: Rail,
    pub transform: Point,
}

/// A draggable handle bound to one control point of one rail. Its displayed
/// position is kept in sync with that control point.
#[derive(Clone, Copy, Debug, PartialEq, Eq, Structural)]
pub struct Handle {
    pub rail: usize,
    pub index: usize,
    pub position: Point,
}

/// A moving token bound to a rail: its ping-pong traversal state and the
/// rail-local position sampled at the current progress.
#[derive(Clone, Copy, Debug, PartialEq, Eq, Structural)]
pub struct Agent {
    pub rail: usize,
    pub traversal: Traversal,
    pub position: Point,
}

/// A sampled position: bounded by what a curve evaluation can return.
pub open spec fn point_sampled(p: Point) -> bool {
    &&& -(EVAL_LIMIT as int) <= p.x as int <= EVAL_LIMIT as int
    &&& -(EVAL_LIMIT as int) <= p.y as int <= EVAL_LIMIT as int
}

/// The scene arena. Rail slots are never removed, only vacated, so rail
/// ids stay stable; handles and agents are appended as they are spawned.
pub struct Scene {
    rails: Vec<Option<PlacedRail>>,
    handles: Vec<Handle>,
    agents: Vec<Agent>,
}

/// Well-formedness survives any step that leaves the rails and handles
/// untouched and every agent well formed.
proof fn lemma_wf_rails_handles_kept(pre: Scene, post: Scene)
    requires
        pre.wf(),
        post.rails_seq() == pre.rails_seq(),
        post.handles_seq() == pre.handles_seq(),
        forall|j: int|
            0 <= j < post.agents_seq().len() ==> post.agent_wf(#[trigger] post.agents_seq()[j]),
    ensures
        post.wf(),
{
    assert forall|i: int| post.rail_live(i) implies (#[trigger] post.rail_at(i)).wf()
        && point_in_world(post.transform_at(i)) by {
        assert(pre.rail_live(i));
        assert(post.rail_at(i) == pre.rail_at(i));
        assert(post.transform_at(i) == pre.transform_at(i));
    }
    assert forall|j: int| 0 <= j < post.handles_seq().len() implies post.handle_wf(
        #[trigger] post.handles_seq()[j],
    ) by {
        assert(pre.handle_wf(pre.handles_seq()[j]));
        let h = pre.handles_seq()[j];
        assert(post.rails_seq()[h.rail as int] == pre.rails_seq()[h.rail as int]);
    }
    assert forall|j: int, k: int| 0 <= j < k < post.handles_seq().len() implies !(
    post.handles_seq()[j].rail == post.handles_seq()[k].rail && post.handles_seq()[j].index
        == post.handles_seq()[k].index) by {
        assert(post.handles_seq()[j] == pre.handles_seq()[j]);
        assert(post.handles_seq()[k] == pre.handles_seq()[k]);
    }
}

impl Scene {
    pub closed spec fn rails_seq(&self) -> Seq<Option<PlacedRail>> {
        self.rails@
    }

    pub closed spec fn handles_seq(&self) -> Seq<Handle> {
        self.handles@
    }

    pub closed spec fn agents_seq(&self) -> Seq<Agent> {
        self.agents@
    }

    /// The rail slot `id` exists and is still occupied.
    pub open spec fn rail_live(&self, id: int) -> bool {
        &&& 0 <= id < self.rails_seq().len()
        &&& self.rails_seq()[id] is Some
    }

    /// The rail in slot `id` (meaningful only when the slot is live).
    pub open spec fn rail_at(&self, id: int) -> Rail {
        self.rails_seq()[id]->Some_0.rail
    }

    /// The placement transform of slot `id`.
    pub open spec fn transform_at(&self, id: int) -> Point {
        self.rails_seq()[id]->Some_0.transform
    }

    /// A handle is bound to an existing slot; while its rail is live, its
    /// index is a real control point and its displayed position matches it.
    pub open spec fn handle_wf(&self, h: Handle) -> bool {
        &&& h.rail < self.rails_seq().len()
        &&& point_in_world(h.position)
        &&& self.rail_live(h.rail as int) ==> {
            &&& h.index < self.rail_at(h.rail as int).control_points().len()
            &&& h.position == self.rail_at(h.rail as int).control_points()[h.index as int]
        }
    }

    /// An agent is bound to an existing slot, its traversal is in bounds,
    /// and its position is a sampled point.
    pub open spec fn agent_wf(&self, a: Agent) -> bool {
        &&& a.rail < self.rails_seq().len()
        &&& a.traversal.wf()
        &&& point_sampled(a.position)
    }

    pub open spec fn wf(&self) -> bool {
        &&& forall|i: int|
            self.rail_live(i) ==> (#[trigger] self.rail_at(i)).wf() && point_in_world(
                self.transform_at(i),
            )
        &&& forall|j: int|
            0 <= j < self.handles_seq().len() ==> self.handle_wf(#[trigger] self.handles_seq()[j])
        &&& forall|j: int, k: int|
            0 <= j < k < self.handles_seq().len() ==> !(self.handles_seq()[j].rail
                == self.handles_seq()[k].rail && self.handles_seq()[j].index
                == self.handles_seq()[k].index)
        &&& forall|j: int|
            0 <= j < self.agents_seq().len() ==> self.agent_wf(#[trigger] self.agents_seq()[j])
    }

    /// An empty scene.
    pub fn new() -> (s: Scene)
        ensures
            s.wf(),
            s.rails_seq().len() == 0,
            s.handles_seq().len() == 0,
            s.agents_seq().len() == 0,
    {
        Scene { rails: Vec::new(), handles: Vec::new(), agents: Vec::new() }
    }

    /// Handles a spawn-rail command: creates the rail with its placement
    /// transform and one handle per control point, positioned on it.
    /// Fails exactly when the curve build does, mutating nothing.
    pub fn spawn_rail(&mut self, kind: CurveKind, control_points: Vec<Point>, transform: Point)
        -> (r: Result<usize, CoreError>)
        requires
            old(self).wf(),
            points_in_world(control_points@),
            point_in_world(transform),
        ensures
            control_points@.len() >= MIN_CONTROL_POINTS ==> {
                let id = old(self).rails_seq().len() as int;
                &&& r is Ok && r->Ok_0 == id
                &&& final(self).rails_seq().len() == id + 1
                &&& (forall|i: int|
                    0 <= i < id ==> final(self).rails_seq()[i] == old(self).rails_seq()[i])
                &&& final(self).rail_live(id)
                &&& final(self).rail_at(id).kind() == kind
                &&& final(self).rail_at(id).control_points() == control_points@
                &&& final(self).transform_at(id) == transform
                &&& final(self).handles_seq() == old(self).handles_seq() + Seq::new(
                    control_points@.len(),
                    |k: int|
                        (Handle { rail: id as usize, index: k as usize, position: control_points@[k] }),
                )
                &&& final(self).agents_seq() == old(self).agents_seq()
                &&& final(self).wf()
            },
            control_points@.len() < MIN_CONTROL_POINTS ==> (r is Err && r->Err_0
                == CoreError::InvalidControlPoints && *final(self) == *old(self)),
    {
        let rail = match Rail::new(kind, control_points) {
            Ok(rl) => rl,
            Err(e) => {
                return Err(e);
            },
        };
        let id = self.rails.len();
        let n = rail.control_point_count();
        let mut k: usize = 0;
        while k < n
            invariant
                n == rail.control_points().len(),
                k <= n,
                id == old(self).rails@.len(),
                self.handles@.len() == old(self).handles@.len() + k,
                forall|j: int|
                    0 <= j < old(self).handles@.len() ==> self.handles@[j] == old(
                        self,
                    ).handles@[j],
                forall|j: int|
                    0 <= j < k ==> self.handles@[old(self).handles@.len() + j] == (Handle {
                        rail: id,
                        index: j as usize,
                        position: rail.control_points()[j],
                    }),
                self.rails@ == old(self).rails@,
                self.agents@ == old(self).agents@,
            decreases n - k,
        {
            let position = rail.control_point(k);
            self.handles.push(Handle { rail: id, index: k, position });
            k += 1;
        }
        self.rails.push(Some(PlacedRail { rail, transform }));
        proof {
            assert(self.handles_seq() =~= old(self).handles_seq() + Seq::new(
                control_points@.len(),
                |k: int|
                    (Handle {
                        rail: id as usize,
                        index: k as usize,
                        position: control_points@[k],
                    }),
            ));
            assert forall|i: int| self.rail_live(i) implies (#[trigger] self.rail_at(i)).wf()
                && point_in_world(self.transform_at(i)) by {
                if i < id {
                    assert(old(self).rail_live(i));
                    assert(self.rail_at(i) == old(self).rail_at(i));
                    assert(self.transform_at(i) == old(self).transform_at(i));
                }
            }
            assert forall|j: int| 0 <= j < self.handles_seq().len() implies self.handle_wf(
                #[trigger] self.handles_seq()[j],
            ) by {
                if j < old(self).handles_seq().len() {
                    let h = self.handles_seq()[j];
                    assert(old(self).handle_wf(h));
                    assert(h.rail < id);
                    assert(self.rails_seq()[h.rail as int] == old(self).rails_seq()[h.rail as int]);
                }
            }
            assert forall|j: int, k: int| 0 <= j < k < self.handles_seq().len() implies !(
            self.handles_seq()[j].rail == self.handles_seq()[k].rail && self.handles_seq()[j].index
                == self.handles_seq()[k].index) by {
                if k < old(self).handles_seq().len() {
                    assert(old(self).wf());
                } else if j < old(self).handles_seq().len() {
                    assert(old(self).handle_wf(old(self).handles_seq()[j]));
                    assert(self.handles_seq()[j].rail < id);
                }
            }
            assert forall|j: int| 0 <= j < self.agents_seq().len() implies self.agent_wf(
                #[trigger] self.agents_seq()[j],
            ) by {
                assert(old(self).agent_wf(old(self).agents_seq()[j]));
            }
        }
        Ok(id)
    }

    /// Handles a spawn-agent command: binds a new agent to the given rail,
    /// at the start of the rail and moving forward, its position sampled at
    /// progress zero. Fails with `DanglingReference` if the rail id names no
    /// live rail, mutating nothing.
    pub fn spawn_agent(&mut self, rail_id: usize) -> (r: Result<usize, CoreError>)
        requires
            old(self).wf(),
        ensures
            old(self).rail_live(rail_id as int) ==> {
                &&& r is Ok && r->Ok_0 == old(self).agents_seq().len()
                &&& final(self).rails_seq() == old(self).rails_seq()
                &&& final(self).handles_seq() == old(self).handles_seq()
                &&& final(self).agents_seq().len() == old(self).agents_seq().len() + 1
                &&& (forall|i: int|
                    0 <= i < old(self).agents_seq().len() ==> final(self).agents_seq()[i] == old(
                        self,
                    ).agents_seq()[i])
                &&& {
                    let a = final(self).agents_seq().last();
                    &&& a.rail == rail_id
                    &&& a.traversal == (Traversal { progress: 0, direction: Direction::Forward })
                    &&& is_evaluation(
                        old(self).rail_at(rail_id as int).kind(),
                        old(self).rail_at(rail_id as int).control_points(),
                        0,
                        PROGRESS_UNIT as int,
                        a.position,
                    )
                }
                &&& final(self).wf()
            },
            !old(self).rail_live(rail_id as int) ==> (r is Err && r->Err_0
                == CoreError::DanglingReference && *final(self) == *old(self)),
    {
        if rail_id >= self.rails.len() {
            return Err(CoreError::DanglingReference);
        }
        let traversal = Traversal::new();
        let tp = traversal.param();
        let position = match &self.rails[rail_id] {
            Some(pr) => {
                proof {
                    assert(old(self).rail_live(rail_id as int));
                    assert(old(self).rail_at(rail_id as int).wf());
                }
                match pr.rail.sample(&tp) {
                    Ok(p) => p,
                    Err(e) => {
                        return Err(e);
                    },
                }
            },
            None => {
                return Err(CoreError::DanglingReference);
            },
        };
        let id = self.agents.len();
        self.agents.push(Agent { rail: rail_id, traversal, position });
        proof {
            assert forall|j: int| 0 <= j < self.agents_seq().len() implies self.agent_wf(
                #[trigger] self.agents_seq()[j],
            ) by {
                if j < old(self).agents_seq().len() {
                    assert(old(self).agent_wf(old(self).agents_seq()[j]));
                }
            }
            lemma_wf_rails_handles_kept(*old(self), *self);
        }
        Ok(id)
    }

    /// Destroys a rail, leaving a vacant slot. Handles and agents still
    /// bound to the slot stay behind and report `DanglingReference` when
    /// they next try to reach it.
    pub fn despawn_rail(&mut self, rail_id: usize) -> (r: Result<(), CoreError>)
        requires
            old(self).wf(),
        ensures
            old(self).rail_live(rail_id as int) ==> (r is Ok
                && final(self).rails_seq() == old(self).rails_seq().update(rail_id as int, None)
                && final(self).handles_seq() == old(self).handles_seq()
                && final(self).agents_seq() == old(self).agents_seq()
                && final(self).wf()),
            !old(self).rail_live(rail_id as int) ==> (r is Err && r->Err_0
                == CoreError::DanglingReference && *final(self) == *old(self)),
    {
        if rail_id >= self.rails.len() {
            return Err(CoreError::DanglingReference);
        }
        match &self.rails[rail_id] {
            Some(_) => {},
            None => {
                return Err(CoreError::DanglingReference);
            },
        }
        self.rails[rail_id] = None;
        proof {
            assert forall|i: int| self.rail_live(i) implies (#[trigger] self.rail_at(i)).wf()
                && point_in_world(self.transform_at(i)) by {
                assert(old(self).rail_live(i));
                assert(self.rail_at(i) == old(self).rail_at(i));
            }
            assert forall|j: int| 0 <= j < self.handles_seq().len() implies self.handle_wf(
                #[trigger] self.handles_seq()[j],
            ) by {
                assert(old(self).handle_wf(old(self).handles_seq()[j]));
                let h = old(self).handles_seq()[j];
                if h.rail != rail_id {
                    assert(self.rails_seq()[h.rail as int] == old(self).rails_seq()[h.rail as int]);
                }
            }
            assert forall|j: int, k: int| 0 <= j < k < self.handles_seq().len() implies !(
            self.handles_seq()[j].rail == self.handles_seq()[k].rail && self.handles_seq()[j].index
                == self.handles_seq()[k].index) by {
                assert(self.handles_seq()[j] == old(self).handles_seq()[j]);
                assert(self.handles_seq()[k] == old(self).handles_seq()[k]);
            }
            assert forall|j: int| 0 <= j < self.agents_seq().len() implies self.agent_wf(
                #[trigger] self.agents_seq()[j],
            ) by {
                assert(old(self).agent_wf(old(self).agents_seq()[j]));
            }
        }
        Ok(())
    }
}

/// Coordinates are confined to the world's range: a drag that would leave
/// it stops at the border.
pub open spec fn clamp_coord(c: int) -> int {
    if c < -(COORD_LIMIT as int) {
        -(COORD_LIMIT as int)
    } else if c > COORD_LIMIT as int {
        COORD_LIMIT as int
    } else {
        c
    }
}

/// Where a drag by the screen-space delta takes the world-space position
/// `p`: the x axis follows the drag, the y axis is inverted (screen y grows
/// downward, world y grows upward — a fixed convention of the renderer),
/// and both coordinates are clamped to the world's range.
pub open spec fn dragged_point(p: Point, delta: Point) -> Point {
    Point {
        x: clamp_coord(p.x as int + delta.x as int) as i64,
        y: clamp_coord(p.y as int - delta.y as int) as i64,
    }
}

fn clamp_world(c: i64) -> (r: i64)
    requires
        -2 * (COORD_LIMIT as int) <= c as int <= 2 * (COORD_LIMIT as int),
    ensures
        r as int == clamp_coord(c as int),
{
    if c < -COORD_LIMIT {
        -COORD_LIMIT
    } else if c > COORD_LIMIT {
        COORD_LIMIT
    } else {
        c
    }
}

/// Applies a screen-space drag delta to a world-space position.
fn drag_point(p: Point, delta: Point) -> (q: Point)
    requires
        point_in_world(p),
        point_in_world(delta),
    ensures
        q == dragged_point(p, delta),
        point_in_world(q),
{
    Point { x: clamp_world(p.x + delta.x), y: clamp_world(p.y - delta.y) }
}

impl Scene {
    /// Handles a drag event addressed to a control-point handle: resolves
    /// the handle to its rail and index, moves the handle's world position
    /// by the delta (y inverted, clamped to the world), rewrites that
    /// control point — rebuilding curve and tessellation — and updates the
    /// handle's displayed position. All of it completes before returning,
    /// so no reader ever sees a half-applied edit.
    #[verifier::rlimit(30)]
    pub fn drag_control_point(&mut self, handle_id: usize, delta: Point) -> (r: Result<
        (),
        CoreError,
    >)
        requires
            old(self).wf(),
            point_in_world(delta),
        ensures
            handle_id >= old(self).handles_seq().len() ==> (r is Err && r->Err_0
                == CoreError::IndexOutOfRange && *final(self) == *old(self)),
            handle_id < old(self).handles_seq().len() && !old(self).rail_live(
                old(self).handles_seq()[handle_id as int].rail as int,
            ) ==> (r is Err && r->Err_0 == CoreError::DanglingReference && *final(self) == *old(
                self,
            )),
            handle_id < old(self).handles_seq().len() && old(self).rail_live(
                old(self).handles_seq()[handle_id as int].rail as int,
            ) ==> {
                let h = old(self).handles_seq()[handle_id as int];
                let q = dragged_point(h.position, delta);
                &&& r is Ok
                &&& final(self).handles_seq() == old(self).handles_seq().update(
                    handle_id as int,
                    (Handle { rail: h.rail, index: h.index, position: q }),
                )
                &&& final(self).rails_seq().len() == old(self).rails_seq().len()
                &&& (forall|i: int|
                    0 <= i < old(self).rails_seq().len() && i != h.rail
                        ==> final(self).rails_seq()[i] == old(self).rails_seq()[i])
                &&& final(self).rail_live(h.rail as int)
                &&& final(self).rail_at(h.rail as int).kind() == old(self).rail_at(
                    h.rail as int,
                ).kind()
                &&& final(self).rail_at(h.rail as int).control_points() == old(self).rail_at(
                    h.rail as int,
                ).control_points().update(h.index as int, q)
                &&& final(self).transform_at(h.rail as int) == old(self).transform_at(
                    h.rail as int,
                )
                &&& final(self).agents_seq() == old(self).agents_seq()
                &&& final(self).wf()
            },
    {
        if handle_id >= self.handles.len() {
            return Err(CoreError::IndexOutOfRange);
        }
        let h = self.handles[handle_id];
        proof {
            assert(old(self).handle_wf(old(self).handles_seq()[handle_id as int]));
        }
        match &self.rails[h.rail] {
            Some(_) => {},
            None => {
                return Err(CoreError::DanglingReference);
            },
        }
        proof {
            assert(old(self).rail_at(h.rail as int).wf());
        }
        let q = drag_point(h.position, delta);
        let set_result = match &mut self.rails[h.rail] {
            Some(pr) => pr.rail.set_control_point(h.index, q),
            None => Err(CoreError::DanglingReference),
        };
        match set_result {
            Ok(_) => {},
            Err(e) => {
                return Err(e);
            },
        }
        proof {
            let pre = *old(self);
            let rid = h.rail as int;
            assert(self.rails_seq().len() == pre.rails_seq().len());
            assert(self.rails_seq()[rid] is Some);
            assert(self.rail_at(rid).wf());
            assert(self.rail_at(rid).control_points() == pre.rail_at(rid).control_points().update(
                h.index as int,
                q,
            ));
            assert(self.transform_at(rid) == pre.transform_at(rid));
        }
        self.handles[handle_id] = Handle { rail: h.rail, index: h.index, position: q };
        proof {
            let pre = *old(self);
            let hid = handle_id as int;
            let rid = h.rail as int;
            assert forall|i: int| self.rail_live(i) implies (#[trigger] self.rail_at(i)).wf()
                && point_in_world(self.transform_at(i)) by {
                assert(pre.rail_live(i));
                if i != rid {
                    assert(self.rails_seq()[i] == pre.rails_seq()[i]);
                    assert(self.rail_at(i) == pre.rail_at(i));
                    assert(self.transform_at(i) == pre.transform_at(i));
                } else {
                    assert(pre.rail_at(i).wf());
                }
            }
            assert forall|j: int| 0 <= j < self.handles_seq().len() implies self.handle_wf(
                #[trigger] self.handles_seq()[j],
            ) by {
                assert(pre.handle_wf(pre.handles_seq()[j]));
                let hj = pre.handles_seq()[j];
                if j != hid {
                    assert(self.handles_seq()[j] == hj);
                    if hj.rail as int != rid {
                        assert(self.rails_seq()[hj.rail as int] == pre.rails_seq()[hj.rail as int]);
                    } else {
                        assert(!(hj.rail == h.rail && hj.index == h.index));
                        assert(self.rail_at(rid).control_points()[hj.index as int] == pre.rail_at(
                            rid,
                        ).control_points()[hj.index as int]);
                    }
                }
            }
            assert forall|j: int, k: int| 0 <= j < k < self.handles_seq().len() implies !(
            self.handles_seq()[j].rail == self.handles_seq()[k].rail && self.handles_seq()[j].index
                == self.handles_seq()[k].index) by {
                assert(pre.handles_seq()[j].rail == self.handles_seq()[j].rail
                    && pre.handles_seq()[j].index == self.handles_seq()[j].index);
                assert(pre.handles_seq()[k].rail == self.handles_seq()[k].rail
                    && pre.handles_seq()[k].index == self.handles_seq()[k].index);
            }
            assert forall|j: int| 0 <= j < self.agents_seq().len() implies self.agent_wf(
                #[trigger] self.agents_seq()[j],
            ) by {
                assert(pre.agent_wf(pre.agents_seq()[j]));
            }
        }
        Ok(())
    }

    /// Handles a drag event addressed to the rail itself: translates the
    /// placement transform (y inverted, clamped to the world). The curve
    /// shape, its tessellation, and every handle and agent are untouched.
    pub fn drag_rail(&mut self, rail_id: usize, delta: Point) -> (r: Result<(), CoreError>)
        requires
            old(self).wf(),
            point_in_world(delta),
        ensures
            old(self).rail_live(rail_id as int) ==> {
                &&& r is Ok
                &&& final(self).rails_seq().len() == old(self).rails_seq().len()
                &&& (forall|i: int|
                    0 <= i < old(self).rails_seq().len() && i != rail_id
                        ==> final(self).rails_seq()[i] == old(self).rails_seq()[i])
                &&& final(self).rail_live(rail_id as int)
                &&& final(self).rail_at(rail_id as int) == old(self).rail_at(rail_id as int)
                &&& final(self).transform_at(rail_id as int) == dragged_point(
                    old(self).transform_at(rail_id as int),
                    delta,
                )
                &&& final(self).handles_seq() == old(self).handles_seq()
                &&& final(self).agents_seq() == old(self).agents_seq()
                &&& final(self).wf()
            },
            !old(self).rail_live(rail_id as int) ==> (r is Err && r->Err_0
                == CoreError::DanglingReference && *final(self) == *old(self)),
    {
        if rail_id >= self.rails.len() {
            return Err(CoreError::DanglingReference);
        }
        match &self.rails[rail_id] {
            Some(_) => {},
            None => {
                return Err(CoreError::DanglingReference);
            },
        }
        proof {
            assert(old(self).rail_live(rail_id as int));
            assert(old(self).rail_at(rail_id as int).wf());
            assert(point_in_world(old(self).transform_at(rail_id as int)));
        }
        match &mut self.rails[rail_id] {
            Some(pr) => {
                let moved = drag_point(pr.transform, delta);
                pr.transform = moved;
            },
            None => {},
        }
        proof {
            let pre = *old(self);
            let rid = rail_id as int;
            assert(self.rails_seq()[rid] is Some);
            assert(self.rail_at(rid) == pre.rail_at(rid));
            assert(self.transform_at(rid) == dragged_point(pre.transform_at(rid), delta));
            assert forall|i: int| self.rail_live(i) implies (#[trigger] self.rail_at(i)).wf()
                && point_in_world(self.transform_at(i)) by {
                assert(pre.rail_live(i));
                if i != rid {
                    assert(self.rails_seq()[i] == pre.rails_seq()[i]);
                    assert(self.rail_at(i) == pre.rail_at(i));
                    assert(self.transform_at(i) == pre.transform_at(i));
                } else {
                    assert(pre.rail_at(i).wf());
                }
            }
            assert forall|j: int| 0 <= j < self.handles_seq().len() implies self.handle_wf(
                #[trigger] self.handles_seq()[j],
            ) by {
                assert(pre.handle_wf(pre.handles_seq()[j]));
                let hj = pre.handles_seq()[j];
                if hj.rail as int != rid {
                    assert(self.rails_seq()[hj.rail as int] == pre.rails_seq()[hj.rail as int]);
                } else {
                    assert(self.rail_at(rid) == pre.rail_at(rid));
                }
            }
            assert forall|j: int, k: int| 0 <= j < k < self.handles_seq().len() implies !(
            self.handles_seq()[j].rail == self.handles_seq()[k].rail && self.handles_seq()[j].index
                == self.handles_seq()[k].index) by {
                assert(self.handles_seq()[j] == pre.handles_seq()[j]);
                assert(self.handles_seq()[k] == pre.handles_seq()[k]);
            }
            assert forall|j: int| 0 <= j < self.agents_seq().len() implies self.agent_wf(
                #[trigger] self.agents_seq()[j],
            ) by {
                assert(pre.agent_wf(pre.agents_seq()[j]));
            }
        }
        Ok(())
    }
}

/// What one pass of `update_agents` does to the agent at index `i`: its
/// traversal takes exactly one `tick_spec` transition, and its position is
/// re-sampled from its rail at the new progress — unless the rail is gone,
/// in which case the position is left as it was and the pass reports
/// `DanglingReference`.
pub open spec fn agent_stepped_from(pre: Scene, a: Agent, b: Agent, dt: u64) -> bool {
    &&& b.rail == a.rail
    &&& b.traversal == tick_spec(a.traversal, dt)
    &&& pre.rail_live(a.rail as int) ==> is_evaluation(
        pre.rail_at(a.rail as int).kind(),
        pre.rail_at(a.rail as int).control_points(),
        b.traversal.progress as int,
        PROGRESS_UNIT as int,
        b.position,
    )
    &&& !pre.rail_live(a.rail as int) ==> b.position == a.position
}

pub open spec fn agent_stepped(pre: Scene, post: Scene, i: int, dt: u64) -> bool {
    agent_stepped_from(pre, pre.agents_seq()[i], post.agents_seq()[i], dt)
}

impl Scene {
    /// One tick of agent traversal, after all edits of the tick have been
    /// applied: every agent advances its ping-pong machine by `dt` and is
    /// re-sampled from its rail. An agent whose rail was destroyed keeps
    /// its last position, and the pass reports `DanglingReference` (after
    /// still updating every other agent).
    pub fn update_agents(&mut self, dt: u64) -> (r: Result<(), CoreError>)
        requires
            old(self).wf(),
        ensures
            final(self).rails_seq() == old(self).rails_seq(),
            final(self).handles_seq() == old(self).handles_seq(),
            final(self).agents_seq().len() == old(self).agents_seq().len(),
            forall|i: int|
                0 <= i < old(self).agents_seq().len() ==> agent_stepped(
                    *old(self),
                    *final(self),
                    i,
                    dt,
                ),
            r is Ok <==> (forall|i: int|
                0 <= i < old(self).agents_seq().len() ==> old(self).rail_live(
                    #[trigger] old(self).agents_seq()[i].rail as int,
                )),
            r is Err ==> r->Err_0 == CoreError::DanglingReference,
            final(self).wf(),
    {
        let n = self.agents.len();
        let mut i: usize = 0;
        let mut all_live = true;
        while i < n
            invariant
                old(self).wf(),
                n == old(self).agents_seq().len(),
                i <= n,
                self.rails@ == old(self).rails@,
                self.handles@ == old(self).handles@,
                self.agents@.len() == n,
                forall|j: int| i <= j < n ==> self.agents@[j] == old(self).agents@[j],
                forall|j: int|
                    0 <= j < i ==> agent_stepped_from(
                        *old(self),
                        old(self).agents@[j],
                        #[trigger] self.agents@[j],
                        dt,
                    ),
                forall|j: int| 0 <= j < i ==> old(self).agent_wf(#[trigger] self.agents@[j]),
                all_live <==> (forall|j: int|
                    0 <= j < i ==> old(self).rail_live(
                        #[trigger] old(self).agents_seq()[j].rail as int,
                    )),
            decreases n - i,
        {
            let a = self.agents[i];
            proof {
                assert(old(self).agent_wf(old(self).agents_seq()[i as int]));
            }
            let mut traversal = a.traversal;
            traversal.tick(dt);
            let tp = traversal.param();
            let (position, live): (Point, bool) = match &self.rails[a.rail] {
                Some(pr) => {
                    proof {
                        assert(old(self).rail_live(a.rail as int));
                        assert(old(self).rail_at(a.rail as int).wf());
                    }
                    match pr.rail.sample(&tp) {
                        Ok(p) => (p, true),
                        Err(_) => (a.position, false),
                    }
                },
                None => (a.position, false),
            };
            if !live {
                all_live = false;
            }
            self.agents[i] = Agent { rail: a.rail, traversal, position };
            proof {
                assert(old(self).agent_wf(self.agents@[i as int]));
                assert(agent_stepped_from(
                    *old(self),
                    old(self).agents@[i as int],
                    self.agents@[i as int],
                    dt,
                ));
            }
            i += 1;
        }
        proof {
            assert forall|j: int| 0 <= j < n implies agent_stepped(*old(self), *self, j, dt) by {
                assert(agent_stepped_from(
                    *old(self),
                    old(self).agents@[j],
                    #[trigger] self.agents@[j],
                    dt,
                ));
            }
            assert forall|j: int| 0 <= j < self.agents_seq().len() implies self.agent_wf(
                #[trigger] self.agents_seq()[j],
            ) by {
                assert(old(self).agent_wf(self.agents@[j]));
            }
            lemma_wf_rails_handles_kept(*old(self), *self);
        }
        if all_live {
            Ok(())
        } else {
            Err(CoreError::DanglingReference)
        }
    }

    /// How many rail slots the arena has (live or vacated).
    pub fn rail_count(&self) -> (n: usize)
        ensures
            n == self.rails_seq().len(),
    {
        self.rails.len()
    }

    pub fn handle_count(&self) -> (n: usize)
        ensures
            n == self.handles_seq().len(),
    {
        self.handles.len()
    }

    pub fn agent_count(&self) -> (n: usize)
        ensures
            n == self.agents_seq().len(),
    {
        self.agents.len()
    }

    /// The rail's cached polyline, for the rendering collaborator.
    pub fn rail_vertices(&self, rail_id: usize) -> (r: Result<&Vec<Point>, CoreError>)
        ensures
            self.rail_live(rail_id as int) ==> (r is Ok && r->Ok_0@ == self.rail_at(
                rail_id as int,
            ).vertices_seq()),
            !self.rail_live(rail_id as int) ==> (r is Err && r->Err_0
                == CoreError::DanglingReference),
    {
        if rail_id >= self.rails.len() {
            return Err(CoreError::DanglingReference);
        }
        match &self.rails[rail_id] {
            Some(pr) => Ok(pr.rail.vertices()),
            None => Err(CoreError::DanglingReference),
        }
    }

    /// The rail's placement transform, for the rendering collaborator.
    pub fn rail_transform(&self, rail_id: usize) -> (r: Result<Point, CoreError>)
        ensures
            self.rail_live(rail_id as int) ==> (r is Ok && r->Ok_0 == self.transform_at(
                rail_id as int,
            )),
            !self.rail_live(rail_id as int) ==> (r is Err && r->Err_0
                == CoreError::DanglingReference),
    {
        if rail_id >= self.rails.len() {
            return Err(CoreError::DanglingReference);
        }
        match &self.rails[rail_id] {
            Some(pr) => Ok(pr.transform),
            None => Err(CoreError::DanglingReference),
        }
    }

    /// The handle's displayed position, for the handle sprite.
    pub fn handle_at(&self, handle_id: usize) -> (r: Result<Handle, CoreError>)
        ensures
            handle_id < self.handles_seq().len() ==> (r is Ok && r->Ok_0
                == self.handles_seq()[handle_id as int]),
            handle_id >= self.handles_seq().len() ==> (r is Err && r->Err_0
                == CoreError::IndexOutOfRange),
    {
        if handle_id >= self.handles.len() {
            return Err(CoreError::IndexOutOfRange);
        }
        Ok(self.handles[handle_id])
    }

    /// The agent's state: its rail binding, traversal state and rail-local
    /// sampled position, for the token sprite.
    pub fn agent_at(&self, agent_id: usize) -> (r: Result<Agent, CoreError>)
        ensures
            agent_id < self.agents_seq().len() ==> (r is Ok && r->Ok_0
                == self.agents_seq()[agent_id as int]),
            agent_id >= self.agents_seq().len() ==> (r is Err && r->Err_0
                == CoreError::IndexOutOfRange),
    {
        if agent_id >= self.agents.len() {
            return Err(CoreError::IndexOutOfRange);
        }
        Ok(self.agents[agent_id])
    }

    /// The agent's position in world space: its rail-local sampled position
    /// translated by the rail's placement transform. Fails with
    /// `DanglingReference` if the rail is gone.
    pub fn agent_world_position(&self, agent_id: usize) -> (r: Result<Point, CoreError>)
        requires
            self.wf(),
        ensures
            agent_id < self.agents_seq().len() && self.rail_live(
                self.agents_seq()[agent_id as int].rail as int,
            ) ==> {
                let a = self.agents_seq()[agent_id as int];
                let t = self.transform_at(a.rail as int);
                &&& r is Ok
                &&& r->Ok_0.x as int == t.x as int + a.position.x as int
                &&& r->Ok_0.y as int == t.y as int + a.position.y as int
            },
            agent_id >= self.agents_seq().len() ==> (r is Err && r->Err_0
                == CoreError::IndexOutOfRange),
            agent_id < self.agents_seq().len() && !self.rail_live(
                self.agents_seq()[agent_id as int].rail as int,
            ) ==> (r is Err && r->Err_0 == CoreError::DanglingReference),
    {
        if agent_id >= self.agents.len() {
            return Err(CoreError::IndexOutOfRange);
        }
        let a = self.agents[agent_id];
        proof {
            assert(self.agent_wf(self.agents_seq()[agent_id as int]));
        }
        match &self.rails[a.rail] {
            Some(pr) => {
                proof {
                    assert(self.rail_live(a.rail as int));
                    assert(self.rail_at(a.rail as int).wf());
                    assert(point_in_world(self.transform_at(a.rail as int)));
                }
                Ok(Point { x: pr.transform.x + a.position.x, y: pr.transform.y + a.position.y })
            },
            None => Err(CoreError::DanglingReference),
        }
    }
}

} // verus!
