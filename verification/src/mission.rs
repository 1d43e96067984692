//! The decisions of the survey mission: the phases, what the drone does on
//! reaching a target during the reconnaissance and during the flight, and
//! the targets each phase starts with.

use vstd::prelude::*;
use crate::flight::{
    reconnaissance, survey, quadrant_count, grid_width, grid_height, target_vector, targets_of,
    CoastMap, Drone, Moving, Point, Quadrant, Quadrants, ReconTargets, Target, Tile,
};

verus! {

/// The phases of the mission, in the order they follow one another.
#[derive(Debug, Clone, Copy, PartialEq, Eq, Structural, Hash)]
pub enum Phase {
    Setup,
    Waiting,
    Recon,
    Flight,
    Done,
}

impl Default for Phase {
    fn default() -> (phase: Phase)
        ensures
            phase == Phase::Setup,
    {
        Phase::Setup
    }
}

/// The sprite that marks a quadrant on screen.
#[derive(Debug, Clone, Copy, PartialEq, Eq, Structural)]
pub enum Marker {
    /// A surveyed water quadrant.
    BlueBorder,
    /// A surveyed quadrant that is not water.
    GreyBorder,
    /// A quadrant where a sample was taken.
    Checkmark,
}

/// A marker to draw over the quadrant centred at `at`.
#[derive(Debug, Clone, Copy, PartialEq, Eq, Structural)]
pub struct Mark {
    pub marker: Marker,
    pub at: Point,
}

/// What a step of the route asks of the outside world: a marker to draw,
/// and the phase to switch to.
#[derive(Debug, Clone, Copy, PartialEq, Eq, Structural)]
pub struct RouteAction {
    pub mark: Option<Mark>,
    pub next_phase: Option<Phase>,
}

/// A step that asks for nothing.
pub open spec fn no_action() -> RouteAction {
    RouteAction { mark: None, next_phase: None }
}

/// The phase that a key press in the waiting phase leads to: the space bar
/// starts the reconnaissance.
pub fn waiting(space_pressed: bool) -> (next: Option<Phase>)
    ensures
        next == (if space_pressed {
            Some(Phase::Recon)
        } else {
            None
        }),
{
    if space_pressed {
        Some(Phase::Recon)
    } else {
        None
    }
}

/// The border drawn over the quadrant the drone has just surveyed: blue for
/// water, grey otherwise; nothing if the drone had no target.
pub open spec fn survey_mark(target: Option<Target>) -> Option<Mark> {
    match target {
        Some(t) => Some(
            Mark {
                marker: if t.quad.kind == Tile::Water {
                    Marker::BlueBorder
                } else {
                    Marker::GreyBorder
                },
                at: t.quad.pos,
            },
        ),
        None => None,
    }
}

/// A checkmark over the drone's target, if it has one.
pub open spec fn checkmark(target: Option<Target>) -> Option<Mark> {
    match target {
        Some(t) => Some(Mark { marker: Marker::Checkmark, at: t.quad.pos }),
        None => None,
    }
}

/// The quadrant that surveying `target` adds to the water quadrants: the
/// target's quadrant if it is water, else nothing.
pub open spec fn water_found(target: Option<Target>) -> Seq<Quadrant> {
    match target {
        Some(t) => if t.quad.kind == Tile::Water {
            seq![t.quad]
        } else {
            Seq::empty()
        },
        None => Seq::empty(),
    }
}

/// The water quadrants among the quadrants of `targets`, in order.
pub open spec fn water_of(targets: Seq<Target>) -> Seq<Quadrant> {
    targets.map_values(|t: Target| t.quad).filter(|q: Quadrant| q.kind == Tile::Water)
}

/// One arrival of the drone during the reconnaissance, in terms of the
/// drone's target, the number of targets handed out and the water quadrants
/// found so far: the quadrant just reached is recorded if it is water; then
/// either the next target is handed out, or, when none is left, the mission
/// moves on to the flight phase.
pub open spec fn recon_arrival(
    quads: Seq<Target>,
    target: Option<Target>,
    current: int,
    water: Seq<Quadrant>,
) -> (Option<Target>, int, Seq<Quadrant>, RouteAction) {
    let water2 = water + water_found(target);
    if current == quads.len() {
        (target, current, water2, RouteAction { mark: survey_mark(target), next_phase: Some(Phase::Flight) })
    } else {
        (Some(quads[current]), current + 1, water2, RouteAction { mark: survey_mark(target), next_phase: None })
    }
}

/// A reconnaissance step of the drone. `in_range` tells whether the drone
/// has reached its target. Out of range, nothing changes. In range, the
/// step is `recon_arrival`; when it ends the reconnaissance, the drone
/// turns back to base, where the flight starts from.
pub fn drone_route_recon(
    drone: &mut Drone,
    targets: &mut ReconTargets,
    water_quads: &mut Quadrants,
    in_range: bool,
) -> (action: RouteAction)
    requires
        old(targets).quads@.len() > 0,
        old(targets).current <= old(targets).quads@.len(),
    ensures
        final(targets).quads@ == old(targets).quads@,
        final(targets).current <= final(targets).quads@.len(),
        final(drone).pos == old(drone).pos,
        final(drone).speed == old(drone).speed,
        final(drone).moving == (if in_range && old(targets).current == old(targets).quads@.len() {
            Moving::ToBase
        } else {
            old(drone).moving
        }),
        !in_range ==> {
            &&& action == no_action()
            &&& final(drone).target == old(drone).target
            &&& final(targets).current == old(targets).current
            &&& final(water_quads).q@ == old(water_quads).q@
        },
        in_range ==> (final(drone).target, final(targets).current as int, final(water_quads).q@, action)
            == recon_arrival(
            old(targets).quads@,
            old(drone).target,
            old(targets).current as int,
            old(water_quads).q@,
        ),
{
    if !in_range {
        return RouteAction { mark: None, next_phase: None };
    }
    let mut mark: Option<Mark> = None;
    match drone.target {
        Some(target) => {
            let quad = target.quad;
            let marker = match quad.kind {
                Tile::Water => {
                    water_quads.q.push(quad);
                    Marker::BlueBorder
                },
                _ => Marker::GreyBorder,
            };
            mark = Some(Mark { marker, at: quad.pos });
        },
        None => {},
    }
    proof {
        assert(water_quads.q@ =~= old(water_quads).q@ + water_found(old(drone).target));
    }
    if targets.current == targets.quads.len() {
        drone.moving = Moving::ToBase;
        return RouteAction { mark, next_phase: Some(Phase::Flight) };
    }
    let next = targets.quads[targets.current];
    drone.set_target(&next);
    targets.current += 1;
    RouteAction { mark, next_phase: None }
}

/// One arrival of the drone during the flight, in terms of the drone's
/// target, where it was heading and the number of targets handed out.
/// With no target at all, the mission ends at once, with nothing to mark.
/// Once every target has been handed out, the arrival ends the mission with
/// a checkmark over the last quadrant. Otherwise, on reaching a quadrant the
/// drone turns back to base; on reaching the base it marks the quadrant it
/// comes from (from the second one on) and heads for the next target.
pub open spec fn flight_arrival(
    quads: Seq<Target>,
    target: Option<Target>,
    moving: Moving,
    current: int,
) -> (Option<Target>, Moving, int, RouteAction) {
    if quads.len() == 0 {
        (target, moving, current, RouteAction { mark: None, next_phase: Some(Phase::Done) })
    } else if current == quads.len() {
        (target, moving, current, RouteAction { mark: checkmark(target), next_phase: Some(Phase::Done) })
    } else {
        match moving {
            Moving::ToBase => {
                let mark = if current > 1 {
                    checkmark(target)
                } else {
                    None
                };
                (Some(quads[current]), Moving::ToQuad, current, RouteAction { mark, next_phase: None })
            },
            Moving::ToQuad => (target, Moving::ToBase, current + 1, no_action()),
        }
    }
}

/// A flight step of the drone. `in_range` tells whether the drone has
/// reached where it was heading (a quadrant or the base). Out of range,
/// nothing changes. In range, the step is `flight_arrival`.
pub fn drone_route_flight(drone: &mut Drone, targets: &mut ReconTargets, in_range: bool) -> (action:
    RouteAction)
    requires
        old(targets).quads@.len() > 0 || old(drone).moving == Moving::ToBase,
        old(targets).current <= old(targets).quads@.len(),
    ensures
        final(targets).quads@ == old(targets).quads@,
        old(targets).current <= final(targets).current <= final(targets).quads@.len(),
        final(drone).pos == old(drone).pos,
        final(drone).speed == old(drone).speed,
        !in_range ==> {
            &&& action == no_action()
            &&& final(drone).target == old(drone).target
            &&& final(drone).moving == old(drone).moving
            &&& final(targets).current == old(targets).current
        },
        in_range ==> (final(drone).target, final(drone).moving, final(targets).current as int, action)
            == flight_arrival(
            old(targets).quads@,
            old(drone).target,
            old(drone).moving,
            old(targets).current as int,
        ),
{
    if !in_range {
        return RouteAction { mark: None, next_phase: None };
    }
    if targets.quads.len() == 0 {
        return RouteAction { mark: None, next_phase: Some(Phase::Done) };
    }
    if targets.current == targets.quads.len() {
        let mark = match drone.target {
            Some(target) => Some(Mark { marker: Marker::Checkmark, at: target.quad.pos }),
            None => None,
        };
        return RouteAction { mark, next_phase: Some(Phase::Done) };
    }
    match drone.moving {
        Moving::ToBase => {
            let mut mark: Option<Mark> = None;
            if targets.current > 1 {
                mark = match drone.target {
                    Some(target) => Some(Mark { marker: Marker::Checkmark, at: target.quad.pos }),
                    None => None,
                };
            }
            let next = targets.quads[targets.current];
            drone.set_target(&next);
            drone.moving = Moving::ToQuad;
            RouteAction { mark, next_phase: None }
        },
        Moving::ToQuad => {
            drone.moving = Moving::ToBase;
            targets.current += 1;
            RouteAction { mark: None, next_phase: None }
        },
    }
}

/// The start of the reconnaissance: one target per quadrant of the map, in
/// survey order, none handed out yet, and no water quadrant found yet.
pub fn recon(map: &CoastMap) -> (started: (ReconTargets, Quadrants))
    ensures
        started.0.quads@ == targets_of(
            survey(map@, quadrant_count(grid_width(map@)), quadrant_count(grid_height(map@))),
        ),
        started.0.current == 0,
        started.1.q@ == Seq::<Quadrant>::empty(),
{
    let quads = reconnaissance(map);
    let targets = target_vector(quads);
    (ReconTargets { quads: targets, current: 0 }, Quadrants { q: Vec::new() })
}

/// A copy of a list of quadrants.
fn clone_quadrants(quads: &Vec<Quadrant>) -> (copy: Vec<Quadrant>)
    ensures
        copy@ == quads@,
{
    let mut copy: Vec<Quadrant> = Vec::new();
    let mut i: usize = 0;
    while i < quads.len()
        invariant
            i <= quads@.len(),
            copy@ == quads@.take(i as int),
        decreases quads@.len() - i,
    {
        copy.push(quads[i]);
        assert(quads@.take(i + 1) =~= quads@.take(i as int).push(quads@[i as int]));
        i += 1;
    }
    assert(quads@.take(quads@.len() as int) =~= quads@);
    copy
}

/// The start of the flight: one target per water quadrant found, in the
/// order they were found, none handed out yet.
pub fn flight(water_quads: &Quadrants) -> (targets: ReconTargets)
    ensures
        targets.quads@ == targets_of(water_quads.q@),
        targets.current == 0,
{
    let quads = clone_quadrants(&water_quads.q);
    ReconTargets { quads: target_vector(quads), current: 0 }
}

/// The drone's target, the number of targets handed out and the water
/// quadrants found after the first `k` arrivals of a reconnaissance that
/// starts with a drone without target, no target handed out and no water
/// quadrant found.
pub open spec fn recon_after(quads: Seq<Target>, k: nat) -> (Option<Target>, int, Seq<Quadrant>)
    decreases k,
{
    if k == 0 {
        (None, 0, Seq::empty())
    } else {
        let s = recon_after(quads, (k - 1) as nat);
        let r = recon_arrival(quads, s.0, s.1, s.2);
        (r.0, r.1, r.2)
    }
}

/// Adding one more target to a list adds its quadrant to the water
/// quadrants of the list exactly when it is water.
proof fn lemma_water_of_push(quads: Seq<Target>, k: int)
    requires
        0 <= k < quads.len(),
    ensures
        water_of(quads.take(k + 1)) == water_of(quads.take(k)) + water_found(Some(quads[k])),
{
    let longer = quads.take(k + 1).map_values(|t: Target| t.quad);
    let shorter = quads.take(k).map_values(|t: Target| t.quad);
    assert(longer.drop_last() =~= shorter);
    assert(longer.last() == quads[k].quad);
    reveal(Seq::filter);
    assert(water_of(quads.take(k + 1)) =~= water_of(quads.take(k)) + water_found(Some(quads[k])));
}

/// Law of the reconnaissance: the drone is sent to the targets one after
/// the other, in order. After arrival number `k` (up to the number of
/// targets), it heads for target `k - 1`, `k` targets have been handed out,
/// the water quadrants among the targets before it have been recorded, and
/// the mission is still in the reconnaissance phase.
pub proof fn lemma_recon_visits_in_order(quads: Seq<Target>, k: nat)
    requires
        k <= quads.len(),
    ensures
        recon_after(quads, k).0 == (if k == 0 {
            None
        } else {
            Some(quads[k - 1])
        }),
        recon_after(quads, k).1 == k,
        recon_after(quads, k).2 == (if k == 0 {
            Seq::<Quadrant>::empty()
        } else {
            water_of(quads.take(k - 1))
        }),
        k < quads.len() ==> recon_arrival(
            quads,
            recon_after(quads, k).0,
            recon_after(quads, k).1,
            recon_after(quads, k).2,
        ).3.next_phase.is_none(),
    decreases k,
{
    if k > 0 {
        lemma_recon_visits_in_order(quads, (k - 1) as nat);
        if k == 1 {
            reveal(Seq::filter);
            assert(water_of(quads.take(0)) =~= Seq::<Quadrant>::empty());
            assert(Seq::<Quadrant>::empty() + water_found(None) =~= Seq::<Quadrant>::empty());
        } else {
            lemma_water_of_push(quads, k - 2);
        }
    }
}

/// Law of the reconnaissance: the arrival that follows the last target
/// ends the reconnaissance, and by then exactly the water quadrants among
/// all the targets have been recorded, in the order of the targets.
pub proof fn lemma_recon_ends_with_all_water(quads: Seq<Target>)
    ensures
        ({
            let s = recon_after(quads, quads.len());
            let r = recon_arrival(quads, s.0, s.1, s.2);
            r.2 == water_of(quads) && r.3.next_phase == Some(Phase::Flight)
        }),
{
    lemma_recon_visits_in_order(quads, quads.len());
    if quads.len() == 0 {
        reveal(Seq::filter);
        assert(water_of(quads) =~= Seq::<Quadrant>::empty());
        assert(Seq::<Quadrant>::empty() + water_found(None) =~= Seq::<Quadrant>::empty());
    } else {
        lemma_water_of_push(quads, quads.len() - 1);
        assert(quads.take(quads.len() as int) =~= quads);
    }
}

/// Law of the mission: the water quadrants gathered from the targets of a
/// list of quadrants are water, come from that list, and every water
/// quadrant of the list is among them.
pub proof fn lemma_water_of_targets(quads: Seq<Quadrant>)
    ensures
        forall|i: int|
            0 <= i < water_of(targets_of(quads)).len() ==> (#[trigger] water_of(
                targets_of(quads),
            )[i]).kind == Tile::Water && quads.contains(water_of(targets_of(quads))[i]),
        forall|i: int|
            0 <= i < quads.len() && (#[trigger] quads[i]).kind == Tile::Water ==> water_of(
                targets_of(quads),
            ).contains(quads[i]),
{
    broadcast use vstd::seq_lib::group_filter_ensures, Seq::lemma_filter_contains_rev;

    let pred = |q: Quadrant| q.kind == Tile::Water;
    let back = targets_of(quads).map_values(|t: Target| t.quad);
    assert(back =~= quads);
    assert(water_of(targets_of(quads)) == quads.filter(pred));
    assert forall|i: int| 0 <= i < quads.filter(pred).len() implies quads.contains(
        #[trigger] quads.filter(pred)[i],
    ) by {
        assert(quads.filter(pred).contains(quads.filter(pred)[i]));
    }
}

/// Law of the flight: an arrival never hands out more targets than there
/// are, hands out at most one more, and hands one out only on reaching a
/// quadrant, after which the drone heads back to base.
pub proof fn lemma_flight_progress(quads: Seq<Target>, target: Option<Target>, moving: Moving, current: int)
    requires
        0 <= current <= quads.len(),
    ensures
        ({
            let r = flight_arrival(quads, target, moving, current);
            &&& current <= r.2 <= quads.len()
            &&& r.2 <= current + 1
            &&& r.2 == current + 1 ==> moving == Moving::ToQuad && r.1 == Moving::ToBase
        }),
{
}

/// The drone's target, heading and number of targets handed out after the
/// first `j` arrivals of a flight that starts at the end of the
/// reconnaissance: the drone heading back to base with target `start`, and
/// no target handed out.
pub open spec fn flight_after(quads: Seq<Target>, start: Option<Target>, j: nat) -> (
    Option<Target>,
    Moving,
    int,
)
    decreases j,
{
    if j == 0 {
        (start, Moving::ToBase, 0)
    } else {
        let s = flight_after(quads, start, (j - 1) as nat);
        let r = flight_arrival(quads, s.0, s.1, s.2);
        (r.0, r.1, r.2)
    }
}

/// Law of the flight: the drone samples the targets one after the other,
/// in order, going back to base between two of them. Arrival `2k + 1` at
/// base sends it to target `k`; arrival `2k + 2` reaches target `k` and
/// sends it back to base with `k + 1` targets handed out. None of these
/// arrivals ends the mission, and from the third target on, each return to
/// base puts a checkmark over the target just sampled.
pub proof fn lemma_flight_visits_in_order(quads: Seq<Target>, start: Option<Target>, k: nat)
    requires
        k < quads.len(),
    ensures
        flight_after(quads, start, 2 * k + 1) == (Some(quads[k as int]), Moving::ToQuad, k as int),
        flight_after(quads, start, 2 * k + 2) == (Some(quads[k as int]), Moving::ToBase, (k + 1) as int),
        ({
            let s = flight_after(quads, start, 2 * k);
            let r = flight_arrival(quads, s.0, s.1, s.2);
            &&& r.3.next_phase.is_none()
            &&& r.3.mark == (if k > 1 {
                Some(Mark { marker: Marker::Checkmark, at: quads[k - 1].quad.pos })
            } else {
                None
            })
        }),
        ({
            let s = flight_after(quads, start, 2 * k + 1);
            flight_arrival(quads, s.0, s.1, s.2).3 == no_action()
        }),
    decreases k,
{
    if k > 0 {
        lemma_flight_visits_in_order(quads, start, (k - 1) as nat);
        assert(2 * k == 2 * (k - 1) + 2);
    }
    assert(flight_after(quads, start, 2 * k + 1) == ({
        let s = flight_after(quads, start, 2 * k);
        let r = flight_arrival(quads, s.0, s.1, s.2);
        (r.0, r.1, r.2)
    }));
    assert(flight_after(quads, start, 2 * k + 2) == ({
        let s = flight_after(quads, start, 2 * k + 1);
        let r = flight_arrival(quads, s.0, s.1, s.2);
        (r.0, r.1, r.2)
    }));
}

/// Law of the flight: with `n` targets, arrival `2n + 1` (the return to
/// base from the last target, or the first arrival when there is no target)
/// ends the mission, with a checkmark over the last target if there is one.
pub proof fn lemma_flight_ends_after_last_target(quads: Seq<Target>, start: Option<Target>)
    ensures
        ({
            let n = quads.len();
            let s = flight_after(quads, start, 2 * n);
            flight_arrival(quads, s.0, s.1, s.2).3 == RouteAction {
                mark: if n == 0 {
                    None
                } else {
                    Some(Mark { marker: Marker::Checkmark, at: quads[n - 1].quad.pos })
                },
                next_phase: Some(Phase::Done),
            }
        }),
{
    let n = quads.len();
    if n > 0 {
        lemma_flight_visits_in_order(quads, start, (n - 1) as nat);
        assert(2 * n == 2 * (n - 1) + 2);
    }
}

/// Law of the reconnaissance step: on reaching its target, the drone draws
/// a border over the target's centre, blue exactly when the target is water
/// and grey otherwise, whatever water quadrants were found before; a water
/// target is appended to the water quadrants, anything else leaves them as
/// they are. Then the next target is handed out, or, when none is left, the
/// flight phase starts.
pub proof fn lemma_recon_arrival_marks(
    quads: Seq<Target>,
    target: Option<Target>,
    current: int,
    water: Seq<Quadrant>,
)
    requires
        0 <= current <= quads.len(),
    ensures
        ({
            let r = recon_arrival(quads, target, current, water);
            &&& target.is_none() ==> r.3.mark.is_none() && r.2 == water
            &&& target matches Some(t) ==> {
                &&& r.3.mark == Some(
                    Mark {
                        marker: if t.quad.kind == Tile::Water {
                            Marker::BlueBorder
                        } else {
                            Marker::GreyBorder
                        },
                        at: t.quad.pos,
                    },
                )
                &&& r.2 == (if t.quad.kind == Tile::Water {
                    water.push(t.quad)
                } else {
                    water
                })
            }
            &&& current < quads.len() ==> r.0 == Some(quads[current]) && r.1 == current + 1
                && r.3.next_phase.is_none()
            &&& current == quads.len() ==> r.0 == target && r.1 == current && r.3.next_phase == Some(
                Phase::Flight,
            )
        }),
{
    let r = recon_arrival(quads, target, current, water);
    match target {
        Some(t) => {
            if t.quad.kind == Tile::Water {
                assert(r.2 =~= water.push(t.quad));
            } else {
                assert(r.2 =~= water);
            }
        },
        None => {
            assert(r.2 =~= water);
        },
    }
}

/// Law of the flight step: with no target at all the mission ends with
/// nothing to mark; once every target is handed out it ends with a
/// checkmark over the drone's target; on reaching a quadrant the drone
/// turns back to base and one more target counts as handed out; on reaching
/// the base it heads for the next target, marking the target it comes from
/// once more than one target has been handed out.
pub proof fn lemma_flight_arrival_marks(
    quads: Seq<Target>,
    target: Option<Target>,
    moving: Moving,
    current: int,
)
    requires
        0 <= current <= quads.len(),
    ensures
        ({
            let r = flight_arrival(quads, target, moving, current);
            let mark_target = match target {
                Some(t) => Some(Mark { marker: Marker::Checkmark, at: t.quad.pos }),
                None => None,
            };
            &&& quads.len() == 0 ==> r == (target, moving, current, RouteAction {
                mark: None,
                next_phase: Some(Phase::Done),
            })
            &&& 0 < quads.len() == current ==> r == (target, moving, current, RouteAction {
                mark: mark_target,
                next_phase: Some(Phase::Done),
            })
            &&& current < quads.len() && moving == Moving::ToQuad ==> r == (
                target,
                Moving::ToBase,
                current + 1,
                RouteAction { mark: None, next_phase: None },
            )
            &&& current < quads.len() && moving == Moving::ToBase ==> r == (
                Some(quads[current]),
                Moving::ToQuad,
                current,
                RouteAction {
                    mark: if current > 1 {
                        mark_target
                    } else {
                        None
                    },
                    next_phase: None,
                },
            )
        }),
{
}

} // verus!
