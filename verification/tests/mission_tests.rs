use drone_recon::flight::{
    generate_coast_map, Drone, Moving, Point, QuadState, Quadrant, Quadrants, ReconTargets,
    Target, Tile,
};
use drone_recon::mission::{
    drone_route_flight, drone_route_recon, flight, recon, waiting, Mark, Marker, Phase,
    RouteAction,
};

fn quad(x: usize, y: usize, kind: Tile) -> Quadrant {
    Quadrant { pos: Point { x, y }, kind, quad_state: QuadState::NotFound }
}

fn targets(quads: &[Quadrant]) -> ReconTargets {
    ReconTargets { quads: quads.iter().map(|q| Target { quad: *q }).collect(), current: 0 }
}

const NOTHING: RouteAction = RouteAction { mark: None, next_phase: None };

#[test]
fn phase_starts_in_setup() {
    assert_eq!(Phase::default(), Phase::Setup);
}

#[test]
fn space_starts_reconnaissance() {
    assert_eq!(waiting(true), Some(Phase::Recon));
    assert_eq!(waiting(false), None);
}

#[test]
fn recon_step_out_of_range_changes_nothing() {
    let mut drone = Drone::init_with_pos(1, 1);
    let mut ts = targets(&[quad(5, 5, Tile::Water)]);
    let mut water = Quadrants { q: Vec::new() };
    assert_eq!(drone_route_recon(&mut drone, &mut ts, &mut water, false), NOTHING);
    assert_eq!(drone.target, None);
    assert_eq!(ts.current, 0);
    assert!(water.q.is_empty());
}

#[test]
fn recon_visits_targets_in_order_and_keeps_water() {
    let qs = [quad(5, 5, Tile::Water), quad(5, 15, Tile::Land), quad(15, 5, Tile::Water)];
    let mut drone = Drone::init_with_pos(1, 28);
    let mut ts = targets(&qs);
    let mut water = Quadrants { q: Vec::new() };

    // first arrival: no target yet, the first one is handed out
    let a = drone_route_recon(&mut drone, &mut ts, &mut water, true);
    assert_eq!(a, NOTHING);
    assert_eq!(drone.target, Some(Target { quad: qs[0] }));
    assert_eq!(ts.current, 1);

    let a = drone_route_recon(&mut drone, &mut ts, &mut water, true);
    assert_eq!(a.mark, Some(Mark { marker: Marker::BlueBorder, at: Point { x: 5, y: 5 } }));
    assert_eq!(a.next_phase, None);
    assert_eq!(drone.target, Some(Target { quad: qs[1] }));
    assert_eq!(ts.current, 2);
    assert_eq!(water.q, vec![qs[0]]);

    let a = drone_route_recon(&mut drone, &mut ts, &mut water, true);
    assert_eq!(a.mark, Some(Mark { marker: Marker::GreyBorder, at: Point { x: 5, y: 15 } }));
    assert_eq!(ts.current, 3);
    assert_eq!(water.q, vec![qs[0]]);

    // the arrival after the last target ends the reconnaissance
    let a = drone_route_recon(&mut drone, &mut ts, &mut water, true);
    assert_eq!(a.mark, Some(Mark { marker: Marker::BlueBorder, at: Point { x: 15, y: 5 } }));
    assert_eq!(a.next_phase, Some(Phase::Flight));
    assert_eq!(ts.current, 3);
    assert_eq!(drone.target, Some(Target { quad: qs[2] }));
    assert_eq!(water.q, vec![qs[0], qs[2]]);
    assert_eq!(drone.pos, Point { x: 1, y: 28 });
    assert_eq!(drone.moving, Moving::ToBase);
}

#[test]
fn flight_step_out_of_range_changes_nothing() {
    let mut drone = Drone::init_with_pos(1, 1);
    let mut ts = targets(&[quad(5, 5, Tile::Water)]);
    assert_eq!(drone_route_flight(&mut drone, &mut ts, false), NOTHING);
    assert_eq!(drone.moving, Moving::ToQuad);
    assert_eq!(ts.current, 0);
}

#[test]
fn flight_turns_back_at_a_quadrant() {
    let qs = [quad(5, 5, Tile::Water), quad(25, 5, Tile::Water), quad(35, 15, Tile::Water)];
    let mut drone = Drone::init_with_pos(1, 1);
    let mut ts = targets(&qs);
    let a = drone_route_flight(&mut drone, &mut ts, true);
    assert_eq!(a, NOTHING);
    assert_eq!(drone.moving, Moving::ToBase);
    assert_eq!(ts.current, 1);
    assert_eq!(drone.target, None);

    // back at base with one target handed out: no mark, next target
    let a = drone_route_flight(&mut drone, &mut ts, true);
    assert_eq!(a, NOTHING);
    assert_eq!(drone.moving, Moving::ToQuad);
    assert_eq!(drone.target, Some(Target { quad: qs[1] }));
    assert_eq!(ts.current, 1);

    let a = drone_route_flight(&mut drone, &mut ts, true);
    assert_eq!(a, NOTHING);
    assert_eq!(ts.current, 2);
    assert_eq!(drone.moving, Moving::ToBase);

    // back at base with two handed out: checkmark on the quadrant just sampled
    let a = drone_route_flight(&mut drone, &mut ts, true);
    assert_eq!(a.mark, Some(Mark { marker: Marker::Checkmark, at: Point { x: 25, y: 5 } }));
    assert_eq!(a.next_phase, None);
    assert_eq!(drone.target, Some(Target { quad: qs[2] }));
    assert_eq!(drone.moving, Moving::ToQuad);
}

#[test]
fn flight_at_base_with_every_target_handed_out_is_done() {
    let qs = [quad(5, 5, Tile::Water), quad(25, 5, Tile::Water)];
    let mut drone = Drone::init_with_pos(1, 1);
    drone.set_target(&Target { quad: qs[1] });
    drone.moving = Moving::ToBase;
    let mut ts = targets(&qs);
    ts.current = 2;
    let a = drone_route_flight(&mut drone, &mut ts, true);
    assert_eq!(
        a,
        RouteAction {
            mark: Some(Mark { marker: Marker::Checkmark, at: Point { x: 25, y: 5 } }),
            next_phase: Some(Phase::Done),
        }
    );
    assert_eq!(ts.current, 2);
}

#[test]
fn flight_done_when_no_target_left_at_a_quadrant() {
    let qs = [quad(5, 5, Tile::Water)];
    let mut drone = Drone::init_with_pos(1, 1);
    drone.set_target(&Target { quad: qs[0] });
    let mut ts = targets(&qs);
    ts.current = 1;
    let a = drone_route_flight(&mut drone, &mut ts, true);
    assert_eq!(
        a,
        RouteAction {
            mark: Some(Mark { marker: Marker::Checkmark, at: Point { x: 5, y: 5 } }),
            next_phase: Some(Phase::Done),
        }
    );
    assert_eq!(ts.current, 1);
}

#[test]
fn flight_from_base_ends_after_two_n_plus_one_arrivals() {
    let qs = [quad(5, 5, Tile::Water), quad(25, 5, Tile::Water), quad(35, 15, Tile::Water)];
    let mut drone = Drone::init_with_pos(1, 1);
    drone.moving = Moving::ToBase;
    let mut ts = targets(&qs);
    let mut marks = Vec::new();
    let mut arrivals = 0;
    loop {
        let a = drone_route_flight(&mut drone, &mut ts, true);
        arrivals += 1;
        if let Some(m) = a.mark {
            marks.push(m.at);
        }
        if arrivals % 2 == 1 && a.next_phase.is_none() {
            assert_eq!(drone.target, Some(Target { quad: qs[arrivals / 2] }));
            assert_eq!(drone.moving, Moving::ToQuad);
        }
        if a.next_phase == Some(Phase::Done) {
            break;
        }
        assert!(arrivals < 100);
    }
    assert_eq!(arrivals, 7);
    assert_eq!(ts.current, 3);
    assert_eq!(marks, vec![Point { x: 25, y: 5 }, Point { x: 35, y: 15 }]);
}

#[test]
fn flight_without_targets_ends_at_base_without_mark() {
    let mut drone = Drone::init_with_pos(1, 1);
    drone.set_target(&Target { quad: quad(15, 5, Tile::Land) });
    drone.moving = Moving::ToBase;
    let mut ts = targets(&[]);
    assert_eq!(drone_route_flight(&mut drone, &mut ts, false), NOTHING);
    assert_eq!(drone.moving, Moving::ToBase);
    assert_eq!(ts.current, 0);
    let a = drone_route_flight(&mut drone, &mut ts, true);
    assert_eq!(a, RouteAction { mark: None, next_phase: Some(Phase::Done) });
    assert_eq!(ts.current, 0);
    assert_eq!(drone.target, Some(Target { quad: quad(15, 5, Tile::Land) }));
}

#[test]
fn recon_start_holds_every_quadrant() {
    let map = generate_coast_map(20, 10, &vec![vec![true; 10]; 20]);
    let (ts, water) = recon(&map);
    assert_eq!(ts.current, 0);
    assert!(water.q.is_empty());
    assert_eq!(
        ts.quads,
        vec![Target { quad: quad(5, 5, Tile::Land) }, Target { quad: quad(15, 5, Tile::Land) }]
    );
}

#[test]
fn flight_start_holds_the_water_quadrants() {
    let water = Quadrants { q: vec![quad(5, 5, Tile::Water), quad(15, 25, Tile::Water)] };
    let ts = flight(&water);
    assert_eq!(ts.current, 0);
    assert_eq!(
        ts.quads,
        vec![Target { quad: water.q[0] }, Target { quad: water.q[1] }]
    );
    assert_eq!(water.q.len(), 2);
}

#[test]
fn whole_mission_collects_exactly_the_water_quadrants() {
    // columns 0..10 land, 10..30 water: quadrant columns 0 land, 1 and 2 water
    let mut land = vec![vec![false; 20]; 30];
    for x in 0..10 {
        for y in 0..20 {
            land[x][y] = true;
        }
    }
    let map = generate_coast_map(30, 20, &land);
    let (mut ts, mut water) = recon(&map);
    assert_eq!(ts.quads.len(), 6);
    let mut drone = Drone::init_with_pos(1, 18);
    let mut arrivals = 0;
    loop {
        let a = drone_route_recon(&mut drone, &mut ts, &mut water, true);
        arrivals += 1;
        if a.next_phase == Some(Phase::Flight) {
            break;
        }
    }
    assert_eq!(arrivals, 7);
    assert_eq!(
        water.q,
        vec![
            quad(15, 5, Tile::Water),
            quad(15, 15, Tile::Water),
            quad(25, 5, Tile::Water),
            quad(25, 15, Tile::Water),
        ]
    );
    let mut flight_targets = flight(&water);
    assert_eq!(flight_targets.quads.len(), 4);
    assert!(flight_targets.quads.iter().all(|t| t.quad.kind == Tile::Water));
    assert_eq!(drone.moving, Moving::ToBase);
    let mut arrivals = 0;
    loop {
        let a = drone_route_flight(&mut drone, &mut flight_targets, true);
        arrivals += 1;
        if a.next_phase == Some(Phase::Done) {
            assert_eq!(
                a.mark,
                Some(Mark { marker: Marker::Checkmark, at: Point { x: 25, y: 15 } })
            );
            break;
        }
        assert!(arrivals < 100);
    }
    assert_eq!(arrivals, 9);
}

#[test]
fn mission_without_water_ends_on_first_flight_arrival() {
    let map = generate_coast_map(10, 10, &vec![vec![true; 10]; 10]);
    let (mut ts, mut water) = recon(&map);
    let mut drone = Drone::init_with_pos(1, 8);
    assert_eq!(drone_route_recon(&mut drone, &mut ts, &mut water, true).next_phase, None);
    let a = drone_route_recon(&mut drone, &mut ts, &mut water, true);
    assert_eq!(a.next_phase, Some(Phase::Flight));
    assert!(water.q.is_empty());
    assert_eq!(drone.moving, Moving::ToBase);
    let mut flight_targets = flight(&water);
    assert!(flight_targets.quads.is_empty());
    let a = drone_route_flight(&mut drone, &mut flight_targets, true);
    assert_eq!(a, RouteAction { mark: None, next_phase: Some(Phase::Done) });
}
