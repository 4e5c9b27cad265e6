use ternary_swarm::flock::{AlignmentRule, Boid, Flock};
use ternary_swarm::{
    clamp_trit, collective_decision, consensus_round, particle_motion, GridPos, PheromoneGrid,
    Tour, Trit,
};

fn zero() -> GridPos {
    GridPos::new(Trit::Zero, Trit::Zero)
}

#[test]
fn trit_round_trip_and_negation() {
    for t in [Trit::Neg, Trit::Zero, Trit::Pos] {
        assert_eq!(Trit::from_i8(t.to_i8()), Some(t));
        assert_eq!(t.ternary_not().ternary_not(), t);
        assert_eq!(t.ternary_not().to_i8(), -t.to_i8());
    }
    assert_eq!(Trit::from_i8(-2), None);
    assert_eq!(Trit::from_i8(2), None);
    assert_eq!(Trit::from_i8(i8::MIN), None);
}

#[test]
fn clamp_trit_values() {
    assert_eq!(clamp_trit(-5), -1);
    assert_eq!(clamp_trit(-1), -1);
    assert_eq!(clamp_trit(0), 0);
    assert_eq!(clamp_trit(1), 1);
    assert_eq!(clamp_trit(7), 1);
}

#[test]
fn all_positions_order_and_distinct() {
    let ps = GridPos::all_positions();
    assert_eq!(ps[0], GridPos::new(Trit::Neg, Trit::Neg));
    assert_eq!(ps[1], GridPos::new(Trit::Neg, Trit::Zero));
    assert_eq!(ps[4], GridPos::new(Trit::Zero, Trit::Zero));
    assert_eq!(ps[8], GridPos::new(Trit::Pos, Trit::Pos));
    for i in 0..9 {
        for j in 0..9 {
            assert_eq!(ps[i] == ps[j], i == j);
        }
    }
}

#[test]
fn manhattan_symmetric_and_zero_on_equal() {
    let ps = GridPos::all_positions();
    for a in &ps {
        for b in &ps {
            assert_eq!(a.manhattan_distance(*b), b.manhattan_distance(*a));
            assert_eq!(a.manhattan_distance(*b) == 0, a == b);
            assert!(a.manhattan_distance(*b) <= 4);
        }
    }
    let a = GridPos::new(Trit::Zero, Trit::Pos);
    let b = GridPos::new(Trit::Neg, Trit::Neg);
    assert_eq!(a.manhattan_distance(b), 3);
}

#[test]
fn moved_clamps_to_grid() {
    let p = GridPos::new(Trit::Pos, Trit::Neg);
    assert_eq!(p.moved(GridPos::new(Trit::Pos, Trit::Neg)), p);
    assert_eq!(p.moved(GridPos::new(Trit::Neg, Trit::Pos)), zero());
    assert_eq!(p.moved(zero()), p);
}

#[test]
fn pheromone_read_after_write() {
    let mut g = PheromoneGrid::new();
    assert_eq!(g.get_trail(4, 5), Trit::Zero);
    g.set_trail(4, 5, Trit::Neg);
    assert_eq!(g.get_trail(4, 5), Trit::Neg);
    assert_eq!(g.get_trail(5, 4), Trit::Zero);
    g.set_trail(4, 5, Trit::Pos);
    assert_eq!(g.get_trail(4, 5), Trit::Pos);
    // outside the grid: writes are ignored and reads are neutral
    g.set_trail(9, 0, Trit::Pos);
    assert_eq!(g.get_trail(9, 0), Trit::Zero);
    assert_eq!(g.get_trail(0, 100), Trit::Zero);
}

#[test]
fn pheromone_deposit_keeps_other_edges() {
    let mut g = PheromoneGrid::new();
    g.set_trail(8, 8, Trit::Neg);
    g.set_trail(3, 4, Trit::Neg);
    g.deposit(&[3, 4, 3], Trit::Pos);
    assert_eq!(g.get_trail(3, 4), Trit::Pos);
    assert_eq!(g.get_trail(4, 3), Trit::Pos);
    assert_eq!(g.get_trail(8, 8), Trit::Neg);
    g.deposit(&[], Trit::Neg);
    g.deposit(&[7], Trit::Neg);
    g.deposit(&[42], Trit::Neg);
    assert_eq!(g.get_trail(7, 7), Trit::Zero);
    assert_eq!(g.get_trail(3, 4), Trit::Pos);
}

#[test]
fn tour_visit_and_complete() {
    let mut t = Tour::new(0, 3);
    assert_eq!(t.position, 0);
    assert_eq!(t.path, vec![0]);
    assert!(t.has_visited(0));
    assert!(!t.has_visited(1));
    assert!(!t.has_visited(3));
    assert!(!t.is_complete());
    t.visit(1);
    assert!(t.has_visited(1));
    assert_eq!(t.position, 1);
    assert!(!t.is_complete());
    t.visit(2);
    assert!(t.is_complete());
    assert_eq!(t.path, vec![0, 1, 2]);
}

#[test]
fn tour_of_two_places() {
    let mut t = Tour::new(0, 2);
    assert!(!t.is_complete());
    t.visit(1);
    assert!(t.is_complete());
}

#[test]
fn particle_rest_at_best_stays() {
    let p = GridPos::new(Trit::Pos, Trit::Zero);
    assert_eq!(particle_motion(p, zero(), p, p), (zero(), p));
}

#[test]
fn particle_moves_toward_global_best() {
    let p = GridPos::new(Trit::Neg, Trit::Pos);
    let g = GridPos::new(Trit::Pos, Trit::Pos);
    let (v, q) = particle_motion(p, zero(), p, g);
    assert_eq!(v, GridPos::new(Trit::Pos, Trit::Zero));
    assert_eq!(q, GridPos::new(Trit::Zero, Trit::Pos));
}

#[test]
fn particle_velocity_truncates_toward_zero() {
    // 0.5 * 1 + 1.0 * 0 + 1.5 * 0 = 0.5, truncated to 0
    let p = zero();
    let v = GridPos::new(Trit::Pos, Trit::Neg);
    assert_eq!(particle_motion(p, v, p, p).0, zero());
    // 0.5 * -1 + 1.0 * 0 + 1.5 * 1 = 1.0
    let g = GridPos::new(Trit::Pos, Trit::Pos);
    let v = GridPos::new(Trit::Neg, Trit::Neg);
    assert_eq!(
        particle_motion(p, v, p, g),
        (GridPos::new(Trit::Pos, Trit::Pos), GridPos::new(Trit::Pos, Trit::Pos))
    );
    // 0.5 * 1 + 1.0 * -1 + 1.5 * 0 = -0.5, truncated to 0
    let b = GridPos::new(Trit::Neg, Trit::Zero);
    let v = GridPos::new(Trit::Pos, Trit::Zero);
    assert_eq!(particle_motion(p, v, b, p).0, zero());
}

#[test]
fn flock_majority_and_rules() {
    let mut a = Boid::new(GridPos::new(Trit::Zero, Trit::Zero), AlignmentRule::Align);
    a.vel = GridPos::new(Trit::Neg, Trit::Zero);
    let mut s = Boid::new(GridPos::new(Trit::Zero, Trit::Zero), AlignmentRule::Scatter);
    s.vel = GridPos::new(Trit::Pos, Trit::Pos);
    let mut h = Boid::new(GridPos::new(Trit::Pos, Trit::Neg), AlignmentRule::Hold);
    h.vel = GridPos::new(Trit::Pos, Trit::Pos);
    let mut flock = Flock::new(vec![a, s, h]);
    // neighbours of the aligning boid: (1,1) + (1,1) = (2,2)
    assert_eq!(flock.majority_direction(0), (Trit::Pos, Trit::Pos));
    // neighbours of the scattering boid: (-1,0) + (1,1) = (0,1)
    assert_eq!(flock.majority_direction(1), (Trit::Zero, Trit::Pos));
    flock.step();
    assert_eq!(flock.boids[0].vel, GridPos::new(Trit::Pos, Trit::Pos));
    assert_eq!(flock.boids[0].pos, GridPos::new(Trit::Pos, Trit::Pos));
    assert_eq!(flock.boids[1].vel, GridPos::new(Trit::Zero, Trit::Neg));
    assert_eq!(flock.boids[1].pos, GridPos::new(Trit::Zero, Trit::Neg));
    assert_eq!(flock.boids[2].vel, GridPos::new(Trit::Pos, Trit::Pos));
    assert_eq!(flock.boids[2].pos, GridPos::new(Trit::Pos, Trit::Zero));
    assert_eq!(flock.boids[1].rule, AlignmentRule::Scatter);
}

#[test]
fn resting_flock_does_not_move() {
    let boids = vec![
        Boid::new(GridPos::new(Trit::Neg, Trit::Pos), AlignmentRule::Align),
        Boid::new(GridPos::new(Trit::Zero, Trit::Zero), AlignmentRule::Scatter),
        Boid::new(GridPos::new(Trit::Pos, Trit::Neg), AlignmentRule::Hold),
    ];
    let mut flock = Flock::new(boids.clone());
    flock.step();
    for i in 0..3 {
        assert_eq!(flock.boids[i].pos, boids[i].pos);
        assert_eq!(flock.boids[i].vel, zero());
    }
}

#[test]
fn flock_convergence() {
    assert!(Flock::new(vec![]).is_converged());
    let same = vec![
        Boid::new(GridPos::new(Trit::Pos, Trit::Pos), AlignmentRule::Align),
        Boid::new(GridPos::new(Trit::Pos, Trit::Pos), AlignmentRule::Hold),
    ];
    assert!(Flock::new(same).is_converged());
    let apart = vec![
        Boid::new(GridPos::new(Trit::Pos, Trit::Pos), AlignmentRule::Align),
        Boid::new(GridPos::new(Trit::Pos, Trit::Zero), AlignmentRule::Align),
    ];
    assert!(!Flock::new(apart).is_converged());
}

#[test]
fn decision_cases() {
    assert_eq!(collective_decision(&[]), Trit::Zero);
    assert_eq!(collective_decision(&[Trit::Neg, Trit::Neg, Trit::Pos]), Trit::Neg);
    assert_eq!(collective_decision(&[Trit::Zero, Trit::Zero, Trit::Pos]), Trit::Zero);
    assert_eq!(collective_decision(&[Trit::Neg, Trit::Pos, Trit::Pos, Trit::Neg]), Trit::Zero);
}

#[test]
fn decision_order_independent() {
    let a = [Trit::Pos, Trit::Neg, Trit::Pos, Trit::Zero];
    let b = [Trit::Zero, Trit::Pos, Trit::Pos, Trit::Neg];
    assert_eq!(collective_decision(&a), collective_decision(&b));
}

#[test]
fn unanimous_and_stable_consensus() {
    assert_eq!(collective_decision(&[Trit::Neg; 5]), Trit::Neg);
    let votes = [Trit::Neg, Trit::Neg, Trit::Pos, Trit::Zero];
    let d = collective_decision(&votes);
    assert_eq!(d, Trit::Neg);
    for rounds in 0..4 {
        assert_eq!(consensus_round(&votes, rounds), d);
    }
    assert_eq!(consensus_round(&[], 2), Trit::Zero);
}

#[test]
fn alignment_rule_mapping() {
    assert_eq!(AlignmentRule::from_trit(Trit::Pos), AlignmentRule::Align);
    assert_eq!(AlignmentRule::from_trit(Trit::Neg), AlignmentRule::Scatter);
    assert_eq!(AlignmentRule::from_trit(Trit::Zero), AlignmentRule::Hold);
    for r in [AlignmentRule::Align, AlignmentRule::Scatter, AlignmentRule::Hold] {
        assert_eq!(AlignmentRule::from_trit(r.to_trit()), r);
    }
}
