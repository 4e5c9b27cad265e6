use ternary_swarm::{
    collective_decision, consensus_round, AlignmentRule, Boid, Flock, GridPos, PheromoneGrid, Trit,
};

#[test]
fn test_trit_values() {
    assert_eq!(Trit::Neg.to_i8(), -1);
    assert_eq!(Trit::Zero.to_i8(), 0);
    assert_eq!(Trit::Pos.to_i8(), 1);
}

#[test]
fn test_trit_from_i8() {
    assert_eq!(Trit::from_i8(-1), Some(Trit::Neg));
    assert_eq!(Trit::from_i8(0), Some(Trit::Zero));
    assert_eq!(Trit::from_i8(1), Some(Trit::Pos));
    assert_eq!(Trit::from_i8(5), None);
}

#[test]
fn test_trit_not() {
    assert_eq!(Trit::Neg.ternary_not(), Trit::Pos);
    assert_eq!(Trit::Zero.ternary_not(), Trit::Zero);
    assert_eq!(Trit::Pos.ternary_not(), Trit::Neg);
}

#[test]
fn test_grid_all_positions() {
    let positions = GridPos::all_positions();
    assert_eq!(positions.len(), 9);
}

#[test]
fn test_manhattan_distance() {
    let a = GridPos::new(Trit::Neg, Trit::Neg);
    let b = GridPos::new(Trit::Pos, Trit::Pos);
    assert_eq!(a.manhattan_distance(b), 4);
}

#[test]
fn test_pheromone_grid_deposit() {
    let mut grid = PheromoneGrid::new();
    grid.deposit(&[0, 1, 2, 3], Trit::Pos);
    assert_eq!(grid.get_trail(0, 1), Trit::Pos);
    assert_eq!(grid.get_trail(1, 2), Trit::Pos);
    assert_eq!(grid.get_trail(2, 3), Trit::Pos);
    assert_eq!(grid.get_trail(0, 3), Trit::Zero); // not on path
}

#[test]
fn test_pheromone_evaporate() {
    let mut grid = PheromoneGrid::new();
    grid.set_trail(0, 1, Trit::Pos);
    grid.set_trail(2, 3, Trit::Neg);
    grid.evaporate();
    assert_eq!(grid.get_trail(0, 1), Trit::Zero);
    assert_eq!(grid.get_trail(2, 3), Trit::Zero);
}

#[test]
fn test_alignment_rule_roundtrip() {
    assert_eq!(AlignmentRule::from_trit(Trit::Pos).to_trit(), Trit::Pos);
    assert_eq!(AlignmentRule::from_trit(Trit::Neg).to_trit(), Trit::Neg);
    assert_eq!(AlignmentRule::from_trit(Trit::Zero).to_trit(), Trit::Zero);
}

#[test]
fn test_flock_step() {
    let boids = vec![
        Boid::new(GridPos::new(Trit::Neg, Trit::Neg), AlignmentRule::Align),
        Boid::new(GridPos::new(Trit::Pos, Trit::Pos), AlignmentRule::Align),
        Boid::new(GridPos::new(Trit::Zero, Trit::Zero), AlignmentRule::Align),
    ];
    let mut flock = Flock::new(boids);
    flock.step();
    // All should still be valid positions
    for b in &flock.boids {
        let x = b.pos.x.to_i8();
        assert!(x >= -1 && x <= 1);
    }
}

#[test]
fn test_flock_scatter() {
    let boids = vec![
        Boid::new(GridPos::new(Trit::Zero, Trit::Zero), AlignmentRule::Scatter),
        Boid::new(GridPos::new(Trit::Zero, Trit::Zero), AlignmentRule::Scatter),
    ];
    let mut flock = Flock::new(boids);
    flock.step();
    // Scatter boids should move opposite to majority (which is Zero -> stay)
}

#[test]
fn test_collective_decision_pos() {
    let votes = vec![Trit::Pos, Trit::Pos, Trit::Neg, Trit::Zero];
    assert_eq!(collective_decision(&votes), Trit::Pos);
}

#[test]
fn test_collective_decision_tie() {
    let votes = vec![Trit::Pos, Trit::Neg];
    assert_eq!(collective_decision(&votes), Trit::Zero);
}

#[test]
fn test_consensus_round() {
    let votes = vec![Trit::Pos, Trit::Pos, Trit::Neg];
    let result = consensus_round(&votes, 3);
    assert_eq!(result, Trit::Pos);
}
