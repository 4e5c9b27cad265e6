# ternary_swarm

Swarm intelligence restricted to balanced-ternary values, written in Verus.

- `src/` is the verified library: trits and their conversions (`trit`),
  positions on the 3x3 grid (`grid`), the 9x9 pheromone trail matrix
  (`pheromone`), the route of an ant (`tour`), the movement rule of particle
  swarm optimisation (`swarm`), flocking (`flock`) and majority voting
  (`decision`). Each public function states its result exactly over spec
  functions, and the laws that relate several functions are proved as
  public proof functions beside them.
- `app/` holds the parts that compute with floating point: particle swarms
  scored by a fitness function, ant colonies over a distance matrix, the
  convergence detector and weighted voting. They call the library for the
  ternary logic.
- `tests/` exercises the library on concrete values.
