# drone_recon

A survey drone over a procedurally generated coast map.

- `src/flight.rs`: the coast map, its division into quadrants of 10 by 10
  cells, the land/water classification of each quadrant, targets and the
  drone, with laws on the survey (size, order, exact centres, locality) and
  on the classification (locality, dependence on the land count only).
- `src/mission.rs`: the mission's phases and the decisions the drone takes on
  each arrival, during the reconnaissance and during the flight. Laws over
  whole runs of arrivals: the reconnaissance visits every target in order and
  records exactly the water quadrants; the flight samples its targets in
  order, returning to base between two of them, and ends after `2n + 1`
  arrivals.
- `app/main.rs`: the bevy program that draws the map, generates the land mask
  from Perlin noise, moves the drone's sprite and reads the keyboard.
