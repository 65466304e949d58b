use soft_constructor::physics::{
    GravityDirection, Mass, Model, Muscle, Spring, SurfaceSticky, WallHit, Wave, WaveDirection,
};

type Vec2 = (f64, f64);

fn mass_at(x: f64, y: f64) -> Mass<Vec2> {
    Mass::new((x, y), (0.0, 0.0), false)
}

fn spring(a: usize, b: usize, restlength: f64) -> Spring<f64> {
    Spring::new(a, b, restlength)
}

#[test]
fn wave_direction_factors() {
    assert_eq!(WaveDirection::Forward.factor(), -1);
    assert_eq!(WaveDirection::Reverse.factor(), 1);
    assert_eq!(WaveDirection::Manual.factor(), 0);
}

#[test]
fn wave_direction_reversed_twice_is_identity() {
    for d in [WaveDirection::Forward, WaveDirection::Reverse, WaveDirection::Manual] {
        assert_eq!(d.reversed().reversed(), d);
        assert_eq!(d.reversed().factor(), -d.factor());
    }
    assert_eq!(WaveDirection::Forward.reversed(), WaveDirection::Reverse);
    assert_eq!(WaveDirection::Manual.reversed(), WaveDirection::Manual);
}

#[test]
fn gravity_direction_factors() {
    assert_eq!(GravityDirection::Down.factor(), -1);
    assert_eq!(GravityDirection::Up.factor(), 1);
    assert_eq!(GravityDirection::Off.factor(), 0);
}

#[test]
fn surface_sticky_default_is_sticky() {
    assert_eq!(SurfaceSticky::default(), SurfaceSticky::Sticky);
}

#[test]
fn wave_new_keeps_its_arguments() {
    let w: Wave<f64> = Wave::new(0.5, 0.1, 0.25, true, WaveDirection::Forward);
    assert_eq!(w.amplitude, 0.5);
    assert_eq!(w.speed, 0.1);
    assert_eq!(w.angle, 0.25);
    assert!(w.autoreverse);
    assert_eq!(w.direction, WaveDirection::Forward);
}

#[test]
fn wave_set_direction_changes_only_the_direction() {
    let mut w: Wave<f64> = Wave::new(0.5, 0.1, 0.25, false, WaveDirection::Forward);
    w.set_direction(WaveDirection::Manual);
    assert_eq!(w.direction, WaveDirection::Manual);
    assert_eq!(w.amplitude, 0.5);
    assert_eq!(w.speed, 0.1);
    assert_eq!(w.angle, 0.25);
    assert!(!w.autoreverse);
}

#[test]
fn mass_new_starts_at_its_position() {
    let m: Mass<Vec2> = Mass::new((1.0, 2.0), (3.0, 4.0), true);
    assert_eq!(m.pos, (1.0, 2.0));
    assert_eq!(m.prv, (1.0, 2.0));
    assert_eq!(m.vel, (3.0, 4.0));
    assert!(m.fixed);
}

#[test]
fn spring_new_keeps_its_ends() {
    let s = spring(3, 7, 12.5);
    assert_eq!(s.a, 3);
    assert_eq!(s.b, 7);
    assert_eq!(s.restlength, 12.5);
}

#[test]
fn new_model_is_empty() {
    let m: Model<Vec2, f64> = Model::new();
    assert!(m.get_masses().is_empty());
    assert!(m.get_springs().is_empty());
    assert!(m.get_muscles().is_empty());
}

#[test]
fn add_mass_returns_the_count_and_the_mass_reads_back() {
    let mut m: Model<Vec2, f64> = Model::new();
    assert_eq!(m.add_mass(mass_at(1.0, 1.0)), 1);
    assert_eq!(m.add_mass(mass_at(2.0, 5.0)), 2);
    assert_eq!(m.get_mass(1).pos, (2.0, 5.0));
    assert_eq!(m.get_mass(0).pos, (1.0, 1.0));
    assert_eq!(m.get_masses().len(), 2);
}

#[test]
fn add_spring_returns_the_count_and_the_spring_reads_back() {
    let mut m: Model<Vec2, f64> = Model::new();
    m.add_mass(mass_at(0.0, 0.0));
    m.add_mass(mass_at(1.0, 0.0));
    assert_eq!(m.add_spring(spring(0, 1, 1.0)), 1);
    assert_eq!(m.add_spring(spring(1, 0, 2.0)), 2);
    let s = m.get_spring(1);
    assert_eq!((s.a, s.b, s.restlength), (1, 0, 2.0));
}

#[test]
fn attach_muscle_copies_the_rest_length() {
    let mut m: Model<Vec2, f64> = Model::new();
    m.add_spring(spring(0, 1, 4.0));
    m.add_spring(spring(1, 2, 6.0));
    assert_eq!(m.attach_muscle(1, 0.5, 1.5), 1);
    let mu: Muscle<f64> = m.get_muscles()[0];
    assert_eq!(mu.restlength, 6.0);
    assert_eq!(mu.sense, 0.5);
    assert_eq!(mu.phase, 1.5);
    assert_eq!(mu.spring_idx, 1);
}

#[test]
fn add_muscle_puts_a_muscle_on_the_new_spring() {
    let mut m: Model<Vec2, f64> = Model::new();
    m.add_spring(spring(0, 1, 4.0));
    assert_eq!(m.add_muscle(spring(1, 2, 9.0), 0.25, 3.0), 1);
    assert_eq!(m.get_springs().len(), 2);
    let mu = m.get_muscles()[0];
    assert_eq!(mu.spring_idx, 1);
    assert_eq!(mu.restlength, 9.0);
    assert_eq!(mu.sense, 0.25);
    assert_eq!(mu.phase, 3.0);
}

#[test]
fn set_mass_replaces_one_mass() {
    let mut m: Model<Vec2, f64> = Model::new();
    m.add_mass(mass_at(0.0, 0.0));
    m.add_mass(mass_at(1.0, 0.0));
    m.set_mass(0, mass_at(7.0, 8.0));
    assert_eq!(m.get_mass(0).pos, (7.0, 8.0));
    assert_eq!(m.get_mass(1).pos, (1.0, 0.0));
}

#[test]
fn capture_last_records_positions() {
    let mut m: Model<Vec2, f64> = Model::new();
    m.add_mass(mass_at(0.0, 0.0));
    m.add_mass(mass_at(1.0, 0.0));
    let mut moved = m.get_mass(1);
    moved.pos = (5.0, 6.0);
    m.set_mass(1, moved);
    assert_eq!(m.get_mass(1).prv, (1.0, 0.0));
    m.capture_last();
    assert_eq!(m.get_mass(1).prv, (5.0, 6.0));
    assert_eq!(m.get_mass(1).pos, (5.0, 6.0));
    assert_eq!(m.get_mass(0).prv, (0.0, 0.0));
}

#[test]
fn hitting_walls_with_autoreverse() {
    let mut m: Model<Vec2, f64> = Model::new();
    let mut w: Wave<f64> = Wave::new(0.5, 0.1, 0.0, true, WaveDirection::Forward);
    m.hit_wall(WallHit::Left, &mut w);
    assert_eq!(w.direction, WaveDirection::Reverse);
    // The same wall again does not turn the wave a second time.
    m.hit_wall(WallHit::Left, &mut w);
    assert_eq!(w.direction, WaveDirection::Reverse);
    m.hit_wall(WallHit::Right, &mut w);
    assert_eq!(w.direction, WaveDirection::Forward);
    m.hit_wall(WallHit::Right, &mut w);
    assert_eq!(w.direction, WaveDirection::Forward);
    m.hit_wall(WallHit::Left, &mut w);
    assert_eq!(w.direction, WaveDirection::Reverse);
    assert_eq!(w.amplitude, 0.5);
}

#[test]
fn hitting_walls_without_autoreverse() {
    let mut m: Model<Vec2, f64> = Model::new();
    let mut w: Wave<f64> = Wave::new(0.5, 0.1, 0.0, false, WaveDirection::Forward);
    m.hit_wall(WallHit::Left, &mut w);
    m.hit_wall(WallHit::Right, &mut w);
    assert_eq!(w.direction, WaveDirection::Forward);
    // Switching auto-reverse on later: no wall was recorded meanwhile.
    w.autoreverse = true;
    m.hit_wall(WallHit::Right, &mut w);
    assert_eq!(w.direction, WaveDirection::Reverse);
}

#[test]
fn manual_wave_stays_manual_on_walls() {
    let mut m: Model<Vec2, f64> = Model::new();
    let mut w: Wave<f64> = Wave::new(0.5, 0.1, 0.0, true, WaveDirection::Manual);
    m.hit_wall(WallHit::Left, &mut w);
    m.hit_wall(WallHit::Right, &mut w);
    assert_eq!(w.direction, WaveDirection::Manual);
}

#[test]
fn acted_lengths_last_muscle_wins() {
    let mut m: Model<Vec2, f64> = Model::new();
    m.add_spring(spring(0, 1, 1.0));
    m.add_spring(spring(1, 2, 2.0));
    m.add_spring(spring(2, 0, 3.0));
    m.attach_muscle(0, 1.0, 0.0);
    m.attach_muscle(2, 1.0, 0.0);
    m.attach_muscle(0, 1.0, 0.0);
    m.set_acted_lengths(&vec![10.0, 30.0, 11.0]);
    let springs = m.get_springs();
    assert_eq!(springs[0].restlength, 11.0);
    assert_eq!(springs[1].restlength, 2.0);
    assert_eq!(springs[2].restlength, 30.0);
    assert_eq!((springs[2].a, springs[2].b), (2, 0));
    // The muscles keep their own rest lengths.
    assert_eq!(m.get_muscles()[0].restlength, 1.0);
    assert_eq!(m.get_muscles()[1].restlength, 3.0);
}
