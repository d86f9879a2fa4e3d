use biomass::bodies::{Asteroid, Bodies, Body};
use biomass::constants::recipes;
use biomass::economy::Economy;
use biomass::recipe::IngredientsComparison;
use biomass::slingshot::{load_slingshot, release_slingshot, update_slingshot, Slingshot};
use biomass::{asteroid_despawner, collision};

#[test]
fn first_recipe_matches_on_one_asteroid_of_the_first_kind() {
    let mut economy = Economy::new(recipes(), 0).unwrap();
    assert_eq!(economy.current_recipe(), 0);
    assert_eq!(economy.current_ingredients(), [0; 9]);
    let verdict = economy.capture(0);
    assert_eq!(verdict, IngredientsComparison::JustRight);
    assert_eq!(economy.biomass(), 10);
    assert_eq!(economy.current_ingredients(), [0; 9]);
}

#[test]
fn first_recipe_overshoots_on_an_asteroid_of_another_kind() {
    let mut economy = Economy::new(recipes(), 10).unwrap();
    assert_eq!(economy.current_recipe(), 0);
    let verdict = economy.capture(1);
    assert_eq!(verdict, IngredientsComparison::TooMany);
    assert_eq!(economy.biomass(), 8);
    assert_eq!(economy.current_ingredients(), [0; 9]);
}

#[test]
fn two_captures_in_one_tick_match_once() {
    let mut economy = Economy::new(recipes(), 40).unwrap();
    assert_eq!(economy.recipes()[economy.current_recipe()].ingredients, [1, 1, 0, 0, 0, 0, 0, 0, 0]);
    let mut bodies = Bodies::new();
    let first = bodies.spawn(Asteroid(0));
    let second = bodies.spawn(Asteroid(1));
    // The order in which the touching asteroids are named does not matter:
    // they are swallowed in spawn order.
    let touching = vec![second.handle, first.handle];
    let captured = collision(&mut bodies, &touching, &mut economy);
    assert_eq!(captured, vec![first, second]);
    assert_eq!(bodies.len(), 0);
    assert_eq!(economy.biomass(), 60);
    assert_eq!(economy.current_ingredients(), [0; 9]);
}

#[test]
fn two_captures_in_one_tick_give_undershoot_then_match() {
    let mut economy = Economy::new(recipes(), 40).unwrap();
    let verdicts = economy.capture_all(&vec![0, 1]);
    assert_eq!(verdicts, vec![IngredientsComparison::TooFew, IngredientsComparison::JustRight]);
    assert_eq!(economy.biomass(), 60);
    assert_eq!(economy.current_ingredients(), [0; 9]);
}

#[test]
fn undershoot_keeps_the_stock_and_the_biomass() {
    let mut economy = Economy::new(recipes(), 40).unwrap();
    let verdict = economy.capture(0);
    assert_eq!(verdict, IngredientsComparison::TooFew);
    assert_eq!(economy.biomass(), 40);
    assert_eq!(economy.current_ingredients(), [1, 0, 0, 0, 0, 0, 0, 0, 0]);
}

#[test]
fn gesture_on_a_captured_asteroid_is_dropped_on_the_next_update() {
    let mut economy = Economy::standard();
    let mut bodies = Bodies::new();
    let bystander = bodies.spawn(Asteroid(3));
    let target = bodies.spawn(Asteroid(0));
    let mut gesture: Option<Slingshot> = None;
    assert!(load_slingshot(&mut gesture, true, &bodies, &vec![target.handle]));
    assert_eq!(gesture, Some(Slingshot { target: target.handle }));
    assert_eq!(update_slingshot(&mut gesture, true, &bodies), Some(target.handle));

    let captured = collision(&mut bodies, &vec![target.handle], &mut economy);
    assert_eq!(captured, vec![target]);

    assert_eq!(update_slingshot(&mut gesture, true, &bodies), None);
    assert_eq!(gesture, None);
    // Nothing is left to fling, and the bystander is still there.
    assert_eq!(release_slingshot(&mut gesture, true, &bodies), None);
    assert_eq!(gesture, None);
    assert_eq!(bodies.len(), 1);
    assert_eq!(bodies.get(0), Some(bystander));
}

#[test]
fn release_on_a_captured_asteroid_flings_nothing() {
    let mut economy = Economy::standard();
    let mut bodies = Bodies::new();
    let target = bodies.spawn(Asteroid(0));
    let other = bodies.spawn(Asteroid(0));
    let mut gesture = Some(Slingshot { target: target.handle });
    collision(&mut bodies, &vec![target.handle], &mut economy);
    assert_eq!(release_slingshot(&mut gesture, true, &bodies), None);
    assert_eq!(gesture, None);
    assert!(bodies.contains(other.handle));
}

#[test]
fn despawner_removes_without_a_capture() {
    let economy = Economy::standard();
    let mut bodies = Bodies::new();
    let near = bodies.spawn(Asteroid(2));
    let far = bodies.spawn(Asteroid(0));
    let gone = asteroid_despawner(&mut bodies, &vec![far.handle]);
    assert_eq!(gone, vec![far]);
    assert_eq!(bodies.len(), 1);
    assert_eq!(bodies.get(0), Some(near));
    assert!(!bodies.contains(far.handle));
    // The economy never saw the asteroid.
    assert_eq!(economy.biomass(), 10);
    assert_eq!(economy.current_ingredients(), [0; 9]);
}

#[test]
fn escaped_asteroid_of_the_awaited_kind_earns_nothing() {
    let mut economy = Economy::new(recipes(), 0).unwrap();
    let mut bodies = Bodies::new();
    let far = bodies.spawn(Asteroid(0));
    asteroid_despawner(&mut bodies, &vec![far.handle]);
    let captured: Vec<Body> = collision(&mut bodies, &vec![far.handle], &mut economy);
    assert!(captured.is_empty());
    assert_eq!(economy.biomass(), 0);
}
