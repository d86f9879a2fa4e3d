use biomass::bodies::{Asteroid, Bodies};
use biomass::slingshot::{load_slingshot, release_slingshot, update_slingshot, Slingshot};

fn three_bodies() -> Bodies {
    let mut bodies = Bodies::new();
    bodies.spawn(Asteroid(0));
    bodies.spawn(Asteroid(1));
    bodies.spawn(Asteroid(2));
    bodies
}

#[test]
fn press_on_an_asteroid_grabs_it() {
    let bodies = three_bodies();
    let mut gesture = None;
    assert!(load_slingshot(&mut gesture, true, &bodies, &vec![1]));
    assert_eq!(gesture, Some(Slingshot { target: 1 }));
}

#[test]
fn press_on_overlapping_asteroids_grabs_the_first_in_spawn_order() {
    let bodies = three_bodies();
    let mut gesture = None;
    assert!(load_slingshot(&mut gesture, true, &bodies, &vec![2, 1]));
    assert_eq!(gesture, Some(Slingshot { target: 1 }));
}

#[test]
fn press_on_empty_space_grabs_nothing() {
    let bodies = three_bodies();
    let mut gesture = None;
    assert!(!load_slingshot(&mut gesture, true, &bodies, &Vec::new()));
    assert_eq!(gesture, None);
    // A handle that names no live asteroid is no asteroid under the cursor.
    assert!(!load_slingshot(&mut gesture, true, &bodies, &vec![7]));
    assert_eq!(gesture, None);
}

#[test]
fn no_press_grabs_nothing() {
    let bodies = three_bodies();
    let mut gesture = None;
    assert!(!load_slingshot(&mut gesture, false, &bodies, &vec![0]));
    assert_eq!(gesture, None);
}

#[test]
fn second_press_leaves_the_gesture_alone() {
    let bodies = three_bodies();
    let mut gesture = Some(Slingshot { target: 2 });
    assert!(!load_slingshot(&mut gesture, true, &bodies, &vec![0]));
    assert_eq!(gesture, Some(Slingshot { target: 2 }));
}

#[test]
fn update_while_held_aims_at_the_target() {
    let bodies = three_bodies();
    let mut gesture = Some(Slingshot { target: 2 });
    assert_eq!(update_slingshot(&mut gesture, true, &bodies), Some(2));
    assert_eq!(gesture, Some(Slingshot { target: 2 }));
}

#[test]
fn update_while_not_held_does_nothing() {
    let mut bodies = three_bodies();
    let mut gesture = Some(Slingshot { target: 2 });
    assert_eq!(update_slingshot(&mut gesture, false, &bodies), None);
    assert_eq!(gesture, Some(Slingshot { target: 2 }));
    bodies.remove_all(&vec![2]);
    assert_eq!(update_slingshot(&mut gesture, false, &bodies), None);
    assert_eq!(gesture, Some(Slingshot { target: 2 }));
}

#[test]
fn update_without_a_gesture_does_nothing() {
    let bodies = three_bodies();
    let mut gesture = None;
    assert_eq!(update_slingshot(&mut gesture, true, &bodies), None);
    assert_eq!(gesture, None);
}

#[test]
fn update_drops_a_gesture_whose_target_is_gone() {
    let mut bodies = three_bodies();
    let mut gesture = Some(Slingshot { target: 0 });
    bodies.remove_all(&vec![0]);
    assert_eq!(update_slingshot(&mut gesture, true, &bodies), None);
    assert_eq!(gesture, None);
}

#[test]
fn release_flings_the_target_and_ends_the_gesture() {
    let bodies = three_bodies();
    let mut gesture = Some(Slingshot { target: 1 });
    assert_eq!(release_slingshot(&mut gesture, true, &bodies), Some(1));
    assert_eq!(gesture, None);
}

#[test]
fn release_ends_a_gesture_whose_target_is_gone() {
    let mut bodies = three_bodies();
    let mut gesture = Some(Slingshot { target: 1 });
    bodies.remove_all(&vec![1]);
    assert_eq!(release_slingshot(&mut gesture, true, &bodies), None);
    assert_eq!(gesture, None);
}

#[test]
fn no_release_keeps_the_gesture() {
    let bodies = three_bodies();
    let mut gesture = Some(Slingshot { target: 1 });
    assert_eq!(release_slingshot(&mut gesture, false, &bodies), None);
    assert_eq!(gesture, Some(Slingshot { target: 1 }));
}

#[test]
fn release_without_a_gesture_does_nothing() {
    let bodies = three_bodies();
    let mut gesture = None;
    assert_eq!(release_slingshot(&mut gesture, true, &bodies), None);
    assert_eq!(gesture, None);
}

#[test]
fn press_hold_release_runs_one_gesture() {
    let bodies = three_bodies();
    let mut gesture = None;
    assert!(load_slingshot(&mut gesture, true, &bodies, &vec![0]));
    assert_eq!(update_slingshot(&mut gesture, true, &bodies), Some(0));
    assert!(!load_slingshot(&mut gesture, false, &bodies, &vec![0]));
    assert_eq!(update_slingshot(&mut gesture, true, &bodies), Some(0));
    assert_eq!(release_slingshot(&mut gesture, true, &bodies), Some(0));
    assert_eq!(gesture, None);
    assert_eq!(update_slingshot(&mut gesture, false, &bodies), None);
}
