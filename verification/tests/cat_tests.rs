use late::cat::{cat_activity, mouth, tail, wander_target, wander_x, CatMood};

#[test]
fn activity_ranks_moods_from_still_to_bouncy() {
    assert_eq!(cat_activity(CatMood::Happy), 3);
    assert_eq!(cat_activity(CatMood::Content), 2);
    assert_eq!(cat_activity(CatMood::Hungry), 2);
    assert_eq!(cat_activity(CatMood::Thirsty), 2);
    assert_eq!(cat_activity(CatMood::Bored), 1);
    assert_eq!(cat_activity(CatMood::Sad), 0);
}

#[test]
fn wander_target_is_the_mixed_leg_number_modulo_the_rail() {
    assert_eq!(wander_target(0, 20), 13);
    assert_eq!(wander_target(1, 20), 6);
    assert_eq!(wander_target(2, 20), 13);
    assert_eq!(wander_target(3, 20), 18);
    assert_eq!(wander_target(0, 10), 5);
    assert_eq!(wander_target(7, 0), 0);
}

#[test]
fn wander_x_parks_a_still_cat_mid_rail() {
    assert_eq!(wander_x(0, 0, 20), 10);
    assert_eq!(wander_x(12345, 0, 21), 10);
    assert_eq!(wander_x(99, 3, 0), 0);
}

#[test]
fn wander_x_strolls_between_leg_targets() {
    assert_eq!(wander_x(0, 3, 20), 13);
    assert_eq!(wander_x(30, 3, 20), 10);
    assert_eq!(wander_x(59, 3, 20), 7);
    assert_eq!(wander_x(60, 3, 20), 6);
    assert_eq!(wander_x(100, 3, 20), 10);
    assert_eq!(wander_x(150, 3, 20), 15);
    assert_eq!(wander_x(30, 2, 20), 11);
    assert_eq!(wander_x(150, 1, 20), 8);
}

#[test]
fn wander_legs_chain_without_jumps() {
    for activity in 1u8..=3 {
        let leg = match activity {
            3 => 60,
            2 => 100,
            _ => 180,
        };
        for seg in 0..5usize {
            assert_eq!(wander_x(seg * leg, activity, 20), wander_target(seg, 20));
        }
    }
}

#[test]
fn tail_flicks_at_the_end_of_each_period() {
    assert_eq!(tail(0, 7), [" ", "\\"]);
    assert_eq!(tail(3, 0), [" ", "~"]);
    assert_eq!(tail(3, 10), [")", "/"]);
    assert_eq!(tail(3, 13), [")", "/"]);
    assert_eq!(tail(3, 14), [" ", "~"]);
    assert_eq!(tail(2, 29), [" ", "~"]);
    assert_eq!(tail(2, 30), [")", "/"]);
    assert_eq!(tail(1, 55), [" ", "~"]);
    assert_eq!(tail(1, 56), [")", "/"]);
}

#[test]
fn mouth_follows_mood() {
    assert_eq!(mouth(CatMood::Happy), 'w');
    assert_eq!(mouth(CatMood::Content), '^');
    assert_eq!(mouth(CatMood::Bored), '.');
    assert_eq!(mouth(CatMood::Hungry), 'o');
    assert_eq!(mouth(CatMood::Thirsty), 'u');
    assert_eq!(mouth(CatMood::Sad), '_');
}
