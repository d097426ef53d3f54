use space_invaders::barrier::{Barrier, Collider};
use space_invaders::game::GameObject;
use space_invaders::rect::Rect;

#[test]
fn barriers_at_same_origin_have_same_colliders() {
    let a = Barrier::new(640);
    let b = Barrier::new(640);
    assert_eq!(a.colliders.len(), b.colliders.len());
    for (ca, cb) in a.colliders.iter().zip(b.colliders.iter()) {
        assert_eq!(ca.rect, cb.rect);
        assert_eq!(ca.is_destroyed, cb.is_destroyed);
    }
}

#[test]
fn barrier_has_sixty_live_colliders() {
    let b = Barrier::new(160);
    assert_eq!(b.colliders.len(), 60);
    assert!(b.colliders.iter().all(|c| !c.is_destroyed));
    assert_eq!(b.game_object.rect, Rect::new(160, 810, 144, 108));
    assert_eq!(b.game_object.texture_name, "barrier_texture");
}

#[test]
fn barrier_first_slice_is_inset_and_stacked() {
    let b = Barrier::new(160);
    // Slice 0 starts three cells down and stacks blocks of 5, 5 and 5 cells.
    assert_eq!(b.colliders[0].rect, Rect::new(160, 810 + 18, 6, 30));
    assert_eq!(b.colliders[1].rect, Rect::new(160, 810 + 48, 6, 30));
    assert_eq!(b.colliders[2].rect, Rect::new(160, 810 + 78, 6, 30));
    // Slice 1 starts two cells down with blocks of 5, 5 and 6 cells.
    assert_eq!(b.colliders[3].rect, Rect::new(166, 810 + 12, 6, 30));
    assert_eq!(b.colliders[5].rect, Rect::new(166, 810 + 72, 6, 36));
}

#[test]
fn barrier_last_slice_mirrors_the_first() {
    let b = Barrier::new(0);
    let n = b.colliders.len();
    assert_eq!(b.colliders[n - 3].rect, Rect::new(23 * 6, 810 + 18, 6, 30));
    assert_eq!(b.colliders[n - 1].rect, Rect::new(23 * 6, 810 + 78, 6, 30));
}

#[test]
fn inner_slices_leave_gaps() {
    let b = Barrier::new(0);
    // Slices 6 to 17 hold two blocks each, the others three.
    let in_slice = |i: i32| b.colliders.iter().filter(|c| c.rect.x == i * 6).count();
    assert_eq!(in_slice(5), 3);
    assert_eq!(in_slice(6), 2);
    assert_eq!(in_slice(11), 2);
    assert_eq!(in_slice(12), 2);
    assert_eq!(in_slice(17), 2);
    assert_eq!(in_slice(18), 3);
}

#[test]
fn get_colliders_follows_the_box() {
    let go = GameObject::new(100, 200, 144, 108, String::from("barrier_texture"));
    let cs: Vec<Collider> = Collider::get_colliders(&go);
    assert_eq!(cs.len(), 60);
    assert_eq!(cs[0].rect, Rect::new(100, 218, 6, 30));
}

#[test]
fn collider_new_scales_height() {
    let c = Collider::new(3, 4, 5);
    assert_eq!(c.rect, Rect::new(3, 4, 6, 30));
    assert!(!c.is_destroyed);
}
