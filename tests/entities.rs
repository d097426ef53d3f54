use space_invaders::game::{ufo_time_for, Direction, Game, GameObject, State, CANVAS_LEFT_EDGE, CANVAS_RIGHT_EDGE};
use space_invaders::invader::Invader;
use space_invaders::keys::Keys;
use space_invaders::player::Player;
use space_invaders::rect::Rect;
use space_invaders::timer::Timer;
use space_invaders::ufo::UFO;
use space_invaders::ui::{UiAction, UI};

fn keys() -> Keys {
    Keys::none()
}

#[test]
fn invader_moves() {
    let mut v = Invader::new(100, 200, 48, 48, String::from("invader_texture1"), 4, 0);
    assert_eq!(v.dir, Direction::Right);
    assert_eq!(v.anim_step, 1);
    v.move_x_right();
    assert_eq!(v.game_object.rect.x, 110);
    assert_eq!(v.anim_step, 2);
    v.move_x_left();
    assert_eq!(v.game_object.rect.x, 100);
    assert_eq!(v.anim_step, 1);
    v.move_x_right();
    v.move_down();
    assert_eq!(v.game_object.rect.y, 248);
    assert_eq!(v.anim_step, 1);
}

#[test]
fn invader_descent_stops_at_the_bottom_of_the_range() {
    let mut v = Invader::new(100, i32::MAX - 10, 48, 48, String::from("invader_texture1"), 4, 0);
    v.move_down();
    assert_eq!(v.game_object.rect.y, i32::MAX);
}

#[test]
fn ufo_new_alternates_sides() {
    let even = UFO::new(0);
    assert_eq!(even.game_object.rect, Rect::new(CANVAS_LEFT_EDGE, 42, 96, 42));
    assert_eq!(even.dir, Direction::Right);
    assert_eq!(even.game_object.texture_name, "ufo_texture");
    let odd = UFO::new(3);
    assert_eq!(odd.game_object.rect.x, CANVAS_RIGHT_EDGE);
    assert_eq!(odd.dir, Direction::Left);
}

#[test]
fn ufo_moves_in_its_direction() {
    let mut u = UFO::new(0);
    u.move_x();
    assert_eq!(u.game_object.rect.x, CANVAS_LEFT_EDGE + 10);
    let mut w = UFO::new(1);
    w.move_x();
    assert_eq!(w.game_object.rect.x, CANVAS_RIGHT_EDGE - 10);
}

#[test]
fn game_object_new() {
    let o = GameObject::new(1, 2, 3, 4, String::from("x"));
    assert_eq!(o.rect, Rect::new(1, 2, 3, 4));
    assert_eq!(o.texture_name, "x");
    assert!(!o.is_destroyed);
}

#[test]
fn toggle_spawn_counts_arming() {
    let mut g = Game::new();
    g.toggle_spawn_ufo();
    assert!(g.spawn_ufo);
    assert_eq!(g.ufo_spawn_times, 1);
    g.toggle_spawn_ufo();
    assert!(!g.spawn_ufo);
    assert_eq!(g.ufo_spawn_times, 1);
}

#[test]
fn next_ufo_time_is_random_whole_seconds() {
    let g = Game::new();
    let mut seen = std::collections::HashSet::new();
    for _ in 0..200 {
        let t = g.get_next_ufo_time();
        assert_eq!(t % 60, 0);
        assert!((1500..=2100).contains(&t));
        seen.insert(t);
    }
    assert!(seen.len() > 1);
}

#[test]
fn ufo_time_follows_the_jitter() {
    assert_eq!(ufo_time_for(0), 1500);
    assert_eq!(ufo_time_for(5), 1800);
    assert_eq!(ufo_time_for(10), 2100);
}

#[test]
fn player_new() {
    let p = Player::new();
    assert_eq!(p.game_object.rect, Rect::new(960, 1020, 90, 48));
    assert_eq!(p.game_object.texture_name, "player_texture");
    assert!(p.bullets.is_empty());
    assert_eq!(p.shot_timer, 1);
}

#[test]
fn player_shoot_places_bullet() {
    let mut p = Player::new();
    p.shoot();
    assert_eq!(p.bullets.len(), 1);
    assert_eq!(p.bullets[0].rect, Rect::new(960 + 45 - 3, 1020 - 24, 6, 24));
    assert_eq!(p.bullets[0].texture_name, "shot_texture");
}

#[test]
fn player_moves_while_key_held() {
    let mut p = Player::new();
    let mut k = keys();
    k.left = true;
    p.update(&k);
    assert!(p.moving_left);
    assert_eq!(p.game_object.rect.x, 950);
    p.update(&k);
    assert_eq!(p.game_object.rect.x, 940);
    p.update(&keys());
    assert!(!p.moving_left);
    assert_eq!(p.game_object.rect.x, 940);
}

#[test]
fn player_right_press_cancels_left() {
    let mut p = Player::new();
    let mut k = keys();
    k.left = true;
    p.update(&k);
    k.right = true;
    p.update(&k);
    assert!(p.moving_right);
    assert!(!p.moving_left);
    assert_eq!(p.game_object.rect.x, 960);
}

#[test]
fn player_stops_at_the_edge() {
    let mut p = Player::new();
    p.game_object.rect.x = CANVAS_LEFT_EDGE;
    let mut k = keys();
    k.left = true;
    p.update(&k);
    assert_eq!(p.game_object.rect.x, CANVAS_LEFT_EDGE);
}

#[test]
fn player_fires_once_per_press_with_cooldown() {
    let mut p = Player::new();
    p.update(&keys());
    assert_eq!(p.shot_timer, 0);
    let mut k = keys();
    k.space = true;
    p.update(&k);
    assert_eq!(p.bullets.len(), 1);
    assert_eq!(p.shot_timer, 19);
    assert_eq!(p.bullets[0].rect.y, 1020 - 24 - 10);
    p.update(&k);
    assert_eq!(p.bullets.len(), 1);
    p.update(&keys());
    p.update(&k);
    assert_eq!(p.bullets.len(), 1);
}

#[test]
fn spent_and_destroyed_bullets_are_dropped() {
    let mut p = Player::new();
    p.bullets.push(GameObject::new(0, 20, 6, 24, String::from("shot_texture")));
    p.bullets.push(GameObject::new(0, 21, 6, 24, String::from("shot_texture")));
    p.bullets.push(GameObject::new(0, 500, 6, 24, String::from("shot_texture")));
    p.bullets[2].is_destroyed = true;
    p.update(&keys());
    assert_eq!(p.bullets.len(), 1);
    assert_eq!(p.bullets[0].rect.y, 11);
}

#[test]
fn destroyed_player_ignores_input() {
    let mut p = Player::new();
    p.shot_timer = 0;
    p.game_object.is_destroyed = true;
    let mut k = keys();
    k.left = true;
    k.space = true;
    p.update(&k);
    assert_eq!(p.game_object.rect.x, 960);
    assert!(p.bullets.is_empty());
    assert!(!p.moving_left);
}

#[test]
fn timer_counts_ticks_and_ufo() {
    let g = Game::new();
    let mut p = Player::new();
    let mut t = Timer::new(&g);
    assert_eq!(t.time, 0);
    assert!(t.ufo_timer >= 1500 && t.ufo_timer <= 2100);
    t.ufo_timer = 5;
    t.update(&g, &p, 16);
    assert_eq!(t.time, 1);
    assert_eq!(t.delta_time, 16);
    assert_eq!(t.ufo_timer, 4);
    assert_eq!(t.game_over_timer, 0);
    p.game_object.is_destroyed = true;
    t.ufo_timer = 0;
    t.update(&g, &p, 17);
    assert_eq!(t.player_explosion_timer, 1);
    assert_eq!(t.game_over_timer, 1);
    assert!(t.ufo_timer >= 1500);
}

#[test]
fn timer_pauses_outside_play() {
    let mut g = Game::new();
    g.set_paused();
    let mut p = Player::new();
    p.game_object.is_destroyed = true;
    let mut t = Timer::new(&g);
    t.ufo_timer = 5;
    t.update(&g, &p, 16);
    assert_eq!(t.time, 1);
    assert_eq!(t.ufo_timer, 5);
    assert_eq!(t.game_over_timer, 0);
}

#[test]
fn ui_cursor_toggles() {
    let mut ui = UI::new(Rect::new(800, 500, 300, 60), Rect::new(800, 700, 300, 60));
    assert_eq!(ui.cursor_pos, 0);
    ui.update_cursor();
    assert_eq!(ui.cursor_pos, 1);
    ui.update_cursor();
    assert_eq!(ui.cursor_pos, 0);
}

#[test]
fn ui_cursor_target_sits_left_of_entry() {
    let mut ui = UI::new(Rect::new(800, 500, 300, 61), Rect::new(800, 700, 300, 60));
    assert_eq!(ui.get_cursor_target(7, 5), Rect::new(500, 500, 84, 60));
    ui.update_cursor();
    assert_eq!(ui.get_cursor_target(7, 5), Rect::new(500, 700, 84, 60));
}

#[test]
fn ui_select_by_state() {
    let mut ui = UI::new(Rect::new(0, 0, 1, 1), Rect::new(0, 0, 1, 1));
    assert_eq!(ui.select(&State::GameOver), UiAction::Retry);
    assert_eq!(ui.select(&State::Win), UiAction::Retry);
    assert_eq!(ui.select(&State::Paused), UiAction::Continue);
    assert_eq!(ui.select(&State::Playing), UiAction::Nothing);
    ui.update_cursor();
    assert_eq!(ui.select(&State::Paused), UiAction::Quit);
}

#[test]
fn ui_update_reacts_to_fresh_presses_outside_play() {
    let mut ui = UI::new(Rect::new(0, 0, 1, 1), Rect::new(0, 0, 1, 1));
    let mut k = keys();
    k.down = true;
    assert_eq!(ui.update(&k, &State::Playing), UiAction::Nothing);
    assert_eq!(ui.cursor_pos, 0);
    ui.update(&keys(), &State::Paused);
    assert_eq!(ui.update(&k, &State::Paused), UiAction::Nothing);
    assert_eq!(ui.cursor_pos, 1);
    assert_eq!(ui.update(&k, &State::Paused), UiAction::Nothing);
    assert_eq!(ui.cursor_pos, 1);
    let mut enter = k;
    enter.enter = true;
    assert_eq!(ui.update(&enter, &State::Paused), UiAction::Quit);
}

#[test]
fn ui_targets_by_state() {
    let ui = UI::new(Rect::new(0, 0, 1, 1), Rect::new(0, 0, 1, 1));
    assert_eq!(ui.get_ui_targets_base_on_state(&State::GameOver), vec!["game over", "retry", "quit"]);
    assert_eq!(ui.get_ui_targets_base_on_state(&State::Paused), vec!["", "continue", "quit"]);
    assert_eq!(ui.get_ui_targets_base_on_state(&State::Win), vec!["victory", "retry", "quit"]);
    assert_eq!(ui.get_ui_targets_base_on_state(&State::Playing), vec!["", "", ""]);
}
