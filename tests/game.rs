use space_invaders::collision;
use space_invaders::fire::shooters_from;
use space_invaders::game::{Direction, Game, GameObject, State, CANVAS_LEFT_EDGE, CANVAS_RIGHT_EDGE};
use space_invaders::player::Player;
use space_invaders::rect::Rect;
use space_invaders::timer::Timer;

fn quiet_timer(time: i32) -> Timer {
    Timer { time, delta_time: 0, player_explosion_timer: 0, game_over_timer: 0, ufo_timer: 1000 }
}

fn row_of(game: &Game, row: u32) -> Vec<(i32, i32, Direction)> {
    game.invaders
        .iter()
        .filter(|v| v.row == row)
        .map(|v| (v.game_object.rect.x, v.game_object.rect.y, v.dir))
        .collect()
}

#[test]
fn fresh_game() {
    let game = Game::new();
    assert_eq!(game.invaders.len(), 55);
    assert!(game.invaders.iter().all(|v| !v.game_object.is_destroyed));
    assert_eq!(game.barrier_row.len(), 4);
    assert!(game.barrier_row.iter().all(|b| !b.colliders.is_empty()));
    assert_eq!(game.state, State::Playing);
    assert!(!game.ufo_active);
    assert!(game.invader_shots.is_empty());
    assert!(game.explosions.is_empty());
}

#[test]
fn fresh_formation_layout() {
    let game = Game::new();
    let first = &game.invaders[0];
    assert_eq!(first.game_object.rect, Rect::new(480, 180, 48, 48));
    assert_eq!(first.row, 4);
    assert_eq!(first.column, 0);
    assert_eq!(first.game_object.texture_name, "invader_texture1");
    let last = &game.invaders[54];
    assert_eq!(last.game_object.rect, Rect::new(472 + 960, 564, 72, 48));
    assert_eq!(last.row, 0);
    assert_eq!(last.column, 10);
    assert_eq!(last.game_object.texture_name, "invader_texture3");
    assert_eq!(game.invaders[11].game_object.rect, Rect::new(480, 276, 66, 48));
    assert!(game.invaders.iter().all(|v| v.dir == Direction::Right));
    let xs: Vec<i32> = game.barrier_row.iter().map(|b| b.game_object.rect.x).collect();
    assert_eq!(xs, vec![160, 640, 1120, 1600]);
}

#[test]
fn formation_steps_right_on_interval() {
    let mut game = Game::new();
    for t in 0..49 {
        game.update(&quiet_timer(t));
    }
    assert_eq!(game.invaders[0].game_object.rect.x, 480);
    game.update(&quiet_timer(49));
    assert_eq!(game.invaders[0].game_object.rect.x, 490);
    assert_eq!(game.invaders[54].game_object.rect.x, 1442);
    assert_eq!(game.invaders[0].anim_step, 2);
}

#[test]
fn invader_at_right_edge_makes_its_row_descend() {
    let mut game = Game::new();
    game.invaders[0].game_object.rect.x = CANVAS_RIGHT_EDGE;
    game.invader_timer = 49;
    let before_other = row_of(&game, 3);
    game.update(&quiet_timer(0));
    let v = &game.invaders[0];
    assert_eq!(v.game_object.rect.y, 180 + 48);
    assert_eq!(v.game_object.rect.x, CANVAS_RIGHT_EDGE);
    assert_eq!(v.dir, Direction::Left);
    assert!(row_of(&game, 4).iter().all(|r| r.1 == 228 && r.2 == Direction::Left));
    assert_eq!(row_of(&game, 3), before_other);
    assert_eq!(game.move_rows_down, vec![3, 2, 1, 0]);
}

#[test]
fn rows_descend_one_per_interval_then_move_sideways() {
    let mut game = Game::new();
    game.invaders[0].game_object.rect.x = CANVAS_RIGHT_EDGE;
    let ys: Vec<i32> = game.invaders.iter().map(|v| v.game_object.rect.y).collect();
    let xs: Vec<i32> = game.invaders.iter().map(|v| v.game_object.rect.x).collect();
    for (step, row) in [4u32, 3, 2, 1, 0].iter().enumerate() {
        game.invader_timer = game.invader_tick - 1;
        game.update(&quiet_timer(step as i32));
        for (i, v) in game.invaders.iter().enumerate() {
            let done = v.row >= *row;
            assert_eq!(v.game_object.rect.y, ys[i] + if done { 48 } else { 0 });
            assert_eq!(v.game_object.rect.x, xs[i]);
            assert_eq!(v.dir, if done { Direction::Left } else { Direction::Right });
        }
    }
    assert!(game.move_rows_down.is_empty());
    game.invader_timer = game.invader_tick - 1;
    game.update(&quiet_timer(5));
    for (i, v) in game.invaders.iter().enumerate() {
        assert_eq!(v.game_object.rect.x, xs[i] - 10);
        assert_eq!(v.game_object.rect.y, ys[i] + 48);
    }
}

#[test]
fn invader_at_left_edge_heading_left_triggers_descent() {
    let mut game = Game::new();
    for v in game.invaders.iter_mut() {
        v.dir = Direction::Left;
    }
    game.invaders[54].game_object.rect.x = CANVAS_LEFT_EDGE;
    game.invader_timer = 49;
    game.update(&quiet_timer(0));
    assert_eq!(game.move_rows_down, vec![4, 3, 2, 1]);
    assert!(row_of(&game, 0).iter().all(|r| r.1 == 564 + 48 && r.2 == Direction::Right));
    assert!(row_of(&game, 4).iter().all(|r| r.1 == 180 && r.2 == Direction::Left));
}

#[test]
fn edge_invader_in_later_row_descends_first() {
    let mut game = Game::new();
    // Row 2 is the third block listed; its last invader reaches the right edge.
    game.invaders[32].game_object.rect.x = CANVAS_RIGHT_EDGE;
    game.invader_timer = 49;
    let row4 = row_of(&game, 4);
    let row3 = row_of(&game, 3);
    game.update(&quiet_timer(0));
    assert!(row_of(&game, 2).iter().all(|r| r.1 == 372 + 48 && r.2 == Direction::Left));
    assert_eq!(game.invaders[32].game_object.rect.x, CANVAS_RIGHT_EDGE);
    assert_eq!(row_of(&game, 4), row4);
    assert_eq!(row_of(&game, 3), row3);
    assert_eq!(game.move_rows_down, vec![4, 3, 1, 0]);
}

#[test]
fn shooters_follow_the_draws() {
    let front: Vec<usize> = vec![44, 45, 46];
    assert_eq!(shooters_from(&front, &vec![2, 0, 2]), vec![46, 44, 46]);
    assert!(shooters_from(&front, &vec![]).is_empty());
}

#[test]
fn bullet_killed_invader_still_destroys_ship() {
    let mut game = Game::new();
    let mut player = Player::new();
    game.invaders[0].game_object.rect = player.game_object.rect;
    let r = player.game_object.rect;
    player.bullets.push(GameObject::new(r.x, r.y, 6, 24, String::from("shot_texture")));
    collision::update(&mut player, &mut game);
    assert!(game.invaders[0].game_object.is_destroyed);
    assert!(player.bullets[0].is_destroyed);
    assert!(player.game_object.is_destroyed);
}

#[test]
fn single_column_gets_no_shooters() {
    let mut game = Game::new();
    game.invaders.retain(|v| v.column == 3);
    assert_eq!(game.get_last_invader_per_column(), vec![4]);
    for _ in 0..50 {
        assert!(game.get_invader_shooters().is_empty());
    }
}

#[test]
fn three_columns_get_one_or_two_shooters() {
    let mut game = Game::new();
    game.invaders.retain(|v| v.column == 1 || v.column == 5 || v.column == 7);
    let front = game.get_last_invader_per_column();
    assert_eq!(front.len(), 3);
    for _ in 0..100 {
        let s = game.get_invader_shooters();
        assert!(s.len() == 1 || s.len() == 2);
        assert!(s.iter().all(|i| front.contains(i)));
    }
}

#[test]
fn no_invaders_gets_no_shooters() {
    let mut game = Game::new();
    game.invaders.clear();
    assert!(game.get_last_invader_per_column().is_empty());
    assert!(game.get_invader_shooters().is_empty());
}

#[test]
fn frontline_is_last_invader_of_each_column() {
    let game = Game::new();
    let front = game.get_last_invader_per_column();
    assert_eq!(front, (44..55).collect::<Vec<usize>>());
}

#[test]
fn shooter_count_stays_in_range() {
    let mut two = Game::new();
    two.invaders.retain(|v| v.column == 0 || v.column == 9);
    for _ in 0..50 {
        let s = two.get_invader_shooters();
        assert_eq!(s.len(), 1);
        assert!(s.iter().all(|i| *i == 8 || *i == 9));
    }
    let full = Game::new();
    let front = full.get_last_invader_per_column();
    let mut seen = std::collections::HashSet::new();
    for _ in 0..300 {
        let s = full.get_invader_shooters();
        assert!(!s.is_empty() && s.len() <= 3);
        assert!(s.iter().all(|i| front.contains(i)));
        seen.insert(s.len());
    }
    assert!(seen.len() > 1);
}

#[test]
fn clearing_the_formation_wins() {
    let mut game = Game::new();
    for v in game.invaders.iter_mut() {
        v.game_object.is_destroyed = true;
    }
    game.update(&quiet_timer(0));
    assert!(game.invaders.is_empty());
    assert_eq!(game.state, State::Win);
    assert_eq!(game.explosions.len(), 55);
}

#[test]
fn destroying_some_invaders_keeps_playing() {
    let mut game = Game::new();
    game.invaders[3].game_object.is_destroyed = true;
    game.update(&quiet_timer(0));
    assert_eq!(game.invaders.len(), 54);
    assert_eq!(game.state, State::Playing);
    assert_eq!(game.explosions.len(), 1);
    assert_eq!(game.explosions[0].0.rect, Rect::new(480 + 3 * 96, 180, 72, 60));
    assert_eq!(game.explosions[0].1, 2);
}

#[test]
fn explosions_expire() {
    let mut game = Game::new();
    game.invaders[0].game_object.is_destroyed = true;
    game.update(&quiet_timer(10));
    assert_eq!(game.explosions.len(), 1);
    game.update(&quiet_timer(11));
    assert_eq!(game.explosions.len(), 1);
    game.update(&quiet_timer(12));
    assert!(game.explosions.is_empty());
}

#[test]
fn destroyed_ship_for_two_ticks_ends_the_game() {
    let mut game = Game::new();
    let mut timer = quiet_timer(0);
    timer.game_over_timer = 1;
    game.update(&timer);
    assert_eq!(game.state, State::Playing);
    timer.game_over_timer = 2;
    game.update(&timer);
    assert_eq!(game.state, State::GameOver);
}

#[test]
fn timer_counts_destroyed_ship_then_game_over() {
    let mut game = Game::new();
    let mut player = Player::new();
    let mut timer = quiet_timer(0);
    player.game_object.is_destroyed = true;
    for _ in 0..3 {
        game.update(&timer);
        timer.update(&game, &player, 16);
    }
    assert_eq!(timer.game_over_timer, 2);
    game.update(&timer);
    assert_eq!(game.state, State::GameOver);
}

#[test]
fn speed_ramps_as_invaders_fall() {
    let mut game = Game::new();
    for v in game.invaders.iter_mut().take(20) {
        v.game_object.is_destroyed = true;
    }
    game.update(&quiet_timer(0));
    assert_eq!(game.invaders.len(), 35);
    assert_eq!(game.invader_tick, 38);
    assert_eq!(game.speed_increase_threashold, 20);
}

#[test]
fn pause_and_resume() {
    let mut game = Game::new();
    game.set_paused();
    assert_eq!(game.state, State::Paused);
    game.set_playing();
    assert_eq!(game.state, State::Playing);
    game.set_game_over();
    game.set_paused();
    assert_eq!(game.state, State::GameOver);
}

#[test]
fn ufo_spawns_alternating_sides() {
    let mut game = Game::new();
    let mut t = quiet_timer(0);
    t.ufo_timer = 0;
    game.update(&t);
    assert!(game.ufo_active);
    assert_eq!(game.ufo.dir, Direction::Left);
    assert_eq!(game.ufo.game_object.rect.x, CANVAS_RIGHT_EDGE - 10);
    assert_eq!(game.ufo_spawn_times, 1);
    game.ufo_active = false;
    game.update(&t);
    assert!(game.ufo_active);
    assert_eq!(game.ufo.dir, Direction::Right);
    assert_eq!(game.ufo.game_object.rect.x, CANVAS_LEFT_EDGE + 10);
}

#[test]
fn ufo_leaves_at_far_edge() {
    let mut game = Game::new();
    game.ufo_active = true;
    game.ufo.game_object.rect.x = CANVAS_RIGHT_EDGE;
    game.update(&quiet_timer(0));
    assert!(!game.ufo_active);
    assert!(game.explosions.is_empty());
}

#[test]
fn destroyed_ufo_explodes() {
    let mut game = Game::new();
    game.ufo_active = true;
    game.ufo.game_object.is_destroyed = true;
    game.update(&quiet_timer(0));
    assert!(!game.ufo_active);
    assert_eq!(game.explosions.len(), 1);
}

#[test]
fn enemy_shots_fall_and_leave_the_playfield() {
    let mut game = Game::new();
    let shot = |y: i32| GameObject::new(500, y, 18, 42, String::from("invader_shot_texture"));
    game.invader_shots.push(shot(100));
    game.invader_shots.push(shot(1080));
    game.invader_shots.push(shot(300));
    game.invader_shots.push(shot(1075));
    game.invader_shots.push(shot(1070));
    game.invader_shots.push(shot(1069));
    game.invader_shots[2].is_destroyed = true;
    game.update(&quiet_timer(0));
    let ys: Vec<i32> = game.invader_shots.iter().map(|s| s.rect.y).collect();
    assert_eq!(ys, vec![110, 1079]);
    assert!(game.invader_shots.iter().all(|s| s.rect.y < 1080));
    assert_eq!(game.explosions.len(), 1);
    assert_eq!(game.explosions[0].0.rect, Rect::new(500, 300, 72, 60));
}

#[test]
fn no_shot_from_an_invader_below_the_playfield() {
    let mut game = Game::new();
    game.invaders[44].game_object.rect.y = 1032;
    game.loaded_shot.push(space_invaders::game::LoadedShot { row: 0, column: 0, time: 0 });
    game.loaded_shot.push(space_invaders::game::LoadedShot { row: 0, column: 1, time: 0 });
    game.invader_timer = 49;
    game.update(&quiet_timer(0));
    assert_eq!(game.invader_shots.len(), 1);
    assert_eq!(game.invader_shots[0].rect.y, 564 + 48);
    assert!(game.loaded_shot.is_empty());
}

#[test]
fn volley_is_loaded_and_fired() {
    let mut game = Game::new();
    game.invader_shot_timer = 9;
    game.invader_timer = 49;
    game.update(&quiet_timer(0));
    assert_eq!(game.invader_shot_timer, 0);
    let fired = game.invader_shots.len();
    assert!(fired == 1);
    let s = &game.invader_shots[0];
    assert_eq!(s.rect.y, 564 + 48);
    assert_eq!(s.rect.width, 18);
    assert_eq!(s.texture_name, "invader_shot_texture");
    assert!(game.loaded_shot.len() <= 2);
}

#[test]
fn loaded_shot_of_destroyed_invader_is_dropped() {
    let mut game = Game::new();
    game.loaded_shot.push(space_invaders::game::LoadedShot { row: 0, column: 2, time: 0 });
    game.invaders[46].game_object.is_destroyed = true;
    game.invader_timer = 49;
    game.update(&quiet_timer(0));
    assert!(game.invader_shots.is_empty());
    assert!(game.loaded_shot.is_empty());
}

#[test]
fn bullet_on_invader_destroys_both() {
    let mut game = Game::new();
    let mut player = Player::new();
    let r = game.invaders[20].game_object.rect;
    player.bullets.push(GameObject::new(r.x, r.y, r.width, r.height, String::from("shot_texture")));
    collision::update(&mut player, &mut game);
    assert!(player.bullets[0].is_destroyed);
    assert!(game.invaders[20].game_object.is_destroyed);
    assert_eq!(game.invaders.iter().filter(|v| v.game_object.is_destroyed).count(), 1);
}

#[test]
fn bullet_below_invader_misses() {
    let mut game = Game::new();
    let mut player = Player::new();
    let r = game.invaders[50].game_object.rect;
    player.bullets.push(GameObject::new(r.x, r.y + r.height as i32, 6, 24, String::from("shot_texture")));
    collision::update(&mut player, &mut game);
    assert!(!player.bullets[0].is_destroyed);
    assert!(game.invaders.iter().all(|v| !v.game_object.is_destroyed));
}

#[test]
fn bullet_and_enemy_shot_cancel() {
    let mut game = Game::new();
    let mut player = Player::new();
    player.bullets.push(GameObject::new(100, 700, 6, 24, String::from("shot_texture")));
    game.invader_shots.push(GameObject::new(100, 700, 6, 24, String::from("invader_shot_texture")));
    collision::update(&mut player, &mut game);
    assert!(player.bullets[0].is_destroyed);
    assert!(game.invader_shots[0].is_destroyed);
    assert!(!player.game_object.is_destroyed);
}

#[test]
fn bullet_hits_one_invader_only() {
    let mut game = Game::new();
    let mut player = Player::new();
    player.bullets.push(GameObject::new(480, 150, 200, 100, String::from("shot_texture")));
    collision::update(&mut player, &mut game);
    assert!(game.invaders[0].game_object.is_destroyed);
    assert!(!game.invaders[1].game_object.is_destroyed);
}

#[test]
fn bullet_erodes_one_collider() {
    let mut game = Game::new();
    let mut player = Player::new();
    let c = game.barrier_row[1].colliders[10].rect;
    player.bullets.push(GameObject::new(c.x, c.y, 1, 1, String::from("shot_texture")));
    collision::update(&mut player, &mut game);
    assert!(player.bullets[0].is_destroyed);
    assert!(game.barrier_row[1].colliders[10].is_destroyed);
    let dead: usize = game.barrier_row.iter().map(|b| b.colliders.iter().filter(|c| c.is_destroyed).count()).sum();
    assert_eq!(dead, 1);
}

#[test]
fn bullet_hits_active_ufo_only() {
    let mut game = Game::new();
    let mut player = Player::new();
    let u = game.ufo.game_object.rect;
    player.bullets.push(GameObject::new(u.x, u.y, 6, 24, String::from("shot_texture")));
    collision::update(&mut player, &mut game);
    assert!(!game.ufo.game_object.is_destroyed);
    assert!(!player.bullets[0].is_destroyed);
    game.ufo_active = true;
    collision::update(&mut player, &mut game);
    assert!(game.ufo.game_object.is_destroyed);
    assert!(player.bullets[0].is_destroyed);
}

#[test]
fn enemy_shot_hits_ship_and_keeps_falling() {
    let mut game = Game::new();
    let mut player = Player::new();
    let p = player.game_object.rect;
    game.invader_shots.push(GameObject::new(p.x, p.y, 18, 42, String::from("invader_shot_texture")));
    collision::update(&mut player, &mut game);
    assert!(player.game_object.is_destroyed);
    assert!(!game.invader_shots[0].is_destroyed);
}

#[test]
fn enemy_shot_erodes_collider() {
    let mut game = Game::new();
    let mut player = Player::new();
    let c = game.barrier_row[0].colliders[0].rect;
    game.invader_shots.push(GameObject::new(c.x, c.y, 1, 1, String::from("invader_shot_texture")));
    collision::update(&mut player, &mut game);
    assert!(game.invader_shots[0].is_destroyed);
    assert!(game.barrier_row[0].colliders[0].is_destroyed);
}

#[test]
fn invader_touching_ship_destroys_it_and_survives() {
    let mut game = Game::new();
    let mut player = Player::new();
    game.invaders[0].game_object.rect = player.game_object.rect;
    collision::update(&mut player, &mut game);
    assert!(player.game_object.is_destroyed);
    assert!(!game.invaders[0].game_object.is_destroyed);
}

#[test]
fn invader_wears_away_barrier() {
    let mut game = Game::new();
    let mut player = Player::new();
    game.invaders[0].game_object.rect = Rect::new(160, 810, 30, 30);
    collision::update(&mut player, &mut game);
    let dead = game.barrier_row[0].colliders.iter().filter(|c| c.is_destroyed).count();
    assert!(dead >= 1);
    assert!(!game.invaders[0].game_object.is_destroyed);
}
