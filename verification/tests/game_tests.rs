use rand::rngs::StdRng;
use rand::SeedableRng;
use waza::actors::{Ennemi, Missile, Vaisseau};
use waza::collision::{first_hit, ram, shoot, take_lives};
use waza::entity::{from_pixels, ElementGraphique};
use waza::game::{
    Intent, Jeu, ENEMY_COLOUR, ENEMY_SIZE, ENEMY_SPEED, FLOOR_MARGIN, SHIP_SPEED, SPAWN_CADENCE,
    SPAWN_HEIGHT, SPAWN_MAX, SPAWN_MIN,
};

const QUIET: Intent = Intent { move_left: false, move_right: false, fire_edge: false };

fn screen(width: u32) -> Jeu {
    let ship = Vaisseau::new(from_pixels(10), from_pixels(550), 0, 0, 50, 50, 0);
    Jeu::new(width, 600, 60, ship)
}

fn flat(width: u32) -> Jeu {
    let ship = Vaisseau::new(0, 0, 0, 0, 1, 1, 0);
    Jeu::new(width, 0, 60, ship)
}

fn world() -> Jeu {
    let ship = Vaisseau::new(from_pixels(10), from_pixels(550), 0, 0, 50, 50, 0);
    Jeu::new(800, 600, 60, ship)
}

fn enemy(x: i32, y: i32, size: u32) -> Ennemi {
    Ennemi::new(from_pixels(x), from_pixels(y), 0, 0, size, size, 0xe)
}

fn missile(x: i32, y: i32, size: u32) -> Missile {
    Missile::new(from_pixels(x), from_pixels(y), 0, 0, size, size, 0xa)
}

#[test]
fn a_new_game_is_empty() {
    let jeu = world();
    assert_eq!(jeu.width_screen, 800);
    assert_eq!(jeu.height_screen, 600);
    assert_eq!(jeu.fps, 60);
    assert_eq!(jeu.frame_count, 0);
    assert_eq!(jeu.buffer, vec![0u32; 480000]);
    assert!(jeu.liste_ennemis.is_empty());
    assert_eq!(jeu.player.parent.x, from_pixels(10));
    assert_eq!(jeu.player.vies, 8);
}

#[test]
fn a_game_without_a_screen() {
    let ship = Vaisseau::new(0, 0, 0, 0, 1, 1, 0);
    let jeu = Jeu::new(0, 600, 60, ship);
    assert!(jeu.buffer.is_empty());
}

#[test]
fn enemy_comes_in_above_the_screen() {
    let mut jeu = world();
    jeu.spawn_ennemy_at(300);
    assert_eq!(jeu.liste_ennemis.len(), 1);
    assert_eq!(
        jeu.liste_ennemis[0].parent,
        ElementGraphique {
            x: from_pixels(300),
            y: from_pixels(-20),
            dx: 0,
            dy: from_pixels(2),
            width: 128,
            height: 128,
            col: 0xffa5b6,
        }
    );
    assert_eq!(SPAWN_HEIGHT, from_pixels(-20));
    assert_eq!(ENEMY_SPEED, from_pixels(2));
    assert_eq!(ENEMY_SIZE, 128);
    assert_eq!(ENEMY_COLOUR, 0xffa5b6);
    jeu.spawn_ennemy_at(672);
    assert_eq!(jeu.liste_ennemis.len(), 2);
    assert_eq!(jeu.liste_ennemis[1].parent.x, from_pixels(672));
    assert_eq!(jeu.liste_ennemis[1].parent.x + from_pixels(128), from_pixels(800));
}

#[test]
fn the_band_follows_the_width_of_the_flat() {
    assert_eq!(SPAWN_MIN, 50);
    assert_eq!(SPAWN_MAX, 750);
    assert_eq!(flat(800).spawn_band(), (50, 672));
    assert_eq!(flat(1600).spawn_band(), (50, 750));
    assert_eq!(flat(878).spawn_band(), (50, 750));
    assert_eq!(flat(877).spawn_band(), (50, 749));
    assert_eq!(flat(u32::MAX).spawn_band(), (50, 750));
    assert_eq!(flat(179).spawn_band(), (50, 51));
    assert_eq!(flat(178).spawn_band(), (50, 50));
    assert_eq!(flat(177).spawn_band(), (49, 49));
    assert_eq!(flat(129).spawn_band(), (1, 1));
    assert_eq!(flat(128).spawn_band(), (0, 0));
    assert_eq!(flat(127).spawn_band(), (0, 0));
    assert_eq!(flat(0).spawn_band(), (0, 0));
}

#[test]
fn enemy_comes_in_inside_the_band() {
    for seed in 0..40u64 {
        let mut rng = StdRng::seed_from_u64(seed);
        let mut jeu = world();
        for _ in 0..25 {
            jeu.spawn_ennemy(&mut rng);
        }
        assert_eq!(jeu.liste_ennemis.len(), 25);
        for e in jeu.liste_ennemis.iter() {
            assert!(from_pixels(50) <= e.parent.x && e.parent.x <= from_pixels(672));
            assert!(e.parent.x + from_pixels(e.parent.width as i32) <= from_pixels(800));
            assert_eq!(e.parent.x % 256, 0);
            assert_eq!(e.parent.y, from_pixels(-20));
            assert_eq!(e.parent.dy, from_pixels(2));
            assert_eq!(e.parent.dx, 0);
        }
    }
}

#[test]
fn enemy_comes_in_wholly_on_the_screen_whatever_its_width() {
    for width in [128u32, 129, 150, 178, 200, 500, 800, 877, 878, 1600, 5000] {
        let mut rng = StdRng::seed_from_u64(width as u64);
        let mut jeu = screen(width);
        for _ in 0..200 {
            jeu.spawn_ennemy(&mut rng);
        }
        for e in jeu.liste_ennemis.iter() {
            assert!(e.parent.x >= 0);
            assert!(e.parent.x + from_pixels(128) <= from_pixels(width as i32));
            assert!(e.parent.x <= from_pixels(750));
            if width >= 178 {
                assert!(e.parent.x >= from_pixels(50));
            }
        }
    }
}

#[test]
fn enemy_reaches_both_ends_of_the_band() {
    let mut rng = StdRng::seed_from_u64(99);
    let mut jeu = screen(180);
    for _ in 0..200 {
        jeu.spawn_ennemy(&mut rng);
    }
    let xs: Vec<i64> = jeu.liste_ennemis.iter().map(|e| e.parent.x).collect();
    assert!(xs.contains(&from_pixels(50)));
    assert!(xs.contains(&from_pixels(51)));
    assert!(xs.contains(&from_pixels(52)));
    assert!(xs.iter().all(|x| from_pixels(50) <= *x && *x <= from_pixels(52)));
}

#[test]
fn enemy_on_a_screen_narrower_than_itself_comes_in_at_column_0() {
    for width in [0u32, 1, 50, 127] {
        let mut rng = StdRng::seed_from_u64(4);
        let mut jeu = screen(width);
        for _ in 0..10 {
            jeu.spawn_ennemy(&mut rng);
        }
        assert!(jeu.liste_ennemis.iter().all(|e| e.parent.x == 0));
    }
}

#[test]
fn an_enemy_that_has_just_come_in_is_above_what_is_on_the_top_row() {
    let mut jeu = world();
    jeu.spawn_ennemy_at(300);
    jeu.player.liste_tirs.push(missile(300, 110, 5));
    jeu.check_collisions();
    assert_eq!(jeu.liste_ennemis.len(), 1);
    assert_eq!(jeu.player.liste_tirs.len(), 1);
    jeu.player.liste_tirs.push(missile(300, 107, 5));
    jeu.check_collisions();
    assert!(jeu.liste_ennemis.is_empty());
    assert_eq!(jeu.player.liste_tirs, vec![missile(300, 110, 5)]);
}

#[test]
fn enemies_do_not_all_come_in_at_one_column() {
    let mut rng = StdRng::seed_from_u64(7);
    let mut jeu = world();
    for _ in 0..50 {
        jeu.spawn_ennemy(&mut rng);
    }
    let first = jeu.liste_ennemis[0].parent.x;
    assert!(jeu.liste_ennemis.iter().any(|e| e.parent.x != first));
}

#[test]
fn the_same_seed_gives_the_same_game() {
    let mut one = world();
    let mut two = world();
    let mut rng_one = StdRng::seed_from_u64(2024);
    let mut rng_two = StdRng::seed_from_u64(2024);
    for _ in 0..200 {
        one.update(QUIET, &mut rng_one);
        two.update(QUIET, &mut rng_two);
    }
    assert_eq!(one.liste_ennemis, two.liste_ennemis);
    assert_eq!(one.liste_ennemis.len(), 4);
    assert_eq!(one.frame_count, 200);
}

#[test]
fn intent_steers_the_ship() {
    assert_eq!(SHIP_SPEED, from_pixels(5));
    let mut jeu = world();
    jeu.input(Intent { move_left: true, move_right: false, fire_edge: false });
    assert_eq!(jeu.player.parent.dx, from_pixels(-5));
    assert_eq!(jeu.player.parent.x, from_pixels(5));
    jeu.input(Intent { move_left: false, move_right: true, fire_edge: false });
    assert_eq!(jeu.player.parent.dx, from_pixels(5));
    assert_eq!(jeu.player.parent.x, from_pixels(10));
    jeu.input(QUIET);
    assert_eq!(jeu.player.parent.dx, 0);
    assert_eq!(jeu.player.parent.x, from_pixels(10));
    jeu.input(Intent { move_left: true, move_right: true, fire_edge: false });
    assert_eq!(jeu.player.parent.dx, from_pixels(-5));
    assert_eq!(jeu.player.parent.x, from_pixels(5));
}

#[test]
fn intent_wraps_the_ship() {
    let mut jeu = world();
    jeu.player.parent.x = from_pixels(4);
    jeu.input(Intent { move_left: true, move_right: false, fire_edge: false });
    assert_eq!(jeu.player.parent.x, from_pixels(800));
    jeu.input(Intent { move_left: false, move_right: true, fire_edge: false });
    assert_eq!(jeu.player.parent.x, 0);
}

#[test]
fn intent_fires_from_where_the_ship_stood() {
    let mut jeu = world();
    jeu.input(Intent { move_left: false, move_right: true, fire_edge: true });
    assert_eq!(jeu.player.liste_tirs.len(), 1);
    assert_eq!(jeu.player.liste_tirs[0].parent.x, from_pixels(35));
    assert_eq!(jeu.player.liste_tirs[0].parent.y, from_pixels(545));
    assert_eq!(jeu.player.parent.x, from_pixels(15));
    jeu.input(QUIET);
    assert_eq!(jeu.player.liste_tirs.len(), 1);
    jeu.input(Intent { move_left: false, move_right: false, fire_edge: true });
    jeu.input(Intent { move_left: false, move_right: false, fire_edge: true });
    assert_eq!(jeu.player.liste_tirs.len(), 3);
}

#[test]
fn every_missile_and_every_enemy_moves() {
    let mut jeu = world();
    jeu.player.liste_tirs.push(Missile::new(0, from_pixels(100), 0, from_pixels(-5), 1, 1, 0));
    jeu.player.liste_tirs.push(Missile::new(7, 9, 3, -3, 1, 1, 0));
    jeu.liste_ennemis.push(Ennemi::new(0, from_pixels(-20), 0, from_pixels(2), 1, 1, 0));
    jeu.liste_ennemis.push(Ennemi::new(1, 1, -1, 1, 1, 1, 0));
    jeu.advance();
    assert_eq!(jeu.player.liste_tirs[0].parent.y, from_pixels(95));
    assert_eq!((jeu.player.liste_tirs[1].parent.x, jeu.player.liste_tirs[1].parent.y), (10, 6));
    assert_eq!(jeu.liste_ennemis[0].parent.y, from_pixels(-18));
    assert_eq!((jeu.liste_ennemis[1].parent.x, jeu.liste_ennemis[1].parent.y), (0, 2));
    assert_eq!(jeu.player.parent.x, from_pixels(10));
}

#[test]
fn enemy_on_the_ship_costs_a_life_and_no_missile() {
    let mut jeu = world();
    jeu.liste_ennemis.push(enemy(10, 550, 50));
    jeu.player.liste_tirs.push(missile(10, 550, 50));
    jeu.check_collisions();
    assert!(jeu.liste_ennemis.is_empty());
    assert_eq!(jeu.player.vies, 7);
    assert_eq!(jeu.player.liste_tirs, vec![missile(10, 550, 50)]);
}

#[test]
fn every_enemy_on_the_ship_costs_a_life() {
    let mut jeu = world();
    jeu.liste_ennemis.push(enemy(10, 550, 50));
    jeu.liste_ennemis.push(enemy(300, 100, 50));
    jeu.liste_ennemis.push(enemy(59, 599, 5));
    jeu.liste_ennemis.push(enemy(0, 540, 11));
    jeu.check_collisions();
    assert_eq!(jeu.liste_ennemis, vec![enemy(300, 100, 50)]);
    assert_eq!(jeu.player.vies, 5);
}

#[test]
fn enemy_beside_the_ship_is_left_alone() {
    let mut jeu = world();
    jeu.liste_ennemis.push(enemy(60, 550, 50));
    jeu.liste_ennemis.push(enemy(10, 500, 50));
    jeu.check_collisions();
    assert_eq!(jeu.liste_ennemis.len(), 2);
    assert_eq!(jeu.player.vies, 8);
}

#[test]
fn one_missile_takes_one_enemy() {
    let mut jeu = world();
    jeu.liste_ennemis.push(enemy(100, 100, 50));
    jeu.liste_ennemis.push(enemy(120, 100, 50));
    jeu.player.liste_tirs.push(missile(110, 110, 64));
    jeu.check_collisions();
    assert_eq!(jeu.liste_ennemis, vec![enemy(120, 100, 50)]);
    assert!(jeu.player.liste_tirs.is_empty());
    assert_eq!(jeu.player.vies, 8);
}

#[test]
fn the_oldest_missile_that_hits_is_spent() {
    let mut jeu = world();
    jeu.liste_ennemis.push(enemy(100, 100, 50));
    jeu.player.liste_tirs.push(missile(400, 400, 10));
    jeu.player.liste_tirs.push(missile(110, 110, 10));
    jeu.player.liste_tirs.push(missile(120, 120, 10));
    jeu.check_collisions();
    assert!(jeu.liste_ennemis.is_empty());
    assert_eq!(jeu.player.liste_tirs, vec![missile(400, 400, 10), missile(120, 120, 10)]);
}

#[test]
fn two_missiles_take_two_enemies() {
    let mut jeu = world();
    jeu.liste_ennemis.push(enemy(100, 100, 50));
    jeu.liste_ennemis.push(enemy(120, 100, 50));
    jeu.liste_ennemis.push(enemy(130, 100, 50));
    jeu.player.liste_tirs.push(missile(135, 110, 10));
    jeu.player.liste_tirs.push(missile(136, 110, 10));
    jeu.check_collisions();
    assert_eq!(jeu.liste_ennemis, vec![enemy(130, 100, 50)]);
    assert!(jeu.player.liste_tirs.is_empty());
    assert_eq!(jeu.player.vies, 8);
}

#[test]
fn enemy_on_the_floor_costs_a_life_and_no_missile() {
    let mut jeu = world();
    jeu.liste_ennemis.push(enemy(300, 600, 50));
    jeu.player.liste_tirs.push(missile(300, 600, 50));
    jeu.check_collisions();
    assert!(jeu.liste_ennemis.is_empty());
    assert_eq!(jeu.player.vies, 7);
    assert_eq!(jeu.player.liste_tirs.len(), 1);
}

#[test]
fn enemy_just_off_the_floor_has_not_landed() {
    let mut jeu = world();
    let mut above = enemy(300, 600, 50);
    above.parent.y -= 1;
    let mut below = enemy(400, 600, 50);
    below.parent.y += 1;
    jeu.liste_ennemis.push(above);
    jeu.liste_ennemis.push(below);
    jeu.check_collisions();
    assert_eq!(jeu.liste_ennemis.len(), 2);
    assert_eq!(jeu.player.vies, 8);
}

#[test]
fn enemy_on_the_ship_and_on_the_floor_costs_one_life() {
    let ship = Vaisseau::new(from_pixels(10), from_pixels(590), 0, 0, 50, 50, 0);
    let mut jeu = Jeu::new(800, 600, 60, ship);
    jeu.liste_ennemis.push(enemy(10, 600, 50));
    jeu.check_collisions();
    assert!(jeu.liste_ennemis.is_empty());
    assert_eq!(jeu.player.vies, 7);
}

#[test]
fn missile_at_the_top_edge_can_still_hit() {
    let mut jeu = world();
    jeu.liste_ennemis.push(enemy(100, 0, 50));
    jeu.player.liste_tirs.push(missile(100, 0, 10));
    jeu.check_collisions();
    assert!(jeu.liste_ennemis.is_empty());
    assert!(jeu.player.liste_tirs.is_empty());
}

#[test]
fn collisions_in_an_empty_game() {
    let mut jeu = world();
    jeu.check_collisions();
    assert!(jeu.liste_ennemis.is_empty());
    assert_eq!(jeu.player.vies, 8);
    jeu.player.liste_tirs.push(missile(1, 1, 1));
    jeu.check_collisions();
    assert_eq!(jeu.player.liste_tirs.len(), 1);
}

#[test]
fn lives_may_fall_below_zero() {
    let mut jeu = world();
    jeu.player.vies = 1;
    jeu.liste_ennemis.push(enemy(10, 550, 50));
    jeu.liste_ennemis.push(enemy(20, 560, 50));
    jeu.liste_ennemis.push(enemy(700, 600, 50));
    jeu.check_collisions();
    assert_eq!(jeu.player.vies, -2);
    assert!(jeu.player.vivant);
}

#[test]
fn lives_stop_at_the_end_of_their_range() {
    assert_eq!(take_lives(8, 0), 8);
    assert_eq!(take_lives(8, 3), 5);
    assert_eq!(take_lives(0, 1), -1);
    assert_eq!(take_lives(i32::MIN + 1, 1), i32::MIN);
    assert_eq!(take_lives(i32::MIN + 1, 2), i32::MIN);
    assert_eq!(take_lives(i32::MIN, usize::MAX), i32::MIN);
    assert_eq!(take_lives(i32::MAX, usize::MAX), i32::MIN);
    assert_eq!(take_lives(i32::MAX, 1), i32::MAX - 1);
}

#[test]
fn the_two_passes_one_by_one() {
    let ship = ElementGraphique {
        x: from_pixels(10),
        y: from_pixels(550),
        dx: 0,
        dy: 0,
        width: 50,
        height: 50,
        col: 0,
    };
    let enemies =
        vec![enemy(10, 550, 50), enemy(100, 100, 50), enemy(300, 600, 50), enemy(500, 105, 5)];
    let (clear, rammed) = ram(&enemies, &ship);
    assert_eq!(rammed, 1);
    assert_eq!(clear, vec![enemy(100, 100, 50), enemy(300, 600, 50), enemy(500, 105, 5)]);
    let mut shots = vec![missile(0, 0, 1), missile(120, 120, 5), missile(100, 100, 500)];
    assert_eq!(first_hit(&shots, &clear[0].parent), Some(1));
    assert_eq!(first_hit(&shots, &clear[2].parent), Some(2));
    assert_eq!(first_hit(&shots, &ship), None);
    let (kept, fallen) = shoot(&clear, &mut shots, from_pixels(600));
    assert_eq!(fallen, 1);
    assert!(kept.is_empty());
    assert_eq!(shots, vec![missile(0, 0, 1)]);
}

#[test]
fn what_has_left_the_screen_is_removed() {
    assert_eq!(FLOOR_MARGIN, 20);
    let mut jeu = world();
    jeu.liste_ennemis.push(enemy(100, 620, 50));
    jeu.liste_ennemis.push(enemy(100, 621, 50));
    let mut just_past = enemy(200, 620, 50);
    just_past.parent.y += 1;
    jeu.liste_ennemis.push(just_past);
    jeu.liste_ennemis.push(enemy(100, -20, 50));
    jeu.player.liste_tirs.push(missile(5, 1, 5));
    jeu.player.liste_tirs.push(missile(5, 0, 5));
    jeu.player.liste_tirs.push(missile(5, -1, 5));
    let mut last = missile(5, 0, 5);
    last.parent.y = 1;
    jeu.player.liste_tirs.push(last);
    jeu.prune();
    assert_eq!(jeu.liste_ennemis, vec![enemy(100, 620, 50), enemy(100, -20, 50)]);
    assert_eq!(jeu.player.liste_tirs, vec![missile(5, 1, 5), last]);
    assert_eq!(jeu.player.vies, 8);
}

#[test]
fn enemy_past_the_margin_does_not_see_the_next_tick() {
    let mut jeu = world();
    jeu.liste_ennemis.push(Ennemi::new(from_pixels(300), from_pixels(619), 0, from_pixels(2), 128, 128, 0));
    jeu.liste_ennemis.push(Ennemi::new(from_pixels(500), from_pixels(617), 0, from_pixels(2), 128, 128, 0));
    jeu.tick(QUIET, 100);
    assert_eq!(jeu.liste_ennemis.len(), 1);
    assert_eq!(jeu.liste_ennemis[0].parent.y, from_pixels(619));
    assert_eq!(jeu.player.vies, 8);
    jeu.tick(QUIET, 100);
    assert!(jeu.liste_ennemis.is_empty());
    assert_eq!(jeu.player.vies, 8);
}

#[test]
fn enemy_that_lands_costs_a_life() {
    let mut jeu = world();
    jeu.liste_ennemis.push(Ennemi::new(from_pixels(300), from_pixels(596), 0, from_pixels(2), 128, 128, 0));
    jeu.tick(QUIET, 100);
    assert_eq!(jeu.liste_ennemis.len(), 1);
    assert_eq!(jeu.player.vies, 8);
    jeu.tick(QUIET, 100);
    assert!(jeu.liste_ennemis.is_empty());
    assert_eq!(jeu.player.vies, 7);
}

#[test]
fn enemy_that_steps_over_the_floor_is_only_removed_past_the_margin() {
    let mut jeu = world();
    jeu.liste_ennemis.push(Ennemi::new(from_pixels(300), from_pixels(597), 0, from_pixels(2), 128, 128, 0));
    for _ in 0..11 {
        jeu.tick(QUIET, 100);
    }
    assert_eq!(jeu.liste_ennemis.len(), 1);
    assert_eq!(jeu.liste_ennemis[0].parent.y, from_pixels(619));
    jeu.tick(QUIET, 100);
    assert!(jeu.liste_ennemis.is_empty());
    assert_eq!(jeu.player.vies, 8);
}

#[test]
fn missile_flies_up_and_is_removed_at_the_top() {
    let mut jeu = world();
    jeu.tick(Intent { move_left: false, move_right: false, fire_edge: true }, 100);
    assert_eq!(jeu.player.liste_tirs.len(), 1);
    assert_eq!(jeu.player.liste_tirs[0].parent.y, from_pixels(540));
    for _ in 0..107 {
        jeu.tick(QUIET, 600);
    }
    assert_eq!(jeu.player.liste_tirs.len(), 1);
    assert_eq!(jeu.player.liste_tirs[0].parent.y, from_pixels(5));
    jeu.tick(QUIET, 600);
    assert!(jeu.player.liste_tirs.is_empty());
}

#[test]
fn missile_shoots_an_enemy_down() {
    let mut jeu = world();
    jeu.liste_ennemis.push(Ennemi::new(from_pixels(20), from_pixels(100), 0, from_pixels(2), 128, 128, 0));
    jeu.tick(Intent { move_left: false, move_right: false, fire_edge: true }, 100);
    let mut ticks = 1;
    while !jeu.liste_ennemis.is_empty() {
        assert_eq!(jeu.player.liste_tirs.len(), 1);
        jeu.tick(QUIET, 600);
        ticks += 1;
        assert!(ticks < 100);
    }
    assert_eq!(ticks, 46);
    assert!(jeu.player.liste_tirs.is_empty());
    assert_eq!(jeu.player.vies, 8);
}

#[test]
fn the_order_of_a_tick() {
    let mut jeu = world();
    jeu.frame_count = 49;
    jeu.tick(Intent { move_left: false, move_right: true, fire_edge: true }, 333);
    assert_eq!(jeu.frame_count, 50);
    assert_eq!(jeu.liste_ennemis.len(), 1);
    assert_eq!(jeu.liste_ennemis[0].parent.x, from_pixels(333));
    assert_eq!(jeu.liste_ennemis[0].parent.y, from_pixels(-18));
    assert_eq!(jeu.player.parent.x, from_pixels(15));
    assert_eq!(jeu.player.liste_tirs.len(), 1);
    assert_eq!(jeu.player.liste_tirs[0].parent.x, from_pixels(35));
    assert_eq!(jeu.player.liste_tirs[0].parent.y, from_pixels(540));
    assert_eq!(jeu.buffer, vec![0u32; 480000]);
}

#[test]
fn collisions_are_taken_after_the_move() {
    let mut jeu = world();
    let above = Ennemi::new(from_pixels(10), from_pixels(421), 0, from_pixels(2), 128, 128, 0);
    assert!(!above.parent.collision(&jeu.player.parent));
    jeu.liste_ennemis.push(above);
    jeu.tick(QUIET, 100);
    assert!(jeu.liste_ennemis.is_empty());
    assert_eq!(jeu.player.vies, 7);

    let mut other = world();
    other.liste_ennemis.push(Ennemi::new(from_pixels(10), from_pixels(419), 0, from_pixels(2), 128, 128, 0));
    other.tick(QUIET, 100);
    assert_eq!(other.liste_ennemis.len(), 1);
    assert_eq!(other.player.vies, 8);
    other.tick(QUIET, 100);
    assert!(other.liste_ennemis.is_empty());
    assert_eq!(other.player.vies, 7);
}

#[test]
fn an_enemy_comes_in_every_fifty_ticks() {
    assert_eq!(SPAWN_CADENCE, 50);
    let mut jeu = world();
    for t in 1..=149u32 {
        jeu.tick(QUIET, 100 + t);
        assert_eq!(jeu.frame_count, t);
        assert_eq!(jeu.liste_ennemis.len() as u32, t / 50);
    }
    assert_eq!(jeu.liste_ennemis[0].parent.x, from_pixels(150));
    assert_eq!(jeu.liste_ennemis[1].parent.x, from_pixels(200));
    assert_eq!(jeu.liste_ennemis[0].parent.y, from_pixels(-20 + 2 * 100));
    assert_eq!(jeu.liste_ennemis[1].parent.y, from_pixels(-20 + 2 * 50));
}

#[test]
fn fifty_quiet_ticks_bring_one_enemy() {
    let ship = Vaisseau::new(from_pixels(10), from_pixels(550), 0, 0, 50, 50, 0);
    let mut jeu = Jeu::new(800, 600, 60, ship);
    let mut rng = StdRng::seed_from_u64(1);
    for _ in 0..49 {
        jeu.update(QUIET, &mut rng);
        assert!(jeu.liste_ennemis.is_empty());
    }
    jeu.update(QUIET, &mut rng);
    assert_eq!(jeu.frame_count, 50);
    assert_eq!(jeu.liste_ennemis.len(), 1);
    let e = jeu.liste_ennemis[0].parent;
    assert_eq!(e.dy, ENEMY_SPEED);
    assert_eq!(e.dy, from_pixels(2));
    assert_eq!(e.dx, 0);
    assert!(from_pixels(50) <= e.x && e.x <= from_pixels(672));
    assert!(e.x + from_pixels(128) <= from_pixels(800));
    assert_eq!(e.y, from_pixels(-18));
    assert_eq!(jeu.player.parent.x, from_pixels(10));
    assert_eq!(jeu.player.parent.y, from_pixels(550));
    assert_eq!(jeu.player.vies, 8);
    assert!(jeu.player.liste_tirs.is_empty());
}

#[test]
fn the_generator_is_asked_only_when_an_enemy_is_due() {
    let mut jeu = world();
    let mut used = StdRng::seed_from_u64(5);
    let fresh = StdRng::seed_from_u64(5);
    for _ in 0..49 {
        jeu.update(QUIET, &mut used);
    }
    assert_eq!(used, fresh);
    assert!(jeu.spawn_is_due());
    jeu.update(QUIET, &mut used);
    assert_ne!(used, fresh);
    assert!(!jeu.spawn_is_due());
}

#[test]
fn the_frame_count_starts_again_at_the_end_of_its_range() {
    let mut jeu = world();
    jeu.frame_count = u32::MAX - 1;
    jeu.tick(QUIET, 100);
    assert_eq!(jeu.frame_count, u32::MAX);
    assert!(jeu.spawn_is_due());
    jeu.tick(QUIET, 100);
    assert_eq!(jeu.frame_count, 0);
    assert_eq!(jeu.liste_ennemis.len(), 1);
}

#[test]
fn enemy_with_a_fraction_in_its_speed_may_miss_the_floor() {
    let mut jeu = world();
    jeu.liste_ennemis.push(Ennemi::new(from_pixels(300), from_pixels(590), 0, from_pixels(4) + 1, 128, 128, 0));
    let mut ticks = 0;
    while !jeu.liste_ennemis.is_empty() {
        jeu.tick(QUIET, 100);
        ticks += 1;
        assert!(ticks < 100);
    }
    assert_eq!(ticks, 8);
    assert_eq!(jeu.player.vies, 8);
}

#[test]
fn missile_with_a_speed_that_steps_over_the_top_is_removed_all_the_same() {
    let mut jeu = world();
    jeu.player.liste_tirs.push(Missile::new(0, from_pixels(3), 0, from_pixels(-5), 64, 64, 0));
    jeu.tick(QUIET, 100);
    assert!(jeu.player.liste_tirs.is_empty());
}
