use bevy::time::{Timer, TimerMode};
use bevy_rand::prelude::WyRand;
use birthday_card::cake::{
    amogus, bite_cake, click_pickle_mew, extinguish_flame, new_candle, setup, setup_with,
    spawn_amogi, spawn_amogus, AmogusKind, Bite, Candle, FlameAnimation, SmokeAnimation,
    AMOGUS_1_PLACE, AMOGUS_2_PLACE, AMOGUS_3_PLACE, AMOGUS_4_PLACE, AMOGUS_5_PLACE,
    AMOGUS_ATLAS_INDEX, AMOGUS_ATLAS_SIZE, CAKE_ATLAS_INDEX, CAKE_ATLAS_SIZE, FLAME_ATLAS_INDEX,
    FLAME_ATLAS_SIZE, FLAME_MILLIS, FLAME_RADIUS, PICKLE_MEW_ATLAS_INDEX, PICKLE_MEW_ODDS,
    PLATE_ATLAS_INDEX, SMOKE_ATLAS_INDEX, SMOKE_ATLAS_SIZE, SMOKE_MILLIS,
};
use birthday_card::command::{Command, Marker, Prop, Sound};
use birthday_card::util::{advance, animate, Animation};
use rand_core::{RngCore, SeedableRng};
use std::time::Duration;

fn eaten(frame: usize, commands: Vec<Command>, index: usize) {
    assert_eq!(bite_cake(Some(frame)), Some(Bite { commands, index }));
}

#[test]
fn first_bite_sends_the_first_creature_away() {
    eaten(0, vec![Command::DespawnAll(Marker::Amogus1), Command::Play(Sound::Eating)], 1);
}

#[test]
fn second_bite_sends_the_second_creature_away() {
    eaten(1, vec![Command::DespawnAll(Marker::Amogus2), Command::Play(Sound::Eating)], 2);
}

#[test]
fn fourth_bite_sends_two_creatures_away() {
    eaten(
        3,
        vec![
            Command::DespawnAll(Marker::Amogus4),
            Command::DespawnAll(Marker::Amogus5),
            Command::Play(Sound::Eating),
        ],
        4,
    );
}

#[test]
fn fifth_bite_sends_the_third_creature_away() {
    eaten(4, vec![Command::DespawnAll(Marker::Amogus3), Command::Play(Sound::Eating)], 5);
}

#[test]
fn other_bites_only_sound() {
    for frame in [2usize, 5, 6, 7, 8] {
        eaten(frame, vec![Command::Play(Sound::Eating)], frame + 1);
    }
}

#[test]
fn last_bite_wraps_and_calls_the_creatures_back_in_silence() {
    let last = CAKE_ATLAS_INDEX + CAKE_ATLAS_SIZE - 1;
    assert_eq!(last, 9);
    let bite = bite_cake(Some(last)).unwrap();
    assert_eq!(bite.index, CAKE_ATLAS_INDEX);
    assert_eq!(bite.commands, vec![Command::SpawnAmogi]);
    assert!(!bite.commands.contains(&Command::Play(Sound::Eating)));

    let mut rng = WyRand::seed_from_u64(9);
    let creatures = spawn_amogi(&mut rng);
    assert_eq!(creatures.len(), 5);
    assert!(creatures.iter().all(|c| matches!(c, Command::Spawn(Prop::Amogus { .. }))));
}

#[test]
fn bite_into_a_missing_cake_is_ignored() {
    assert_eq!(bite_cake(None), None);
}

#[test]
fn bite_into_a_frame_beyond_the_cake_comes_back_into_range() {
    eaten(10, vec![Command::Play(Sound::Eating)], 1);
    eaten(25, vec![Command::Play(Sound::Eating)], 6);
    eaten(usize::MAX - 1, vec![Command::Play(Sound::Eating)], usize::MAX % 10);
}

#[test]
fn ten_bites_make_the_cake_whole_again() {
    for start in 0..10usize {
        let mut frame = start;
        for _ in 0..10 {
            frame = bite_cake(Some(frame)).unwrap().index;
            assert!(frame < 10);
        }
        assert_eq!(frame, start);
    }
}

#[test]
fn many_bites_stay_on_the_cake() {
    let mut frame = CAKE_ATLAS_INDEX;
    for bites in 1..=1000usize {
        frame = bite_cake(Some(frame)).unwrap().index;
        assert_eq!(frame, bites % 10);
    }
}

#[test]
fn cake_constants() {
    assert_eq!(CAKE_ATLAS_INDEX, 0);
    assert_eq!(CAKE_ATLAS_SIZE, 10);
    assert_eq!(PLATE_ATLAS_INDEX, 10);
    assert_eq!(PICKLE_MEW_ATLAS_INDEX, 70);
    assert_eq!(PICKLE_MEW_ODDS, 5);
    assert_eq!((AMOGUS_ATLAS_INDEX, AMOGUS_ATLAS_SIZE), (20, 5));
    assert_eq!((FLAME_ATLAS_INDEX, FLAME_ATLAS_SIZE), (30, 5));
    assert_eq!((SMOKE_ATLAS_INDEX, SMOKE_ATLAS_SIZE), (40, 5));
    assert_eq!(AMOGUS_1_PLACE, (140, 120));
    assert_eq!(AMOGUS_2_PLACE, (-160, 110));
    assert_eq!(AMOGUS_3_PLACE, (80, 90));
    assert_eq!(AMOGUS_4_PLACE, (-80, 100));
    assert_eq!(AMOGUS_5_PLACE, (0, 140));
    assert_eq!(FLAME_RADIUS, 120);
    assert_eq!(FLAME_MILLIS, 100);
    assert_eq!(SMOKE_MILLIS, 300);
}

#[test]
fn cake_setup_without_the_visitor() {
    for draw in [1u32, 2, 3, 4, 6, 4_294_967_294] {
        assert_eq!(
            setup_with(draw),
            vec![
                Command::ResetCamera,
                Command::ClearColor { r: 29, g: 29, b: 29 },
                Command::AmbientLight { percent: 30 },
                Command::Spawn(Prop::Plate),
                Command::Spawn(Prop::Cake),
            ]
        );
    }
}

#[test]
fn cake_setup_with_the_visitor() {
    for draw in [0u32, 5, 10, 4_294_967_295] {
        assert_eq!(
            setup_with(draw),
            vec![
                Command::ResetCamera,
                Command::ClearColor { r: 29, g: 29, b: 29 },
                Command::AmbientLight { percent: 30 },
                Command::Spawn(Prop::PickleMew),
                Command::Spawn(Prop::Plate),
                Command::Spawn(Prop::Cake),
            ]
        );
    }
}

#[test]
fn cake_setup_takes_one_draw() {
    for seed in 0..50u64 {
        let mut rng = WyRand::seed_from_u64(seed);
        let mut twin = rng.clone();
        let commands = setup(&mut rng);
        assert_eq!(commands, setup_with(twin.next_u32()));
        assert_eq!(rng, twin);
    }
}

#[test]
fn the_visitor_comes_sometimes_and_not_always() {
    let mut came = 0;
    for seed in 0..500u64 {
        let mut rng = WyRand::seed_from_u64(seed);
        if setup(&mut rng).contains(&Command::Spawn(Prop::PickleMew)) {
            came += 1;
        }
    }
    assert!(came > 0 && came < 500);
}

#[test]
fn amogus_look_and_flip_follow_the_draws() {
    assert_eq!(
        amogus(AmogusKind::Amogus1, (140, 120), 0, 0),
        Prop::Amogus { kind: AmogusKind::Amogus1, index: 20, flip_x: true, x: 140, y: 120 }
    );
    assert_eq!(
        amogus(AmogusKind::Amogus2, (-160, 110), 7, 3),
        Prop::Amogus { kind: AmogusKind::Amogus2, index: 22, flip_x: false, x: -160, y: 110 }
    );
    assert_eq!(
        amogus(AmogusKind::Amogus5, (0, 140), u32::MAX, u32::MAX - 1),
        Prop::Amogus { kind: AmogusKind::Amogus5, index: 20, flip_x: true, x: 0, y: 140 }
    );
    assert_eq!(
        amogus(AmogusKind::Amogus3, (80, 90), 4, 1),
        Prop::Amogus { kind: AmogusKind::Amogus3, index: 24, flip_x: false, x: 80, y: 90 }
    );
}

#[test]
fn amogus_palette() {
    for kind in [
        AmogusKind::Amogus1,
        AmogusKind::Amogus2,
        AmogusKind::Amogus3,
        AmogusKind::Amogus4,
        AmogusKind::Amogus5,
    ] {
        assert_eq!(kind.index(), 20);
        assert_eq!(kind.size(), 5);
    }
}

#[test]
fn spawn_amogus_takes_two_draws() {
    for seed in 0..50u64 {
        let mut rng = WyRand::seed_from_u64(seed);
        let mut twin = rng.clone();
        let command = spawn_amogus(&mut rng, AmogusKind::Amogus4, (-80, 100));
        let look = twin.next_u32();
        let flip = twin.next_u32();
        assert_eq!(command, Command::Spawn(amogus(AmogusKind::Amogus4, (-80, 100), look, flip)));
        assert_eq!(rng, twin);
    }
}

#[test]
fn spawn_amogi_places_one_of_each_kind() {
    let places = [
        (AmogusKind::Amogus1, (140, 120)),
        (AmogusKind::Amogus2, (-160, 110)),
        (AmogusKind::Amogus3, (80, 90)),
        (AmogusKind::Amogus4, (-80, 100)),
        (AmogusKind::Amogus5, (0, 140)),
    ];
    for seed in 0..20u64 {
        let mut rng = WyRand::seed_from_u64(seed);
        let mut twin = rng.clone();
        let commands = spawn_amogi(&mut rng);
        let mut expected = Vec::new();
        for (kind, pos) in places {
            let look = twin.next_u32();
            let flip = twin.next_u32();
            expected.push(Command::Spawn(amogus(kind, pos, look, flip)));
        }
        assert_eq!(commands, expected);
        assert_eq!(rng, twin);
        for command in commands {
            match command {
                Command::Spawn(Prop::Amogus { index, .. }) => assert!((20..25).contains(&index)),
                other => panic!("unexpected {:?}", other),
            }
        }
    }
}

#[test]
fn a_new_candle_burns() {
    assert_eq!(new_candle(), Candle { index: 30, radius: 120, lit: true });
}

#[test]
fn a_clicked_flame_goes_out_for_good() {
    let out = Candle { index: 40, radius: 0, lit: false };
    assert_eq!(extinguish_flame(Some(new_candle())), Some(out));
    assert_eq!(extinguish_flame(Some(Candle { index: 33, radius: 120, lit: true })), Some(out));
    assert_eq!(extinguish_flame(Some(out)), Some(out));
    assert_eq!(extinguish_flame(None), None);
}

#[test]
fn the_visitor_mews_and_leaves() {
    assert_eq!(
        click_pickle_mew(Some(77)),
        vec![Command::Play(Sound::PickleMew), Command::Despawn(77)]
    );
    assert_eq!(click_pickle_mew(None), vec![]);
}

#[test]
fn flame_and_smoke_palettes() {
    assert_eq!(FlameAnimation::index(), 30);
    assert_eq!(FlameAnimation::size(), 5);
    assert_eq!(SmokeAnimation::index(), 40);
    assert_eq!(SmokeAnimation::size(), 5);
}

#[test]
fn flame_loops_through_its_five_frames() {
    let mut frame = Some(30);
    let mut seen = Vec::new();
    for _ in 0..10 {
        frame = advance::<FlameAnimation>(true, frame);
        seen.push(frame.unwrap());
    }
    assert_eq!(seen, vec![31, 32, 33, 34, 30, 31, 32, 33, 34, 30]);
}

#[test]
fn smoke_loops_through_its_five_frames() {
    assert_eq!(advance::<SmokeAnimation>(true, Some(40)), Some(41));
    assert_eq!(advance::<SmokeAnimation>(true, Some(44)), Some(40));
    assert_eq!(advance::<SmokeAnimation>(true, Some(39)), Some(40));
    assert_eq!(advance::<SmokeAnimation>(true, Some(47)), Some(43));
}

#[test]
fn animation_waits_for_its_timer() {
    assert_eq!(advance::<FlameAnimation>(false, Some(31)), Some(31));
    assert_eq!(advance::<SmokeAnimation>(false, Some(44)), Some(44));
    assert_eq!(advance::<SmokeAnimation>(false, Some(usize::MAX)), Some(usize::MAX));
}

#[test]
fn animation_without_an_atlas_is_left_alone() {
    assert_eq!(advance::<FlameAnimation>(true, None), None);
    assert_eq!(advance::<FlameAnimation>(false, None), None);
}

fn seconds(millis: u64) -> f32 {
    millis as f32 / 1000.
}

fn new_flame() -> FlameAnimation {
    FlameAnimation(Timer::from_seconds(seconds(FLAME_MILLIS), TimerMode::Repeating))
}

#[test]
fn a_flame_moves_on_every_tenth_of_a_second() {
    let mut flame = new_flame();
    let mut frame = Some(30);
    let mut seen = Vec::new();
    for _ in 0..24 {
        frame = animate(&mut flame, Duration::from_millis(51), frame);
        seen.push(frame.unwrap());
    }
    assert_eq!(
        seen,
        vec![
            30, 31, 31, 32, 32, 33, 33, 34, 34, 30, 30, 31, 31, 32, 32, 33, 33, 34, 34, 30, 30, 31,
            31, 32
        ]
    );
}

#[test]
fn smoke_moves_on_every_three_tenths_of_a_second() {
    let mut smoke =
        SmokeAnimation(Timer::from_seconds(seconds(SMOKE_MILLIS), TimerMode::Repeating));
    let mut frame = Some(40);
    let mut seen = Vec::new();
    for _ in 0..12 {
        frame = animate(&mut smoke, Duration::from_millis(101), frame);
        seen.push(frame.unwrap());
    }
    assert_eq!(seen, vec![40, 40, 41, 41, 41, 42, 42, 42, 43, 43, 43, 44]);
}

#[test]
fn a_sprite_without_an_atlas_only_lets_time_pass() {
    let mut flame = new_flame();
    assert_eq!(animate(&mut flame, Duration::from_millis(60), None), None);
    assert_eq!(animate(&mut flame, Duration::from_millis(60), None), None);
    assert_eq!(animate(&mut flame, Duration::from_millis(60), Some(30)), Some(30));
    assert_eq!(animate(&mut flame, Duration::from_millis(60), Some(30)), Some(31));
}

#[test]
fn animate_leaves_the_timer_on_which_the_time_has_passed() {
    let mut flame = new_flame();
    let mut twin = flame.0.clone();
    let mut frame = Some(32);
    for millis in [10u64, 45, 45, 30, 200, 1, 99] {
        let delta = Duration::from_millis(millis);
        let shown = animate(&mut flame, delta, frame);
        twin.tick(delta);
        assert_eq!(flame.0, twin);
        assert_eq!(shown, advance::<FlameAnimation>(twin.is_finished(), frame));
        frame = shown;
    }
    let delta = Duration::from_millis(7);
    flame.timer().tick(delta);
    twin.tick(delta);
    assert_eq!(flame.0, twin);
}
