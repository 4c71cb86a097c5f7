//! The cake scene: a cake that is eaten bite by bite, five creatures that
//! come and go with the bites, their candles, and a rare visitor.

use crate::command::{Command, Marker, Prop, Sound};
use crate::entropy::next_u32;
use crate::stage::{brings_only, of_scene};
use crate::util::{frame_after, in_loop, lemma_loop_returns, next_frame, Animation};
use bevy::time::Timer;
use bevy_rand::prelude::WyRand;
use vstd::prelude::*;

verus! {

/// The first atlas frame of the cake: the whole cake.
pub const CAKE_ATLAS_INDEX: usize = 0;

/// The number of cake frames: after so many bites the cake is whole again.
pub const CAKE_ATLAS_SIZE: usize = 10;

/// The atlas frame of the plate.
pub const PLATE_ATLAS_INDEX: usize = 10;

/// The atlas frame of the rare visitor.
pub const PICKLE_MEW_ATLAS_INDEX: usize = 70;

/// The first atlas frame of the looks a creature can have.
pub const AMOGUS_ATLAS_INDEX: usize = 20;

/// The number of looks a creature can have.
pub const AMOGUS_ATLAS_SIZE: usize = 5;

/// The first atlas frame of the flame of a candle.
pub const FLAME_ATLAS_INDEX: usize = 30;

/// The number of frames of the flame.
pub const FLAME_ATLAS_SIZE: usize = 5;

/// The first atlas frame of the smoke of a candle that was blown out.
pub const SMOKE_ATLAS_INDEX: usize = 40;

/// The number of frames of the smoke.
pub const SMOKE_ATLAS_SIZE: usize = 5;

/// Where the creature of the first kind stands.
pub const AMOGUS_1_PLACE: (i32, i32) = (140, 120);

/// Where the creature of the second kind stands.
pub const AMOGUS_2_PLACE: (i32, i32) = (-160, 110);

/// Where the creature of the third kind stands.
pub const AMOGUS_3_PLACE: (i32, i32) = (80, 90);

/// Where the creature of the fourth kind stands.
pub const AMOGUS_4_PLACE: (i32, i32) = (-80, 100);

/// Where the creature of the fifth kind stands.
pub const AMOGUS_5_PLACE: (i32, i32) = (0, 140);

/// One scene entry in this many brings the rare visitor.
pub const PICKLE_MEW_ODDS: u32 = 5;

/// The radius of the light of a burning candle.
pub const FLAME_RADIUS: u32 = 120;

/// The time between two frames of a flame, in milliseconds.
pub const FLAME_MILLIS: u64 = 100;

/// The time between two frames of smoke, in milliseconds.
pub const SMOKE_MILLIS: u64 = 300;

/// The five decorative creatures around the cake.
#[derive(Clone, Copy, Debug, PartialEq, Eq, Structural)]
pub enum AmogusKind {
    Amogus1,
    Amogus2,
    Amogus3,
    Amogus4,
    Amogus5,
}

impl AmogusKind {
    /// The marker by which all creatures of this kind are destroyed.
    pub open spec fn marker(self) -> Marker {
        match self {
            AmogusKind::Amogus1 => Marker::Amogus1,
            AmogusKind::Amogus2 => Marker::Amogus2,
            AmogusKind::Amogus3 => Marker::Amogus3,
            AmogusKind::Amogus4 => Marker::Amogus4,
            AmogusKind::Amogus5 => Marker::Amogus5,
        }
    }

    /// The first atlas frame of the looks a creature can have.
    pub fn index(&self) -> (first: usize)
        ensures
            first == AMOGUS_ATLAS_INDEX,
    {
        AMOGUS_ATLAS_INDEX
    }

    /// The number of looks a creature can have.
    pub fn size(&self) -> (count: usize)
        ensures
            count == AMOGUS_ATLAS_SIZE,
    {
        AMOGUS_ATLAS_SIZE
    }
}

/// The flame of a candle, with the timer that sets its pace.
pub struct FlameAnimation(pub Timer);

/// The smoke of a candle that was blown out, with the timer that sets its
/// pace.
pub struct SmokeAnimation(pub Timer);

impl Animation for FlameAnimation {
    open spec fn first_frame() -> usize {
        FLAME_ATLAS_INDEX
    }

    open spec fn frame_count() -> usize {
        FLAME_ATLAS_SIZE
    }

    open spec fn pace(&self) -> Timer {
        self.0
    }

    fn index() -> usize {
        FLAME_ATLAS_INDEX
    }

    fn size() -> usize {
        FLAME_ATLAS_SIZE
    }

    fn timer(&mut self) -> (timer: &mut Timer)
        ensures
            *final(self) == FlameAnimation(*final(timer)),
    {
        &mut self.0
    }
}

impl Animation for SmokeAnimation {
    open spec fn first_frame() -> usize {
        SMOKE_ATLAS_INDEX
    }

    open spec fn frame_count() -> usize {
        SMOKE_ATLAS_SIZE
    }

    open spec fn pace(&self) -> Timer {
        self.0
    }

    fn index() -> usize {
        SMOKE_ATLAS_INDEX
    }

    fn size() -> usize {
        SMOKE_ATLAS_SIZE
    }

    fn timer(&mut self) -> (timer: &mut Timer)
        ensures
            *final(self) == SmokeAnimation(*final(timer)),
    {
        &mut self.0
    }
}

/// The candle that a creature carries: the atlas frame it shows, the radius
/// of its light, and whether it still burns. A burning candle can be clicked
/// and shows the flame; one that was blown out cannot, and shows the smoke.
#[derive(Clone, Copy, Debug, PartialEq, Eq, Structural)]
pub struct Candle {
    pub index: usize,
    pub radius: u32,
    pub lit: bool,
}

/// What a bite does: the requests to the host, and the frame the cake shows
/// afterwards.
#[derive(Clone, Debug, PartialEq, Eq)]
pub struct Bite {
    pub commands: Vec<Command>,
    pub index: usize,
}

/// Whether a scene entry with this draw brings the rare visitor: one draw in
/// five does.
pub open spec fn pickle_mew_appears(draw: u32) -> bool {
    draw % PICKLE_MEW_ODDS == 0
}

/// The requests of a scene entry whose draw was `draw`: camera, background
/// and light are reset, then come the visitor, if the draw brings it, the
/// plate and the cake.
pub open spec fn setup_commands(draw: u32) -> Seq<Command> {
    seq![
        Command::ResetCamera,
        Command::ClearColor { r: 29, g: 29, b: 29 },
        Command::AmbientLight { percent: 30 },
    ] + (if pickle_mew_appears(draw) {
        seq![Command::Spawn(Prop::PickleMew)]
    } else {
        seq![]
    }) + seq![Command::Spawn(Prop::Plate), Command::Spawn(Prop::Cake)]
}

/// The requests of a scene entry whose draw was `draw`.
pub fn setup_with(draw: u32) -> (commands: Vec<Command>)
    ensures
        commands@ == setup_commands(draw),
{
    let mut commands: Vec<Command> = Vec::new();
    commands.push(Command::ResetCamera);
    commands.push(Command::ClearColor { r: 29, g: 29, b: 29 });
    commands.push(Command::AmbientLight { percent: 30 });
    if draw % PICKLE_MEW_ODDS == 0 {
        commands.push(Command::Spawn(Prop::PickleMew));
    }
    commands.push(Command::Spawn(Prop::Plate));
    commands.push(Command::Spawn(Prop::Cake));
    assert(commands@ =~= setup_commands(draw));
    commands
}

/// Sets the cake scene up. One number is drawn, and decides whether the rare
/// visitor comes.
pub fn setup(rng: &mut WyRand) -> (commands: Vec<Command>)
    ensures
        exists|draw: u32| commands@ == #[trigger] setup_commands(draw),
{
    let draw = next_u32(rng);
    setup_with(draw)
}

/// The creature of kind `kind` at `pos` whose two draws were `look` and
/// `flip`: the first picks one of its looks, an even second mirrors it.
pub open spec fn amogus_prop(kind: AmogusKind, pos: (i32, i32), look: u32, flip: u32) -> Prop {
    Prop::Amogus {
        kind,
        index: (AMOGUS_ATLAS_INDEX + look as int % AMOGUS_ATLAS_SIZE as int) as usize,
        flip_x: flip % 2 == 0,
        x: pos.0,
        y: pos.1,
    }
}

/// The creature of kind `kind` at `pos` whose two draws were `look` and
/// `flip`.
pub fn amogus(kind: AmogusKind, pos: (i32, i32), look: u32, flip: u32) -> (prop: Prop)
    ensures
        prop == amogus_prop(kind, pos, look, flip),
{
    let index = look as usize % kind.size();
    let flip_x = flip % 2 == 0;
    Prop::Amogus { kind, index: kind.index() + index, flip_x, x: pos.0, y: pos.1 }
}

/// Asks for one creature of kind `kind` at `pos`. Two numbers are drawn: the
/// first for its look, the second for whether it is mirrored.
pub fn spawn_amogus(rng: &mut WyRand, kind: AmogusKind, pos: (i32, i32)) -> (command: Command)
    ensures
        exists|look: u32, flip: u32|
            command == Command::Spawn(#[trigger] amogus_prop(kind, pos, look, flip)),
{
    let look = next_u32(rng);
    let flip = next_u32(rng);
    Command::Spawn(amogus(kind, pos, look, flip))
}

/// The five creatures in their places, from ten draws: two for each, in the
/// order of the kinds.
pub open spec fn amogi_props(draws: Seq<u32>) -> Seq<Prop> {
    seq![
        amogus_prop(AmogusKind::Amogus1, AMOGUS_1_PLACE, draws[0], draws[1]),
        amogus_prop(AmogusKind::Amogus2, AMOGUS_2_PLACE, draws[2], draws[3]),
        amogus_prop(AmogusKind::Amogus3, AMOGUS_3_PLACE, draws[4], draws[5]),
        amogus_prop(AmogusKind::Amogus4, AMOGUS_4_PLACE, draws[6], draws[7]),
        amogus_prop(AmogusKind::Amogus5, AMOGUS_5_PLACE, draws[8], draws[9]),
    ]
}

/// The requests for the five creatures, from ten draws.
pub open spec fn amogi(draws: Seq<u32>) -> Seq<Command> {
    amogi_props(draws).map_values(|prop: Prop| Command::Spawn(prop))
}

/// Asks for the five creatures, one of each kind, each in its place. Ten
/// numbers are drawn.
pub fn spawn_amogi(rng: &mut WyRand) -> (commands: Vec<Command>)
    ensures
        exists|draws: Seq<u32>| draws.len() == 10 && commands@ == #[trigger] amogi(draws),
{
    let c1 = spawn_amogus(rng, AmogusKind::Amogus1, AMOGUS_1_PLACE);
    let c2 = spawn_amogus(rng, AmogusKind::Amogus2, AMOGUS_2_PLACE);
    let c3 = spawn_amogus(rng, AmogusKind::Amogus3, AMOGUS_3_PLACE);
    let c4 = spawn_amogus(rng, AmogusKind::Amogus4, AMOGUS_4_PLACE);
    let c5 = spawn_amogus(rng, AmogusKind::Amogus5, AMOGUS_5_PLACE);
    let mut commands: Vec<Command> = Vec::new();
    commands.push(c1);
    commands.push(c2);
    commands.push(c3);
    commands.push(c4);
    commands.push(c5);
    proof {
        let (l1, f1) = choose|l: u32, f: u32|
            c1 == Command::Spawn(#[trigger] amogus_prop(AmogusKind::Amogus1, AMOGUS_1_PLACE, l, f));
        let (l2, f2) = choose|l: u32, f: u32|
            c2 == Command::Spawn(#[trigger] amogus_prop(AmogusKind::Amogus2, AMOGUS_2_PLACE, l, f));
        let (l3, f3) = choose|l: u32, f: u32|
            c3 == Command::Spawn(#[trigger] amogus_prop(AmogusKind::Amogus3, AMOGUS_3_PLACE, l, f));
        let (l4, f4) = choose|l: u32, f: u32|
            c4 == Command::Spawn(#[trigger] amogus_prop(AmogusKind::Amogus4, AMOGUS_4_PLACE, l, f));
        let (l5, f5) = choose|l: u32, f: u32|
            c5 == Command::Spawn(#[trigger] amogus_prop(AmogusKind::Amogus5, AMOGUS_5_PLACE, l, f));
        let draws = seq![l1, f1, l2, f2, l3, f3, l4, f4, l5, f5];
        assert(commands@ =~= amogi(draws));
    }
    commands
}

/// What a bite into the cake that shows frame `v` sets off, before the sound:
/// the first, second, fourth and fifth bite each send creatures away, the
/// last one calls the five back.
pub open spec fn bite_effects(v: int) -> Seq<Command> {
    if v == CAKE_ATLAS_INDEX {
        seq![Command::DespawnAll(Marker::Amogus1)]
    } else if v == CAKE_ATLAS_INDEX + 1 {
        seq![Command::DespawnAll(Marker::Amogus2)]
    } else if v == CAKE_ATLAS_INDEX + 3 {
        seq![Command::DespawnAll(Marker::Amogus4), Command::DespawnAll(Marker::Amogus5)]
    } else if v == CAKE_ATLAS_INDEX + 4 {
        seq![Command::DespawnAll(Marker::Amogus3)]
    } else if v == CAKE_ATLAS_INDEX + CAKE_ATLAS_SIZE - 1 {
        seq![Command::SpawnAmogi]
    } else {
        seq![]
    }
}

/// The requests of a bite into the cake that shows frame `v`: what the bite
/// sets off, and then the eating sound, unless it was the last bite.
pub open spec fn bite_commands(v: int) -> Seq<Command> {
    bite_effects(v) + (if v != CAKE_ATLAS_INDEX + CAKE_ATLAS_SIZE - 1 {
        seq![Command::Play(Sound::Eating)]
    } else {
        seq![]
    })
}

/// The frame the cake shows after a bite into frame `v`.
pub open spec fn bitten(v: int) -> int {
    next_frame(v, CAKE_ATLAS_INDEX as int, CAKE_ATLAS_SIZE as int)
}

/// A click on the cake. `frame` is the atlas frame that the clicked entity
/// shows, or `None` if the entity is gone or shows none: such a click is
/// ignored.
pub fn bite_cake(frame: Option<usize>) -> (bite: Option<Bite>)
    requires
        frame matches Some(v) ==> v < usize::MAX,
    ensures
        frame is None ==> bite is None,
        frame matches Some(v) ==> {
            &&& bite matches Some(b)
            &&& b.commands@ == bite_commands(v as int)
            &&& b.index == bitten(v as int)
            &&& CAKE_ATLAS_INDEX <= b.index < CAKE_ATLAS_INDEX + CAKE_ATLAS_SIZE
        },
{
    match frame {
        None => None,
        Some(v) => {
            let mut commands: Vec<Command> = Vec::new();
            if v == CAKE_ATLAS_INDEX {
                commands.push(Command::DespawnAll(Marker::Amogus1));
            } else if v == CAKE_ATLAS_INDEX + 1 {
                commands.push(Command::DespawnAll(Marker::Amogus2));
            } else if v == CAKE_ATLAS_INDEX + 3 {
                commands.push(Command::DespawnAll(Marker::Amogus4));
                commands.push(Command::DespawnAll(Marker::Amogus5));
            } else if v == CAKE_ATLAS_INDEX + 4 {
                commands.push(Command::DespawnAll(Marker::Amogus3));
            } else if v == CAKE_ATLAS_INDEX + CAKE_ATLAS_SIZE - 1 {
                commands.push(Command::SpawnAmogi);
            }
            assert(commands@ =~= bite_effects(v as int));
            if v != CAKE_ATLAS_INDEX + CAKE_ATLAS_SIZE - 1 {
                commands.push(Command::Play(Sound::Eating));
            }
            assert(commands@ =~= bite_commands(v as int));
            let index = (v + 1 - CAKE_ATLAS_INDEX) % CAKE_ATLAS_SIZE + CAKE_ATLAS_INDEX;
            Some(Bite { commands, index })
        },
    }
}

/// The cake after `bites` bites, from a cake that showed frame `v`.
pub open spec fn bitten_times(v: int, bites: nat) -> int {
    frame_after(v, CAKE_ATLAS_INDEX as int, CAKE_ATLAS_SIZE as int, bites)
}

/// However often the cake is bitten, it shows one of its ten frames, and ten
/// bites into a cake bring back the frame they began with. So ten bites into
/// the whole cake give a whole cake.
pub proof fn lemma_ten_bites(v: int)
    requires
        CAKE_ATLAS_INDEX <= v < CAKE_ATLAS_INDEX + CAKE_ATLAS_SIZE,
    ensures
        forall|bites: nat|
            CAKE_ATLAS_INDEX <= #[trigger] bitten_times(v, bites) < CAKE_ATLAS_INDEX
                + CAKE_ATLAS_SIZE,
        forall|bites: nat| #[trigger] bitten_times(v, bites + 1) == bitten(bitten_times(v, bites)),
        bitten_times(v, 0) == v,
        bitten_times(v, 10) == v,
{
    lemma_loop_returns(v, CAKE_ATLAS_INDEX as int, CAKE_ATLAS_SIZE as int);
    assert forall|bites: nat|
        CAKE_ATLAS_INDEX <= #[trigger] bitten_times(v, bites) < CAKE_ATLAS_INDEX
            + CAKE_ATLAS_SIZE by {
        assert(in_loop(
            frame_after(v, CAKE_ATLAS_INDEX as int, CAKE_ATLAS_SIZE as int, bites),
            CAKE_ATLAS_INDEX as int,
            CAKE_ATLAS_SIZE as int,
        ));
    }
}

/// Whatever a bite brings to the stage belongs to the cake scene.
pub proof fn lemma_bite_brings_cake(v: int)
    ensures
        brings_only(bite_commands(v), of_scene(Marker::OnCakeScreen)),
{
}

/// A candle as it is spawned: burning, on the first frame of the flame.
pub fn new_candle() -> (candle: Candle)
    ensures
        candle == (Candle { index: FLAME_ATLAS_INDEX, radius: FLAME_RADIUS, lit: true }),
{
    Candle { index: FlameAnimation::index(), radius: FLAME_RADIUS, lit: true }
}

/// A click on a flame. `candle` is the candle of the clicked entity, or
/// `None` if the entity is gone or is no candle: such a click is ignored.
/// The candle goes out for good: its light shrinks to nothing and it shows
/// the first frame of the smoke.
pub fn extinguish_flame(candle: Option<Candle>) -> (after: Option<Candle>)
    ensures
        after == match candle {
            Some(_) => Some(Candle { index: SMOKE_ATLAS_INDEX, radius: 0, lit: false }),
            None => None,
        },
{
    match candle {
        Some(_) => Some(Candle { index: SmokeAnimation::index(), radius: 0, lit: false }),
        None => None,
    }
}

/// A click on the rare visitor. `target` is the clicked entity, or `None` if
/// it is gone or is not the visitor: such a click is ignored. The visitor
/// mews and leaves.
pub fn click_pickle_mew(target: Option<u64>) -> (commands: Vec<Command>)
    ensures
        commands@ == match target {
            Some(entity) => seq![Command::Play(Sound::PickleMew), Command::Despawn(entity)],
            None => seq![],
        },
{
    let mut commands: Vec<Command> = Vec::new();
    if let Some(entity) = target {
        commands.push(Command::Play(Sound::PickleMew));
        commands.push(Command::Despawn(entity));
    }
    commands
}

} // verus!
