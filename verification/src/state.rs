//! The three scenes of the card, of which one is shown at a time, and what
//! leaving one and entering another asks of the host.

use crate::cake;
use crate::command::{Command, Marker, Prop};
use crate::gamba;
use crate::gamba::{bare_lanes, table, Bet, Score, Side, SugarCaneHeight, Table};
use crate::stage::{
    all_props, brings_only, free_of, lemma_despawn_all_clears, lemma_performs_all_concat,
    lemma_performs_all_keeps, of_scene, performs, performs_all, without,
};
use crate::ui;
use bevy_rand::prelude::WyRand;
use vstd::prelude::*;

verus! {

/// The scene that is shown.
#[derive(Clone, Copy, Debug, PartialEq, Eq, Hash, Structural)]
pub enum GameState {
    AssetLoading,
    Cake,
    Gamba,
}

/// What is kept while the card runs: the scene that is shown, and the score,
/// the bet and the towers of the betting game.
#[derive(Clone, Debug, PartialEq, Eq)]
pub struct Session {
    pub state: GameState,
    pub score: Score,
    pub bet: Bet,
    pub sugar_cane_height: SugarCaneHeight,
}

impl Default for GameState {
    /// The card begins by loading its assets.
    fn default() -> (state: GameState)
        ensures
            state == GameState::AssetLoading,
    {
        GameState::AssetLoading
    }
}

impl GameState {
    /// The marker that the props of the scene carry.
    pub open spec fn scene(self) -> Marker {
        match self {
            GameState::AssetLoading => Marker::OnAssetLoadingScreen,
            GameState::Cake => Marker::OnCakeScreen,
            GameState::Gamba => Marker::OnGambaScreen,
        }
    }

    /// The marker that the props of the scene carry.
    pub fn marker(&self) -> (marker: Marker)
        ensures
            marker == self.scene(),
    {
        match self {
            GameState::AssetLoading => Marker::OnAssetLoadingScreen,
            GameState::Cake => Marker::OnCakeScreen,
            GameState::Gamba => Marker::OnGambaScreen,
        }
    }
}

/// The scene that follows the loading screen once all assets are there.
pub fn continue_to_state() -> (state: GameState)
    ensures
        state == GameState::Cake,
{
    GameState::Cake
}

/// The requests on leaving a scene: all that carries its marker goes.
pub open spec fn exit_commands(state: GameState) -> Seq<Command> {
    seq![Command::DespawnAll(state.scene())]
}

/// The number of draws that entering a scene takes.
pub open spec fn draws_on_enter(state: GameState) -> nat {
    match state {
        GameState::AssetLoading => 0,
        GameState::Cake => 11,
        GameState::Gamba => 12,
    }
}

/// The requests on entering a scene with the given draws: the scene is set
/// up, then its interface.
pub open spec fn enter_commands(state: GameState, draws: Seq<u32>) -> Seq<Command> {
    match state {
        GameState::AssetLoading => ui::asset_loading_widgets(),
        GameState::Cake => cake::setup_commands(draws[0]) + cake::amogi(draws.subrange(1, 11))
            + ui::cake_widgets(),
        GameState::Gamba => gamba::setup_commands(draws) + ui::gamba_widgets(),
    }
}

/// The table after a scene was entered: the betting game begins with its
/// towers at their base, and nothing else changes.
pub open spec fn table_on_enter(state: GameState, t: Table) -> Table {
    if state == GameState::Gamba {
        Table {
            score: t.score,
            bet: t.bet,
            left: bare_lanes(),
            right: bare_lanes(),
        }
    } else {
        t
    }
}

/// The requests on going from one scene to another: the first is left, the
/// second entered. Going to the scene that is shown asks for nothing.
pub open spec fn switch_commands(from: GameState, to: GameState, draws: Seq<u32>) -> Seq<Command> {
    if from == to {
        seq![]
    } else {
        exit_commands(from) + enter_commands(to, draws)
    }
}

/// The table after going from one scene to another.
pub open spec fn switch_table(from: GameState, to: GameState, t: Table) -> Table {
    if from == to {
        t
    } else {
        table_on_enter(to, t)
    }
}

/// Leaves a scene.
pub fn on_exit(state: GameState) -> (commands: Vec<Command>)
    ensures
        commands@ == exit_commands(state),
{
    let mut commands: Vec<Command> = Vec::new();
    commands.push(Command::DespawnAll(state.marker()));
    commands
}

/// Enters a scene. The cake scene draws eleven numbers and the betting game
/// twelve. Entering the betting game puts the towers back to their base.
pub fn on_enter(state: GameState, rng: &mut WyRand, heights: &mut SugarCaneHeight) -> (commands:
    Vec<Command>)
    ensures
        exists|draws: Seq<u32>|
            draws.len() == draws_on_enter(state) && commands@ == #[trigger] enter_commands(
                state,
                draws,
            ),
        state == GameState::Gamba ==> forall|side: Side| #[trigger]
            final(heights).lanes(side) == bare_lanes(),
        state != GameState::Gamba ==> *final(heights) == *old(heights),
{
    match state {
        GameState::AssetLoading => {
            let commands = ui::setup_asset_loading();
            assert(commands@ == enter_commands(state, Seq::<u32>::empty()));
            commands
        },
        GameState::Cake => {
            let mut commands = cake::setup(rng);
            let mut amogi = cake::spawn_amogi(rng);
            let mut widgets = ui::setup_cake();
            proof {
                let first = choose|draw: u32| commands@ == #[trigger] cake::setup_commands(draw);
                let rest = choose|draws: Seq<u32>|
                    draws.len() == 10 && amogi@ == #[trigger] cake::amogi(draws);
                let draws = seq![first] + rest;
                assert(draws.subrange(1, 11) == rest);
                assert(commands@ + amogi@ + widgets@ == enter_commands(state, draws));
            }
            commands.append(&mut amogi);
            commands.append(&mut widgets);
            commands
        },
        GameState::Gamba => {
            let (towers, mut commands) = gamba::setup(rng);
            let mut widgets = ui::setup_gamba();
            proof {
                let draws = choose|draws: Seq<u32>|
                    draws.len() == 12 && commands@ == #[trigger] gamba::setup_commands(draws);
                assert(commands@ + widgets@ == enter_commands(state, draws));
            }
            *heights = towers;
            commands.append(&mut widgets);
            commands
        },
    }
}

impl Session {
    /// Score, bet and towers seen as one table.
    pub open spec fn table(&self) -> Table {
        table(self.score, self.bet, self.sugar_cane_height)
    }

    /// The session at launch: the assets are loading, and the player owns
    /// one and bets one.
    pub fn new() -> (session: Session)
        ensures
            session.state == GameState::AssetLoading,
            session.score == Score(1),
            session.bet == Bet(1),
            forall|side: Side| #[trigger]
                session.sugar_cane_height.lanes(side) == bare_lanes(),
    {
        Session {
            state: GameState::default(),
            score: Score(1),
            bet: Bet(1),
            sugar_cane_height: SugarCaneHeight::new(),
        }
    }

    /// Enters the scene that the session is in. This is for the launch: no
    /// scene was left before the first one.
    pub fn start(&mut self, rng: &mut WyRand) -> (commands: Vec<Command>)
        ensures
            exists|draws: Seq<u32>|
                draws.len() == draws_on_enter(old(self).state) && commands@
                    == #[trigger] enter_commands(old(self).state, draws),
            final(self).state == old(self).state,
            final(self).table() == table_on_enter(old(self).state, old(self).table()),
    {
        let commands = on_enter(self.state, rng, &mut self.sugar_cane_height);
        proof {
            self.lemma_table_on_enter(*old(self), self.state);
        }
        commands
    }

    /// Goes to the scene `next`: the scene that is shown is left and `next`
    /// is entered, unless it is shown already, in which case nothing happens.
    /// Score and bet stay as they are.
    pub fn set_state(&mut self, next: GameState, rng: &mut WyRand) -> (commands: Vec<Command>)
        ensures
            exists|draws: Seq<u32>|
                {
                    &&& old(self).state != next ==> draws.len() == draws_on_enter(next)
                    &&& commands@ == #[trigger] switch_commands(old(self).state, next, draws)
                },
            final(self).state == next,
            final(self).score == old(self).score,
            final(self).bet == old(self).bet,
            final(self).table() == switch_table(old(self).state, next, old(self).table()),
    {
        if self.state == next {
            let commands: Vec<Command> = Vec::new();
            assert(commands@ == switch_commands(self.state, next, Seq::<u32>::empty()));
            return commands;
        }
        let mut commands = on_exit(self.state);
        let mut more = on_enter(next, rng, &mut self.sugar_cane_height);
        proof {
            let draws = choose|draws: Seq<u32>|
                draws.len() == draws_on_enter(next) && more@ == #[trigger] enter_commands(
                    next,
                    draws,
                );
            assert(commands@ + more@ == switch_commands(old(self).state, next, draws));
            self.lemma_table_on_enter(*old(self), next);
        }
        self.state = next;
        commands.append(&mut more);
        commands
    }

    /// A session whose score and bet are those of `before`, and whose towers
    /// are as entering `entered` leaves them, has the table that entering
    /// `entered` gives.
    proof fn lemma_table_on_enter(&self, before: Session, entered: GameState)
        requires
            self.score == before.score,
            self.bet == before.bet,
            entered == GameState::Gamba ==> forall|side: Side| #[trigger]
                self.sugar_cane_height.lanes(side) == bare_lanes(),
            entered != GameState::Gamba ==> self.sugar_cane_height == before.sugar_cane_height,
        ensures
            self.table() == table_on_enter(entered, before.table()),
    {
        if entered == GameState::Gamba {
            assert(self.sugar_cane_height.lanes(Side::Left) == bare_lanes());
            assert(self.sugar_cane_height.lanes(Side::Right) == bare_lanes());
        }
    }
}

/// Every prop that a scene asks for on entry belongs to that scene.
pub proof fn lemma_enter_brings_scene(state: GameState, draws: Seq<u32>)
    ensures
        brings_only(enter_commands(state, draws), of_scene(state.scene())),
{
    let commands = enter_commands(state, draws);
    let rule = of_scene(state.scene());
    assert forall|i: int| 0 <= i < commands.len() implies match #[trigger] commands[i] {
        Command::Spawn(prop) => rule(prop),
        Command::SpawnAmogi => forall|d: Seq<u32>, k: int|
            0 <= k < 5 ==> rule(#[trigger] cake::amogi_props(d)[k]),
        _ => true,
    } by {
        match state {
            GameState::AssetLoading => {},
            GameState::Cake => {
                let head = cake::setup_commands(draws[0]);
                let amogi = cake::amogi(draws.subrange(1, 11));
                if i < head.len() {
                    assert(commands[i] == head[i]);
                } else if i < head.len() + amogi.len() {
                    assert(commands[i] == amogi[i - head.len()]);
                } else {
                    assert(commands[i] == ui::cake_widgets()[i - head.len() - amogi.len()]);
                }
            },
            GameState::Gamba => {
                let head = gamba::setup_commands(draws);
                if i < head.len() {
                    assert(commands[i] == head[i]);
                    if i >= 5 {
                        assert(head[i] == gamba::base_canes(draws)[i - 5]);
                    }
                } else {
                    assert(commands[i] == ui::gamba_widgets()[i - head.len()]);
                }
            },
        }
    }
}

/// Leaving a scene leaves nothing on the stage that carries its marker, and
/// puts nothing there.
pub proof fn lemma_exit_clears(before: Map<u64, Prop>, state: GameState, after: Map<u64, Prop>)
    requires
        performs_all(before, exit_commands(state), after),
    ensures
        all_props(after, free_of(state.scene())),
        after.submap_of(before),
{
    lemma_exit_is_without(before, state, after);
    lemma_despawn_all_clears(before, state.scene());
}

/// Leaving a scene takes from the stage what carries its marker, and nothing
/// else.
pub proof fn lemma_exit_is_without(before: Map<u64, Prop>, state: GameState, after: Map<u64, Prop>)
    requires
        performs_all(before, exit_commands(state), after),
    ensures
        after == without(before, state.scene()),
{
    let commands = exit_commands(state);
    let mid = choose|mid: Map<u64, Prop>|
        performs_all(before, commands.drop_last(), mid) && #[trigger] performs(
            mid,
            commands.last(),
            after,
        );
    assert(commands.drop_last().len() == 0);
    assert(mid == before);
}

/// No prop outlives its scene. If every prop on the stage belongs to the
/// scene that is shown, then after going to another scene every prop on the
/// stage belongs to that one.
pub proof fn lemma_switch_changes_scene(
    before: Map<u64, Prop>,
    from: GameState,
    to: GameState,
    draws: Seq<u32>,
    after: Map<u64, Prop>,
)
    requires
        from != to,
        all_props(before, of_scene(from.scene())),
        performs_all(before, switch_commands(from, to, draws), after),
    ensures
        all_props(after, of_scene(to.scene())),
{
    lemma_performs_all_concat(before, exit_commands(from), enter_commands(to, draws), after);
    let mid = choose|mid: Map<u64, Prop>| #[trigger]
        performs_all(before, exit_commands(from), mid) && performs_all(
            mid,
            enter_commands(to, draws),
            after,
        );
    lemma_exit_is_without(before, from, mid);
    assert forall|entity: u64| #[trigger] mid.dom().contains(entity) implies of_scene(to.scene())(
        mid[entity],
    ) by {
        assert(before.dom().contains(entity));
        assert(of_scene(from.scene())(before[entity]));
    }
    lemma_enter_brings_scene(to, draws);
    lemma_performs_all_keeps(mid, enter_commands(to, draws), after, of_scene(to.scene()));
}

/// Going from the cake to the betting game and back, twice in a row and with
/// no bet placed or changed in between, leaves score and bet as they were and
/// the towers at their base, and leaves on the stage no tower segment and
/// nothing else that carries the marker of the betting game, whatever was on
/// the stage before.
pub proof fn lemma_gamba_twice(
    t: Table,
    before: Map<u64, Prop>,
    first: Seq<u32>,
    second: Seq<u32>,
    third: Seq<u32>,
    fourth: Seq<u32>,
    after: Map<u64, Prop>,
)
    requires
        performs_all(
            before,
            switch_commands(GameState::Cake, GameState::Gamba, first) + switch_commands(
                GameState::Gamba,
                GameState::Cake,
                second,
            ) + switch_commands(GameState::Cake, GameState::Gamba, third) + switch_commands(
                GameState::Gamba,
                GameState::Cake,
                fourth,
            ),
            after,
        ),
    ensures
        ({
            let once = switch_table(
                GameState::Gamba,
                GameState::Cake,
                switch_table(GameState::Cake, GameState::Gamba, t),
            );
            let twice = switch_table(
                GameState::Gamba,
                GameState::Cake,
                switch_table(GameState::Cake, GameState::Gamba, once),
            );
            &&& twice.score == t.score
            &&& twice.bet == t.bet
            &&& twice.left == bare_lanes()
            &&& twice.right == bare_lanes()
        }),
        all_props(after, free_of(Marker::OnGambaScreen)),
        forall|entity: u64| #[trigger]
            after.dom().contains(entity) ==> !(after[entity] is SugarCane),
{
    let head = switch_commands(GameState::Cake, GameState::Gamba, first) + switch_commands(
        GameState::Gamba,
        GameState::Cake,
        second,
    ) + switch_commands(GameState::Cake, GameState::Gamba, third);
    let back = switch_commands(GameState::Gamba, GameState::Cake, fourth);
    lemma_performs_all_concat(before, head, back, after);
    let late = choose|late: Map<u64, Prop>| #[trigger]
        performs_all(before, head, late) && performs_all(late, back, after);
    lemma_leaving_gamba(late, fourth, after);
    assert forall|entity: u64| #[trigger] after.dom().contains(entity) implies !(after[entity]
        is SugarCane) by {
        assert(free_of(Marker::OnGambaScreen)(after[entity]));
    }
}

/// Going from the betting game to the cake leaves nothing on the stage that
/// carries the marker of the betting game, whatever was there before.
pub proof fn lemma_leaving_gamba(before: Map<u64, Prop>, draws: Seq<u32>, after: Map<u64, Prop>)
    requires
        performs_all(before, switch_commands(GameState::Gamba, GameState::Cake, draws), after),
    ensures
        all_props(after, free_of(Marker::OnGambaScreen)),
{
    let leave = exit_commands(GameState::Gamba);
    let enter = enter_commands(GameState::Cake, draws);
    lemma_performs_all_concat(before, leave, enter, after);
    let mid = choose|mid: Map<u64, Prop>| #[trigger]
        performs_all(before, leave, mid) && performs_all(mid, enter, after);
    lemma_exit_clears(before, GameState::Gamba, mid);
    lemma_enter_brings_scene(GameState::Cake, draws);
    let cake = of_scene(Marker::OnCakeScreen);
    let rule = free_of(Marker::OnGambaScreen);
    assert forall|i: int| 0 <= i < enter.len() implies match #[trigger] enter[i] {
        Command::Spawn(prop) => rule(prop),
        Command::SpawnAmogi => forall|d: Seq<u32>, k: int|
            0 <= k < 5 ==> rule(#[trigger] cake::amogi_props(d)[k]),
        _ => true,
    } by {
        match enter[i] {
            Command::Spawn(prop) => {
                assert(cake(prop));
            },
            Command::SpawnAmogi => {
                assert forall|d: Seq<u32>, k: int| 0 <= k < 5 implies rule(
                    #[trigger] cake::amogi_props(d)[k],
                ) by {
                    assert(cake(cake::amogi_props(d)[k]));
                }
            },
            _ => {},
        }
    }
    lemma_performs_all_keeps(mid, enter, after, rule);
}

} // verus!
