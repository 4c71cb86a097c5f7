//! The betting game: a score, a bet, and two towers of sugar cane that grow
//! with every bet.

use crate::clock::{elapsed, is_finished, tick, ticked};
use crate::command::{Command, Marker, Prop};
use crate::entropy::next_u32;
use crate::stage::{
    brings_only, lemma_brings_only_concat, of_scene, performs, performs_all, without,
};
use crate::text::{decimal, decimal_string};
use bevy::time::Timer;
use bevy_rand::prelude::WyRand;
use core::time::Duration;
use vstd::prelude::*;

verus! {

/// The side length of a tower segment on the screen.
pub const SUGAR_CANE_SIZE: u32 = 64;

/// The first atlas frame of the looks a tower segment can have.
pub const SUGAR_CANE_INDEX: usize = 50;

/// The number of looks a tower segment can have.
pub const SUGAR_CANE_VARIANTS: usize = 4;

/// The number of lanes on each side.
pub const SUGAR_CANE_COUNT: usize = 6;

/// The atlas frame of the sign.
pub const SIGN_INDEX: usize = 60;

/// The time the camera takes to reach a new segment, in milliseconds.
pub const CAMERA_MILLIS: u64 = 2000;

/// The time a bankruptcy banner stays, in milliseconds.
pub const BROKE_MESSAGE_MILLIS: u64 = 2500;

/// The least score that a bankrupt player is given.
pub const RELIEF_MIN: u64 = 5;

/// The number of scores that a bankrupt player can be given, from
/// `RELIEF_MIN` upwards.
pub const RELIEF_SPAN: u64 = 5;

/// The two towers of the betting game.
#[derive(Clone, Copy, Debug, PartialEq, Eq, Structural)]
pub enum Side {
    Left,
    Right,
}

/// What the player owns. It outlives the scenes.
#[derive(Clone, Copy, Debug, PartialEq, Eq, Structural)]
pub struct Score(pub u64);

/// What the player stakes on the next bet. It outlives the scenes.
#[derive(Clone, Copy, Debug, PartialEq, Eq, Structural)]
pub struct Bet(pub u64);

/// The two ways to change the bet.
#[derive(Clone, Copy, Debug, PartialEq, Eq, Structural)]
pub enum BetChange {
    Increase,
    Decrease,
}

/// The wish to change the bet.
#[derive(Clone, Copy, Debug, PartialEq, Eq, Structural)]
pub struct BetChangeMessage(pub BetChange);

/// The wish to bet on a side.
#[derive(Clone, Copy, Debug, PartialEq, Eq, Structural)]
pub struct BetMessage(pub Side);

/// The height of the towers: for each side and lane, the number of segments
/// that were stacked on the base segment.
#[derive(Clone, Debug, PartialEq, Eq)]
pub struct SugarCaneHeight {
    left: [usize; SUGAR_CANE_COUNT],
    right: [usize; SUGAR_CANE_COUNT],
}

/// The timer of a bankruptcy banner: when it has elapsed, the banner goes.
pub struct BrokeMessage(pub Timer);

/// The four numbers that one bet may draw, in the order of the draws: for
/// the side that wins, for the score after a bankruptcy, for the lane that
/// grows, and for the look of the new segment.
#[derive(Clone, Copy, Debug, PartialEq, Eq, Structural)]
pub struct BetDraws {
    pub side: u32,
    pub relief: u32,
    pub lane: u32,
    pub variant: u32,
}

/// The state of the betting game as plain numbers: score, bet, and the six
/// counters of each side.
pub struct Table {
    pub score: u64,
    pub bet: u64,
    pub left: Seq<usize>,
    pub right: Seq<usize>,
}

impl SugarCaneHeight {
    /// The six counters of one side, lane by lane.
    pub closed spec fn lanes(&self, side: Side) -> Seq<usize> {
        match side {
            Side::Left => self.left@,
            Side::Right => self.right@,
        }
    }

    /// Whether every counter can still be raised `times` times.
    pub open spec fn can_grow(&self, times: nat) -> bool {
        forall|side: Side, lane: int|
            0 <= lane < SUGAR_CANE_COUNT ==> #[trigger] self.lanes(side)[lane] + times
                <= usize::MAX
    }

    /// Each side has six lanes.
    pub proof fn lemma_lanes(&self, side: Side)
        ensures
            self.lanes(side).len() == SUGAR_CANE_COUNT,
    {
    }

    /// Two towers with nothing but their base segments.
    pub fn new() -> (heights: Self)
        ensures
            forall|side: Side| #[trigger] heights.lanes(side) == bare_lanes(),
    {
        let heights = SugarCaneHeight { left: [0, 0, 0, 0, 0, 0], right: [0, 0, 0, 0, 0, 0] };
        assert forall|side: Side| #[trigger]
            heights.lanes(side) == bare_lanes() by {
            assert(heights.lanes(side) =~= bare_lanes());
        }
        heights
    }

    /// The counter of one lane.
    pub fn height(&self, side: Side, lane: usize) -> (height: usize)
        requires
            lane < SUGAR_CANE_COUNT,
        ensures
            height == self.lanes(side)[lane as int],
    {
        match side {
            Side::Left => self.left[lane],
            Side::Right => self.right[lane],
        }
    }

    /// Raises the counter of one lane by one, and returns what it then holds.
    fn grow(&mut self, side: Side, lane: usize) -> (height: usize)
        requires
            lane < SUGAR_CANE_COUNT,
            old(self).lanes(side)[lane as int] < usize::MAX,
        ensures
            height == old(self).lanes(side)[lane as int] + 1,
            final(self).lanes(side) == old(self).lanes(side).update(lane as int, height),
            final(self).lanes(other_side(side)) == old(self).lanes(other_side(side)),
    {
        match side {
            Side::Left => {
                let height = self.left[lane] + 1;
                self.left[lane] = height;
                height
            },
            Side::Right => {
                let height = self.right[lane] + 1;
                self.right[lane] = height;
                height
            },
        }
    }
}

/// The counters of a side whose lanes have nothing but their base segments.
pub open spec fn bare_lanes() -> Seq<usize> {
    Seq::new(SUGAR_CANE_COUNT as nat, |lane: int| 0usize)
}

/// The side that `side` is not.
pub open spec fn other_side(side: Side) -> Side {
    match side {
        Side::Left => Side::Right,
        Side::Right => Side::Left,
    }
}

/// Score, bet and towers seen as one table.
pub open spec fn table(score: Score, bet: Bet, heights: SugarCaneHeight) -> Table {
    Table {
        score: score.0,
        bet: bet.0,
        left: heights.lanes(Side::Left),
        right: heights.lanes(Side::Right),
    }
}

impl Table {
    /// The counters of one side.
    pub open spec fn lanes(self, side: Side) -> Seq<usize> {
        match side {
            Side::Left => self.left,
            Side::Right => self.right,
        }
    }

    /// A table as the game keeps it: the bet is at least one and at most the
    /// score, and each side has its six lanes.
    pub open spec fn valid(self) -> bool {
        &&& 1 <= self.bet <= self.score
        &&& self.left.len() == SUGAR_CANE_COUNT
        &&& self.right.len() == SUGAR_CANE_COUNT
    }

    /// Whether `bets` more bets can be settled within the range of the
    /// counters, whatever is drawn: the score can take that many wins, also
    /// after a bankruptcy, and each lane that many segments.
    pub open spec fn room(self, bets: nat) -> bool {
        &&& self.score + bets * self.bet <= u64::MAX
        &&& RELIEF_MIN + RELIEF_SPAN - 1 + bets * self.bet <= u64::MAX
        &&& forall|side: Side, lane: int|
            0 <= lane < SUGAR_CANE_COUNT ==> #[trigger] self.lanes(side)[lane] + bets
                <= usize::MAX
    }
}

/// The bet after one wish to change it: one more if that is within the score,
/// one less if that is at least one, and else as it was.
pub open spec fn bet_after(change: BetChange, bet: u64, score: u64) -> u64 {
    match change {
        BetChange::Increase => if bet < score {
            (bet + 1) as u64
        } else {
            bet
        },
        BetChange::Decrease => if bet > 1 {
            (bet - 1) as u64
        } else {
            bet
        },
    }
}

/// The bet after a queue of wishes to change it, first come first served.
pub open spec fn bet_after_all(messages: Seq<BetChangeMessage>, bet: u64, score: u64) -> u64
    decreases messages.len(),
{
    if messages.len() == 0 {
        bet
    } else {
        bet_after(messages.last().0, bet_after_all(messages.drop_last(), bet, score), score)
    }
}

/// Carries out one wish to change the bet. A wish that would take the bet
/// out of its bounds is ignored, so a bet within its bounds stays there.
pub fn change_bet(change: BetChange, bet: &mut Bet, score: &Score)
    ensures
        final(bet).0 == bet_after(change, old(bet).0, score.0),
        1 <= old(bet).0 <= score.0 ==> 1 <= final(bet).0 <= score.0,
{
    match change {
        BetChange::Increase => {
            if bet.0 < score.0 {
                bet.0 += 1;
            }
        },
        BetChange::Decrease => {
            if bet.0 > 1 {
                bet.0 -= 1;
            }
        },
    }
}

/// Carries out the queued wishes to change the bet, in their order. A bet
/// within its bounds stays there.
pub fn handle_bet_change_messages(messages: &Vec<BetChangeMessage>, bet: &mut Bet, score: &Score)
    ensures
        final(bet).0 == bet_after_all(messages@, old(bet).0, score.0),
        1 <= old(bet).0 <= score.0 ==> 1 <= final(bet).0 <= score.0,
{
    for i in 0..messages.len()
        invariant
            bet.0 == bet_after_all(messages@.take(i as int), old(bet).0, score.0),
            1 <= old(bet).0 <= score.0 ==> 1 <= bet.0 <= score.0,
    {
        assert(messages@.take(i + 1).drop_last() == messages@.take(i as int));
        change_bet(messages[i].0, bet, score);
    }
    assert(messages@.take(messages.len() as int) == messages@);
}

/// The side that wins when `draw` was drawn: left on an even number.
pub open spec fn winning_side(draw: u32) -> Side {
    if draw % 2 == 0 {
        Side::Left
    } else {
        Side::Right
    }
}

/// The score that a bankrupt player is given when `draw` was drawn: five to
/// nine.
pub open spec fn relief(draw: u32) -> u64 {
    (draw as int % RELIEF_SPAN as int + RELIEF_MIN) as u64
}

/// The lane that grows when `draw` was drawn.
pub open spec fn growing_lane(draw: u32) -> int {
    draw as int % SUGAR_CANE_COUNT as int
}

/// The segment at `height` in lane `index` of `side` whose look was drawn as
/// `draw`.
pub open spec fn sugar_cane_prop(draw: u32, index: usize, height: usize, side: Side) -> Prop {
    Prop::SugarCane {
        side,
        lane: index,
        height,
        index: (SUGAR_CANE_INDEX + draw as int % SUGAR_CANE_VARIANTS as int) as usize,
    }
}

/// Whether a bet on `player` is lost when `draw` was drawn for the side.
pub open spec fn lost(player: Side, draw: u32) -> bool {
    player != winning_side(draw)
}

/// Whether a bet on `player` leaves the player with nothing.
pub open spec fn ruined(t: Table, player: Side, draw: u32) -> bool {
    lost(player, draw) && t.score - t.bet == 0
}

/// The score after a bet on `player`: the bet is won or lost, and a player
/// left with nothing is given a new score.
pub open spec fn score_after(t: Table, player: Side, draws: BetDraws) -> u64 {
    if !lost(player, draws.side) {
        (t.score + t.bet) as u64
    } else if t.score - t.bet == 0 {
        relief(draws.relief)
    } else {
        (t.score - t.bet) as u64
    }
}

/// The table after a bet on `player`. A lost bet is cut down to the new
/// score. The lane that was drawn grows by one segment on the side that won,
/// whatever side the player chose.
pub open spec fn settle(t: Table, player: Side, draws: BetDraws) -> Table {
    let score = score_after(t, player, draws);
    let side = winning_side(draws.side);
    let lane = growing_lane(draws.lane);
    let height = (t.lanes(side)[lane] + 1) as usize;
    Table {
        score,
        bet: if lost(player, draws.side) && score < t.bet {
            score
        } else {
            t.bet
        },
        left: if side == Side::Left {
            t.left.update(lane, height)
        } else {
            t.left
        },
        right: if side == Side::Right {
            t.right.update(lane, height)
        } else {
            t.right
        },
    }
}

/// The requests of a bankruptcy that leaves the player with `score`: any
/// banner that is still up goes, and a new one comes.
pub open spec fn bankruptcy_commands(score: u64) -> Seq<Command> {
    seq![Command::DespawnAll(Marker::BrokeMessage), Command::Spawn(Prop::BrokeMessage { score })]
}

/// The requests of a bet on `player`: the banner, if the player is ruined;
/// then the camera sets out for the top of the lane that grew, and the new
/// segment comes.
pub open spec fn settle_commands(t: Table, player: Side, draws: BetDraws) -> Seq<Command> {
    let side = winning_side(draws.side);
    let lane = growing_lane(draws.lane);
    let height = (t.lanes(side)[lane] + 1) as usize;
    (if ruined(t, player, draws.side) {
        bankruptcy_commands(relief(draws.relief))
    } else {
        seq![]
    }) + seq![
        Command::MoveCamera { height, millis: CAMERA_MILLIS },
        Command::Spawn(sugar_cane_prop(draws.variant, lane as usize, height, side)),
    ]
}

/// The table after a queue of bets, the first with the first draws.
pub open spec fn settle_all(t: Table, messages: Seq<BetMessage>, draws: Seq<BetDraws>) -> Table
    decreases messages.len(),
{
    if messages.len() == 0 {
        t
    } else {
        settle(
            settle_all(t, messages.drop_last(), draws.drop_last()),
            messages.last().0,
            draws.last(),
        )
    }
}

/// The requests of a queue of bets, the first with the first draws.
pub open spec fn settle_all_commands(
    t: Table,
    messages: Seq<BetMessage>,
    draws: Seq<BetDraws>,
) -> Seq<Command>
    decreases messages.len(),
{
    if messages.len() == 0 {
        seq![]
    } else {
        settle_all_commands(t, messages.drop_last(), draws.drop_last()) + settle_commands(
            settle_all(t, messages.drop_last(), draws.drop_last()),
            messages.last().0,
            draws.last(),
        )
    }
}

/// How far above the ground the camera looks at the top of a lane with
/// `height` segments: so many segment lengths.
pub open spec fn camera_target(height: usize) -> int {
    height * SUGAR_CANE_SIZE
}

/// Where the segment at `height` in lane `index` of `side` stands, seen from
/// the sign: the lanes are one segment length apart, the first one a segment
/// length from the sign, the left ones to the left; and a segment stands as
/// many segment lengths above the ground as there are segments below it.
pub open spec fn sugar_cane_place(side: Side, index: usize, height: usize) -> (int, int) {
    (
        match side {
            Side::Left => -(index + 1) * SUGAR_CANE_SIZE,
            Side::Right => (index + 1) * SUGAR_CANE_SIZE,
        },
        height * SUGAR_CANE_SIZE,
    )
}

/// How far above the ground the camera looks at the top of a lane with
/// `height` segments.
pub fn pan_target(height: usize) -> (target: u128)
    ensures
        target == camera_target(height),
{
    height as u128 * SUGAR_CANE_SIZE as u128
}

/// Where the segment at `height` in lane `index` of `side` stands, seen from
/// the sign.
pub fn sugar_cane_position(side: Side, index: usize, height: usize) -> (place: (i128, i128))
    ensures
        (place.0 as int, place.1 as int) == sugar_cane_place(side, index, height),
{
    let across = (index as i128 + 1) * SUGAR_CANE_SIZE as i128;
    let up = height as i128 * SUGAR_CANE_SIZE as i128;
    match side {
        Side::Left => (-across, up),
        Side::Right => (across, up),
    }
}

/// The side that wins when `draw` was drawn.
pub fn pick_winner(draw: u32) -> (side: Side)
    ensures
        side == winning_side(draw),
{
    if draw % 2 == 0 {
        Side::Left
    } else {
        Side::Right
    }
}

/// The segment at `height` in lane `index` of `side` whose look was drawn as
/// `draw`.
pub fn sugar_cane(draw: u32, index: usize, height: usize, side: Side) -> (prop: Prop)
    ensures
        prop == sugar_cane_prop(draw, index, height, side),
{
    let variant = draw as usize % SUGAR_CANE_VARIANTS;
    Prop::SugarCane { side, lane: index, height, index: SUGAR_CANE_INDEX + variant }
}

/// Asks for the segment at `height` in lane `index` of `side`. One number is
/// drawn, for its look.
pub fn spawn_sugar_cane(rng: &mut WyRand, index: usize, height: usize, side: Side) -> (command:
    Command)
    ensures
        exists|draw: u32|
            command == Command::Spawn(#[trigger] sugar_cane_prop(draw, index, height, side)),
{
    let draw = next_u32(rng);
    Command::Spawn(sugar_cane(draw, index, height, side))
}

/// The bankruptcy of a player when `draw` was drawn: the score becomes
/// `relief(draw)`, which is five to nine, and the banner is asked for.
pub fn bankruptcy(draw: u32, score: &mut Score) -> (commands: Vec<Command>)
    ensures
        final(score).0 == relief(draw),
        RELIEF_MIN <= final(score).0 < RELIEF_MIN + RELIEF_SPAN,
        commands@ == bankruptcy_commands(relief(draw)),
{
    score.0 = draw as u64 % RELIEF_SPAN + RELIEF_MIN;
    let mut commands: Vec<Command> = Vec::new();
    commands.push(Command::DespawnAll(Marker::BrokeMessage));
    commands.push(Command::Spawn(Prop::BrokeMessage { score: score.0 }));
    assert(commands@ =~= bankruptcy_commands(relief(draw)));
    commands
}

/// What the bankruptcy banner says to a player who was given `score`.
pub open spec fn broke_message(score: u64) -> Seq<char> {
    "Damn, you're broke! Here, have $"@ + decimal(score as nat)
}

/// What the bankruptcy banner says to a player who was given `score`.
pub fn broke_message_text(score: u64) -> (text: String)
    ensures
        text@ == broke_message(score),
{
    let mut text = String::from_str("Damn, you're broke! Here, have $");
    let amount = decimal_string(score);
    text.append(amount.as_str());
    text
}

/// Declares the player bankrupt. One number is drawn, for the new score,
/// which is five to nine.
pub fn declare_bankruptcy(rng: &mut WyRand, score: &mut Score) -> (commands: Vec<Command>)
    ensures
        RELIEF_MIN <= final(score).0 < RELIEF_MIN + RELIEF_SPAN,
        commands@ == bankruptcy_commands(final(score).0),
        exists|draw: u32| final(score).0 == #[trigger] relief(draw),
{
    let draw = next_u32(rng);
    bankruptcy(draw, score)
}

/// Settles a bet on `player` with the numbers in `draws`.
///
/// A won bet is added to the score. A lost bet is taken from it; a player
/// left with nothing is declared bankrupt, and the bet is cut down to the
/// new score. Then one lane of the side that won grows by a segment, and the
/// camera sets out for its top.
pub fn settle_bet(
    player: Side,
    draws: BetDraws,
    bet: &mut Bet,
    score: &mut Score,
    heights: &mut SugarCaneHeight,
) -> (commands: Vec<Command>)
    requires
        1 <= old(bet).0 <= old(score).0,
        !lost(player, draws.side) ==> old(score).0 + old(bet).0 <= u64::MAX,
        old(heights).lanes(winning_side(draws.side))[growing_lane(draws.lane)] < usize::MAX,
    ensures
        table(*final(score), *final(bet), *final(heights)) == settle(
            table(*old(score), *old(bet), *old(heights)),
            player,
            draws,
        ),
        commands@ == settle_commands(
            table(*old(score), *old(bet), *old(heights)),
            player,
            draws,
        ),
        1 <= final(bet).0 <= final(score).0,
{
    let ghost before = table(*score, *bet, *heights);
    let choice = pick_winner(draws.side);
    let mut commands: Vec<Command> = Vec::new();
    if player == choice {
        score.0 += bet.0;
    } else {
        score.0 -= bet.0;
        if score.0 == 0 {
            commands = bankruptcy(draws.relief, score);
        }
        if score.0 < bet.0 {
            bet.0 = score.0;
        }
    }
    let index = draws.lane as usize % SUGAR_CANE_COUNT;
    let height = heights.grow(choice, index);
    commands.push(Command::MoveCamera { height, millis: CAMERA_MILLIS });
    commands.push(Command::Spawn(sugar_cane(draws.variant, index, height, choice)));
    proof {
        assert(commands@ =~= settle_commands(before, player, draws));
        let after = table(*score, *bet, *heights);
        let want = settle(before, player, draws);
        assert(after.left =~= want.left);
        assert(after.right =~= want.right);
    }
    commands
}

/// Settles one bet. Up to four numbers are drawn, in this order: for the
/// side that wins, for the new score if the player is ruined, for the lane
/// that grows, and for the look of the new segment.
pub fn handle_bet_message(
    rng: &mut WyRand,
    message: &BetMessage,
    bet: &mut Bet,
    score: &mut Score,
    heights: &mut SugarCaneHeight,
) -> (commands: Vec<Command>)
    requires
        1 <= old(bet).0 <= old(score).0,
        old(score).0 + old(bet).0 <= u64::MAX,
        old(heights).can_grow(1),
    ensures
        exists|draws: BetDraws|
            {
                &&& table(*final(score), *final(bet), *final(heights)) == #[trigger] settle(
                    table(*old(score), *old(bet), *old(heights)),
                    message.0,
                    draws,
                )
                &&& commands@ == settle_commands(
                    table(*old(score), *old(bet), *old(heights)),
                    message.0,
                    draws,
                )
            },
        1 <= final(bet).0 <= final(score).0,
{
    let side = next_u32(rng);
    let relief = if message.0 != pick_winner(side) && score.0 == bet.0 {
        next_u32(rng)
    } else {
        0
    };
    let lane = next_u32(rng);
    let variant = next_u32(rng);
    settle_bet(message.0, BetDraws { side, relief, lane, variant }, bet, score, heights)
}

/// Settles the queued bets, in their order.
pub fn handle_bet_messages(
    rng: &mut WyRand,
    messages: &Vec<BetMessage>,
    bet: &mut Bet,
    score: &mut Score,
    heights: &mut SugarCaneHeight,
) -> (commands: Vec<Command>)
    requires
        1 <= old(bet).0 <= old(score).0,
        table(*old(score), *old(bet), *old(heights)).room(messages.len() as nat),
    ensures
        exists|draws: Seq<BetDraws>|
            {
                &&& draws.len() == messages.len()
                &&& table(*final(score), *final(bet), *final(heights)) == #[trigger] settle_all(
                    table(*old(score), *old(bet), *old(heights)),
                    messages@,
                    draws,
                )
                &&& commands@ == settle_all_commands(
                    table(*old(score), *old(bet), *old(heights)),
                    messages@,
                    draws,
                )
            },
        1 <= final(bet).0 <= final(score).0,
{
    let ghost start = table(*score, *bet, *heights);
    let ghost mut drawn: Seq<BetDraws> = Seq::empty();
    let mut commands: Vec<Command> = Vec::new();
    for i in 0..messages.len()
        invariant
            drawn.len() == i,
            table(*score, *bet, *heights) == settle_all(start, messages@.take(i as int), drawn),
            commands@ == settle_all_commands(start, messages@.take(i as int), drawn),
            table(*score, *bet, *heights).valid(),
            table(*score, *bet, *heights).room((messages.len() - i) as nat),
    {
        let ghost now = table(*score, *bet, *heights);
        let ghost left = (messages.len() - i) as nat;
        proof {
            lemma_room_for_one(now, left);
            assert forall|side: Side, lane: int| 0 <= lane < SUGAR_CANE_COUNT implies #[trigger]
                heights.lanes(side)[lane] + 1 <= usize::MAX by {
                assert(now.lanes(side)[lane] + 1 <= usize::MAX);
            }
        }
        let mut more = handle_bet_message(rng, &messages[i], bet, score, heights);
        proof {
            let draws = choose|draws: BetDraws|
                {
                    &&& table(*score, *bet, *heights) == #[trigger] settle(
                        now,
                        messages[i as int].0,
                        draws,
                    )
                    &&& more@ == settle_commands(now, messages[i as int].0, draws)
                };
            lemma_settle_keeps_room(now, messages[i as int].0, draws, left);
            assert(messages@.take(i + 1).drop_last() == messages@.take(i as int));
            assert(drawn.push(draws).drop_last() == drawn);
            drawn = drawn.push(draws);
        }
        commands.append(&mut more);
    }
    assert(messages@.take(messages.len() as int) == messages@);
    commands
}

/// A click on a tower segment. `side` is the side of the clicked segment, or
/// `None` if the entity is gone or is no segment: such a click is ignored.
/// A click on a segment is the wish to bet on its side.
pub fn pick_side(side: Option<Side>) -> (message: Option<BetMessage>)
    ensures
        message == match side {
            Some(s) => Some(BetMessage(s)),
            None => None,
        },
{
    match side {
        Some(s) => Some(BetMessage(s)),
        None => None,
    }
}

/// The requests that destroy the banners whose time is up. Each banner is
/// given by its entity and by whether its timer has elapsed.
pub open spec fn expired(banners: Seq<(u64, bool)>) -> Seq<Command>
    decreases banners.len(),
{
    if banners.len() == 0 {
        seq![]
    } else {
        expired(banners.drop_last()) + (if banners.last().1 {
            seq![Command::Despawn(banners.last().0)]
        } else {
            seq![]
        })
    }
}

/// Asks for the bankruptcy banners whose time is up to be destroyed. Each
/// banner is given by its entity and by whether its timer has elapsed.
pub fn despawn_expired(banners: &Vec<(u64, bool)>) -> (commands: Vec<Command>)
    ensures
        commands@ == expired(banners@),
{
    let mut commands: Vec<Command> = Vec::new();
    for i in 0..banners.len()
        invariant
            commands@ == expired(banners@.take(i as int)),
    {
        assert(banners@.take(i + 1).drop_last() == banners@.take(i as int));
        if banners[i].1 {
            commands.push(Command::Despawn(banners[i].0));
        }
    }
    assert(banners@.take(banners.len() as int) == banners@);
    commands
}

/// The banners after `delta` has passed on the timer of each: every banner
/// with its entity and with whether its timer has then elapsed.
pub open spec fn ticked_banners(banners: Seq<(u64, &mut BrokeMessage)>, delta: Duration) -> Seq<
    (u64, bool),
> {
    Seq::new(banners.len(), |i: int| (banners[i].0, elapsed(ticked(banners[i].1.0, delta))))
}

/// One tick of the bankruptcy banners, each given by its entity and its
/// timer: `delta` passes on every timer, and the banners whose timer has
/// then elapsed are to be destroyed, in the order in which they were given.
/// Nothing but banners is destroyed, and no banner twice for being given
/// once.
pub fn despawn_bankruptcy_messages(
    banners: &mut Vec<(u64, &mut BrokeMessage)>,
    delta: Duration,
) -> (commands: Vec<Command>)
    ensures
        commands@ == expired(ticked_banners(old(banners)@, delta)),
        final(banners).len() == old(banners).len(),
        forall|i: int|
            0 <= i < old(banners).len() ==> {
                &&& (#[trigger] final(banners)@[i]).0 == old(banners)@[i].0
                &&& final(banners)@[i].1.0 == ticked(old(banners)@[i].1.0, delta)
                &&& *final(final(banners)@[i].1) == *final(old(banners)@[i].1)
            },
        commands.len() <= old(banners).len(),
        forall|k: int|
            0 <= k < commands.len() ==> exists|i: int|
                0 <= i < old(banners).len() && #[trigger] commands@[k] == Command::Despawn(
                    #[trigger] old(banners)@[i].0,
                ),
{
    let mut flags: Vec<(u64, bool)> = Vec::new();
    let count = banners.len();
    for i in 0..count
        invariant
            banners.len() == count,
            old(banners).len() == count,
            flags.len() == i,
            forall|j: int| 0 <= j < count ==> banners@[j].0 == old(banners)@[j].0,
            forall|j: int|
                0 <= j < count ==> *final(banners@[j].1) == *final(old(banners)@[j].1),
            forall|j: int| i <= j < count ==> banners@[j].1.0 == old(banners)@[j].1.0,
            forall|j: int|
                0 <= j < i ==> banners@[j].1.0 == ticked(old(banners)@[j].1.0, delta),
            forall|j: int|
                0 <= j < i ==> #[trigger] flags@[j] == ticked_banners(old(banners)@, delta)[j],
    {
        let banner = &mut banners[i];
        let entity = banner.0;
        tick(&mut banner.1.0, delta);
        let finished = is_finished(&banner.1.0);
        flags.push((entity, finished));
    }
    let commands = despawn_expired(&flags);
    proof {
        assert(flags@ =~= ticked_banners(old(banners)@, delta));
        lemma_expired(flags@);
        assert forall|k: int| 0 <= k < commands.len() implies exists|i: int|
            0 <= i < old(banners).len() && #[trigger] commands@[k] == Command::Despawn(
                #[trigger] old(banners)@[i].0,
            ) by {
            let i = choose|i: int|
                0 <= i < flags.len() && flags@[i].1 && commands@[k] == Command::Despawn(
                    #[trigger] flags@[i].0,
                );
            assert(flags@[i].0 == old(banners)@[i].0);
        }
    }
    commands
}

/// Only banners whose time is up are destroyed, each of them once for each
/// time it is given.
pub proof fn lemma_expired(banners: Seq<(u64, bool)>)
    ensures
        expired(banners).len() <= banners.len(),
        forall|k: int|
            0 <= k < expired(banners).len() ==> exists|i: int|
                0 <= i < banners.len() && banners[i].1 && #[trigger] expired(banners)[k]
                    == Command::Despawn(#[trigger] banners[i].0),
        forall|i: int|
            0 <= i < banners.len() && (#[trigger] banners[i]).1 ==> expired(banners).contains(
                Command::Despawn(banners[i].0),
            ),
    decreases banners.len(),
{
    if banners.len() > 0 {
        let head = banners.drop_last();
        let last = banners.last();
        let all = expired(banners);
        lemma_expired(head);
        assert forall|k: int| 0 <= k < all.len() implies exists|i: int|
            0 <= i < banners.len() && banners[i].1 && #[trigger] all[k] == Command::Despawn(
                #[trigger] banners[i].0,
            ) by {
            if k < expired(head).len() {
                let i = choose|i: int|
                    0 <= i < head.len() && head[i].1 && expired(head)[k] == Command::Despawn(
                        #[trigger] head[i].0,
                    );
                assert(banners[i] == head[i]);
                assert(all[k] == expired(head)[k]);
            } else {
                assert(all[k] == Command::Despawn(banners[banners.len() - 1].0));
            }
        }
        assert forall|i: int|
            0 <= i < banners.len() && (#[trigger] banners[i]).1 implies all.contains(
            Command::Despawn(banners[i].0),
        ) by {
            if i < head.len() {
                assert(head[i] == banners[i]);
                let k = choose|k: int|
                    0 <= k < expired(head).len() && expired(head)[k] == Command::Despawn(
                        head[i].0,
                    );
                assert(all[k] == Command::Despawn(banners[i].0));
            } else {
                assert(all[all.len() - 1] == Command::Despawn(last.0));
            }
        }
    }
}

/// The twelve base segments from twelve draws: lane by lane, the left one
/// before the right one.
pub open spec fn base_canes(draws: Seq<u32>) -> Seq<Command> {
    Seq::new(
        2 * SUGAR_CANE_COUNT as nat,
        |i: int|
            Command::Spawn(
                sugar_cane_prop(
                    draws[i],
                    (i / 2) as usize,
                    0,
                    if i % 2 == 0 {
                        Side::Left
                    } else {
                        Side::Right
                    },
                ),
            ),
    )
}

/// The requests of a scene entry whose draws were `draws`: background, camera
/// and light are reset, then come the ground, the sign and the twelve base
/// segments.
pub open spec fn setup_commands(draws: Seq<u32>) -> Seq<Command> {
    seq![
        Command::ClearColor { r: 63, g: 127, b: 255 },
        Command::MoveCamera { height: 0, millis: 0 },
        Command::AmbientLight { percent: 100 },
        Command::Spawn(Prop::Ground),
        Command::Spawn(Prop::Sign),
    ] + base_canes(draws)
}

/// Sets the betting game up: the towers are back to their base segments,
/// whose looks are drawn, twelve numbers in all.
pub fn setup(rng: &mut WyRand) -> (scene: (SugarCaneHeight, Vec<Command>))
    ensures
        forall|side: Side| #[trigger] scene.0.lanes(side) == bare_lanes(),
        exists|draws: Seq<u32>|
            draws.len() == 2 * SUGAR_CANE_COUNT && scene.1@ == #[trigger] setup_commands(draws),
{
    let mut commands: Vec<Command> = Vec::new();
    commands.push(Command::ClearColor { r: 63, g: 127, b: 255 });
    commands.push(Command::MoveCamera { height: 0, millis: 0 });
    commands.push(Command::AmbientLight { percent: 100 });
    let heights = SugarCaneHeight::new();
    commands.push(Command::Spawn(Prop::Ground));
    commands.push(Command::Spawn(Prop::Sign));
    let ghost head = commands@;
    let ghost mut drawn: Seq<u32> = Seq::empty();
    for i in 0..SUGAR_CANE_COUNT
        invariant
            drawn.len() == 2 * i,
            commands@ == head + base_canes(drawn).take(2 * i),
            head.len() == 5,
    {
        let left = spawn_sugar_cane(rng, i, 0, Side::Left);
        let right = spawn_sugar_cane(rng, i, 0, Side::Right);
        proof {
            let l = choose|d: u32|
                left == Command::Spawn(#[trigger] sugar_cane_prop(d, i, 0, Side::Left));
            let r = choose|d: u32|
                right == Command::Spawn(#[trigger] sugar_cane_prop(d, i, 0, Side::Right));
            let next = drawn.push(l).push(r);
            assert(commands@.push(left).push(right) =~= head + base_canes(next).take(2 * i + 2));
            drawn = next;
        }
        commands.push(left);
        commands.push(right);
    }
    proof {
        assert(base_canes(drawn).take(12) =~= base_canes(drawn));
        assert(commands@ == setup_commands(drawn));
    }
    (heights, commands)
}

/// Room for some bets is room for one: the next bet can be settled.
pub proof fn lemma_room_for_one(t: Table, bets: nat)
    requires
        t.valid(),
        t.room(bets),
        bets >= 1,
    ensures
        t.score + t.bet <= u64::MAX,
        forall|side: Side, lane: int|
            0 <= lane < SUGAR_CANE_COUNT ==> #[trigger] t.lanes(side)[lane] + 1 <= usize::MAX,
{
    assert(bets * t.bet >= t.bet) by (nonlinear_arith)
        requires
            bets >= 1,
            t.bet >= 0,
    ;
    assert forall|side: Side, lane: int| 0 <= lane < SUGAR_CANE_COUNT implies #[trigger] t.lanes(
        side,
    )[lane] + 1 <= usize::MAX by {
        assert(t.lanes(side)[lane] + bets <= usize::MAX);
    }
}

/// A settled bet leaves a table as the game keeps it, with room for one bet
/// less than before.
pub proof fn lemma_settle_keeps_room(t: Table, player: Side, draws: BetDraws, bets: nat)
    requires
        t.valid(),
        t.room(bets),
        bets >= 1,
    ensures
        settle(t, player, draws).valid(),
        settle(t, player, draws).room((bets - 1) as nat),
{
    let after = settle(t, player, draws);
    let rest = (bets - 1) as nat;
    lemma_room_for_one(t, bets);
    assert(bets * t.bet == rest * t.bet + t.bet) by (nonlinear_arith)
        requires
            rest == bets - 1,
    ;
    assert(rest * after.bet <= rest * t.bet) by (nonlinear_arith)
        requires
            after.bet <= t.bet,
            rest >= 0,
    ;
    let side = winning_side(draws.side);
    let lane = growing_lane(draws.lane);
    assert forall|s: Side, l: int| 0 <= l < SUGAR_CANE_COUNT implies #[trigger] after.lanes(s)[l]
        + rest <= usize::MAX by {
        assert(t.lanes(s)[l] + bets <= usize::MAX);
        assert(t.lanes(side)[lane] + bets <= usize::MAX);
    }
}

/// The score after a bet. If the player's side is the side that was drawn,
/// the score grows by the bet and the bet stays. Otherwise the score shrinks
/// by the bet; a score that would be nothing is replaced by one from five to
/// nine; and the bet becomes the smaller of the bet and the new score.
/// Either way the bet stays at least one and at most the score.
pub proof fn lemma_settle_score(t: Table, player: Side, draws: BetDraws)
    requires
        t.valid(),
    ensures
        ({
            let after = settle(t, player, draws);
            &&& player == winning_side(draws.side) ==> after.score == (t.score + t.bet) as u64
                && after.bet == t.bet
            &&& player != winning_side(draws.side) && t.score - t.bet != 0 ==> after.score
                == t.score - t.bet
            &&& player != winning_side(draws.side) && t.score - t.bet == 0 ==> RELIEF_MIN
                <= after.score < RELIEF_MIN + RELIEF_SPAN
            &&& player != winning_side(draws.side) ==> after.bet == if t.bet <= after.score {
                t.bet
            } else {
                after.score
            }
            &&& t.score + t.bet <= u64::MAX ==> 1 <= after.bet <= after.score
        }),
{
}

/// The towers after a bet. The lane that was drawn, on the side that was
/// drawn, is one segment higher, whatever side the player chose. The other
/// eleven counters are as they were.
pub proof fn lemma_settle_towers(t: Table, player: Side, draws: BetDraws)
    requires
        t.valid(),
        t.lanes(winning_side(draws.side))[growing_lane(draws.lane)] < usize::MAX,
    ensures
        ({
            let after = settle(t, player, draws);
            let side = winning_side(draws.side);
            let lane = growing_lane(draws.lane);
            &&& 0 <= lane < SUGAR_CANE_COUNT
            &&& after.lanes(side).len() == SUGAR_CANE_COUNT
            &&& after.lanes(other_side(side)) == t.lanes(other_side(side))
            &&& after.lanes(side)[lane] == t.lanes(side)[lane] + 1
            &&& forall|l: int|
                0 <= l < SUGAR_CANE_COUNT && l != lane ==> after.lanes(side)[l] == t.lanes(side)[l]
        }),
{
}

/// A queue of bets never raises the bet, whatever is drawn: a bet that is
/// won leaves it as it is, and one that is lost can only cut it down.
pub proof fn lemma_settle_all_bet(t: Table, messages: Seq<BetMessage>, draws: Seq<BetDraws>)
    ensures
        settle_all(t, messages, draws).bet <= t.bet,
    decreases messages.len(),
{
    if messages.len() > 0 {
        lemma_settle_all_bet(t, messages.drop_last(), draws.drop_last());
    }
}

/// Whatever a bet brings to the stage belongs to the betting game.
pub proof fn lemma_settle_brings_gamba(t: Table, player: Side, draws: BetDraws)
    ensures
        brings_only(settle_commands(t, player, draws), of_scene(Marker::OnGambaScreen)),
{
}

/// Whatever a queue of bets brings to the stage belongs to the betting game.
pub proof fn lemma_settle_all_brings_gamba(
    t: Table,
    messages: Seq<BetMessage>,
    draws: Seq<BetDraws>,
)
    ensures
        brings_only(settle_all_commands(t, messages, draws), of_scene(Marker::OnGambaScreen)),
    decreases messages.len(),
{
    if messages.len() > 0 {
        lemma_settle_all_brings_gamba(t, messages.drop_last(), draws.drop_last());
        lemma_settle_brings_gamba(
            settle_all(t, messages.drop_last(), draws.drop_last()),
            messages.last().0,
            draws.last(),
        );
        lemma_brings_only_concat(
            settle_all_commands(t, messages.drop_last(), draws.drop_last()),
            settle_commands(
                settle_all(t, messages.drop_last(), draws.drop_last()),
                messages.last().0,
                draws.last(),
            ),
            of_scene(Marker::OnGambaScreen),
        );
    }
}

/// After a bankruptcy there is one banner on the stage, the new one, however
/// many there were before.
pub proof fn lemma_one_banner(before: Map<u64, Prop>, score: u64, after: Map<u64, Prop>)
    requires
        performs_all(before, bankruptcy_commands(score), after),
    ensures
        exists|banner: u64|
            {
                &&& #[trigger] after.dom().contains(banner)
                &&& after[banner] == (Prop::BrokeMessage { score })
                &&& forall|entity: u64|
                    after.dom().contains(entity) && #[trigger] after[entity] is BrokeMessage
                        ==> entity == banner
            },
{
    let commands = bankruptcy_commands(score);
    let cleared = choose|mid: Map<u64, Prop>|
        performs_all(before, commands.drop_last(), mid) && #[trigger] performs(
            mid,
            commands.last(),
            after,
        );
    let head = commands.drop_last();
    let start = choose|mid: Map<u64, Prop>|
        performs_all(before, head.drop_last(), mid) && #[trigger] performs(
            mid,
            head.last(),
            cleared,
        );
    assert(head.drop_last().len() == 0);
    assert(cleared == without(before, Marker::BrokeMessage));
    let banner = choose|entity: u64|
        !cleared.dom().contains(entity) && after == #[trigger] cleared.insert(
            entity,
            Prop::BrokeMessage { score },
        );
    assert(after.dom().contains(banner));
    assert forall|entity: u64|
        after.dom().contains(entity) && #[trigger] after[entity] is BrokeMessage implies entity
        == banner by {
        if entity != banner {
            assert(cleared.dom().contains(entity));
            assert(!before[entity].carries(Marker::BrokeMessage));
        }
    }
}

} // verus!
