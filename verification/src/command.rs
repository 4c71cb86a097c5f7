//! What the rules ask of the host: the requests a handler returns, the props
//! a request can put on the stage, and the markers by which props are removed
//! together.

use crate::cake::AmogusKind;
use crate::gamba::Side;
use vstd::prelude::*;

verus! {

/// A tag that a prop carries, and by which all its carriers can be destroyed
/// at once.
#[derive(Clone, Copy, Debug, PartialEq, Eq, Structural)]
pub enum Marker {
    OnAssetLoadingScreen,
    OnCakeScreen,
    OnGambaScreen,
    Amogus1,
    Amogus2,
    Amogus3,
    Amogus4,
    Amogus5,
    BrokeMessage,
}

/// The two audio cues.
#[derive(Clone, Copy, Debug, PartialEq, Eq, Structural)]
pub enum Sound {
    Eating,
    PickleMew,
}

/// A root of the interface: the host lays it out and draws it.
#[derive(Clone, Copy, Debug, PartialEq, Eq, Structural)]
pub enum Widget {
    /// The notice shown while the assets load.
    LoadingNotice,
    /// The greeting above the cake.
    Greeting,
    /// The small button that leads from the cake to the betting game.
    GambaButton,
    /// The line that shows the score.
    ScorePanel,
    /// The bet, between the buttons that lower and raise it.
    BetPanel,
    /// The two buttons that bet on a side.
    SidePanel,
    /// The button that leads back to the cake.
    CakeButton,
}

/// Something the host is asked to put on the stage.
#[derive(Clone, Copy, Debug, PartialEq, Eq, Structural)]
pub enum Prop {
    /// The bonus creature of the cake scene; clicking it removes it.
    PickleMew,
    /// The plate under the cake.
    Plate,
    /// The cake, showing its first frame.
    Cake,
    /// A creature with its burning candle, showing frame `index` of the
    /// atlas at `(x, y)`, mirrored if `flip_x`.
    Amogus { kind: AmogusKind, index: usize, flip_x: bool, x: i32, y: i32 },
    /// The ground of the betting game.
    Ground,
    /// The sign between the two towers.
    Sign,
    /// One segment of a tower: `height` segments above the ground in lane
    /// `lane` of `side`, showing frame `index` of the atlas.
    SugarCane { side: Side, lane: usize, height: usize, index: usize },
    /// The banner that announces a bankruptcy and the new score.
    BrokeMessage { score: u64 },
    /// A root of the interface.
    Widget(Widget),
}

/// A request to the host. A handler returns them in the order in which they
/// are to be carried out.
#[derive(Clone, Copy, Debug, PartialEq, Eq, Structural)]
pub enum Command {
    /// Fill the background with this colour.
    ClearColor { r: u8, g: u8, b: u8 },
    /// Set the ambient light to this many hundredths of full brightness.
    AmbientLight { percent: u8 },
    /// Put the camera back at height zero.
    ResetCamera,
    /// Move the camera, within `millis` milliseconds and at an even pace,
    /// from where it is to `height` tower segments above the ground.
    MoveCamera { height: usize, millis: u64 },
    /// Put a prop on the stage.
    Spawn(Prop),
    /// Run the routine that spawns the five creatures.
    SpawnAmogi,
    /// Destroy one entity and all that hangs on it.
    Despawn(u64),
    /// Destroy every entity that carries the marker, and all that hangs on
    /// them.
    DespawnAll(Marker),
    /// Play a sound once.
    Play(Sound),
}

impl Widget {
    /// The scene that owns the widget.
    pub open spec fn scene(self) -> Marker {
        match self {
            Widget::LoadingNotice => Marker::OnAssetLoadingScreen,
            Widget::Greeting | Widget::GambaButton => Marker::OnCakeScreen,
            Widget::ScorePanel | Widget::BetPanel | Widget::SidePanel | Widget::CakeButton =>
                Marker::OnGambaScreen,
        }
    }
}

impl Prop {
    /// The scene that owns the prop: the marker under which it is spawned,
    /// and with which it goes when the scene is left.
    pub open spec fn scene(self) -> Marker {
        match self {
            Prop::PickleMew | Prop::Plate | Prop::Cake | Prop::Amogus { .. } => {
                Marker::OnCakeScreen
            },
            Prop::Ground | Prop::Sign | Prop::SugarCane { .. } | Prop::BrokeMessage { .. } => {
                Marker::OnGambaScreen
            },
            Prop::Widget(w) => w.scene(),
        }
    }

    /// Whether the prop carries the marker.
    pub open spec fn carries(self, marker: Marker) -> bool {
        ||| marker == self.scene()
        ||| self matches Prop::Amogus { kind, .. } && marker == kind.marker()
        ||| self is BrokeMessage && marker == Marker::BrokeMessage
    }

    /// The marker of the scene that owns the prop.
    pub fn scene_marker(&self) -> (marker: Marker)
        ensures
            marker == self.scene(),
    {
        match self {
            Prop::PickleMew | Prop::Plate | Prop::Cake | Prop::Amogus { .. } => {
                Marker::OnCakeScreen
            },
            Prop::Ground | Prop::Sign | Prop::SugarCane { .. } | Prop::BrokeMessage { .. } => {
                Marker::OnGambaScreen
            },
            Prop::Widget(Widget::LoadingNotice) => Marker::OnAssetLoadingScreen,
            Prop::Widget(Widget::Greeting) | Prop::Widget(Widget::GambaButton) => {
                Marker::OnCakeScreen
            },
            Prop::Widget(_) => Marker::OnGambaScreen,
        }
    }

    /// Whether the prop carries the marker.
    pub fn has_marker(&self, marker: Marker) -> (yes: bool)
        ensures
            yes == self.carries(marker),
    {
        if marker == self.scene_marker() {
            return true;
        }
        match self {
            Prop::Amogus { kind, .. } => match kind {
                AmogusKind::Amogus1 => marker == Marker::Amogus1,
                AmogusKind::Amogus2 => marker == Marker::Amogus2,
                AmogusKind::Amogus3 => marker == Marker::Amogus3,
                AmogusKind::Amogus4 => marker == Marker::Amogus4,
                AmogusKind::Amogus5 => marker == Marker::Amogus5,
            },
            Prop::BrokeMessage { .. } => marker == Marker::BrokeMessage,
            _ => false,
        }
    }
}

} // verus!
