//! The game-mode state machine.
//!
//! Exactly one mode is current at any time.  A transition is requested
//! explicitly (or, for the intro, by the clock), deferred, and applied at
//! the next tick boundary, so every frame's handlers see a stable mode.
//! Applying a transition runs the exit hook of the old mode — which
//! destroys every entity tagged with it — and the enter hook of the new
//! one, which spawns that mode's entities.

use vstd::prelude::*;
use crate::character::CharacterState;
use crate::character::initial_character;
use crate::character::spec_steer;
use crate::character::steer;
use crate::rng::coin_flips;
use crate::tiles::MAP_HALF_WIDTH;
use crate::tiles::TILE_SIZE;
use crate::tiles::TileSpec;
use crate::tiles::build_map;
use crate::tiles::map_shape;
use crate::tiles::step_count;

verus! {

/// How long the intro splash stays up before the menu is requested, in
/// milliseconds.
pub const INTRO_DURATION_MS: u64 = 2000;

/// The mutually exclusive modes of the application.  `Quit` is terminal:
/// the frame loop stops there and no transition leaves it.
#[derive(Clone, Copy, PartialEq, Eq, Structural, Debug, Hash)]
pub enum GameMode {
    Intro,
    Menu,
    SingleplayerGame,
    GameWithFriend,
    GameForMoney,
    Settings,
    Quit,
}

/// The action bound to one main-menu button.
#[derive(Clone, Copy, PartialEq, Eq, Structural, Debug)]
pub enum MenuButtonAction {
    StartSinglePlayerGame,
    StartPlayingWithFriend,
    StartPlayingForMoney,
    OpenSettings,
    Quit,
}

/// What one spawned entity is.
#[derive(Clone, Copy, PartialEq, Eq, Structural, Debug)]
pub enum SceneItem {
    /// The intro splash backdrop holding the logo.
    SplashBackdrop,
    /// The fading overlay above the logo.
    LogoOverlay,
    /// The elapsed-time readout redrawn every intro frame, in milliseconds.
    ElapsedReadout(u64),
    /// One main-menu button and the action it dispatches.
    MenuButton(MenuButtonAction),
    /// The controllable character's body.
    CharacterBody,
    /// One placed map tile.
    PlacedTile(TileSpec),
}

/// One live entity: what it is, and the mode whose lifetime owns it.  Every
/// entity is destroyed at or before the exit of the mode it is tagged with.
#[derive(Clone, Copy, PartialEq, Eq, Structural, Debug)]
pub struct EntityRecord {
    pub tag: GameMode,
    pub item: SceneItem,
}

/// The keys and button presses sampled once at the start of a tick.
#[derive(Clone, Copy, Debug)]
pub struct FrameInput {
    pub left: bool,
    pub right: bool,
    /// The menu button whose interaction turned to "pressed" this frame,
    /// if any.
    pub pressed: Option<MenuButtonAction>,
}

/// The abstract state of a session, as the contracts speak of it.
pub struct SessionView {
    pub mode: GameMode,
    pub pending: Option<GameMode>,
    pub entities: Seq<EntityRecord>,
    pub character: Option<CharacterState>,
}

/// The running state machine: the current mode, the deferred transition
/// request, the live entities, and the character while gameplay is active.
pub struct Session {
    pub mode: GameMode,
    pub pending: Option<GameMode>,
    pub entities: Vec<EntityRecord>,
    pub character: Option<CharacterState>,
}

impl View for Session {
    type V = SessionView;

    open spec fn view(&self) -> SessionView {
        SessionView {
            mode: self.mode,
            pending: self.pending,
            entities: self.entities@,
            character: self.character,
        }
    }
}

/// The transition graph.  The intro leads only to the menu; the menu leads
/// to the gameplay variants, the settings and quit; each of those returns
/// only to the menu; quit is terminal.  Anything else is refused (a no-op
/// when requested), which keeps the machine total.
pub open spec fn can_transition(from: GameMode, to: GameMode) -> bool {
    match from {
        GameMode::Intro => to == GameMode::Menu,
        GameMode::Menu => {
            ||| to == GameMode::SingleplayerGame
            ||| to == GameMode::GameWithFriend
            ||| to == GameMode::GameForMoney
            ||| to == GameMode::Settings
            ||| to == GameMode::Quit
        },
        GameMode::SingleplayerGame => to == GameMode::Menu,
        GameMode::GameWithFriend => to == GameMode::Menu,
        GameMode::GameForMoney => to == GameMode::Menu,
        GameMode::Settings => to == GameMode::Menu,
        GameMode::Quit => false,
    }
}

/// No transition leads from a mode to itself.
pub proof fn lemma_no_self_transition(from: GameMode, to: GameMode)
    requires
        can_transition(from, to),
    ensures
        from != to,
{
}

pub fn allowed_transition(from: GameMode, to: GameMode) -> (b: bool)
    ensures
        b == can_transition(from, to),
{
    match from {
        GameMode::Intro => to == GameMode::Menu,
        GameMode::Menu => {
            to == GameMode::SingleplayerGame || to == GameMode::GameWithFriend || to
                == GameMode::GameForMoney || to == GameMode::Settings || to == GameMode::Quit
        },
        GameMode::SingleplayerGame => to == GameMode::Menu,
        GameMode::GameWithFriend => to == GameMode::Menu,
        GameMode::GameForMoney => to == GameMode::Menu,
        GameMode::Settings => to == GameMode::Menu,
        GameMode::Quit => false,
    }
}

/// Matches the entities owned by mode `m`.
pub open spec fn tagged_with(m: GameMode) -> spec_fn(EntityRecord) -> bool {
    |e: EntityRecord| e.tag == m
}

/// Matches the elapsed-time readouts.
pub open spec fn readout_pred() -> spec_fn(EntityRecord) -> bool {
    |e: EntityRecord| e.item is ElapsedReadout
}

/// The entities of `s` with every record matching `p` destroyed, order of
/// the rest kept.
pub open spec fn remove_matching(
    s: Seq<EntityRecord>,
    p: spec_fn(EntityRecord) -> bool,
) -> Seq<EntityRecord>
    decreases s.len(),
{
    if s.len() == 0 {
        Seq::empty()
    } else {
        let rest = remove_matching(s.drop_last(), p);
        if p(s.last()) {
            rest
        } else {
            rest.push(s.last())
        }
    }
}

/// Nothing matching the predicate survives the removal.
pub proof fn lemma_remove_matching_clears(s: Seq<EntityRecord>, p: spec_fn(EntityRecord) -> bool)
    ensures
        forall|i: int|
            0 <= i < remove_matching(s, p).len() ==> !p(#[trigger] remove_matching(s, p)[i]),
    decreases s.len(),
{
    if s.len() > 0 {
        lemma_remove_matching_clears(s.drop_last(), p);
        let rest = remove_matching(s.drop_last(), p);
        assert forall|i: int| 0 <= i < remove_matching(s, p).len() implies !p(
            #[trigger] remove_matching(s, p)[i],
        ) by {
            if i < rest.len() {
                assert(remove_matching(s, p)[i] == rest[i]);
            }
        }
    }
}

/// Everything the removal keeps was already there.
pub proof fn lemma_remove_matching_subset(s: Seq<EntityRecord>, p: spec_fn(EntityRecord) -> bool)
    ensures
        forall|i: int|
            0 <= i < remove_matching(s, p).len() ==> s.contains(
                #[trigger] remove_matching(s, p)[i],
            ),
    decreases s.len(),
{
    if s.len() > 0 {
        lemma_remove_matching_subset(s.drop_last(), p);
        assert forall|i: int| 0 <= i < remove_matching(s, p).len() implies s.contains(
            #[trigger] remove_matching(s, p)[i],
        ) by {
            let rest = remove_matching(s.drop_last(), p);
            if i < rest.len() {
                let j = choose|j: int| 0 <= j < s.drop_last().len() && s.drop_last()[j] == rest[i];
                assert(s[j] == rest[i]);
            } else {
                assert(s[s.len() - 1] == s.last());
            }
        }
    }
}

/// Everything that does not match the predicate survives the removal.
pub proof fn lemma_remove_matching_keeps(s: Seq<EntityRecord>, p: spec_fn(EntityRecord) -> bool)
    ensures
        forall|i: int|
            0 <= i < s.len() && !p(#[trigger] s[i]) ==> remove_matching(s, p).contains(s[i]),
    decreases s.len(),
{
    if s.len() > 0 {
        lemma_remove_matching_keeps(s.drop_last(), p);
        assert forall|i: int| 0 <= i < s.len() && !p(#[trigger] s[i]) implies remove_matching(
            s,
            p,
        ).contains(s[i]) by {
            let rest = remove_matching(s.drop_last(), p);
            if i < s.len() - 1 {
                assert(s.drop_last()[i] == s[i]);
                assert(rest.contains(s[i]));
                let j = choose|j: int| 0 <= j < rest.len() && rest[j] == s[i];
                assert(remove_matching(s, p)[j] == s[i]);
            } else {
                assert(s[i] == s.last());
                assert(remove_matching(s, p).last() == s.last());
            }
        }
    }
}

/// The entities that survive, in order, when every record matching `p` is
/// destroyed.
fn retain_not_matching_tag(v: &Vec<EntityRecord>, m: GameMode) -> (kept: Vec<EntityRecord>)
    ensures
        kept@ == remove_matching(v@, tagged_with(m)),
{
    let mut kept: Vec<EntityRecord> = Vec::new();
    let mut i: usize = 0;
    while i < v.len()
        invariant
            i <= v@.len(),
            kept@ == remove_matching(v@.subrange(0, i as int), tagged_with(m)),
        decreases v@.len() - i,
    {
        let e = v[i];
        let ghost sub1 = v@.subrange(0, i as int + 1);
        proof {
            assert(sub1.drop_last() =~= v@.subrange(0, i as int));
            assert(sub1.last() == e);
            assert(tagged_with(m)(e) == (e.tag == m));
        }
        if !(e.tag == m) {
            kept.push(e);
        }
        i = i + 1;
    }
    proof {
        assert(v@.subrange(0, v@.len() as int) =~= v@);
    }
    kept
}

/// The entities that survive, in order, when every elapsed-time readout is
/// destroyed.
fn retain_not_readout(v: &Vec<EntityRecord>) -> (kept: Vec<EntityRecord>)
    ensures
        kept@ == remove_matching(v@, readout_pred()),
{
    let mut kept: Vec<EntityRecord> = Vec::new();
    let mut i: usize = 0;
    while i < v.len()
        invariant
            i <= v@.len(),
            kept@ == remove_matching(v@.subrange(0, i as int), readout_pred()),
        decreases v@.len() - i,
    {
        let e = v[i];
        let ghost sub1 = v@.subrange(0, i as int + 1);
        proof {
            assert(sub1.drop_last() =~= v@.subrange(0, i as int));
            assert(sub1.last() == e);
            assert(readout_pred()(e) == (e.item is ElapsedReadout));
        }
        let is_readout = match e.item {
            SceneItem::ElapsedReadout(_) => true,
            _ => false,
        };
        if !is_readout {
            kept.push(e);
        }
        i = i + 1;
    }
    proof {
        assert(v@.subrange(0, v@.len() as int) =~= v@);
    }
    kept
}

/// What entering the intro spawns: the splash backdrop and the fading
/// overlay, both owned by the intro.
pub open spec fn intro_entities() -> Seq<EntityRecord> {
    seq![
        EntityRecord { tag: GameMode::Intro, item: SceneItem::SplashBackdrop },
        EntityRecord { tag: GameMode::Intro, item: SceneItem::LogoOverlay },
    ]
}

/// What entering the menu spawns: one button per available action.
pub open spec fn menu_entities() -> Seq<EntityRecord> {
    seq![
        EntityRecord {
            tag: GameMode::Menu,
            item: SceneItem::MenuButton(MenuButtonAction::StartSinglePlayerGame),
        },
        EntityRecord {
            tag: GameMode::Menu,
            item: SceneItem::MenuButton(MenuButtonAction::StartPlayingWithFriend),
        },
        EntityRecord {
            tag: GameMode::Menu,
            item: SceneItem::MenuButton(MenuButtonAction::StartPlayingForMoney),
        },
        EntityRecord {
            tag: GameMode::Menu,
            item: SceneItem::MenuButton(MenuButtonAction::OpenSettings),
        },
        EntityRecord { tag: GameMode::Menu, item: SceneItem::MenuButton(MenuButtonAction::Quit) },
    ]
}

/// The generated map's tiles as gameplay-owned entities, in order.
pub open spec fn tile_entities(tiles: Seq<TileSpec>) -> Seq<EntityRecord> {
    tiles.map_values(
        |t: TileSpec| EntityRecord { tag: GameMode::SingleplayerGame, item: SceneItem::PlacedTile(t) },
    )
}

/// What entering the gameplay mode spawns: the character's body, then the
/// generated map.
pub open spec fn game_entities(tiles: Seq<TileSpec>) -> Seq<EntityRecord> {
    seq![
        EntityRecord { tag: GameMode::SingleplayerGame, item: SceneItem::CharacterBody },
    ] + tile_entities(tiles)
}

/// What the enter hook of `target` spawns.  The friend and money variants
/// and the settings screen spawn nothing (they are reachable but bare), and
/// quit is the end of the session.
pub open spec fn entered_entities(target: GameMode, tiles: Seq<TileSpec>) -> Seq<EntityRecord> {
    match target {
        GameMode::Intro => intro_entities(),
        GameMode::Menu => menu_entities(),
        GameMode::SingleplayerGame => game_entities(tiles),
        _ => Seq::empty(),
    }
}

/// A requested transition is recorded for the next tick boundary if the
/// graph allows it, and is a no-op otherwise.
pub open spec fn spec_request(s: SessionView, target: GameMode) -> SessionView {
    if can_transition(s.mode, target) {
        SessionView { pending: Some(target), ..s }
    } else {
        s
    }
}

/// Applying the deferred transition at a tick boundary: the exit hook of
/// the old mode destroys every entity tagged with it (and the character, if
/// gameplay is left), then the enter hook of the new mode spawns its
/// entities.  `tiles` is the map generated when gameplay is entered; any
/// other target ignores it.
pub open spec fn spec_apply(s: SessionView, tiles: Seq<TileSpec>) -> SessionView {
    match s.pending {
        None => s,
        Some(target) => {
            if can_transition(s.mode, target) {
                SessionView {
                    mode: target,
                    pending: None,
                    entities: remove_matching(s.entities, tagged_with(s.mode)) + entered_entities(
                        target,
                        tiles,
                    ),
                    character: if target == GameMode::SingleplayerGame {
                        Some(initial_character())
                    } else if s.mode == GameMode::SingleplayerGame {
                        None
                    } else {
                        s.character
                    },
                }
            } else {
                SessionView { pending: None, ..s }
            }
        },
    }
}

/// The per-frame intro step: while the intro is current, the elapsed-time
/// readout is redrawn (the old one destroyed, a fresh one spawned), and
/// once the elapsed time exceeds the intro duration the menu is requested.
/// In any other mode the step is inert.
pub open spec fn spec_intro_frame(s: SessionView, elapsed_ms: u64) -> SessionView {
    if s.mode != GameMode::Intro {
        s
    } else {
        let redrawn = remove_matching(s.entities, readout_pred()).push(
            EntityRecord { tag: GameMode::Intro, item: SceneItem::ElapsedReadout(elapsed_ms) },
        );
        let s2 = SessionView { entities: redrawn, ..s };
        if elapsed_ms > INTRO_DURATION_MS {
            spec_request(s2, GameMode::Menu)
        } else {
            s2
        }
    }
}

/// The mode each menu button leads to.  The quit button ends the session:
/// modeled as the terminal quit mode that stops the frame loop.
pub open spec fn action_target(a: MenuButtonAction) -> GameMode {
    match a {
        MenuButtonAction::StartSinglePlayerGame => GameMode::SingleplayerGame,
        MenuButtonAction::StartPlayingWithFriend => GameMode::GameWithFriend,
        MenuButtonAction::StartPlayingForMoney => GameMode::GameForMoney,
        MenuButtonAction::OpenSettings => GameMode::Settings,
        MenuButtonAction::Quit => GameMode::Quit,
    }
}

/// The per-frame menu step: a button whose interaction turned to "pressed"
/// dispatches its action as a transition request; otherwise nothing
/// happens.  In any other mode the step is inert.
pub open spec fn spec_menu_frame(s: SessionView, pressed: Option<MenuButtonAction>) -> SessionView {
    if s.mode != GameMode::Menu {
        s
    } else {
        match pressed {
            None => s,
            Some(a) => spec_request(s, action_target(a)),
        }
    }
}

/// The per-frame gameplay step: the controller steers the character's
/// horizontal velocity from the sampled keys.  In any other mode, or with
/// no character alive, the step is inert.
pub open spec fn spec_game_frame(s: SessionView, left: bool, right: bool) -> SessionView {
    if s.mode == GameMode::SingleplayerGame {
        match s.character {
            Some(c) => SessionView { character: Some(spec_steer(c, left, right)), ..s },
            None => s,
        }
    } else {
        s
    }
}

/// One whole tick: the deferred transition is applied first, so the
/// frame's handler sees a stable mode, then the current mode's per-frame
/// step runs.
pub open spec fn spec_tick(
    s: SessionView,
    elapsed_ms: u64,
    input: FrameInput,
    tiles: Seq<TileSpec>,
) -> SessionView {
    let s1 = spec_apply(s, tiles);
    match s1.mode {
        GameMode::Intro => spec_intro_frame(s1, elapsed_ms),
        GameMode::Menu => spec_menu_frame(s1, input.pressed),
        GameMode::SingleplayerGame => spec_game_frame(s1, input.left, input.right),
        _ => s1,
    }
}

/// A session as it boots: the intro is current and its splash is up.
pub open spec fn initial_session() -> SessionView {
    SessionView {
        mode: GameMode::Intro,
        pending: None,
        entities: intro_entities(),
        character: None,
    }
}

/// The overlay's opacity in thousandths while the intro fades the logo in:
/// fully opaque black at the start, one thousandth less every fiftieth of a
/// second, transparent from fifty seconds on.
pub open spec fn spec_overlay_alpha_millis(elapsed_ms: u64) -> u64 {
    if elapsed_ms >= 50000 {
        0u64
    } else {
        (1000 - elapsed_ms / 50) as u64
    }
}

pub fn overlay_alpha_millis(elapsed_ms: u64) -> (alpha: u64)
    ensures
        alpha == spec_overlay_alpha_millis(elapsed_ms),
        alpha <= 1000,
{
    if elapsed_ms >= 50000 {
        0
    } else {
        1000 - elapsed_ms / 50
    }
}

pub fn menu_action_target(a: MenuButtonAction) -> (m: GameMode)
    ensures
        m == action_target(a),
{
    match a {
        MenuButtonAction::StartSinglePlayerGame => GameMode::SingleplayerGame,
        MenuButtonAction::StartPlayingWithFriend => GameMode::GameWithFriend,
        MenuButtonAction::StartPlayingForMoney => GameMode::GameForMoney,
        MenuButtonAction::OpenSettings => GameMode::Settings,
        MenuButtonAction::Quit => GameMode::Quit,
    }
}

impl Session {
    /// Boots a session: the intro becomes current and its splash is
    /// spawned.
    pub fn new() -> (s: Session)
        ensures
            s@ == initial_session(),
    {
        let mut entities: Vec<EntityRecord> = Vec::new();
        entities.push(EntityRecord { tag: GameMode::Intro, item: SceneItem::SplashBackdrop });
        entities.push(EntityRecord { tag: GameMode::Intro, item: SceneItem::LogoOverlay });
        let s = Session { mode: GameMode::Intro, pending: None, entities, character: None };
        proof {
            assert(s@.entities =~= intro_entities());
        }
        s
    }

    /// Records a transition request for the next tick boundary; a request
    /// the graph refuses is a no-op.
    pub fn request_transition(&mut self, target: GameMode)
        ensures
            final(self)@ == spec_request(old(self)@, target),
    {
        if allowed_transition(self.mode, target) {
            self.pending = Some(target);
        }
    }

    /// The exit hook's work: destroys every entity tagged with `m`.
    fn despawn_tagged(&mut self, m: GameMode)
        ensures
            final(self).mode == old(self).mode,
            final(self).pending == old(self).pending,
            final(self).character == old(self).character,
            final(self).entities@ == remove_matching(old(self).entities@, tagged_with(m)),
    {
        let kept = retain_not_matching_tag(&self.entities, m);
        self.entities = kept;
    }

    /// The per-frame intro step; see `spec_intro_frame`.
    pub fn intro_frame(&mut self, elapsed_ms: u64)
        ensures
            final(self)@ == spec_intro_frame(old(self)@, elapsed_ms),
    {
        let in_intro = match self.mode {
            GameMode::Intro => true,
            _ => false,
        };
        if !in_intro {
            return;
        }
        let kept = retain_not_readout(&self.entities);
        self.entities = kept;
        self.entities.push(
            EntityRecord { tag: GameMode::Intro, item: SceneItem::ElapsedReadout(elapsed_ms) },
        );
        if elapsed_ms > INTRO_DURATION_MS {
            self.request_transition(GameMode::Menu);
        }
    }

    /// The per-frame menu step; see `spec_menu_frame`.
    pub fn menu_frame(&mut self, pressed: Option<MenuButtonAction>)
        ensures
            final(self)@ == spec_menu_frame(old(self)@, pressed),
    {
        let in_menu = match self.mode {
            GameMode::Menu => true,
            _ => false,
        };
        if !in_menu {
            return;
        }
        match pressed {
            None => {},
            Some(a) => {
                let target = menu_action_target(a);
                self.request_transition(target);
            },
        }
    }

    /// Applies the deferred transition, if any, at a tick boundary: the
    /// exit hook destroys the old mode's entities, the enter hook spawns
    /// the new mode's.  Entering gameplay generates the map from `seed`;
    /// whatever the seed's coin flips came out as, the new entities carry a
    /// map of the generated shape.  Every other transition ignores the
    /// seed and is exactly `spec_apply` of the empty tile sequence.
    #[verifier::loop_isolation(false)]
    pub fn apply_pending(&mut self, seed: u64)
        ensures
            old(self)@.pending == Some(GameMode::SingleplayerGame) && can_transition(
                old(self)@.mode,
                GameMode::SingleplayerGame,
            ) ==> exists|tiles: Seq<TileSpec>, coins: Seq<bool>|
                #[trigger] map_shape(tiles, MAP_HALF_WIDTH, TILE_SIZE, coins) && final(self)@
                    == spec_apply(old(self)@, tiles),
            !(old(self)@.pending == Some(GameMode::SingleplayerGame) && can_transition(
                old(self)@.mode,
                GameMode::SingleplayerGame,
            )) ==> final(self)@ == spec_apply(old(self)@, Seq::empty()),
    {
        let pending = self.pending;
        match pending {
            None => {},
            Some(target) => {
                if allowed_transition(self.mode, target) {
                    let from = self.mode;
                    self.despawn_tagged(from);
                    self.pending = None;
                    self.mode = target;
                    let was_game = match from {
                        GameMode::SingleplayerGame => true,
                        _ => false,
                    };
                    if was_game {
                        self.character = None;
                    }
                    let ghost kept = self@.entities;
                    match target {
                        GameMode::Intro => {
                            self.entities.push(
                                EntityRecord { tag: GameMode::Intro, item: SceneItem::SplashBackdrop },
                            );
                            self.entities.push(
                                EntityRecord { tag: GameMode::Intro, item: SceneItem::LogoOverlay },
                            );
                            proof {
                                assert(self@.entities =~= kept + intro_entities());
                            }
                        },
                        GameMode::Menu => {
                            self.entities.push(
                                EntityRecord {
                                    tag: GameMode::Menu,
                                    item: SceneItem::MenuButton(
                                        MenuButtonAction::StartSinglePlayerGame,
                                    ),
                                },
                            );
                            self.entities.push(
                                EntityRecord {
                                    tag: GameMode::Menu,
                                    item: SceneItem::MenuButton(
                                        MenuButtonAction::StartPlayingWithFriend,
                                    ),
                                },
                            );
                            self.entities.push(
                                EntityRecord {
                                    tag: GameMode::Menu,
                                    item: SceneItem::MenuButton(
                                        MenuButtonAction::StartPlayingForMoney,
                                    ),
                                },
                            );
                            self.entities.push(
                                EntityRecord {
                                    tag: GameMode::Menu,
                                    item: SceneItem::MenuButton(MenuButtonAction::OpenSettings),
                                },
                            );
                            self.entities.push(
                                EntityRecord {
                                    tag: GameMode::Menu,
                                    item: SceneItem::MenuButton(MenuButtonAction::Quit),
                                },
                            );
                            proof {
                                assert(self@.entities =~= kept + menu_entities());
                            }
                        },
                        GameMode::SingleplayerGame => {
                            self.character = Some(CharacterState { vx: 0, vy: 0 });
                            self.entities.push(
                                EntityRecord {
                                    tag: GameMode::SingleplayerGame,
                                    item: SceneItem::CharacterBody,
                                },
                            );
                            let n = step_count(MAP_HALF_WIDTH, TILE_SIZE);
                            let coins = coin_flips(seed, n);
                            let tiles = build_map(MAP_HALF_WIDTH, TILE_SIZE, &coins);
                            let ghost base = self@.entities;
                            let mut idx: usize = 0;
                            while idx < tiles.len()
                                invariant
                                    idx <= tiles@.len(),
                                    self.mode == GameMode::SingleplayerGame,
                                    self.pending is None,
                                    self.character == Some(initial_character()),
                                    self@.entities == base + tile_entities(
                                        tiles@.subrange(0, idx as int),
                                    ),
                                decreases tiles@.len() - idx,
                            {
                                self.entities.push(
                                    EntityRecord {
                                        tag: GameMode::SingleplayerGame,
                                        item: SceneItem::PlacedTile(tiles[idx]),
                                    },
                                );
                                proof {
                                    assert(tile_entities(tiles@.subrange(0, idx as int + 1))
                                        =~= tile_entities(tiles@.subrange(0, idx as int)).push(
                                        EntityRecord {
                                            tag: GameMode::SingleplayerGame,
                                            item: SceneItem::PlacedTile(tiles@[idx as int]),
                                        },
                                    ));
                                    assert(self@.entities =~= base + tile_entities(
                                        tiles@.subrange(0, idx as int + 1),
                                    ));
                                }
                                idx = idx + 1;
                            }
                            proof {
                                assert(tiles@.subrange(0, tiles@.len() as int) =~= tiles@);
                                assert(self@.entities =~= kept + game_entities(tiles@));
                                assert(self@ == spec_apply(old(self)@, tiles@));
                                assert(map_shape(tiles@, MAP_HALF_WIDTH, TILE_SIZE, coins@));
                            }
                        },
                        _ => {
                            proof {
                                assert(self@.entities =~= kept + entered_entities(
                                    target,
                                    Seq::empty(),
                                ));
                            }
                        },
                    }
                } else {
                    self.pending = None;
                }
            },
        }
    }

    /// One whole tick of the frame loop: the deferred transition is
    /// applied, then the current mode's per-frame step runs on the sampled
    /// input.  See `spec_tick`.
    pub fn tick(&mut self, elapsed_ms: u64, input: FrameInput, seed: u64)
        ensures
            old(self)@.pending == Some(GameMode::SingleplayerGame) && can_transition(
                old(self)@.mode,
                GameMode::SingleplayerGame,
            ) ==> exists|tiles: Seq<TileSpec>, coins: Seq<bool>|
                #[trigger] map_shape(tiles, MAP_HALF_WIDTH, TILE_SIZE, coins) && final(self)@
                    == spec_tick(old(self)@, elapsed_ms, input, tiles),
            !(old(self)@.pending == Some(GameMode::SingleplayerGame) && can_transition(
                old(self)@.mode,
                GameMode::SingleplayerGame,
            )) ==> final(self)@ == spec_tick(old(self)@, elapsed_ms, input, Seq::empty()),
    {
        self.apply_pending(seed);
        let ghost mid = self@;
        match self.mode {
            GameMode::Intro => self.intro_frame(elapsed_ms),
            GameMode::Menu => self.menu_frame(input.pressed),
            GameMode::SingleplayerGame => self.game_frame(input.left, input.right),
            _ => {},
        }
        proof {
            if old(self)@.pending == Some(GameMode::SingleplayerGame) && can_transition(
                old(self)@.mode,
                GameMode::SingleplayerGame,
            ) {
                let (tiles, coins) = choose|tiles: Seq<TileSpec>, coins: Seq<bool>|
                    #[trigger] map_shape(tiles, MAP_HALF_WIDTH, TILE_SIZE, coins) && mid
                        == spec_apply(old(self)@, tiles);
                assert(self@ == spec_tick(old(self)@, elapsed_ms, input, tiles));
            }
        }
    }

    /// The per-frame gameplay step; see `spec_game_frame`.
    pub fn game_frame(&mut self, left: bool, right: bool)
        ensures
            final(self)@ == spec_game_frame(old(self)@, left, right),
    {
        let in_game = match self.mode {
            GameMode::SingleplayerGame => true,
            _ => false,
        };
        if !in_game {
            return;
        }
        match self.character {
            Some(c0) => {
                let mut c = c0;
                steer(&mut c, left, right);
                self.character = Some(c);
            },
            None => {},
        }
    }
}

/// A well-formed session: a recorded transition request is one the graph
/// allows, and every live entity is owned by the current mode (entities of
/// earlier modes were destroyed on those modes' exits).
pub open spec fn session_wf(s: SessionView) -> bool {
    &&& match s.pending {
        Some(t) => can_transition(s.mode, t),
        None => true,
    }
    &&& forall|i: int| 0 <= i < s.entities.len() ==> (#[trigger] s.entities[i]).tag == s.mode
}

/// A fresh session is well-formed.
pub proof fn lemma_initial_session_wf()
    ensures
        session_wf(initial_session()),
{
    assert forall|i: int| 0 <= i < intro_entities().len() implies (#[trigger] intro_entities()[i]).tag
        == GameMode::Intro by {
    }
}

/// Requesting a transition keeps a session well-formed: only transitions
/// the graph allows are ever recorded.
pub proof fn lemma_request_preserves_wf(s: SessionView, target: GameMode)
    requires
        session_wf(s),
    ensures
        session_wf(spec_request(s, target)),
{
}

/// Whatever the enter hook of `target` spawns is owned by `target`.
pub proof fn lemma_entered_entities_tagged(target: GameMode, tiles: Seq<TileSpec>)
    ensures
        forall|i: int|
            0 <= i < entered_entities(target, tiles).len() ==> (#[trigger] entered_entities(
                target,
                tiles,
            )[i]).tag == target,
{
    assert forall|i: int| 0 <= i < entered_entities(target, tiles).len() implies (
    #[trigger] entered_entities(target, tiles)[i]).tag == target by {
        if target == GameMode::SingleplayerGame {
            if i >= 1 {
                assert(entered_entities(target, tiles)[i] == tile_entities(tiles)[i - 1]);
            }
        }
    }
}

/// Applying a transition keeps a session well-formed: the exited mode's
/// entities are all destroyed and the entered mode owns everything newly
/// spawned.
pub proof fn lemma_apply_preserves_wf(s: SessionView, tiles: Seq<TileSpec>)
    requires
        session_wf(s),
    ensures
        session_wf(spec_apply(s, tiles)),
{
    match s.pending {
        None => {},
        Some(target) => {
            if can_transition(s.mode, target) {
                let kept = remove_matching(s.entities, tagged_with(s.mode));
                lemma_remove_matching_clears(s.entities, tagged_with(s.mode));
                lemma_remove_matching_subset(s.entities, tagged_with(s.mode));
                assert(kept.len() == 0) by {
                    if kept.len() > 0 {
                        let e = kept[0];
                        let j = choose|j: int| 0 <= j < s.entities.len() && s.entities[j] == e;
                        assert(tagged_with(s.mode)(e) == (e.tag == s.mode));
                    }
                }
                lemma_entered_entities_tagged(target, tiles);
                assert forall|i: int| 0 <= i < spec_apply(s, tiles).entities.len() implies (
                #[trigger] spec_apply(s, tiles).entities[i]).tag == target by {
                    assert(spec_apply(s, tiles).entities[i] == entered_entities(target, tiles)[i]);
                }
            }
        },
    }
}

/// The per-frame steps keep a session well-formed.
pub proof fn lemma_frames_preserve_wf(
    s: SessionView,
    elapsed_ms: u64,
    pressed: Option<MenuButtonAction>,
    left: bool,
    right: bool,
)
    requires
        session_wf(s),
    ensures
        session_wf(spec_intro_frame(s, elapsed_ms)),
        session_wf(spec_menu_frame(s, pressed)),
        session_wf(spec_game_frame(s, left, right)),
{
    if s.mode == GameMode::Intro {
        let without = remove_matching(s.entities, readout_pred());
        lemma_remove_matching_subset(s.entities, readout_pred());
        let redrawn = without.push(
            EntityRecord { tag: GameMode::Intro, item: SceneItem::ElapsedReadout(elapsed_ms) },
        );
        assert forall|i: int| 0 <= i < redrawn.len() implies (#[trigger] redrawn[i]).tag
            == s.mode by {
            if i < without.len() {
                let j = choose|j: int| 0 <= j < s.entities.len() && s.entities[j] == without[i];
            }
        }
        let s2 = SessionView { entities: redrawn, ..s };
        lemma_request_preserves_wf(s2, GameMode::Menu);
    }
    match pressed {
        None => {},
        Some(a) => {
            lemma_request_preserves_wf(s, action_target(a));
        },
    }
}

/// A whole tick keeps a session well-formed.
pub proof fn lemma_tick_preserves_wf(
    s: SessionView,
    elapsed_ms: u64,
    input: FrameInput,
    tiles: Seq<TileSpec>,
)
    requires
        session_wf(s),
    ensures
        session_wf(spec_tick(s, elapsed_ms, input, tiles)),
{
    lemma_apply_preserves_wf(s, tiles);
    lemma_frames_preserve_wf(spec_apply(s, tiles), elapsed_ms, input.pressed, input.left, input.right);
}

/// A mode's exit destroys every one of its entities: after the deferred
/// transition out of `s.mode` is applied, no surviving entity is tagged
/// with it.
pub proof fn lemma_exit_destroys_tagged(s: SessionView, target: GameMode, tiles: Seq<TileSpec>)
    requires
        session_wf(s),
        s.pending == Some(target),
        can_transition(s.mode, target),
    ensures
        spec_apply(s, tiles).mode == target,
        forall|i: int|
            0 <= i < spec_apply(s, tiles).entities.len() ==> (#[trigger] spec_apply(
                s,
                tiles,
            ).entities[i]).tag != s.mode,
{
    lemma_no_self_transition(s.mode, target);
    lemma_apply_preserves_wf(s, tiles);
}

/// The only transition the intro's clock ever requests is into the menu:
/// an intro frame leaves the request as it was or sets it to the menu.
pub proof fn lemma_intro_requests_only_menu(s: SessionView, elapsed_ms: u64)
    ensures
        spec_intro_frame(s, elapsed_ms).pending == s.pending || spec_intro_frame(
            s,
            elapsed_ms,
        ).pending == Some(GameMode::Menu),
{
}

/// Menu transitions happen only on a button's press: a frame without a
/// press changes nothing, and a press requests exactly the pressed
/// button's target.
pub proof fn lemma_menu_requests_follow_buttons(
    s: SessionView,
    pressed: Option<MenuButtonAction>,
)
    requires
        s.mode == GameMode::Menu,
    ensures
        pressed is None ==> spec_menu_frame(s, pressed) == s,
        forall|a: MenuButtonAction|
            pressed == Some(a) ==> spec_menu_frame(s, pressed) == spec_request(
                s,
                #[trigger] action_target(a),
            ),
{
}

/// Crossing the intro threshold produces exactly one transition: the
/// frame that crosses requests the menu; any further intro frame before
/// the boundary re-requests the same menu and nothing else; applying the
/// request enters the menu; and from then on the intro frame is inert, so
/// a second transition is never requested.
pub proof fn lemma_intro_transitions_once(s: SessionView, e1: u64, e2: u64, e3: u64)
    requires
        session_wf(s),
        s.mode == GameMode::Intro,
        e1 > INTRO_DURATION_MS,
    ensures
        spec_intro_frame(s, e1).pending == Some(GameMode::Menu),
        spec_intro_frame(spec_intro_frame(s, e1), e2).pending == Some(GameMode::Menu),
        spec_apply(spec_intro_frame(s, e1), Seq::empty()).mode == GameMode::Menu,
        spec_apply(spec_intro_frame(s, e1), Seq::empty()).pending is None,
        spec_intro_frame(spec_apply(spec_intro_frame(s, e1), Seq::empty()), e3) == spec_apply(
            spec_intro_frame(s, e1),
            Seq::empty(),
        ),
{
}

} // verus!
