use vstd::prelude::*;
use vstd::string::StringExecFns;
use crate::campaign::{AppState, Campaign, DefeatReason, WarpTarget};

verus! {

/// Which non-combat screen, if any, the text overlay renders text for.
#[derive(Clone, Copy, PartialEq, Eq, Debug, Structural)]
pub enum ScreenKind {
    /// No screen text is showing.
    Blank,
    Title,
    GalaxyMap,
    GameOver,
}

impl ScreenKind {
    /// The name the overlay knows the screen by.
    pub fn as_str(self) -> (name: &'static str)
        ensures
            name@ == (match self {
                ScreenKind::Blank => ""@,
                ScreenKind::Title => "title"@,
                ScreenKind::GalaxyMap => "galaxy_map"@,
                ScreenKind::GameOver => "game_over"@,
            }),
    {
        match self {
            ScreenKind::Blank => "",
            ScreenKind::Title => "title",
            ScreenKind::GalaxyMap => "galaxy_map",
            ScreenKind::GameOver => "game_over",
        }
    }
}

/// Live values for whichever screen is current; fields that do not concern
/// that screen keep their defaults.
#[derive(Clone, Debug)]
pub struct ScreenText {
    pub screen: ScreenKind,
    /// Galaxy map: the fuel left.
    pub fuel: u32,
    /// Galaxy map and game over: the campaign level.
    pub level: u32,
    /// Galaxy map: the level announcement while it shows, else empty.
    pub banner: String,
    /// Galaxy map: milliseconds left before a sector is picked automatically.
    pub countdown_ms: u32,
    /// Game over: why the run ended.
    pub defeat_reason: String,
}

impl Default for ScreenText {
    /// No screen, every value zero or empty.
    fn default() -> (t: Self)
        ensures
            t.screen == ScreenKind::Blank,
            t.fuel == 0,
            t.level == 0,
            t.banner@ == Seq::<char>::empty(),
            t.countdown_ms == 0,
            t.defeat_reason@ == Seq::<char>::empty(),
    {
        ScreenText {
            screen: ScreenKind::Blank,
            fuel: 0,
            level: 0,
            banner: String::new(),
            countdown_ms: 0,
            defeat_reason: String::new(),
        }
    }
}

/// The title screen's text: its copy is fixed, so only the screen is named.
pub fn title_screen_text() -> (t: ScreenText)
    ensures
        t.screen == ScreenKind::Title,
        t.fuel == 0,
        t.level == 0,
        t.banner@ == Seq::<char>::empty(),
        t.countdown_ms == 0,
        t.defeat_reason@ == Seq::<char>::empty(),
{
    let mut t = ScreenText::default();
    t.screen = ScreenKind::Title;
    t
}

/// The galaxy map's text: fuel, level, the level banner and the time left
/// to decide.
pub fn galaxy_screen_text(campaign: &Campaign, banner: String, countdown_ms: u32) -> (t: ScreenText)
    ensures
        t.screen == ScreenKind::GalaxyMap,
        t.fuel == campaign.fuel,
        t.level == campaign.level,
        t.banner@ == banner@,
        t.countdown_ms == countdown_ms,
        t.defeat_reason@ == Seq::<char>::empty(),
{
    ScreenText {
        screen: ScreenKind::GalaxyMap,
        fuel: campaign.fuel,
        level: campaign.level,
        banner,
        countdown_ms,
        defeat_reason: String::new(),
    }
}

/// Why the run ended, as the game-over screen says it.
pub open spec fn defeat_text(reason: Option<DefeatReason>) -> Seq<char> {
    match reason {
        Some(DefeatReason::OutOfFuel) => "Your ship drifted, out of fuel, deep in Zerlak space."@,
        Some(DefeatReason::Destroyed) => "Your ship was destroyed by Zerlak fire."@,
        None => "Mission ended."@,
    }
}

/// The game-over screen's line on why the run ended.
pub fn defeat_message(reason: Option<DefeatReason>) -> (msg: &'static str)
    ensures
        msg@ == defeat_text(reason),
{
    match reason {
        Some(DefeatReason::OutOfFuel) => "Your ship drifted, out of fuel, deep in Zerlak space.",
        Some(DefeatReason::Destroyed) => "Your ship was destroyed by Zerlak fire.",
        None => "Mission ended.",
    }
}

/// The game-over screen's text: the level reached and why the run ended.
pub fn game_over_screen_text(campaign: &Campaign) -> (t: ScreenText)
    ensures
        t.screen == ScreenKind::GameOver,
        t.fuel == 0,
        t.level == campaign.level,
        t.banner@ == Seq::<char>::empty(),
        t.countdown_ms == 0,
        t.defeat_reason@ == defeat_text(campaign.defeat_reason),
{
    let reason = defeat_message(campaign.defeat_reason);
    ScreenText {
        screen: ScreenKind::GameOver,
        fuel: 0,
        level: campaign.level,
        banner: String::new(),
        countdown_ms: 0,
        defeat_reason: <String as StringExecFns>::from_str(reason),
    }
}

/// The caption of the warp animation: returning to the map, or warping in.
pub fn warp_label(target: WarpTarget) -> (label: &'static str)
    ensures
        label@ == (if target.0 == AppState::GalaxyMap { "RETURNING"@ } else { "WARPING"@ }),
{
    match target.0 {
        AppState::GalaxyMap => "RETURNING",
        _ => "WARPING",
    }
}

/// The decimal digits `0` to `9`.
pub open spec fn digit_char(d: int) -> char {
    seq!['0', '1', '2', '3', '4', '5', '6', '7', '8', '9'][d]
}

/// `n` written in decimal, without leading zeros.
pub open spec fn decimal(n: nat) -> Seq<char>
    decreases n,
{
    if n < 10 {
        seq![digit_char(n as int)]
    } else {
        decimal(n / 10).push(digit_char((n % 10) as int))
    }
}

fn digit_str(d: u32) -> (s: &'static str)
    requires
        d < 10,
    ensures
        s@ == seq![digit_char(d as int)],
{
    proof {
        reveal_strlit("0");
        reveal_strlit("1");
        reveal_strlit("2");
        reveal_strlit("3");
        reveal_strlit("4");
        reveal_strlit("5");
        reveal_strlit("6");
        reveal_strlit("7");
        reveal_strlit("8");
        reveal_strlit("9");
    }
    let s = if d == 0 {
        "0"
    } else if d == 1 {
        "1"
    } else if d == 2 {
        "2"
    } else if d == 3 {
        "3"
    } else if d == 4 {
        "4"
    } else if d == 5 {
        "5"
    } else if d == 6 {
        "6"
    } else if d == 7 {
        "7"
    } else if d == 8 {
        "8"
    } else {
        "9"
    };
    assert(s@ =~= seq![digit_char(d as int)]);
    s
}

/// Appends `n` in decimal.
pub fn push_decimal(text: &mut String, n: u32)
    ensures
        final(text)@ == old(text)@ + decimal(n as nat),
    decreases n,
{
    if n >= 10 {
        push_decimal(text, n / 10);
        text.append(digit_str(n % 10));
        assert(decimal(n as nat) =~= decimal((n / 10) as nat).push(digit_char((n % 10) as int)));
        assert(text@ =~= old(text)@ + decimal(n as nat));
    } else {
        text.append(digit_str(n));
    }
}

/// The announcement shown when a new level starts.
pub open spec fn banner_text(level: u32) -> Seq<char> {
    "LEVEL "@ + decimal(level as nat) + " - the Zerlak Empire regroups..."@
}

/// The announcement shown at the top of the galaxy map when a new level
/// starts.
pub fn level_banner(level: u32) -> (banner: String)
    ensures
        banner@ == banner_text(level),
{
    let mut banner = <String as StringExecFns>::from_str("LEVEL ");
    push_decimal(&mut banner, level);
    banner.append(" - the Zerlak Empire regroups...");
    banner
}

} // verus!
