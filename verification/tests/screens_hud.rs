use solaris::campaign::{AppState, Campaign, DefeatReason, WarpTarget};
use solaris::hud::{
    apply_mute_request, close_credits, credits_closed, flight_hud_stats, open_credits_on_request,
    CreditsOpen, HudRequests, HudStats, VirtualFirePending,
};
use solaris::screens::{
    defeat_message, galaxy_screen_text, game_over_screen_text, level_banner, push_decimal,
    title_screen_text, warp_label, ScreenKind, ScreenText,
};

#[test]
fn screen_names() {
    assert_eq!(ScreenKind::Blank.as_str(), "");
    assert_eq!(ScreenKind::Title.as_str(), "title");
    assert_eq!(ScreenKind::GalaxyMap.as_str(), "galaxy_map");
    assert_eq!(ScreenKind::GameOver.as_str(), "game_over");
}

#[test]
fn defeat_messages() {
    assert_eq!(
        defeat_message(Some(DefeatReason::OutOfFuel)),
        "Your ship drifted, out of fuel, deep in Zerlak space."
    );
    assert_eq!(defeat_message(Some(DefeatReason::Destroyed)), "Your ship was destroyed by Zerlak fire.");
    assert_eq!(defeat_message(None), "Mission ended.");
}

#[test]
fn level_banner_names_the_level() {
    assert_eq!(level_banner(2), "LEVEL 2 - the Zerlak Empire regroups...");
    assert_eq!(level_banner(12), "LEVEL 12 - the Zerlak Empire regroups...");
    assert_eq!(level_banner(0), "LEVEL 0 - the Zerlak Empire regroups...");
    assert_eq!(level_banner(4294967295), "LEVEL 4294967295 - the Zerlak Empire regroups...");
    let mut s = String::from("x");
    push_decimal(&mut s, 1090);
    assert_eq!(s, "x1090");
}

#[test]
fn warp_labels() {
    assert_eq!(warp_label(WarpTarget(AppState::GalaxyMap)), "RETURNING");
    assert_eq!(warp_label(WarpTarget(AppState::Flight)), "WARPING");
}

#[test]
fn screen_texts() {
    let t = ScreenText::default();
    assert_eq!(t.screen, ScreenKind::Blank);
    assert_eq!(title_screen_text().screen, ScreenKind::Title);
    let mut c = Campaign::default();
    c.fuel = 42;
    c.level = 3;
    let g = galaxy_screen_text(&c, level_banner(3), 1250);
    assert_eq!((g.screen, g.fuel, g.level, g.countdown_ms), (ScreenKind::GalaxyMap, 42, 3, 1250));
    assert_eq!(g.banner, "LEVEL 3 - the Zerlak Empire regroups...");
    assert_eq!(g.defeat_reason, "");
    c.defeat_reason = Some(DefeatReason::Destroyed);
    let o = game_over_screen_text(&c);
    assert_eq!((o.screen, o.level), (ScreenKind::GameOver, 3));
    assert_eq!(o.defeat_reason, "Your ship was destroyed by Zerlak fire.");
}

#[test]
fn flight_readout_keeps_the_mute_flag() {
    let mut c = Campaign::default();
    c.health = 68;
    c.fuel = 90;
    c.score = 300;
    let mut current = HudStats::default();
    current.muted = true;
    let s = flight_hud_stats(4, &c, &current);
    assert_eq!(
        s,
        HudStats { visible: true, remaining: 4, health: 68, fuel: 90, score: 300, muted: true }
    );
}

#[test]
fn requests_are_used_once() {
    let mut r = HudRequests::default();
    r.record(true, false);
    r.record(false, false);
    assert!(r.toggle_mute);
    let mut muted = false;
    assert!(apply_mute_request(&mut r, &mut muted));
    assert!(muted);
    assert!(!apply_mute_request(&mut r, &mut muted));
    assert!(muted);
    r.restart_game = true;
    assert!(r.take_restart_game());
    assert!(!r.take_restart_game());
    r.audio_unlocked = true;
    assert!(r.take_audio_unlocked());
    assert!(!r.audio_unlocked);
}

#[test]
fn credits_panel_gates_input() {
    let mut open = CreditsOpen(false);
    assert!(credits_closed(&open));
    let mut r = HudRequests::default();
    open_credits_on_request(&mut r, &mut open);
    assert!(!open.0);
    r.record(false, true);
    open_credits_on_request(&mut r, &mut open);
    assert!(open.0);
    assert!(!r.open_credits);
    assert!(!credits_closed(&open));
    close_credits(&mut open, false, false);
    assert!(open.0);
    close_credits(&mut open, true, false);
    assert!(credits_closed(&open));
}

#[test]
fn fire_button_acts_once_per_press() {
    let mut f = VirtualFirePending(true);
    assert!(f.take());
    assert!(!f.take());
}
