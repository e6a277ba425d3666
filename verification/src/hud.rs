use vstd::prelude::*;
use crate::campaign::Campaign;

verus! {

/// Live values of the combat readout: fighters remaining, hull, fuel and
/// score. `visible` gates the readout, which only means something during a
/// fight; `muted` drives the mute button's icon on every screen.
#[derive(Clone, Copy, PartialEq, Eq, Debug, Structural)]
pub struct HudStats {
    pub visible: bool,
    pub remaining: u32,
    pub health: u32,
    pub fuel: u32,
    pub score: u32,
    pub muted: bool,
}

impl Default for HudStats {
    /// Hidden, every value zero, sound on.
    fn default() -> (s: Self)
        ensures
            s == (HudStats { visible: false, remaining: 0, health: 0, fuel: 0, score: 0, muted: false }),
    {
        HudStats { visible: false, remaining: 0, health: 0, fuel: 0, score: 0, muted: false }
    }
}

/// The combat readout for the current fight; the mute flag is carried over
/// from `current` as it stands.
pub fn flight_hud_stats(remaining: u32, campaign: &Campaign, current: &HudStats) -> (s: HudStats)
    ensures
        s == (HudStats {
            visible: true,
            remaining,
            health: campaign.health,
            fuel: campaign.fuel,
            score: campaign.score,
            muted: current.muted,
        }),
{
    HudStats {
        visible: true,
        remaining,
        health: campaign.health,
        fuel: campaign.fuel,
        score: campaign.score,
        muted: current.muted,
    }
}

/// Requests from the overlay's buttons, waiting to be applied once per frame.
#[derive(Clone, Copy, PartialEq, Eq, Debug, Structural)]
pub struct HudRequests {
    pub toggle_mute: bool,
    pub open_credits: bool,
    pub restart_game: bool,
    pub audio_unlocked: bool,
}

impl Default for HudRequests {
    /// Nothing requested.
    fn default() -> (r: Self)
        ensures
            r == (HudRequests {
                toggle_mute: false,
                open_credits: false,
                restart_game: false,
                audio_unlocked: false,
            }),
    {
        HudRequests { toggle_mute: false, open_credits: false, restart_game: false, audio_unlocked: false }
    }
}

/// Reads a pending flag and clears it.
fn take_flag(flag: &mut bool) -> (was_set: bool)
    ensures
        was_set == *old(flag),
        *final(flag) == false,
{
    let was_set = *flag;
    *flag = false;
    was_set
}

impl HudRequests {
    /// Records the button presses polled from the overlay this frame; a
    /// request already pending stays pending.
    pub fn record(&mut self, toggle_mute: bool, open_credits: bool)
        ensures
            *final(self) == (HudRequests {
                toggle_mute: old(self).toggle_mute || toggle_mute,
                open_credits: old(self).open_credits || open_credits,
                ..*old(self)
            }),
    {
        if toggle_mute {
            self.toggle_mute = true;
        }
        if open_credits {
            self.open_credits = true;
        }
    }

    /// Whether a mute toggle was requested; the request is used up.
    pub fn take_toggle_mute(&mut self) -> (requested: bool)
        ensures
            requested == old(self).toggle_mute,
            *final(self) == (HudRequests { toggle_mute: false, ..*old(self) }),
    {
        take_flag(&mut self.toggle_mute)
    }

    /// Whether the credits panel was requested; the request is used up.
    pub fn take_open_credits(&mut self) -> (requested: bool)
        ensures
            requested == old(self).open_credits,
            *final(self) == (HudRequests { open_credits: false, ..*old(self) }),
    {
        take_flag(&mut self.open_credits)
    }

    /// Whether a new run was requested; the request is used up.
    pub fn take_restart_game(&mut self) -> (requested: bool)
        ensures
            requested == old(self).restart_game,
            *final(self) == (HudRequests { restart_game: false, ..*old(self) }),
    {
        take_flag(&mut self.restart_game)
    }

    /// Whether the page has unlocked audio; the notice is used up.
    pub fn take_audio_unlocked(&mut self) -> (requested: bool)
        ensures
            requested == old(self).audio_unlocked,
            *final(self) == (HudRequests { audio_unlocked: false, ..*old(self) }),
    {
        take_flag(&mut self.audio_unlocked)
    }
}

/// Applies a pending mute toggle: the sound flips between muted and on.
/// Returns whether it flipped.
pub fn apply_mute_request(requests: &mut HudRequests, muted: &mut bool) -> (toggled: bool)
    ensures
        toggled == old(requests).toggle_mute,
        *final(requests) == (HudRequests { toggle_mute: false, ..*old(requests) }),
        *final(muted) == (if toggled { !*old(muted) } else { *old(muted) }),
{
    if !requests.take_toggle_mute() {
        return false;
    }
    *muted = !*muted;
    true
}

/// Whether the credits panel is open.
#[derive(Clone, Copy, PartialEq, Eq, Debug, Structural)]
pub struct CreditsOpen(pub bool);

/// Run condition of the gameplay input: true unless the credits panel is
/// open, so a click that closes it cannot also count as a shot, a sector
/// pick or any other action underneath.
pub fn credits_closed(credits_open: &CreditsOpen) -> (closed: bool)
    ensures
        closed == !credits_open.0,
{
    !credits_open.0
}

/// Opens the credits panel when the overlay asked for it.
pub fn open_credits_on_request(requests: &mut HudRequests, credits_open: &mut CreditsOpen)
    ensures
        *final(requests) == (HudRequests { open_credits: false, ..*old(requests) }),
        final(credits_open).0 == (old(credits_open).0 || old(requests).open_credits),
{
    if requests.take_open_credits() {
        credits_open.0 = true;
    }
}

/// Closes the credits panel on Escape or on its close button.
pub fn close_credits(credits_open: &mut CreditsOpen, escape_pressed: bool, close_pressed: bool)
    ensures
        final(credits_open).0 == (old(credits_open).0 && !escape_pressed && !close_pressed),
{
    if escape_pressed || close_pressed {
        credits_open.0 = false;
    }
}

/// Set when the on-screen fire button is pressed; used up by the screen
/// that handles it, so it acts once per press.
#[derive(Clone, Copy, PartialEq, Eq, Debug, Structural)]
pub struct VirtualFirePending(pub bool);

impl VirtualFirePending {
    /// Whether the button was pressed since last asked; the press is used up.
    pub fn take(&mut self) -> (fired: bool)
        ensures
            fired == old(self).0,
            final(self).0 == false,
    {
        take_flag(&mut self.0)
    }
}

} // verus!
