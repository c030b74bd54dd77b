//! Sound cues that the simulation hands to the audio layer.

use vstd::prelude::*;

verus! {

#[derive(Debug, Clone, Copy, PartialEq, Eq, Hash, Structural)]
pub enum SoundType {
    PlayerShoot,
    BossShoot,
    Hit,
    Explosion,
    Join,
    PowerUp,
    Dash,
}

impl SoundType {
    /// The asset that holds this sound.
    pub fn file_path(&self) -> (r: &'static str)
        ensures
            r@ == match *self {
                SoundType::PlayerShoot => "assets/bullet.wav"@,
                SoundType::BossShoot => "assets/boss_bullet.wav"@,
                SoundType::Hit => "assets/hit.wav"@,
                SoundType::Explosion => "assets/explosion.wav"@,
                SoundType::Join => "assets/join.wav"@,
                SoundType::PowerUp => "assets/powerup.wav"@,
                SoundType::Dash => "assets/dash.wav"@,
            },
    {
        match self {
            SoundType::PlayerShoot => "assets/bullet.wav",
            SoundType::BossShoot => "assets/boss_bullet.wav",
            SoundType::Hit => "assets/hit.wav",
            SoundType::Explosion => "assets/explosion.wav",
            SoundType::Join => "assets/join.wav",
            SoundType::PowerUp => "assets/powerup.wav",
            SoundType::Dash => "assets/dash.wav",
        }
    }

    /// Playback volume in percent.
    pub fn volume_percent(&self) -> (r: u32)
        ensures
            r == match *self {
                SoundType::PlayerShoot => 70u32,
                SoundType::BossShoot => 80,
                SoundType::Hit => 60,
                SoundType::Explosion => 90,
                SoundType::Join => 50,
                SoundType::PowerUp => 80,
                SoundType::Dash => 90,
            },
    {
        match self {
            SoundType::PlayerShoot => 70,
            SoundType::BossShoot => 80,
            SoundType::Hit => 60,
            SoundType::Explosion => 90,
            SoundType::Join => 50,
            SoundType::PowerUp => 80,
            SoundType::Dash => 90,
        }
    }
}

/// The cue for a hit: an explosion when it was fatal.
pub open spec fn hit_cue(fatal: bool) -> SoundType {
    if fatal {
        SoundType::Explosion
    } else {
        SoundType::Hit
    }
}

pub fn hit_sound(fatal: bool) -> (r: SoundType)
    ensures
        r == hit_cue(fatal),
{
    if fatal {
        SoundType::Explosion
    } else {
        SoundType::Hit
    }
}

} // verus!
