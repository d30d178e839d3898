//! Sound effects and the clips that play them.

use vstd::prelude::*;

verus! {

/// Something that happened in the game and can be heard.
#[derive(Clone, Copy, Debug, PartialEq, Eq, Structural)]
pub enum SoundEffectEvent {
    CollisionSound,
    ShootBulletSound,
}

impl SoundEffectEvent {
    /// The path of this effect's clip among the game's assets.
    pub open spec fn clip_path(&self) -> Seq<char> {
        match self {
            SoundEffectEvent::CollisionSound => "soundfx/RockImpact3.mp3"@,
            SoundEffectEvent::ShootBulletSound => "soundfx/BulletWhoosh.mp3"@,
        }
    }

    /// The path of this effect's clip among the game's assets.
    pub fn clip(&self) -> (path: &'static str)
        ensures
            path@ == self.clip_path(),
    {
        match self {
            SoundEffectEvent::CollisionSound => "soundfx/RockImpact3.mp3",
            SoundEffectEvent::ShootBulletSound => "soundfx/BulletWhoosh.mp3",
        }
    }
}

} // verus!
