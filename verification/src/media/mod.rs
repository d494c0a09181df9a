use vstd::prelude::*;

pub mod wav;

use crate::game::game_loop::SoundEffect;

verus! {

/// The number of sound effects.
pub const SOUND_COUNT: usize = 11;

/// The file each sound effect is played from.
pub open spec fn sound_file(effect: SoundEffect) -> Seq<char> {
    match effect {
        SoundEffect::Move => "se_move.wav"@,
        SoundEffect::Rotate => "se_rotate.wav"@,
        SoundEffect::HardDrop => "se_hdrop.wav"@,
        SoundEffect::Hold => "se_hold.wav"@,
        SoundEffect::Kick => "se_spin.wav"@,
        SoundEffect::Clear => "se_clear_line.wav"@,
        SoundEffect::Tetris => "se_clear_tetris.wav"@,
        SoundEffect::TSpin => "se_clear_spin.wav"@,
        SoundEffect::BackToBack => "se_clear_btb.wav"@,
        SoundEffect::Fall => "se_down.wav"@,
        SoundEffect::Lose => "se_lose.wav"@,
    }
}

/// The file a sound effect is played from.
pub fn sound_file_name(effect: SoundEffect) -> (r: &'static str)
    ensures
        r@ == sound_file(effect),
{
    match effect {
        SoundEffect::Move => "se_move.wav",
        SoundEffect::Rotate => "se_rotate.wav",
        SoundEffect::HardDrop => "se_hdrop.wav",
        SoundEffect::Hold => "se_hold.wav",
        SoundEffect::Kick => "se_spin.wav",
        SoundEffect::Clear => "se_clear_line.wav",
        SoundEffect::Tetris => "se_clear_tetris.wav",
        SoundEffect::TSpin => "se_clear_spin.wav",
        SoundEffect::BackToBack => "se_clear_btb.wav",
        SoundEffect::Fall => "se_down.wav",
        SoundEffect::Lose => "se_lose.wav",
    }
}

/// Every sound effect, in the order of its file table.
pub fn all_sound_effects() -> (r: Vec<SoundEffect>)
    ensures
        r@.len() == SOUND_COUNT,
        forall|e: SoundEffect| r@.contains(e),
{
    let r = vec![
        SoundEffect::Move,
        SoundEffect::Rotate,
        SoundEffect::HardDrop,
        SoundEffect::Hold,
        SoundEffect::Kick,
        SoundEffect::Clear,
        SoundEffect::Tetris,
        SoundEffect::TSpin,
        SoundEffect::BackToBack,
        SoundEffect::Fall,
        SoundEffect::Lose,
    ];
    assert forall|e: SoundEffect| r@.contains(e) by {
        match e {
            SoundEffect::Move => assert(r@[0] == e),
            SoundEffect::Rotate => assert(r@[1] == e),
            SoundEffect::HardDrop => assert(r@[2] == e),
            SoundEffect::Hold => assert(r@[3] == e),
            SoundEffect::Kick => assert(r@[4] == e),
            SoundEffect::Clear => assert(r@[5] == e),
            SoundEffect::Tetris => assert(r@[6] == e),
            SoundEffect::TSpin => assert(r@[7] == e),
            SoundEffect::BackToBack => assert(r@[8] == e),
            SoundEffect::Fall => assert(r@[9] == e),
            SoundEffect::Lose => assert(r@[10] == e),
        }
    }
    r
}

/// What the sound player is asked to do.
#[derive(Debug, Clone, Copy, PartialEq, Eq, Structural)]
pub enum AudioCommand {
    Play(SoundEffect),
}

/// Something that plays the game's sounds.
pub trait AudioSink {
    fn play(&self, effect: SoundEffect);

    fn set_volume(&self, volume_percent: u8);
}

} // verus!
