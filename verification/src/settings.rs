//! The scalar audio settings of the configuration and the partial updates
//! clients send for them.

use vstd::prelude::*;

verus! {

/// The scalar audio settings of the configuration.
#[derive(Debug, Clone, PartialEq, Eq)]
pub struct AudioSettings {
    /// Sample rate in Hz (e.g. 48000).
    pub sample_rate: u32,
    /// Samples per processing block.
    pub buffer_size: u32,
    /// Audio device name ("default" or a device name).
    pub audio_device: String,
    /// Number of physical input channels.
    pub in_channels: u16,
    /// Number of physical output channels.
    pub out_channels: u16,
}

/// A partial update of the audio settings: every field is optional, so a
/// client sends only what it changes.
#[derive(Debug, Clone, PartialEq, Eq)]
pub struct ConfigPatch {
    pub sample_rate: Option<u32>,
    pub buffer_size: Option<u32>,
    pub audio_device: Option<String>,
    pub in_channels: Option<u16>,
    pub out_channels: Option<u16>,
}

/// `new` is `old` with every field the patch carries replaced.
pub open spec fn patched(old: AudioSettings, p: ConfigPatch, new: AudioSettings) -> bool {
    &&& new.sample_rate == (match p.sample_rate {
        Some(v) => v,
        None => old.sample_rate,
    })
    &&& new.buffer_size == (match p.buffer_size {
        Some(v) => v,
        None => old.buffer_size,
    })
    &&& new.audio_device@ == (match p.audio_device {
        Some(v) => v@,
        None => old.audio_device@,
    })
    &&& new.in_channels == (match p.in_channels {
        Some(v) => v,
        None => old.in_channels,
    })
    &&& new.out_channels == (match p.out_channels {
        Some(v) => v,
        None => old.out_channels,
    })
}

impl ConfigPatch {
    /// The full patch describing `cfg`: every field present.
    pub fn from_config(cfg: &AudioSettings) -> (r: ConfigPatch)
        ensures
            r.sample_rate == Some(cfg.sample_rate),
            r.buffer_size == Some(cfg.buffer_size),
            r.audio_device is Some && r.audio_device->0@ == cfg.audio_device@,
            r.in_channels == Some(cfg.in_channels),
            r.out_channels == Some(cfg.out_channels),
    {
        ConfigPatch {
            sample_rate: Some(cfg.sample_rate),
            buffer_size: Some(cfg.buffer_size),
            audio_device: Some(cfg.audio_device.clone()),
            in_channels: Some(cfg.in_channels),
            out_channels: Some(cfg.out_channels),
        }
    }
}

impl AudioSettings {
    /// Replace every field that `p` carries.
    pub fn apply_patch(&mut self, p: &ConfigPatch)
        ensures
            patched(*old(self), *p, *final(self)),
    {
        if let Some(v) = p.sample_rate {
            self.sample_rate = v;
        }
        if let Some(v) = p.buffer_size {
            self.buffer_size = v;
        }
        if let Some(v) = &p.audio_device {
            self.audio_device = v.clone();
        }
        if let Some(v) = p.in_channels {
            self.in_channels = v;
        }
        if let Some(v) = p.out_channels {
            self.out_channels = v;
        }
    }
}

/// Applying the full patch of a configuration to it changes nothing, and
/// the empty patch changes nothing either.
pub proof fn law_own_patch_is_identity(cfg: AudioSettings, p: ConfigPatch, after: AudioSettings)
    requires
        p.sample_rate == Some(cfg.sample_rate),
        p.buffer_size == Some(cfg.buffer_size),
        p.audio_device is Some && p.audio_device->0@ == cfg.audio_device@,
        p.in_channels == Some(cfg.in_channels),
        p.out_channels == Some(cfg.out_channels),
        patched(cfg, p, after),
    ensures
        after.sample_rate == cfg.sample_rate,
        after.buffer_size == cfg.buffer_size,
        after.audio_device@ == cfg.audio_device@,
        after.in_channels == cfg.in_channels,
        after.out_channels == cfg.out_channels,
{
}

/// Patching twice with the same patch is patching once.
pub proof fn law_patch_idempotent(
    cfg: AudioSettings,
    p: ConfigPatch,
    once: AudioSettings,
    twice: AudioSettings,
)
    requires
        patched(cfg, p, once),
        patched(once, p, twice),
    ensures
        twice.sample_rate == once.sample_rate,
        twice.buffer_size == once.buffer_size,
        twice.audio_device@ == once.audio_device@,
        twice.in_channels == once.in_channels,
        twice.out_channels == once.out_channels,
{
}

} // verus!
