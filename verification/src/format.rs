//! Output format negotiation.
//!
//! The host asks for a format; the engine answers with the debug/text
//! pass-through when that is what was asked for, and with its one canonical
//! waveform description otherwise. Engines of this family do not transcode;
//! the host resamples if it needs to.

use vstd::prelude::*;

use crate::guid::guid_eq;
use crate::guid::Guid;

verus! {

/// Flag bit in a speak request asking for punctuation to be spoken out.
pub const SPEAK_PUNCTUATION_FLAG: u32 = 64;

/// A waveform description: linear PCM fields as the host expects them.
#[derive(Clone, Copy, Debug, PartialEq, Eq, Structural)]
pub struct WaveFormat {
    /// Encoding tag; `1` is linear PCM.
    pub format_tag: u16,
    /// Number of interleaved channels.
    pub channels: u16,
    /// Sample frames per second.
    pub samples_per_sec: u32,
    /// Bytes per second: sample rate times block alignment.
    pub avg_bytes_per_sec: u32,
    /// Bytes per sample frame over all channels.
    pub block_align: u16,
    /// Bits per sample of one channel.
    pub bits_per_sample: u16,
    /// Bytes of extra description following the structure.
    pub extra_bytes: u16,
}

/// An output format: the debug/text pass-through, or a waveform.
#[derive(Clone, Copy, Debug, PartialEq, Eq, Structural)]
pub enum SpeechFormat {
    /// Text written through for debugging; engines need not support it.
    DebugText,
    /// Audio in the described waveform.
    Wave(WaveFormat),
}

/// The identifier marking the debug/text output format.
pub fn text_format_id() -> (r: Guid)
    ensures
        r == spec_text_format_id(),
{
    Guid {
        data1: 0x7CEEF9F9,
        data2: 0x3D13,
        data3: 0x11D2,
        data4: [0x9Eu8, 0xE7u8, 0x00u8, 0xC0u8, 0x4Fu8, 0x79u8, 0x73u8, 0x96u8],
    }
}

/// Field-wise value of the debug/text format identifier.
pub open spec fn spec_text_format_id() -> Guid {
    Guid {
        data1: 0x7CEEF9F9,
        data2: 0x3D13,
        data3: 0x11D2,
        data4: [0x9Eu8, 0xE7u8, 0x00u8, 0xC0u8, 0x4Fu8, 0x79u8, 0x73u8, 0x96u8],
    }
}

/// The identifier marking a waveform description.
pub fn wave_format_id() -> (r: Guid)
    ensures
        r == spec_wave_format_id(),
{
    Guid {
        data1: 0xC31ADBAE,
        data2: 0x527F,
        data3: 0x4FF5,
        data4: [0xA2u8, 0x30u8, 0xF6u8, 0x2Bu8, 0xB6u8, 0x1Fu8, 0xF7u8, 0x0Cu8],
    }
}

/// Field-wise value of the waveform format identifier.
pub open spec fn spec_wave_format_id() -> Guid {
    Guid {
        data1: 0xC31ADBAE,
        data2: 0x527F,
        data3: 0x4FF5,
        data4: [0xA2u8, 0x30u8, 0xF6u8, 0x2Bu8, 0xB6u8, 0x1Fu8, 0xF7u8, 0x0Cu8],
    }
}

/// A 16-bit mono linear-PCM waveform at the given sample rate.
pub fn pcm_mono_16(samples_per_sec: u32) -> (r: WaveFormat)
    requires
        2 * samples_per_sec <= u32::MAX,
    ensures
        r == (WaveFormat {
            format_tag: 1,
            channels: 1,
            samples_per_sec,
            avg_bytes_per_sec: (2 * samples_per_sec) as u32,
            block_align: 2,
            bits_per_sample: 16,
            extra_bytes: 0,
        }),
{
    WaveFormat {
        format_tag: 1,
        channels: 1,
        samples_per_sec,
        avg_bytes_per_sec: 2 * samples_per_sec,
        block_align: 2,
        bits_per_sample: 16,
        extra_bytes: 0,
    }
}

/// Whether a speak request asks for punctuation to be spoken out.
pub fn wants_punctuation(speak_flags: u32) -> (r: bool)
    ensures
        r == (speak_flags & SPEAK_PUNCTUATION_FLAG != 0),
{
    speak_flags & SPEAK_PUNCTUATION_FLAG != 0
}

/// Negotiates the engine's answer to a format request: the debug/text
/// pass-through is returned unchanged when explicitly requested, and the
/// engine's canonical waveform in every other case, whatever was asked for.
pub fn get_output_format(canonical: &WaveFormat, target: &Option<SpeechFormat>) -> (r: SpeechFormat)
    ensures
        r == (if *target matches Option::Some(SpeechFormat::DebugText) {
            SpeechFormat::DebugText
        } else {
            SpeechFormat::Wave(*canonical)
        }),
{
    if let Some(SpeechFormat::DebugText) = target {
        SpeechFormat::DebugText
    } else {
        SpeechFormat::Wave(*canonical)
    }
}

/// The format a speak call renders in: the waveform when one was handed over,
/// the debug/text pass-through when none was.
pub fn decode_speak_format(wave: Option<&WaveFormat>) -> (r: SpeechFormat)
    ensures
        r == (match wave {
            Option::Some(w) => SpeechFormat::Wave(*w),
            Option::None => SpeechFormat::DebugText,
        }),
{
    match wave {
        Some(w) => SpeechFormat::Wave(*w),
        None => SpeechFormat::DebugText,
    }
}

/// The format a negotiation request targets: a waveform when one was handed
/// over, the debug/text pass-through when only an identifier was, and no
/// preference when neither was.
pub fn decode_target_format(format_id_present: bool, wave: Option<&WaveFormat>) -> (r: Option<
    SpeechFormat,
>)
    ensures
        r == (match wave {
            Option::Some(w) => Option::Some(SpeechFormat::Wave(*w)),
            Option::None => if format_id_present {
                Option::Some(SpeechFormat::DebugText)
            } else {
                Option::<SpeechFormat>::None
            },
        }),
{
    match wave {
        Some(w) => Some(SpeechFormat::Wave(*w)),
        None => {
            if format_id_present {
                Some(SpeechFormat::DebugText)
            } else {
                None
            }
        },
    }
}

/// What the shell writes back for a negotiated format: the format's
/// identifier, and for a waveform the description itself with any trailing
/// extra bytes disowned (none were allocated).
pub fn format_reply(format: &SpeechFormat) -> (r: (Guid, Option<WaveFormat>))
    ensures
        match format {
            SpeechFormat::DebugText => r == (spec_text_format_id(), Option::<WaveFormat>::None),
            SpeechFormat::Wave(w) => r == (
                spec_wave_format_id(),
                Option::Some(WaveFormat { extra_bytes: 0, ..*w }),
            ),
        },
{
    match format {
        SpeechFormat::DebugText => (text_format_id(), None),
        SpeechFormat::Wave(w) => {
            let mut out = *w;
            out.extra_bytes = 0;
            (wave_format_id(), Some(out))
        },
    }
}

/// Whether an identifier handed with a speak request names the debug/text
/// format (the only identifier a formatless request may carry).
pub fn is_text_format_id(id: &Guid) -> (r: bool)
    ensures
        r == (*id == spec_text_format_id()),
{
    guid_eq(id, &text_format_id())
}

} // verus!
