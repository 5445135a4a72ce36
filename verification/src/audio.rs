//! Playback of server audio. Only PCM is offered.

use vstd::prelude::*;

verus! {

/// How samples are encoded.
#[derive(Clone, Copy, Debug, PartialEq, Eq, Structural)]
pub enum WaveFormat {
    /// Without compression.
    PCM,
    /// In any other way.
    Other,
}

/// The flag of a client that can set the volume.
pub const AUDIO_FLAG_VOLUME: u32 = 0x0000_0002;

/// A format of audio data.
#[derive(Debug)]
pub struct AudioFormat {
    pub format: WaveFormat,
    pub n_channels: u16,
    pub n_samples_per_sec: u32,
    pub n_avg_bytes_per_sec: u32,
    pub n_block_align: u16,
    pub bits_per_sample: u16,
    pub data: Option<Vec<u8>>,
}

/// What the page is told: samples to play.
#[derive(Debug)]
pub enum AudioBackendMessage {
    Pcm { rate: u32, channels: u16, bits: u16, data: Vec<u8> },
}

/// The audio backend: the formats that it offers.
#[derive(Debug)]
pub struct WasmAudioBackend {
    formats: Vec<AudioFormat>,
}

/// Sixteen-bit samples without compression: a block holds one sample for each channel.
pub open spec fn is_pcm16(format: AudioFormat, rate: u32, channels: u16) -> bool {
    &&& format.format == WaveFormat::PCM
    &&& format.n_channels == channels
    &&& format.n_samples_per_sec == rate
    &&& format.n_avg_bytes_per_sec == rate * channels * 2
    &&& format.n_block_align == channels * 2
    &&& format.bits_per_sample == 16
    &&& format.data is None
}

/// The offered rates and channel counts, most wanted first.
pub open spec fn offered() -> Seq<(u32, u16)> {
    seq![(44_100u32, 2u16), (48_000u32, 2u16), (22_050u32, 2u16), (16_000u32, 1u16)]
}

/// Samples that the page can play: eight or sixteen bits without compression.
pub open spec fn is_playable(format: AudioFormat) -> bool {
    format.format == WaveFormat::PCM && (format.bits_per_sample == 8 || format.bits_per_sample
        == 16)
}

fn pcm16(rate: u32, channels: u16) -> (r: AudioFormat)
    requires
        rate * channels * 2 <= u32::MAX,
        channels * 2 <= u16::MAX,
        rate * channels <= u32::MAX,
    ensures
        is_pcm16(r, rate, channels),
{
    AudioFormat {
        format: WaveFormat::PCM,
        n_channels: channels,
        n_samples_per_sec: rate,
        n_avg_bytes_per_sec: rate * channels as u32 * 2,
        n_block_align: channels * 2,
        bits_per_sample: 16,
        data: None,
    }
}

impl WasmAudioBackend {
    /// The formats that the backend offers.
    pub closed spec fn formats(self) -> Seq<AudioFormat> {
        self.formats@
    }

    /// A backend that offers four PCM formats.
    pub fn new() -> (r: Self)
        ensures
            r.formats().len() == offered().len(),
            forall|i: int|
                0 <= i < offered().len() ==> is_pcm16(
                    #[trigger] r.formats()[i],
                    offered()[i].0,
                    offered()[i].1,
                ),
    {
        let mut formats: Vec<AudioFormat> = Vec::new();
        formats.push(pcm16(44_100, 2));
        formats.push(pcm16(48_000, 2));
        formats.push(pcm16(22_050, 2));
        formats.push(pcm16(16_000, 1));
        WasmAudioBackend { formats }
    }

    /// The client can set the volume, and nothing else.
    pub fn get_flags(&self) -> (r: u32)
        ensures
            r == AUDIO_FLAG_VOLUME,
    {
        AUDIO_FLAG_VOLUME
    }

    /// The formats that the backend offers.
    pub fn get_formats(&self) -> (r: &[AudioFormat])
        ensures
            r@ == self.formats(),
    {
        self.formats.as_slice()
    }

    /// The message to the page for a block of samples, where the page can play it.
    pub fn wave(&mut self, format: &AudioFormat, data: Vec<u8>) -> (r: Option<AudioBackendMessage>)
        ensures
            final(self).formats() == old(self).formats(),
            match r {
                Some(AudioBackendMessage::Pcm { rate, channels, bits, data: samples }) => {
                    &&& is_playable(*format)
                    &&& rate == format.n_samples_per_sec
                    &&& channels == format.n_channels
                    &&& bits == format.bits_per_sample
                    &&& samples@ == data@
                },
                None => !is_playable(*format),
            },
    {
        if format.format == WaveFormat::PCM && (format.bits_per_sample == 8
            || format.bits_per_sample == 16) {
            Some(
                AudioBackendMessage::Pcm {
                    rate: format.n_samples_per_sec,
                    channels: format.n_channels,
                    bits: format.bits_per_sample,
                    data,
                },
            )
        } else {
            None
        }
    }
}

/// What is offered can be played: sixteen-bit PCM passes to the page.
pub proof fn law_offered_formats_are_playable(format: AudioFormat, rate: u32, channels: u16)
    requires
        is_pcm16(format, rate, channels),
    ensures
        is_playable(format),
{
}

/// Four formats are offered: stereo at 44.1, 48 and 22.05 kHz and mono at 16 kHz.
pub proof fn law_offered_rates()
    ensures
        offered().len() == 4,
        offered()[0] == (44_100u32, 2u16),
        offered()[1] == (48_000u32, 2u16),
        offered()[2] == (22_050u32, 2u16),
        offered()[3] == (16_000u32, 1u16),
{
}

/// An offered format at a rate with so many channels: uncompressed, sixteen bits, two bytes for
/// each channel in a block, and as many blocks in a second as the rate says.
pub proof fn law_offered_format(format: AudioFormat, rate: u32, channels: u16)
    requires
        is_pcm16(format, rate, channels),
    ensures
        format.format == WaveFormat::PCM,
        format.n_samples_per_sec == rate,
        format.n_channels == channels,
        format.bits_per_sample == 16,
        format.n_block_align == 2 * channels,
        format.n_avg_bytes_per_sec == rate * format.n_block_align,
        format.data is None,
{
    assert(rate * channels * 2 == rate * (2 * channels)) by (nonlinear_arith);
}

/// The page plays samples of eight or sixteen bits without compression, and no others.
pub proof fn law_playable(format: AudioFormat)
    ensures
        is_playable(format) <==> format.format == WaveFormat::PCM && (format.bits_per_sample == 8
            || format.bits_per_sample == 16),
{
}

/// Samples that the page can play are handed over with their rate, channels and width; others are
/// dropped.
pub proof fn law_wave_call(
    backend: &mut WasmAudioBackend,
    format: &AudioFormat,
    data: Vec<u8>,
    r: Option<AudioBackendMessage>,
)
    requires
        call_ensures(WasmAudioBackend::wave, (backend, format, data), r),
    ensures
        r is Some <==> format.format == WaveFormat::PCM && (format.bits_per_sample == 8
            || format.bits_per_sample == 16),
        r matches Some(AudioBackendMessage::Pcm { rate, channels, bits, data: samples }) ==> {
            &&& rate == format.n_samples_per_sec
            &&& channels == format.n_channels
            &&& bits == format.bits_per_sample
            &&& samples@ == data@
        },
        final(backend).formats() == old(backend).formats(),
{
}

/// A fresh backend offers its four formats and the volume flag.
pub proof fn law_offer_calls(
    fresh: WasmAudioBackend,
    backend: &WasmAudioBackend,
    flags: u32,
    formats: &[AudioFormat],
)
    requires
        call_ensures(WasmAudioBackend::new, (), fresh),
        call_ensures(WasmAudioBackend::get_flags, (backend,), flags),
        call_ensures(WasmAudioBackend::get_formats, (backend,), formats),
    ensures
        flags == 2,
        formats@ == backend.formats(),
        fresh.formats().len() == 4,
        is_pcm16(fresh.formats()[0], 44_100, 2),
        is_pcm16(fresh.formats()[1], 48_000, 2),
        is_pcm16(fresh.formats()[2], 22_050, 2),
        is_pcm16(fresh.formats()[3], 16_000, 1),
{
}

} // verus!
