//! Audio playback.

use ironrdp_rdpsnd::pdu::AudioFormatFlags;
use ironrdp_web::audio::{
    AudioBackendMessage, AudioFormat, WasmAudioBackend, WaveFormat, AUDIO_FLAG_VOLUME,
};

fn format(tag: WaveFormat, bits: u16) -> AudioFormat {
    AudioFormat {
        format: tag,
        n_channels: 2,
        n_samples_per_sec: 8000,
        n_avg_bytes_per_sec: 0,
        n_block_align: 0,
        bits_per_sample: bits,
        data: None,
    }
}

#[test]
fn only_advertises_pcm_playback_formats() {
    let backend = WasmAudioBackend::new();
    assert!(!backend.get_formats().is_empty());
    assert!(backend.get_formats().iter().all(|format| format.format == WaveFormat::PCM));
    assert!(backend.get_formats().iter().all(|format| format.bits_per_sample == 16));
}

#[test]
fn offered_formats_have_consistent_rates() {
    let backend = WasmAudioBackend::new();
    let offered: Vec<(u32, u16, u32, u16)> = backend
        .get_formats()
        .iter()
        .map(|f| (f.n_samples_per_sec, f.n_channels, f.n_avg_bytes_per_sec, f.n_block_align))
        .collect();
    assert_eq!(
        offered,
        vec![
            (44_100, 2, 176_400, 4),
            (48_000, 2, 192_000, 4),
            (22_050, 2, 88_200, 4),
            (16_000, 1, 32_000, 2),
        ]
    );
    assert!(backend.get_formats().iter().all(|f| f.data.is_none()));
}

#[test]
fn the_volume_flag_is_that_of_the_protocol() {
    assert_eq!(AudioFormatFlags::VOLUME.bits(), AUDIO_FLAG_VOLUME);
    assert_eq!(WasmAudioBackend::new().get_flags(), AUDIO_FLAG_VOLUME);
}

#[test]
fn offered_formats_reach_the_page() {
    let offered: Vec<(u32, u16)> = WasmAudioBackend::new()
        .get_formats()
        .iter()
        .map(|f| (f.n_samples_per_sec, f.n_channels))
        .collect();
    let mut backend = WasmAudioBackend::new();
    for (rate, channels) in offered {
        let f = AudioFormat { n_samples_per_sec: rate, n_channels: channels, ..format(WaveFormat::PCM, 16) };
        assert!(backend.wave(&f, vec![0]).is_some());
    }
}

#[test]
fn samples_are_passed_on_unchanged() {
    let mut backend = WasmAudioBackend::new();
    match backend.wave(&format(WaveFormat::PCM, 8), vec![1, 2, 3]) {
        Some(AudioBackendMessage::Pcm { rate, channels, bits, data }) => {
            assert_eq!((rate, channels, bits, data), (8000, 2, 8, vec![1, 2, 3]));
        }
        None => panic!("playable samples"),
    }
}

#[test]
fn other_encodings_and_widths_are_dropped() {
    let mut backend = WasmAudioBackend::new();
    assert!(backend.wave(&format(WaveFormat::Other, 16), vec![1]).is_none());
    assert!(backend.wave(&format(WaveFormat::PCM, 24), vec![1]).is_none());
    assert!(backend.wave(&format(WaveFormat::PCM, 0), vec![1]).is_none());
}
