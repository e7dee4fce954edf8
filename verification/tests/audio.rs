//! Audio devices.

use extender::client::audio::{
    decode_sample_rate, encode_sample_rate, mute_set_cur_setup, sample_rate_get_cur_setup,
    sample_rate_set_cur_setup, volume_set_cur_setup, DEFAULT_EP_CAPTURE, DEFAULT_EP_PLAYBACK,
    DEFAULT_FEATURE_UNIT_ID,
};

#[test]
fn test_sample_rate_set_cur_setup() {
    let setup = sample_rate_set_cur_setup(0x01);
    assert_eq!(setup[0], 0x22); // bmRequestType: class, endpoint, host-to-device
    assert_eq!(setup[1], 0x01); // bRequest: SET_CUR
    assert_eq!(setup[2], 0x00); // wValue low
    assert_eq!(setup[3], 0x01); // wValue high: sampling freq control
    assert_eq!(setup[4], 0x01); // wIndex low: endpoint address
    assert_eq!(setup[5], 0x00); // wIndex high
    assert_eq!(setup[6], 0x03); // wLength low
    assert_eq!(setup[7], 0x00); // wLength high
}

#[test]
fn test_sample_rate_get_cur_setup() {
    let setup = sample_rate_get_cur_setup(0x82);
    assert_eq!(setup[0], 0xA2); // bmRequestType: class, endpoint, device-to-host
    assert_eq!(setup[1], 0x81); // bRequest: GET_CUR
    assert_eq!(setup[4], 0x82); // wIndex: endpoint address
    assert_eq!(setup[6], 0x03); // wLength: 3 bytes
}

#[test]
fn test_volume_set_cur_setup() {
    let setup = volume_set_cur_setup(1, 0x02);
    assert_eq!(setup[0], 0x21); // bmRequestType: class, interface, host-to-device
    assert_eq!(setup[1], 0x01); // bRequest: SET_CUR
    assert_eq!(setup[2], 1); // wValue low: channel
    assert_eq!(setup[3], 0x02); // wValue high: feature unit ID
    assert_eq!(setup[4], 0x02); // wIndex low: volume control selector
    assert_eq!(setup[6], 0x02); // wLength: 2 bytes
}

#[test]
fn test_mute_set_cur_setup() {
    let setup = mute_set_cur_setup(0, 0x05);
    assert_eq!(setup[0], 0x21); // bmRequestType
    assert_eq!(setup[1], 0x01); // SET_CUR
    assert_eq!(setup[2], 0); // channel 0 (master)
    assert_eq!(setup[3], 0x05); // feature unit ID
    assert_eq!(setup[4], 0x01); // mute control selector
    assert_eq!(setup[6], 0x01); // wLength: 1 byte
}

#[test]
fn test_encode_sample_rate_48000() {
    let encoded = encode_sample_rate(48000);
    // 48000 = 0xBB80
    assert_eq!(encoded, [0x80, 0xBB, 0x00]);
}

#[test]
fn test_encode_sample_rate_44100() {
    let encoded = encode_sample_rate(44100);
    // 44100 = 0xAC44
    assert_eq!(encoded, [0x44, 0xAC, 0x00]);
}

#[test]
fn test_encode_sample_rate_96000() {
    let encoded = encode_sample_rate(96000);
    // 96000 = 0x17700
    assert_eq!(encoded, [0x00, 0x77, 0x01]);
}

#[test]
fn test_decode_sample_rate() {
    assert_eq!(decode_sample_rate(&[0x80, 0xBB, 0x00]), 48000);
    assert_eq!(decode_sample_rate(&[0x44, 0xAC, 0x00]), 44100);
    assert_eq!(decode_sample_rate(&[0x00, 0x77, 0x01]), 96000);
}

#[test]
fn test_sample_rate_roundtrip() {
    for rate in [8000, 16000, 22050, 44100, 48000, 96000, 192000] {
        let encoded = encode_sample_rate(rate);
        let decoded = decode_sample_rate(&encoded);
        assert_eq!(decoded, rate, "roundtrip failed for rate {rate}");
    }
}

#[test]
fn test_audio_format_defaults() {
    // Verify default format parameters match common USB audio defaults.
    // We can't construct AudioDevice without a connection, so we test
    // the public helper functions and constants instead.
    assert_eq!(DEFAULT_EP_PLAYBACK, 0x01);
    assert_eq!(DEFAULT_EP_CAPTURE, 0x82);
    assert_eq!(DEFAULT_FEATURE_UNIT_ID, 0x02);
}
