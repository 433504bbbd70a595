use looper_engine::frame::{Channels, Frame, TrackInput};
use looper_engine::single::Single;

fn single(x: f32) -> Single {
    Single { bits: x.to_bits() }
}

#[test]
fn a_mono_sample_fans_out_to_both_sides_untouched() {
    let f = Frame::mono(single(0.25));
    assert_eq!((f.l, f.r), (single(0.25), single(0.25)));
    assert_eq!(f.max_abs(), single(0.25));
    assert!(Frame::silent().is_silent());
    assert!(!f.is_silent());
    assert_eq!(f.channel(0), single(0.25));
    assert_eq!(f.channel(1), single(0.25));
    // An index that does not exist must not panic in an audio callback.
    assert_eq!(f.channel(7), single(0.25));
}

#[test]
fn a_track_input_knows_its_channel_count_and_its_device_channels() {
    let mono = TrackInput::Mono(0);
    assert_eq!(mono.channels(), Channels::Mono);
    assert_eq!(mono.channels().count(), 1);
    assert_eq!(mono.device_channel(0), 0);
    assert_eq!(mono.device_channel(1), 0, "mono liest immer denselben Kanal");
    assert_eq!(mono.label(), "1");

    let stereo = TrackInput::Stereo { left: 2, right: 3 };
    assert_eq!(stereo.channels(), Channels::Stereo);
    assert_eq!(stereo.channels().count(), 2);
    assert_eq!(stereo.device_channel(0), 2);
    assert_eq!(stereo.device_channel(1), 3);
    assert_eq!(stereo.highest(), 3);
    assert_eq!(stereo.pair(), [2, 3]);
    assert_eq!(stereo.label(), "3+4");

    assert_eq!(Channels::from_count(1), Channels::Mono);
    assert_eq!(Channels::from_count(2), Channels::Stereo);
    assert_eq!(Channels::from_count(3), Channels::Mono, "eine falsche Zahl erfindet keinen Kanal");
    assert_eq!(Channels::from_count(0), Channels::Mono);
    assert_eq!(Channels::Mono.index(), 0);
    assert_eq!(Channels::Stereo.index(), 1);
}

#[test]
fn each_side_of_a_frame_is_written_on_its_own() {
    let mut f = Frame::new(single(-0.5), single(0.25));
    assert_eq!(f.max_abs(), single(0.5));
    f.set_channel(1, single(-0.75));
    assert_eq!((f.l, f.r), (single(-0.5), single(-0.75)));
    f.set_channel(0, single(0.0));
    assert_eq!((f.l, f.r), (single(0.0), single(-0.75)));
    assert!(!f.is_silent());
    f.set_channel(1, single(-0.0));
    assert!(f.is_silent(), "minus null ist auch null");
}

#[test]
fn the_order_of_single_precision_numbers_is_the_machines() {
    let values = [
        f32::NEG_INFINITY,
        -3.5,
        -1.0,
        -1.0e-40,
        -0.0,
        0.0,
        1.0e-40,
        0.1,
        1.0,
        4.0,
        f32::INFINITY,
        f32::NAN,
    ];
    for a in values {
        for b in values {
            assert_eq!(single(a).at_most(single(b)), a <= b, "{a} <= {b}");
            assert_eq!(single(a).below(single(b)), a < b, "{a} < {b}");
        }
        assert_eq!(single(a).is_nan(), a.is_nan());
        assert_eq!(single(a).is_zero(), a == 0.0);
        assert_eq!(single(a).abs().bits, a.abs().to_bits());
        if !a.is_nan() {
            let clamped = a.clamp(-1.0, 1.0);
            assert_eq!(single(a).clamp(single(-1.0), single(1.0)), single(clamped));
            assert_eq!(single(a).within(single(-1.0), single(1.0)), (-1.0..=1.0).contains(&a));
        }
    }
    assert_eq!(single(f32::NAN).max(single(0.5)), single(0.5));
    assert_eq!(single(0.5).max(single(f32::NAN)), single(0.5));
    assert_eq!(single(0.25).max(single(0.75)), single(0.75));
}
