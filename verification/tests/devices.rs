use echo_cli::audio_backend::{
    backend_status_line, check_default_format, map_frame, output_stream_info, select_output_range,
    stream_warnings, supported_output_sample_format, ChannelMapper, ChannelSource, OutputRange,
    SampleKind,
};
use echo_cli::audio_backend_wasapi::exclusive_status_line;
use echo_cli::decoder::{DecodeRequest, DecodeStreamInfo};
use echo_cli::device::{
    default_device_name, fallback_devices, is_default_word, list_devices, named_devices,
    normalize_selector, output_choice, select_from_devices, select_key, shell_device_lines,
    AudioDevice, DeviceKey, OutputChoice, Selection,
};
use echo_cli::error::EchoError;

fn device(id: &str, name: &str, is_default: bool) -> AudioDevice {
    AudioDevice {
        id: id.to_string(),
        name: name.to_string(),
        is_default,
    }
}

fn stream(sample_rate: u32, channel_count: u16) -> DecodeStreamInfo {
    DecodeStreamInfo {
        sample_rate,
        channel_count,
        bit_depth: None,
        duration_ms: None,
    }
}

fn range(channels: u16, min: u32, max: u32, kind: SampleKind) -> OutputRange {
    OutputRange {
        channels,
        min_sample_rate: min,
        max_sample_rate: max,
        kind,
    }
}

// ------------------------------------------------------------------ devices

#[test]
fn devices_are_numbered_and_the_default_is_marked() {
    let names = vec![Some("Speakers".to_string()), None, Some("USB DAC".to_string())];
    let default_name = Some("USB DAC".to_string());
    let expected = vec![
        device("cpal-output-0", "Speakers", false),
        device("cpal-output-1", "unknown output device 1", false),
        device("cpal-output-2", "USB DAC", true),
    ];
    assert_eq!(named_devices(&names, &default_name), expected);
    assert_eq!(list_devices(Some(names), default_name), expected);
}

#[test]
fn without_devices_the_system_default_stands_in() {
    let stand_in = vec![device("cpal-output-default", "system default", true)];
    assert_eq!(list_devices(None, None), stand_in);
    assert_eq!(list_devices(Some(Vec::new()), None), stand_in);
    assert_eq!(
        fallback_devices(Some("Speakers".to_string())),
        vec![device("cpal-output-default", "Speakers", true)]
    );
    assert_eq!(default_device_name(None), "no default output device found");
    assert_eq!(default_device_name(Some("Speakers".to_string())), "Speakers");
}

#[test]
fn selectors_are_trimmed_and_lowered() {
    assert_eq!(normalize_selector("  USB Dac É "), "usb dac é");
    for word in ["default", "system", "auto", "clear", "reset", "默认", "系统默认"] {
        assert!(is_default_word(word));
        assert_eq!(output_choice(Some(word)), OutputChoice::SystemDefault);
    }
    assert!(!is_default_word("Default"));
    assert_eq!(output_choice(None), OutputChoice::SystemDefault);
    assert_eq!(output_choice(Some("   ")), OutputChoice::SystemDefault);
    assert_eq!(output_choice(Some(" DEFAULT ")), OutputChoice::SystemDefault);
    assert_eq!(
        output_choice(Some(" USB DAC ")),
        OutputChoice::Named("USB DAC".to_string())
    );
}

#[test]
fn a_device_is_chosen_by_id_name_or_part_of_its_name() {
    let devices = vec![
        device("cpal-output-0", "Speakers (Realtek)", true),
        device("cpal-output-1", "Headphones", false),
        device("cpal-output-2", "Speakers (USB)", false),
    ];
    assert_eq!(select_from_devices(&devices, "CPAL-OUTPUT-1"), Ok(1));
    assert_eq!(select_from_devices(&devices, " headphones "), Ok(1));
    assert_eq!(select_from_devices(&devices, "usb"), Ok(2));
    assert_eq!(
        select_from_devices(&devices, "speakers"),
        Err(EchoError::Audio(
            "output device selector 'speakers' is ambiguous".to_string()
        ))
    );
    assert_eq!(
        select_from_devices(&devices, "hdmi"),
        Err(EchoError::Audio("no output device matches 'hdmi'".to_string()))
    );
    assert_eq!(
        select_from_devices(&[], "hdmi"),
        Err(EchoError::Audio("no output devices found".to_string()))
    );
}

#[test]
fn an_exact_name_wins_over_a_part() {
    let key = |id: &str, name: &str| DeviceKey {
        id: id.to_string(),
        name: name.to_string(),
    };
    let keys = vec![key("a", "speakers two"), key("b", "speakers")];
    assert_eq!(select_key(&keys, "speakers"), Selection::Found(1));
    assert_eq!(select_key(&keys, "two"), Selection::Found(0));
    assert_eq!(select_key(&keys, "speaker"), Selection::Ambiguous);
    assert_eq!(select_key(&keys, "x"), Selection::NoMatch);
    assert_eq!(select_key(&[], "x"), Selection::NoDevices);
}

#[test]
fn the_shell_lists_devices_with_their_ids() {
    assert_eq!(
        shell_device_lines(&[device("a", "Speakers", true), device("b", "USB", false)]),
        vec!["Speakers [a] default".to_string(), "USB [b]".to_string()]
    );
}

// ------------------------------------------------------------------ output

#[test]
fn status_lines_name_the_platform() {
    assert_eq!(
        backend_status_line(true),
        "CPAL shared output over Windows audio; WASAPI exclusive planned"
    );
    assert_eq!(
        backend_status_line(false),
        "CPAL shared output; Windows is the primary target"
    );
    assert_ne!(exclusive_status_line(true), exclusive_status_line(false));
}

#[test]
fn the_range_with_the_same_channels_and_floats_is_preferred() {
    let ranges = [
        range(2, 8_000, 192_000, SampleKind::I16),
        range(2, 8_000, 192_000, SampleKind::F32),
        range(1, 8_000, 192_000, SampleKind::F32),
        range(2, 8_000, 192_000, SampleKind::Other),
    ];
    assert_eq!(select_output_range(&ranges, stream(44_100, 2)), Some(1));
    assert_eq!(select_output_range(&ranges, stream(44_100, 1)), Some(2));
    // No range has six channels: floats first, then the fewest channels.
    assert_eq!(select_output_range(&ranges, stream(44_100, 6)), Some(2));
    assert_eq!(select_output_range(&ranges[..1], stream(44_100, 2)), Some(0));
    assert_eq!(select_output_range(&ranges[3..], stream(44_100, 2)), None);
    assert_eq!(select_output_range(&ranges, stream(384_000, 2)), None);
    assert_eq!(select_output_range(&[], stream(44_100, 2)), None);
}

#[test]
fn a_rate_outside_the_best_range_falls_to_the_next() {
    let ranges = [
        range(2, 44_100, 44_100, SampleKind::F32),
        range(2, 48_000, 48_000, SampleKind::U16),
        range(8, 8_000, 96_000, SampleKind::F32),
    ];
    assert_eq!(select_output_range(&ranges, stream(48_000, 2)), Some(1));
    assert_eq!(select_output_range(&ranges, stream(96_000, 2)), Some(2));
}

#[test]
fn the_first_of_equal_ranges_is_taken() {
    let ranges = [
        range(2, 96_000, 96_000, SampleKind::F32),
        range(2, 44_100, 48_000, SampleKind::F32),
        range(2, 44_100, 96_000, SampleKind::F32),
    ];
    assert_eq!(select_output_range(&ranges, stream(48_000, 2)), Some(1));
}

#[test]
fn sample_formats_are_supported_or_refused() {
    for kind in [SampleKind::F32, SampleKind::I16, SampleKind::U16] {
        assert!(supported_output_sample_format(kind));
        assert_eq!(check_default_format(kind, "any"), Ok(()));
    }
    assert!(!supported_output_sample_format(SampleKind::Other));
    assert_eq!(
        check_default_format(SampleKind::Other, "I32"),
        Err(EchoError::Audio(
            "unsupported default output sample format: I32".to_string()
        ))
    );
}

#[test]
fn differences_from_the_stream_are_told() {
    assert_eq!(stream_warnings(44_100, 2, stream(44_100, 2)), Vec::<String>::new());
    assert_eq!(
        stream_warnings(48_000, 2, stream(44_100, 1)),
        vec![
            "sample-rate conversion 44100 Hz -> 48000 Hz".to_string(),
            "channel mapping 1ch -> 2ch".to_string(),
        ]
    );
    let info = output_stream_info(
        None,
        48_000,
        2,
        "F32".to_string(),
        "Default".to_string(),
        stream(48_000, 1),
    );
    assert_eq!(info.device_name, "unknown output device");
    assert_eq!(info.mode, "shared");
    assert_eq!(info.warnings, vec!["channel mapping 1ch -> 2ch".to_string()]);
}

#[test]
fn requests_name_a_file() {
    let request = DecodeRequest {
        path: "a.flac".to_string(),
    };
    assert_eq!(request.path, "a.flac");
}

// ------------------------------------------------------------------ channels

#[test]
fn every_output_channel_has_its_source() {
    assert_eq!(map_frame(2, 0), vec![]);
    assert_eq!(map_frame(0, 2), vec![ChannelSource::Silence, ChannelSource::Silence]);
    assert_eq!(map_frame(0, 1), vec![ChannelSource::Silence]);
    assert_eq!(map_frame(1, 1), vec![ChannelSource::Source(0)]);
    assert_eq!(map_frame(1, 3), vec![ChannelSource::Source(0), ChannelSource::Source(0), ChannelSource::Source(0)]);
    assert_eq!(map_frame(6, 1), vec![ChannelSource::AverageOfFirstTwo]);
    assert_eq!(map_frame(6, 2), vec![ChannelSource::Source(0), ChannelSource::Source(1)]);
    assert_eq!(map_frame(2, 3), vec![ChannelSource::Source(0), ChannelSource::Source(1), ChannelSource::Silence]);
}

#[test]
fn samples_leave_in_the_order_they_came() {
    let mut mapper: ChannelMapper<f32> = ChannelMapper::new(2, 4);
    assert!(mapper.is_starved());
    assert_eq!(mapper.pop_sample(), None);
    mapper.receive(vec![0.1, 0.2, 0.3]);
    assert_eq!(mapper.pop_sample(), Some(0.1));
    mapper.receive(vec![0.4]);
    mapper.receive(Vec::new());
    assert!(!mapper.is_starved());
    assert_eq!(mapper.pop_sample(), Some(0.2));
    assert_eq!(mapper.pop_sample(), Some(0.3));
    assert_eq!(mapper.pop_sample(), Some(0.4));
    assert_eq!(mapper.pop_sample(), None);
    assert!(mapper.is_starved());
    assert_eq!(mapper.frame_sources(), map_frame(2, 4));
}
