use async_ffmpeg_sidecar::comma_iter::split_commas;
use async_ffmpeg_sidecar::decimal::{parse_decimal, Decimal};
use async_ffmpeg_sidecar::log_parser::{
    parse_time_str, try_parse_configuration, try_parse_duration, try_parse_input,
    try_parse_output, try_parse_progress, try_parse_stream, try_parse_version,
};

fn dec_f32(d: &Decimal) -> f32 {
    let mag = d.mantissa as f32 / 10f32.powi(d.scale as i32);
    if d.negative { -mag } else { mag }
}

fn dec_f64(d: &Decimal) -> f64 {
    let mag = d.mantissa as f64 / 10f64.powi(d.scale as i32);
    if d.negative { -mag } else { mag }
}

#[test]
fn test_parse_progress_v7() {
    let line = "[info] frame=    5 fps=0.0 q=-1.0 Lsize=      10KiB time=00:00:03.00 bitrate=  27.2kbits/s speed= 283x\n";
    let progress = try_parse_progress(line).unwrap();
    assert_eq!(progress.frame, 5);
    assert_eq!(dec_f32(&progress.fps), 0.0);
    assert_eq!(dec_f32(&progress.q), -1.0);
    assert_eq!(progress.size_kb, 10);
    assert_eq!(progress.time, "00:00:03.00");
    assert_eq!(dec_f32(&progress.bitrate_kbps), 27.2);
    assert_eq!(dec_f32(&progress.speed), 283.0);
}

#[test]
fn test_parse_progress_no_size() {
    let line = "[info] frame=  163 fps= 13 q=4.4 size=N/A time=00:13:35.00 bitrate=N/A speed=64.7x";
    let progress = try_parse_progress(line).unwrap();
    assert!(progress.frame == 163);
    assert!(dec_f32(&progress.fps) == 13.0);
    assert!(dec_f32(&progress.q) == 4.4);
    assert!(progress.size_kb == 0);
    assert!(progress.time == "00:13:35.00");
    assert!(dec_f32(&progress.bitrate_kbps) == 0.0);
    assert!(dec_f32(&progress.speed) == 64.7);
}

#[test]
fn test_parse_progress_empty() {
    let line =
        "[info] frame=    0 fps=0.0 q=-0.0 size=       0kB time=00:00:00.00 bitrate=N/A speed=N/A\n";
    let progress = try_parse_progress(line).unwrap();
    assert_eq!(progress.frame, 0);
    assert_eq!(dec_f32(&progress.fps), 0.0);
    assert_eq!(dec_f32(&progress.q), -0.0);
    assert_eq!(progress.size_kb, 0);
    assert_eq!(progress.time, "00:00:00.00");
    assert_eq!(dec_f32(&progress.bitrate_kbps), 0.0);
    assert_eq!(dec_f32(&progress.speed), 0.0);
}

#[test]
fn test_progress_legacy_kb_suffix() {
    let line = "frame= 1996 fps=1984 q=-1.0 Lsize=     372kB time=00:01:19.72 bitrate=  38.2kbits/s speed=79.2x";
    let progress = try_parse_progress(line).unwrap();
    assert_eq!(progress.frame, 1996);
    assert_eq!(dec_f32(&progress.fps), 1984.0);
    assert_eq!(dec_f32(&progress.q), -1.0);
    assert_eq!(progress.size_kb, 372);
    assert_eq!(progress.time, "00:01:19.72");
    assert_eq!(dec_f32(&progress.bitrate_kbps), 38.2);
    assert_eq!(dec_f32(&progress.speed), 79.2);
}

#[test]
fn test_progress_declines_without_frame() {
    assert!(try_parse_progress("[info] some unrelated line").is_none());
    assert!(try_parse_progress("[info] frame=x fps=1 q=1 size=1kB time=0 bitrate=1 speed=1x")
        .is_none());
}

#[test]
fn test_parse_time_examples() {
    assert_eq!(dec_f64(&parse_time_str("00:00:00.00").unwrap()), 0.0);
    assert_eq!(dec_f64(&parse_time_str("5").unwrap()), 5.0);
    assert_eq!(dec_f64(&parse_time_str("0.123").unwrap()), 0.123);
    assert_eq!(dec_f64(&parse_time_str("1:00.0").unwrap()), 60.0);
    assert_eq!(dec_f64(&parse_time_str("1:01.0").unwrap()), 61.0);
    assert_eq!(dec_f64(&parse_time_str("1:01:01.123").unwrap()), 3661.123);
    assert_eq!(parse_time_str("N/A"), None);
    assert_eq!(parse_time_str(""), None);
    assert_eq!(parse_time_str("1:2:3:4"), None);
}

#[test]
fn test_parse_time_keeps_exact_fraction() {
    // 1:01:01.123 == 3661.123 seconds: mantissa 3661123 at scale 3.
    let d = parse_time_str("1:01:01.123").unwrap();
    assert_eq!(d.negative, false);
    assert_eq!(d.mantissa, 3_661_123);
    assert_eq!(d.scale, 3);
}

#[test]
fn test_comma_splitter_respects_parens() {
    let segs = split_commas("yuv444p(tv, progressive), 320x240 [SAR 1:1 DAR 4:3], q=2-31");
    assert_eq!(
        segs,
        vec![
            "yuv444p(tv, progressive)".to_string(),
            " 320x240 [SAR 1:1 DAR 4:3]".to_string(),
            " q=2-31".to_string(),
        ]
    );
}

#[test]
fn test_comma_splitter_nested_depth() {
    let segs = split_commas("a(b(c,d),e),f");
    assert_eq!(segs, vec!["a(b(c,d),e)".to_string(), "f".to_string()]);
    assert_eq!(split_commas(""), vec!["".to_string()]);
    assert_eq!(split_commas("x,"), vec!["x".to_string(), "".to_string()]);
}

#[test]
fn test_parse_version_line() {
    let line = "[info] ffmpeg version 2023-01-18-git-ba36e6ed52-full_build-www.gyan.dev Copyright (c) 2000-2023 the FFmpeg developers";
    assert_eq!(
        try_parse_version(line).unwrap(),
        "2023-01-18-git-ba36e6ed52-full_build-www.gyan.dev"
    );
    assert!(try_parse_version("[info] something else").is_none());
}

#[test]
fn test_parse_configuration_line() {
    let line = "[info]   configuration: --enable-gpl --enable-version3 --enable-static";
    let flags = try_parse_configuration(line).unwrap();
    assert_eq!(flags.len(), 3);
    assert_eq!(flags[0], "--enable-gpl");
    assert_eq!(flags[1], "--enable-version3");
    assert_eq!(flags[2], "--enable-static");
}

#[test]
fn test_parse_input_line() {
    let line = "[info] Input #0, lavfi, from 'testsrc=duration=5':";
    assert_eq!(try_parse_input(line), Some(0));
    assert_eq!(try_parse_input("Input #17, mov, from 'a.mov':"), Some(17));
    assert_eq!(try_parse_input("[info] Output #0, mp4, to 'x':"), None);
}

#[test]
fn test_parse_output_line() {
    let line = "[info] Output #0, mp4, to 'test.mp4':";
    let output = try_parse_output(line).unwrap();
    assert_eq!(output.index, 0);
    assert_eq!(output.to, "test.mp4");
    assert_eq!(output.raw_log_message, line);
    assert!(try_parse_output("[info] Output #0, mp4:").is_none());
}

#[test]
fn test_parse_duration_line() {
    let line = "[info]   Duration: 00:00:05.00, start: 0.000000, bitrate: 16 kb/s";
    assert_eq!(dec_f64(&try_parse_duration(line).unwrap()), 5.0);
    assert_eq!(
        try_parse_duration("[info]   Duration: N/A, start: 0.000000, bitrate: N/A"),
        None
    );
}

#[test]
fn test_parse_video_stream_line() {
    let line = "[info]   Stream #1:5(eng): Video: h264 (avc1 / 0x31637661), yuv444p(tv, progressive), 320x240 [SAR 1:1 DAR 4:3], q=2-31, 25 fps, 12800 tbn";
    let stream = try_parse_stream(line).unwrap();
    assert_eq!(stream.format, "h264");
    assert_eq!(stream.language, "eng");
    assert_eq!(stream.parent_index, 1);
    assert_eq!(stream.stream_index, 5);
    assert!(stream.is_video());
    let video_data = stream.video_data().unwrap();
    assert_eq!(video_data.pix_fmt, "yuv444p");
    assert_eq!(video_data.width, 320);
    assert_eq!(video_data.height, 240);
    assert_eq!(dec_f32(&video_data.fps), 25.0);
}

#[test]
fn test_parse_video_stream_without_language() {
    let line = "[info]   Stream #0:0: Video: wrapped_avframe, rgb24, 320x240 [SAR 1:1 DAR 4:3], 25 fps, 25 tbr, 25 tbn";
    let stream = try_parse_stream(line).unwrap();
    assert_eq!(stream.format, "wrapped_avframe");
    assert_eq!(stream.language, "");
    assert_eq!(stream.parent_index, 0);
    assert_eq!(stream.stream_index, 0);
    assert!(stream.is_video());
    let video_data = stream.video_data().unwrap();
    assert_eq!(video_data.pix_fmt, "rgb24");
    assert_eq!(video_data.width, 320);
    assert_eq!(video_data.height, 240);
    assert_eq!(dec_f32(&video_data.fps), 25.0);
}

#[test]
fn test_parse_audio_stream_line() {
    let line = "[info]   Stream #3:10(ger): Audio: dts (DTS-HD MA), 48000 Hz, 7.1, s32p (24 bit)";
    let stream = try_parse_stream(line).unwrap();
    assert_eq!(stream.format, "dts");
    assert_eq!(stream.language, "ger");
    assert_eq!(stream.parent_index, 3);
    assert_eq!(stream.stream_index, 10);
    assert!(stream.is_audio());
    let audio_data = stream.audio_data().unwrap();
    assert_eq!(audio_data.sample_rate, 48000);
    assert_eq!(audio_data.channels, "7.1");
}

#[test]
fn test_parse_subtitle_stream_line() {
    let line = "[info]   Stream #0:4(eng): Subtitle: ass (default) (forced)";
    let stream = try_parse_stream(line).unwrap();
    assert_eq!(stream.format, "ass");
    assert_eq!(stream.language, "eng");
    assert_eq!(stream.parent_index, 0);
    assert_eq!(stream.stream_index, 4);
    assert!(stream.is_subtitle());
}

#[test]
fn test_parse_other_stream_with_bracketed_index() {
    let line = "[info]   Stream #0:2[0x3](eng): Data: bin_data (text / 0x74786574)";
    let stream = try_parse_stream(line).unwrap();
    assert_eq!(stream.format, "bin_data");
    assert_eq!(stream.language, "eng");
    assert_eq!(stream.parent_index, 0);
    assert_eq!(stream.stream_index, 2);
    assert!(stream.is_other());
}

#[test]
fn test_parse_decimal_shapes() {
    assert_eq!(
        parse_decimal("-1.0"),
        Some(Decimal { negative: true, mantissa: 10, scale: 1 })
    );
    assert_eq!(
        parse_decimal("283"),
        Some(Decimal { negative: false, mantissa: 283, scale: 0 })
    );
    assert_eq!(
        parse_decimal(".5"),
        Some(Decimal { negative: false, mantissa: 5, scale: 1 })
    );
    assert_eq!(parse_decimal("N/A"), None);
    assert_eq!(parse_decimal(""), None);
    assert_eq!(parse_decimal("1.2.3"), None);
}
