use async_ffmpeg_sidecar::decimal::Decimal;
use async_ffmpeg_sidecar::download::{
    ffmpeg_download_url, ffmpeg_manifest_url, parse_linux_version, parse_macos_version,
    parse_version_manifest, TargetArch, TargetOs,
};
use async_ffmpeg_sidecar::event::{FfmpegEvent, FfmpegInput, FfmpegOutput, LogLevel};
use async_ffmpeg_sidecar::lines::scan_line;
use async_ffmpeg_sidecar::metadata::FfmpegMetadata;
use async_ffmpeg_sidecar::stream::{join_error_texts, FfmpegEventStream};

fn mapping_event() -> FfmpegEvent {
    FfmpegEvent::ParsedStreamMapping("  Stream #0:0 -> #0:0".to_string())
}

fn output_stream_event() -> FfmpegEvent {
    FfmpegEvent::ParsedOutputStream(
        async_ffmpeg_sidecar::log_parser::try_parse_stream(
            "[info]   Stream #0:0: Video: rawvideo, rgb24, 320x240, 25 fps, 25 tbn",
        )
        .unwrap(),
    )
}

#[test]
fn test_aggregator_completion_exact_count() {
    let n = 3;
    let mut meta = FfmpegMetadata::new();
    for _ in 0..n {
        meta.handle_event(&mapping_event()).unwrap();
        assert!(!meta.is_completed());
    }
    for i in 0..n {
        meta.handle_event(&output_stream_event()).unwrap();
        assert_eq!(meta.is_completed(), i == n - 1);
    }
    assert!(meta.is_completed());
    // Once complete, any further update fails and leaves the state intact.
    let before = meta.clone();
    assert!(meta.handle_event(&mapping_event()).is_err());
    assert!(meta.handle_event(&output_stream_event()).is_err());
    assert_eq!(meta, before);
}

#[test]
fn test_aggregator_overcount_never_completes() {
    let n = 3;
    let mut meta = FfmpegMetadata::new();
    for _ in 0..(n + 1) {
        meta.handle_event(&mapping_event()).unwrap();
    }
    for _ in 0..n {
        meta.handle_event(&output_stream_event()).unwrap();
    }
    assert!(!meta.is_completed());
}

#[test]
fn test_aggregator_duration_requires_registered_input() {
    let mut meta = FfmpegMetadata::new();
    let duration_event = FfmpegEvent::ParsedDuration(async_ffmpeg_sidecar::event::FfmpegDuration {
        input_index: 0,
        duration: Decimal { negative: false, mantissa: 500, scale: 2 },
        raw_log_message: "  Duration: 00:00:05.00".to_string(),
    });
    assert!(meta.handle_event(&duration_event).is_err());

    let input_event = FfmpegEvent::ParsedInput(FfmpegInput {
        index: 0,
        duration: None,
        raw_log_message: "Input #0".to_string(),
    });
    meta.handle_event(&input_event).unwrap();
    meta.handle_event(&duration_event).unwrap();
    assert_eq!(
        meta.duration(),
        Some(Decimal { negative: false, mantissa: 500, scale: 2 })
    );
    assert_eq!(meta.inputs[0].index, 0);
}

#[test]
fn test_aggregator_ignores_unrelated_events() {
    let mut meta = FfmpegMetadata::new();
    meta.handle_event(&FfmpegEvent::Log(LogLevel::Info, "x".to_string())).unwrap();
    meta.handle_event(&FfmpegEvent::Error("boom".to_string())).unwrap();
    assert!(!meta.is_completed());
    assert!(meta.inputs.is_empty());
    assert!(meta.outputs.is_empty());

    let output_event = FfmpegEvent::ParsedOutput(FfmpegOutput {
        index: 0,
        to: "out.mp4".to_string(),
        raw_log_message: "Output #0, mp4, to 'out.mp4':".to_string(),
    });
    meta.handle_event(&output_event).unwrap();
    assert_eq!(meta.outputs.len(), 1);
    assert_eq!(meta.outputs[0].to, "out.mp4");
}

#[test]
fn test_stream_end_to_end() {
    let transcript = [
        "[info] ffmpeg version 6.0 Copyright (c) 2000-2023 the FFmpeg developers",
        "[info]   configuration: --enable-gpl --enable-libx264",
        "[info] Input #0, lavfi, from 'testsrc=duration=5':",
        "[info]   Duration: 00:00:05.00, start: 0.000000, bitrate: 16 kb/s",
        "[info]   Stream #0:0: Video: rawvideo, rgb24, 320x240 [SAR 1:1 DAR 4:3], 25 fps, 25 tbn",
        "[info] Stream mapping:",
        "[info]   Stream #0:0 -> #0:0 (rawvideo (native) -> h264 (libx264))",
        "[info] Output #0, mp4, to 'out.mp4':",
        "[info]   Stream #0:0: Video: h264, yuv420p, 320x240, 25 fps, 12800 tbn",
        "[info] frame=    5 fps=0.0 q=-1.0 Lsize=      10KiB time=00:00:03.00 bitrate=  27.2kbits/s speed= 283x",
    ];
    let mut stream = FfmpegEventStream::new();
    let mut events = Vec::new();
    for line in transcript.iter() {
        events.push(stream.push_line(Some(*line)).unwrap());
    }
    assert!(stream.push_line(None).is_none());

    assert!(matches!(events[0], FfmpegEvent::ParsedVersion(ref v) if v.version == "6.0"));
    assert!(matches!(events[1], FfmpegEvent::ParsedConfiguration(_)));
    assert!(matches!(events[2], FfmpegEvent::ParsedInput(ref i) if i.index == 0));
    assert!(matches!(events[3], FfmpegEvent::ParsedDuration(ref d) if d.input_index == 0));
    assert!(matches!(events[4], FfmpegEvent::ParsedInputStream(_)));
    assert!(matches!(events[5], FfmpegEvent::Log(LogLevel::Info, _)));
    assert!(matches!(events[6], FfmpegEvent::ParsedStreamMapping(_)));
    assert!(matches!(events[7], FfmpegEvent::ParsedOutput(ref o) if o.to == "out.mp4"));
    assert!(matches!(events[8], FfmpegEvent::ParsedOutputStream(_)));
    assert!(matches!(events[9], FfmpegEvent::Progress(_)));

    let meta = stream.metadata();
    assert!(meta.is_completed());
    assert_eq!(
        meta.duration(),
        Some(Decimal { negative: false, mantissa: 500, scale: 2 })
    );
    assert_eq!(meta.inputs.len(), 1);
    assert_eq!(meta.outputs.len(), 1);
    assert_eq!(meta.input_streams.len(), 1);
    assert_eq!(meta.output_streams.len(), 1);
}

#[test]
fn test_stream_unexpected_specification_is_error_event() {
    let mut stream = FfmpegEventStream::new();
    let line = "[info]   Stream #0:0: Video: rawvideo, rgb24, 320x240, 25 fps, 25 tbn";
    let event = stream.push_line(Some(line)).unwrap();
    match event {
        FfmpegEvent::Error(msg) => {
            assert_eq!(msg, format!("Unexpected stream specification: {}", line));
        }
        other => panic!("expected an error event, got {:?}", other),
    }
    // The sequence continues with the following lines.
    assert!(matches!(
        stream.push_line(Some("[info] Input #0, lavfi, from 'x':")),
        Some(FfmpegEvent::ParsedInput(_))
    ));
}

#[test]
fn test_macos_line_endings() {
    let stdout_str = "[info] ffmpeg version N-109875-geabc304d12-tessus  https://evermeet.cx/ffmpeg/  Copyright (c) 2000-2023 the FFmpeg developers\n[info]   built with Apple clang version 11.0.0 (clang-1100.0.33.17)\n[info]   configuration: --cc=/usr/bin/clang --prefix=/opt/ffmpeg --extra-version=tessus --enable-avisynth --enable-fontconfig --enable-gpl --enable-libaom --enable-libass --enable-libbluray --enable-libdav1d --enable-libfreetype --enable-libgsm --enable-libmodplug --enable-libmp3lame --enable-libmysofa --enable-libopencore-amrnb --enable-libopencore-amrwb --enable-libopenh264 --enable-libopenjpeg --enable-libopus --enable-librubberband --enable-libshine --enable-libsnappy --enable-libsoxr --enable-libspeex --enable-libtheora --enable-libtwolame --enable-libvidstab --enable-libvmaf --enable-libvo-amrwbenc --enable-libvorbis --enable-libvpx --enable-libwebp --enable-libx264 --enable-libx265 --enable-libxavs --enable-libxvid --enable-libzimg --enable-libzmq --enable-libzvbi --enable-version3 --pkg-config-flags=--static --disable-ffplay\n[info]   libavutil      58.  1.100 / 58.  1.100\n[info]   libavcodec     60.  2.100 / 60.  2.100\n[info]   libavformat    60.  2.100 / 60.  2.100\n[info]   libavdevice    60.  0.100 / 60.  0.100\n[info]   libavfilter     9.  2.100 /  9.  2.100\n[info]   libswscale      7.  0.100 /  7.  0.100\n[info]   libswresample   4.  9.100 /  4.  9.100\n[info]   libpostproc    57.  0.100 / 57.  0.100\n[info] Input #0, lavfi, from 'testsrc=duration=10':\n[info]   Duration: N/A, start: 0.000000, bitrate: N/A\n[info]   Stream #0:0: Video: wrapped_avframe, rgb24, 320x240 [SAR 1:1 DAR 4:3], 25 fps, 25 tbr, 25 tbn\n[info] Stream mapping:\n[info]   Stream #0:0 -> #0:0 (wrapped_avframe (native) -> rawvideo (native))\n[info] Press [q] to stop, [?] for help\n[info] Output #0, rawvideo, to 'pipe:':\n[info]   Metadata:\n[info]     encoder         : Lavf60.2.100\n[info]   Stream #0:0: Video: rawvideo (RGB[24] / 0x18424752), rgb24(progressive), 320x240 [SAR 1:1 DAR 4:3], q=2-31, 46080 kb/s, 25 fps, 25 tbn\n[info]     Metadata:\n[info]       encoder         : Lavc60.2.100 rawvideo\n[info] frame=    0 fps=0.0 q=0.0 size=       0kB time=-577014:32:22.77 bitrate=  -0.0kbits/s speed=N/A";

    let mut stream = FfmpegEventStream::new();
    let mut num_events = 0;
    for line in split_lines(stdout_str.as_bytes()) {
        if stream.push_line(Some(line.as_str())).is_some() {
            num_events += 1;
        }
    }
    assert!(stream.push_line(None).is_none());
    assert!(num_events > 1);
}

/// Splits a byte stream into lines using the verified terminator scan, the
/// way a caller reading from a pipe would.
fn split_lines(data: &[u8]) -> Vec<String> {
    let mut buf: Vec<u8> = data.to_vec();
    let mut lines = Vec::new();
    loop {
        match scan_line(&buf, true) {
            Some((end, next)) => {
                lines.push(String::from_utf8_lossy(&buf[..end]).into_owned());
                buf.drain(..next);
            }
            None => {
                if !buf.is_empty() {
                    lines.push(String::from_utf8_lossy(&buf).into_owned());
                }
                return lines;
            }
        }
    }
}

#[test]
fn test_scan_line_terminators() {
    let buf: Vec<u8> = b"one\ntwo\r\nthree\rfour".to_vec();
    assert_eq!(scan_line(&buf, false), Some((3, 4)));
    let rest: Vec<u8> = buf[4..].to_vec();
    assert_eq!(scan_line(&rest, false), Some((3, 5)));
    let rest2: Vec<u8> = rest[5..].to_vec();
    assert_eq!(scan_line(&rest2, false), Some((5, 6)));
    // A trailing bare carriage return is held back until the source is known
    // to be exhausted, since one more byte could complete it to a CRLF pair.
    let trailing: Vec<u8> = b"five\r".to_vec();
    assert_eq!(scan_line(&trailing, false), None);
    assert_eq!(scan_line(&trailing, true), Some((4, 5)));
    assert_eq!(scan_line(&b"six".to_vec(), true), None);
}

#[test]
fn test_join_error_texts() {
    let events = vec![
        FfmpegEvent::Log(LogLevel::Info, "fine".to_string()),
        FfmpegEvent::Error("first ".to_string()),
        FfmpegEvent::Log(LogLevel::Error, "second".to_string()),
        FfmpegEvent::LogEOF,
    ];
    assert_eq!(join_error_texts(&events), "first second");
}

#[test]
fn test_manifest_urls() {
    assert_eq!(
        ffmpeg_manifest_url(TargetOs::Windows, TargetArch::X86_64).unwrap(),
        "https://www.gyan.dev/ffmpeg/builds/release-version"
    );
    assert_eq!(
        ffmpeg_manifest_url(TargetOs::Macos, TargetArch::X86_64).unwrap(),
        "https://evermeet.cx/ffmpeg/info/ffmpeg/release"
    );
    assert_eq!(
        ffmpeg_manifest_url(TargetOs::Linux, TargetArch::X86_64).unwrap(),
        "https://johnvansickle.com/ffmpeg/release-readme.txt"
    );
    assert!(ffmpeg_manifest_url(TargetOs::Linux, TargetArch::Aarch64).is_err());
    assert!(ffmpeg_manifest_url(TargetOs::Other, TargetArch::X86_64).is_err());
}

#[test]
fn test_download_urls() {
    assert_eq!(
        ffmpeg_download_url(TargetOs::Windows, TargetArch::X86_64).unwrap(),
        "https://www.gyan.dev/ffmpeg/builds/ffmpeg-release-essentials.zip"
    );
    assert_eq!(
        ffmpeg_download_url(TargetOs::Linux, TargetArch::X86_64).unwrap(),
        "https://johnvansickle.com/ffmpeg/releases/ffmpeg-release-amd64-static.tar.xz"
    );
    assert_eq!(
        ffmpeg_download_url(TargetOs::Macos, TargetArch::X86_64).unwrap(),
        "https://evermeet.cx/ffmpeg/getrelease/zip"
    );
    assert_eq!(
        ffmpeg_download_url(TargetOs::Macos, TargetArch::Aarch64).unwrap(),
        "https://www.osxexperts.net/ffmpeg7arm.zip"
    );
    assert!(ffmpeg_download_url(TargetOs::Linux, TargetArch::Aarch64).is_err());
}

#[test]
fn test_parse_version_manifests() {
    let json_string = "{\"name\":\"ffmpeg\",\"type\":\"release\",\"version\":\"6.0\",...}";
    assert_eq!(parse_macos_version(json_string).unwrap(), "6.0");
    assert_eq!(parse_macos_version("no version here"), None);

    let readme = "build: ffmpeg-5.1.1-amd64-static.tar.xz\nversion: 5.1.1\n\ngcc: 8.3.0";
    assert_eq!(parse_linux_version(readme).unwrap(), "5.1.1");
    assert_eq!(parse_linux_version("nothing"), None);

    assert_eq!(
        parse_version_manifest(TargetOs::Windows, "7.1\n").unwrap(),
        "7.1\n"
    );
    assert_eq!(
        parse_version_manifest(TargetOs::Macos, json_string).unwrap(),
        "6.0"
    );
    assert_eq!(parse_version_manifest(TargetOs::Linux, readme).unwrap(), "5.1.1");
    assert_eq!(parse_version_manifest(TargetOs::Other, "x"), None);
}

#[test]
fn test_duration_outside_input_section_is_log() {
    let mut stream = FfmpegEventStream::new();
    let line = "[info]   Duration: 00:00:05.00, start: 0.000000, bitrate: 16 kb/s";
    // Without a preceding input header the duration line degrades to a log
    // event instead of a duration event.
    assert!(matches!(
        stream.push_line(Some(line)),
        Some(FfmpegEvent::Log(LogLevel::Info, _))
    ));
}

#[test]
fn test_severity_markers_and_unknown_lines() {
    let mut stream = FfmpegEventStream::new();
    assert!(matches!(
        stream.push_line(Some("[warning] something looks off")),
        Some(FfmpegEvent::Log(LogLevel::Warning, _))
    ));
    assert!(matches!(
        stream.push_line(Some("[error] it broke")),
        Some(FfmpegEvent::Log(LogLevel::Error, _))
    ));
    assert!(matches!(
        stream.push_line(Some("[fatal] it really broke")),
        Some(FfmpegEvent::Log(LogLevel::Fatal, _))
    ));
    assert!(matches!(
        stream.push_line(Some("")),
        Some(FfmpegEvent::Log(LogLevel::Unknown, _))
    ));
}
