use nsay::ffmpeg::{
    bin_candidates, detect_encoder, ffmpeg_bin, ffmpeg_path, ffprobe_bin, ffprobe_path,
    parse_probe, BinError, BinSearch, EncoderCache,
};

fn search(env: Option<&str>, exe: Option<&str>, ancestors: &[&str]) -> BinSearch {
    BinSearch {
        env_dir: env.map(|s| s.to_string()),
        exe_dir: exe.map(|s| s.to_string()),
        ancestors: ancestors.iter().map(|s| s.to_string()).collect(),
    }
}

#[test]
fn binary_names() {
    assert_eq!(ffmpeg_bin(true), "ffmpeg.exe");
    assert_eq!(ffprobe_bin(false), "ffprobe");
}

#[test]
fn candidates_in_search_order() {
    let s = search(Some("/dev"), Some("/app/target/debug"), &["/app/target/debug", "/app/target", "/app", "/"]);
    let (c, env_count) = bin_candidates("ffmpeg", &s);
    assert_eq!(env_count, 1);
    assert_eq!(
        c,
        vec![
            "/dev/ffmpeg".to_string(),
            "/app/target/debug/binaries/ffmpeg/ffmpeg".to_string(),
            "/app/target/debug/ffmpeg".to_string(),
            "/app/target/debug/src-tauri/binaries/ffmpeg/ffmpeg".to_string(),
            "/app/target/src-tauri/binaries/ffmpeg/ffmpeg".to_string(),
            "/app/src-tauri/binaries/ffmpeg/ffmpeg".to_string(),
            "/src-tauri/binaries/ffmpeg/ffmpeg".to_string(),
        ]
    );
}

#[test]
fn ffmpeg_found_in_repo_during_development() {
    let s = search(None, Some("/app/target/debug"), &["/app/target/debug", "/app/target", "/app", "/"]);
    let existing = vec!["/app/src-tauri/binaries/ffmpeg/ffmpeg".to_string()];
    assert_eq!(ffmpeg_path(false, &s, &existing).ok(), Some("/app/src-tauri/binaries/ffmpeg/ffmpeg".to_string()));
}

#[test]
fn override_directory_is_tried_first() {
    let s = search(Some("/dev"), Some("/app"), &["/app", "/"]);
    let existing = vec!["/dev/ffprobe".to_string(), "/app/ffprobe".to_string()];
    assert_eq!(ffprobe_path(false, &s, &existing).ok(), Some("/dev/ffprobe".to_string()));
}

#[test]
fn missing_binary_is_reported() {
    let s = search(None, Some("/app"), &["/app", "/"]);
    match ffmpeg_path(true, &s, &vec![]) {
        Err(BinError::NotFound { name }) => assert_eq!(name, "ffmpeg.exe"),
        _ => panic!("expected not found"),
    }
    let no_exe = search(None, None, &[]);
    assert!(matches!(ffprobe_path(false, &no_exe, &vec![]), Err(BinError::NoExeDir)));
    let env_only = search(Some("/dev"), None, &[]);
    assert_eq!(ffprobe_path(false, &env_only, &vec!["/dev/ffprobe".to_string()]).ok(), Some("/dev/ffprobe".to_string()));
}

#[test]
fn encoder_preference_order() {
    let listing = " V....D h264_nvenc           NVIDIA NVENC H.264 encoder\n V....D hevc_qsv  x\n V....D h264_qsv x\n";
    let e = detect_encoder(listing);
    assert_eq!(e.h264, "h264_nvenc");
    assert_eq!(e.hevc, "libx265");
    assert_eq!(e.family, "nvenc");
    let q = detect_encoder(" V h264_qsv x\n V hevc_qsv y\n");
    assert_eq!((q.h264, q.hevc, q.family), ("h264_qsv", "hevc_qsv", "qsv"));
    let a = detect_encoder(" V h264_amf x\n");
    assert_eq!((a.h264, a.hevc, a.family), ("h264_amf", "libx265", "amf"));
    let x = detect_encoder("");
    assert_eq!((x.h264, x.hevc, x.family), ("libx264", "libx265", "x264"));
}

#[test]
fn probe_report_is_read() {
    let raw = "width=1920\nheight=1080\nr_frame_rate=30000/1001\nnb_frames=240\nduration=8.008\n";
    let p = parse_probe(raw).unwrap();
    assert_eq!((p.width, p.height, p.fps_num, p.fps_den, p.nb_frames), (1920, 1080, 30000, 1001, 240));
    assert_eq!(p.duration_text, "8.008");
}

#[test]
fn probe_defaults_and_refusals() {
    let p = parse_probe("width=640\nheight=480\nr_frame_rate=25/0\nnb_frames=N/A\n").unwrap();
    assert_eq!((p.fps_num, p.fps_den, p.nb_frames), (25, 1, 0));
    assert!(parse_probe("width=640\nheight=0\nr_frame_rate=25/1\n").is_none());
    assert!(parse_probe("height=480\nr_frame_rate=25/1\n").is_none());
    assert!(parse_probe("width=640\nheight=480\nr_frame_rate=0/1\n").is_none());
}

#[test]
fn first_existing_candidate_wins() {
    let s = search(None, Some("/app/bin"), &["/app/bin", "/app", "/"]);
    let existing = vec![
        "/src-tauri/binaries/ffmpeg/ffmpeg".to_string(),
        "/app/bin/ffmpeg".to_string(),
        "/app/bin/binaries/ffmpeg/ffmpeg".to_string(),
    ];
    assert_eq!(ffmpeg_path(false, &s, &existing).ok(), Some("/app/bin/binaries/ffmpeg/ffmpeg".to_string()));
    let later = vec!["/src-tauri/binaries/ffmpeg/ffmpeg".to_string(), "/app/bin/ffmpeg".to_string()];
    assert_eq!(ffmpeg_path(false, &s, &later).ok(), Some("/app/bin/ffmpeg".to_string()));
}

#[test]
fn encoders_are_decided_once() {
    let mut cache = EncoderCache::new();
    assert!(cache.needs_listing());
    let first = cache.get_or_choose(" V....D h264_qsv x\n");
    assert_eq!(first.h264, "h264_qsv");
    assert!(!cache.needs_listing());
    let again = cache.get_or_choose(" V....D h264_nvenc x\n");
    assert_eq!((again.h264, again.hevc, again.family), (first.h264, first.hevc, first.family));
}
