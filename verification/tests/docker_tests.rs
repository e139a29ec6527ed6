use nsay::sidecar::args::ArgError;
use nsay::sidecar::docker::{
    check_image, container_basename, default_weights_dir, docker_bin, docker_candidates,
    docker_run_args, ensure_weights, ext_is_mp4, is_mp4, need_val, parse_args, pick_docker,
    pick_produced, read_until_lf_or_cr, tqdm_line, DockerError, TqdmAction, TqdmProgress,
};

fn strs(v: &[&str]) -> Vec<String> {
    v.iter().map(|s| s.to_string()).collect()
}

#[test]
fn docker_command_line_defaults() {
    let a = parse_args(&strs(&["-i", "in.mp4", "-o", "out.mp4"]), Some("/w".to_string()))
        .ok()
        .unwrap();
    assert_eq!(a.input, "in.mp4");
    assert_eq!(a.output, "out.mp4");
    assert_eq!(a.scale, 4);
    assert_eq!(a.mode, "tiny");
    assert!(a.tile_vae && a.tile_dit && a.keep_audio);
    assert_eq!(a.weights_dir, "/w");
    assert_eq!(a.image, "flashvsr-pro:latest");
}

#[test]
fn docker_command_line_flags() {
    let a = parse_args(
        &strs(&[
            "--input", "a", "--output", "b", "--scale", "2", "--mode", "full", "--no-tile-vae",
            "--no-keep-audio", "--weights-dir", "/x", "--image", "img:1", "--model", "ignored.pt",
        ]),
        None,
    )
    .ok()
    .unwrap();
    assert_eq!(a.scale, 2);
    assert_eq!(a.mode, "full");
    assert!(!a.tile_vae && a.tile_dit && !a.keep_audio);
    assert_eq!(a.weights_dir, "/x");
    assert_eq!(a.image, "img:1");
}

#[test]
fn docker_command_line_errors() {
    assert!(matches!(
        parse_args(&strs(&["-i", "a", "-o", "b", "--mode", "huge"]), Some("/w".to_string())),
        Err(ArgError::BadMode { mode }) if mode == "huge"
    ));
    assert!(matches!(parse_args(&strs(&["-i", "a", "-o", "b"]), None), Err(ArgError::NoWeightsDir)));
    assert!(matches!(
        parse_args(&strs(&["-o", "b"]), Some("/w".to_string())),
        Err(ArgError::Required { flag: "--input" })
    ));
    assert!(matches!(
        parse_args(&strs(&["-i", "a", "--scale", "x4"]), Some("/w".to_string())),
        Err(ArgError::BadNumber { flag: "--scale", .. })
    ));
    assert!(matches!(
        parse_args(&strs(&["-i", "a", "-o"]), Some("/w".to_string())),
        Err(ArgError::NeedsValue { flag: "-o", at: 2 })
    ));
}

#[test]
fn need_val_moves_onto_the_value() {
    let raw = strs(&["--image", "x"]);
    let mut i = 0usize;
    assert_eq!(need_val(&raw, &mut i, "--image").ok(), Some("x".to_string()));
    assert_eq!(i, 1);
    let mut j = 1usize;
    assert!(matches!(need_val(&raw, &mut j, "--image"), Err(ArgError::NeedsValue { flag: "--image", at: 1 })));
}

#[test]
fn weights_locations() {
    assert_eq!(
        default_weights_dir(Some("/appdata".to_string())),
        Some("/appdata/nsay/models/flashvsr-v1.1".to_string())
    );
    assert_eq!(default_weights_dir(None), None);
    assert!(ensure_weights("/w", true).is_ok());
    assert!(matches!(ensure_weights("/w", false), Err(DockerError::WeightsMissing { dir }) if dir == "/w"));
}

#[test]
fn file_names_for_the_container() {
    assert_eq!(container_basename("/videos/my clip.mp4").ok(), Some("my clip.mp4".to_string()));
    assert!(matches!(container_basename("/"), Err(DockerError::NoFileName { path }) if path == "/"));
    assert!(is_mp4("/o/a.MP4"));
    assert!(!is_mp4("/o/a.mkv"));
    assert!(!is_mp4("/o/mp4"));
    assert!(ext_is_mp4(Some("Mp4".to_string())));
    assert!(!ext_is_mp4(None));
}

#[test]
fn docker_located_on_path() {
    assert_eq!(docker_bin(true), "docker.exe");
    let c = docker_candidates(Some(strs(&["/usr/bin", "/opt/docker"])), false).ok().unwrap();
    assert_eq!(c, strs(&["/usr/bin/docker", "/opt/docker/docker"]));
    assert!(matches!(docker_candidates(None, false), Err(DockerError::PathUnset)));
    assert_eq!(pick_docker(&c, &vec![false, true], false).ok(), Some("/opt/docker/docker".to_string()));
    assert!(matches!(
        pick_docker(&c, &vec![false, false], true),
        Err(DockerError::DockerNotFound { bin }) if bin == "docker.exe"
    ));
}

#[test]
fn image_must_exist_locally() {
    assert!(check_image(true, Some(0), "3f2a1b\n", "img").is_ok());
    assert!(matches!(check_image(true, Some(0), " \n", "img"), Err(DockerError::ImageMissing { image }) if image == "img"));
    assert!(matches!(
        check_image(false, Some(1), "", "img"),
        Err(DockerError::ImageQueryFailed { image, code: Some(1) }) if image == "img"
    ));
}

#[test]
fn docker_run_command_line() {
    let v = docker_run_args("/in dir", "/out", "/w", "img", "a b.mp4", "tiny", 4, true, false, true);
    assert_eq!(
        v,
        strs(&[
            "run", "--rm", "--gpus", "all", "--shm-size=8g",
            "-v", "/in dir:/in:ro",
            "-v", "/out:/out",
            "-v", "/w:/workspace/FlashVSR-Pro/models/FlashVSR-v1.1:ro",
            "img", "python", "infer.py", "-i", "/in/a b.mp4", "-o", "/out/",
            "--mode", "tiny", "--scale", "4", "--tile-vae", "--keep-audio",
        ])
    );
}

#[test]
fn produced_file_is_the_one_new_mp4() {
    let before = strs(&["/o/old.mp4"]);
    assert_eq!(pick_produced(&before, &strs(&["/o/old.mp4", "/o/new.mp4"])).ok(), Some("/o/new.mp4".to_string()));
    assert!(matches!(pick_produced(&before, &before), Err(DockerError::NoNewOutput)));
    assert!(matches!(
        pick_produced(&before, &strs(&["/o/x.mp4", "/o/old.mp4", "/o/y.mp4"])),
        Err(DockerError::ManyNewOutputs { files }) if files == strs(&["/o/x.mp4", "/o/y.mp4"])
    ));
}

#[test]
fn tqdm_counter_becomes_frames() {
    let bar = "90%|████▌| 90/100 [00:09<00:01, 9.81it/s]";
    assert!(matches!(tqdm_line(0, bar), TqdmAction::Frame(90)));
    assert!(matches!(tqdm_line(90, bar), TqdmAction::Echo(t) if t == bar));
    assert!(matches!(tqdm_line(0, "  12 / 40 "), TqdmAction::Frame(12)));
    assert!(matches!(tqdm_line(0, "   "), TqdmAction::Skip));
    assert!(matches!(tqdm_line(0, " loading weights "), TqdmAction::Echo(t) if t == "loading weights"));
}

#[test]
fn records_end_at_lf_or_cr() {
    let mut buf = Vec::new();
    let mut total = 0usize;
    let s = read_until_lf_or_cr(b"ab\rcd\n", &mut buf, &mut total);
    assert!(s.done);
    assert_eq!(s.consumed, 3);
    assert_eq!(buf, b"ab".to_vec());
    assert_eq!(total, 3);

    let mut buf2 = b"x".to_vec();
    let mut total2 = 1usize;
    let s2 = read_until_lf_or_cr(b"yz", &mut buf2, &mut total2);
    assert!(!s2.done);
    assert_eq!(s2.consumed, 2);
    assert_eq!(buf2, b"xyz".to_vec());
    assert_eq!(total2, 3);

    let end = read_until_lf_or_cr(b"", &mut buf2, &mut total2);
    assert!(end.done);
    assert_eq!(end.consumed, 0);
}

#[test]
fn progress_frames_strictly_increase_over_a_stream() {
    let mut p = TqdmProgress::new();
    let mut frames = Vec::new();
    for line in ["  3/10 ", "loading", "", "3/10", "2/10", "7 / 10", "7/10", "10/10 done"] {
        if let TqdmAction::Frame(n) = p.on_line(line) {
            frames.push(n);
        }
    }
    assert_eq!(frames, vec![3, 7, 10]);
    assert_eq!(p.last, 10);
    assert!(matches!(p.on_line("5/10"), TqdmAction::Echo(t) if t == "5/10"));
    assert!(matches!(p.on_line("\t"), TqdmAction::Skip));
}

#[test]
fn basename_of_root_and_parent_is_refused() {
    assert!(matches!(container_basename("///"), Err(DockerError::NoFileName { path }) if path == "///"));
    assert!(matches!(container_basename("/a/.."), Err(DockerError::NoFileName { .. })));
    assert_eq!(container_basename("/videos/name with spaces.mp4").ok(), Some("name with spaces.mp4".to_string()));
}
