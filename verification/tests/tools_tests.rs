use nsay::tools::rembg::{
    derive_output_paths, parse_progress, sidecar_args, BatchReport, ItemOutcome,
};
use nsay::tools::upscale;
use nsay::tools::video::{
    frame_pct, interp_output_frames, interp_output_rate, interp_stream_args, is_slow_mode,
    parse_frame_line, pipeline_error, read_args, sidecar_exit_message, upscale_output_dims,
    upscale_stream_args, write_args, ExitStatus,
};
use nsay::tools::{
    available_backends_any, directory_keys, native_scale, plan_outputs, resolve_sidecar,
    select_model_id, sidecar_bin_name, SidecarError,
};

fn strs(v: &[&str]) -> Vec<String> {
    v.iter().map(|s| s.to_string()).collect()
}

#[test]
fn sidecar_names_per_platform() {
    assert_eq!(sidecar_bin_name("rembg", "cuda", true), "nsay-rembg-cuda.exe");
    assert_eq!(sidecar_bin_name("upscale", "cpu", false), "nsay-upscale-cpu");
}

#[test]
fn available_backends_in_priority_order() {
    let present = strs(&["nsay-interp-cpu", "nsay-rembg-dml", "nsay-vidsr-cuda", "readme.txt"]);
    assert_eq!(available_backends_any(&present, false), strs(&["cuda", "dml", "cpu"]));
    assert!(available_backends_any(&strs(&[]), false).is_empty());
    // Windows names carry the extension.
    assert!(available_backends_any(&present, true).is_empty());
}

#[test]
fn resolve_auto_takes_first_present_backend() {
    let present = strs(&["nsay-upscale-cpu", "nsay-upscale-dml", "nsay-rembg-cuda"]);
    let p = resolve_sidecar("upscale", "auto", None, &present, false).ok().unwrap();
    assert_eq!(p.backend, "dml");
    assert_eq!(p.file_name, "nsay-upscale-dml");
}

#[test]
fn resolve_explicit_backend_must_exist() {
    let present = strs(&["nsay-upscale-cpu"]);
    let p = resolve_sidecar("upscale", "cpu", None, &present, false).ok().unwrap();
    assert_eq!(p.backend, "cpu");
    match resolve_sidecar("upscale", "cuda", None, &present, false) {
        Err(SidecarError::Missing { backend, tool, file_name }) => {
            assert_eq!(backend, "cuda");
            assert_eq!(tool, "upscale");
            assert_eq!(file_name, "nsay-upscale-cuda");
        }
        _ => panic!("expected a missing sidecar"),
    }
}

#[test]
fn resolve_env_override_wins() {
    let present = strs(&["nsay-rembg-cpu", "nsay-rembg-cuda"]);
    let p = resolve_sidecar("rembg", "cuda", Some("cpu".to_string()), &present, false)
        .ok()
        .unwrap();
    assert_eq!(p.backend, "cpu");
}

#[test]
fn resolve_auto_reports_every_name_tried() {
    match resolve_sidecar("interp", "auto", None, &strs(&[]), true) {
        Err(SidecarError::NoneFound { tool, tried }) => {
            assert_eq!(tool, "interp");
            assert_eq!(
                tried,
                strs(&[
                    "nsay-interp-cuda.exe",
                    "nsay-interp-dml.exe",
                    "nsay-interp-vulkan.exe",
                    "nsay-interp-coreml.exe",
                    "nsay-interp-cpu.exe",
                ])
            );
        }
        _ => panic!("expected nothing found"),
    }
}

#[test]
fn auto_never_picks_docker() {
    let present = strs(&["nsay-vidsr-docker"]);
    assert!(resolve_sidecar("vidsr", "auto", None, &present, false).is_err());
    let p = resolve_sidecar("vidsr", "docker", None, &present, false).ok().unwrap();
    assert_eq!(p.backend, "docker");
}

#[test]
fn model_override_then_config_then_default() {
    assert_eq!(select_model_id(Some("ben2".to_string()), "x", "bria-rmbg-1.4"), "ben2");
    assert_eq!(select_model_id(Some(String::new()), "x", "bria-rmbg-1.4"), "x");
    assert_eq!(select_model_id(None, "", "bria-rmbg-1.4"), "bria-rmbg-1.4");
}

#[test]
fn native_scale_of_models() {
    assert_eq!(native_scale("real-esrgan-x4plus"), 4);
    assert_eq!(native_scale("no-such-model"), 4);
    assert_eq!(native_scale("bria-rmbg-1.4"), 4);
    assert_eq!(native_scale("real-esrgan-x2"), 2);
}

#[test]
fn plan_lone_and_grouped_outputs() {
    let keys = vec![0usize, 1, 1, 3];
    let parents = strs(&["a", "b", "b", "c"]);
    let stems = strs(&["x", "y", "z", "w"]);
    let slots = plan_outputs(&keys, &parents, &stems, "_rembg.png");
    assert_eq!(slots.len(), 4);
    assert!(!slots[0].grouped);
    assert_eq!(slots[0].file, "x_rembg.png");
    assert!(slots[1].grouped);
    assert_eq!(slots[1].file, "y.png");
    assert!(slots[2].grouped);
    assert_eq!(slots[2].parent, "b");
    assert!(!slots[3].grouped);
    assert_eq!(slots[3].file, "w_rembg.png");
}

#[test]
fn directory_keys_group_equal_paths() {
    let keys = directory_keys(&strs(&["/p", "/q", "/p", "/p/"]));
    assert_eq!(keys, vec![0, 1, 0, 0]);
}

#[test]
fn rembg_single_file_goes_next_to_source() {
    let out = derive_output_paths(&strs(&["/photos/cat.jpg"]));
    assert_eq!(out, strs(&["/photos/cat_rembg.png"]));
}

#[test]
fn rembg_batch_in_one_folder_goes_to_subfolder() {
    let out = derive_output_paths(&strs(&["/photos/cat.jpg", "/photos/dog.png", "/other/fox.jpg"]));
    assert_eq!(
        out,
        strs(&[
            "/photos/nsay_rembg/cat.png",
            "/photos/nsay_rembg/dog.png",
            "/other/fox_rembg.png",
        ])
    );
}

#[test]
fn upscale_outputs_carry_scale_tag() {
    let tag = upscale::scale_tag(Some(4), "4");
    assert_eq!(tag, "4");
    let frac = upscale::scale_tag(None, "1.5");
    assert_eq!(frac, "1_5");
    let out = upscale::derive_output_paths(&strs(&["/p/a.png"]), &frac);
    assert_eq!(out, strs(&["/p/a_x1_5.png"]));
    let out2 = upscale::derive_output_paths(&strs(&["/p/a.png", "/p/b.png"]), &tag);
    assert_eq!(out2, strs(&["/p/nsay_upscale/a.png", "/p/nsay_upscale/b.png"]));
}

#[test]
fn progress_line_is_read() {
    assert_eq!(parse_progress("stage=infer pct=42"), Some(("infer".to_string(), 42)));
    assert_eq!(parse_progress("pct=7 stage=load"), Some(("load".to_string(), 7)));
    assert_eq!(parse_progress("stage=infer"), None);
    assert_eq!(parse_progress("stage=infer pct=300"), None);
    assert_eq!(parse_progress("stage=a pct=5 pct=x"), None);
    assert_eq!(upscale::parse_progress("  stage=tile   pct=+9 "), Some(("tile".to_string(), 9)));
}

#[test]
fn rembg_sidecar_command_line() {
    assert_eq!(
        sidecar_args("m.onnx", "in.jpg", "out.png", "ben2", "0.2500"),
        strs(&[
            "--model", "m.onnx", "--input", "in.jpg", "--output", "out.png", "--preset", "ben2", "--choke",
            "0.2500"
        ])
    );
}

#[test]
fn upscale_sidecar_command_line() {
    assert_eq!(
        upscale::sidecar_args("m.onnx", "a", "b", "2", 4),
        strs(&["--model", "m.onnx", "--input", "a", "--output", "b", "--scale", "2", "--model-scale", "4"])
    );
}

#[test]
fn batch_tally_counts_and_messages() {
    let mut b = BatchReport::new();
    b.record("a.jpg", ItemOutcome::Missing);
    b.record("b.jpg", ItemOutcome::Done { output: "b_rembg.png".to_string() });
    b.record(
        "c.jpg",
        ItemOutcome::DirFailed { dir: "/x/nsay_rembg".to_string(), reason: "denied".to_string() },
    );
    b.record("d.jpg", ItemOutcome::Failed { message: "boom".to_string() });
    assert_eq!(b.ok, 1);
    assert_eq!(b.failed, 3);
    assert_eq!(b.results.len(), 4);
    assert_eq!(b.results[0].error.as_deref(), Some("input file not found: a.jpg"));
    assert_eq!(b.results[1].output.as_deref(), Some("b_rembg.png"));
    assert_eq!(b.results[1].idx, 1);
    assert_eq!(
        b.results[2].error.as_deref(),
        Some("failed to create output dir /x/nsay_rembg: denied")
    );
    assert_eq!(b.results[3].error.as_deref(), Some("boom"));
    assert_eq!(b.results[3].input, "d.jpg");
}

#[test]
fn slow_mode_is_case_insensitive() {
    assert!(is_slow_mode("SLOW"));
    assert!(is_slow_mode("slow"));
    assert!(!is_slow_mode("boost"));
}

#[test]
fn interp_rates() {
    assert_eq!(interp_output_rate(30000, 1001, 2, false), (60000, 1001));
    assert_eq!(interp_output_rate(30, 1, 4, true), (30, 1));
    assert_eq!(interp_output_rate(u32::MAX, 1, 2, false), (u32::MAX, 1));
}

#[test]
fn interp_frame_counts() {
    assert_eq!(interp_output_frames(10, 2), 19);
    assert_eq!(interp_output_frames(1, 8), 1);
    assert_eq!(interp_output_frames(0, 4), 1);
}

#[test]
fn upscale_output_size() {
    assert_eq!(upscale_output_dims(480, 270, 4), (1920, 1080));
    assert_eq!(upscale_output_dims(0, 5, 2), (2, 10));
}

#[test]
fn frame_lines_and_percentages() {
    assert_eq!(parse_frame_line("frame 12"), Some(12));
    assert_eq!(parse_frame_line("frame  7  "), Some(7));
    assert_eq!(parse_frame_line("frames 7"), None);
    assert_eq!(parse_frame_line("warning: slow"), None);
    assert_eq!(frame_pct(50, 200), 25);
    assert_eq!(frame_pct(300, 200), 100);
    assert_eq!(frame_pct(5, 0), 0);
}

#[test]
fn video_command_lines() {
    assert_eq!(
        read_args("in.mp4"),
        strs(&["-hide_banner", "-loglevel", "error", "-i", "in.mp4", "-f", "rawvideo", "-pix_fmt", "rgb24", "-"])
    );
    assert_eq!(
        upscale_stream_args(640, 360, "2", 4, "m.onnx"),
        strs(&["--stream", "--width", "640", "--height", "360", "--scale", "2", "--model-scale", "4", "--model", "m.onnx"])
    );
    assert_eq!(
        interp_stream_args(640, 360, 2, "rife.onnx"),
        strs(&["--stream", "--width", "640", "--height", "360", "--factor", "2", "--model", "rife.onnx"])
    );
}

#[test]
fn encoder_args_keep_or_drop_audio() {
    let keep = write_args(60000, 1001, 1280, 720, "in.mp4", "h264_nvenc", false, "out.mp4");
    assert_eq!(
        keep,
        strs(&[
            "-hide_banner", "-loglevel", "error", "-y", "-framerate", "60000/1001", "-f", "rawvideo",
            "-pix_fmt", "rgb24", "-s", "1280x720", "-i", "-", "-i", "in.mp4", "-map", "0:v", "-map",
            "1:a?", "-c:v", "h264_nvenc", "-pix_fmt", "yuv420p", "-c:a", "copy", "-shortest", "out.mp4",
        ])
    );
    let drop = write_args(30, 1, 640, 480, "in.mp4", "libx264", true, "slow.mp4");
    assert_eq!(
        drop,
        strs(&[
            "-hide_banner", "-loglevel", "error", "-y", "-framerate", "30/1", "-f", "rawvideo",
            "-pix_fmt", "rgb24", "-s", "640x480", "-i", "-", "-map", "0:v", "-an", "-c:v", "libx264",
            "-pix_fmt", "yuv420p", "slow.mp4",
        ])
    );
}

#[test]
fn pipeline_verdict_in_pipe_order() {
    let ok = || ExitStatus { success: true, code: Some(0) };
    assert_eq!(pipeline_error(ok(), ok(), ok(), "sidecar"), None);
    assert_eq!(
        pipeline_error(ExitStatus { success: false, code: Some(1) }, ok(), ExitStatus { success: false, code: None }, "sidecar"),
        Some("ffmpeg-read exited Some(1)".to_string())
    );
    assert_eq!(
        pipeline_error(ok(), ExitStatus { success: false, code: Some(-3) }, ok(), "interp sidecar"),
        Some("interp sidecar exited Some(-3)".to_string())
    );
    assert_eq!(
        pipeline_error(ok(), ok(), ExitStatus { success: false, code: None }, "sidecar"),
        Some("ffmpeg-write exited None".to_string())
    );
    assert_eq!(sidecar_exit_message("rembg", Some(2)), "rembg sidecar exited with Some(2)");
}

#[test]
fn auto_pick_is_listed_as_available() {
    let present = strs(&["nsay-interp-vulkan", "nsay-interp-cpu"]);
    let p = resolve_sidecar("interp", "auto", None, &present, false).ok().unwrap();
    assert_eq!(p.backend, "vulkan");
    assert!(available_backends_any(&present, false).contains(&p.backend));
}

#[test]
fn batch_outputs_follow_directory_groups() {
    let out = derive_output_paths(&strs(&["/a/x.png", "/b/y.png", "/b/z.jpg"]));
    assert_eq!(out, strs(&["/a/x_rembg.png", "/b/nsay_rembg/y.png", "/b/nsay_rembg/z.png"]));
    let up = upscale::derive_output_paths(&strs(&["/a/p.png", "/c/q.png", "/c/r.png"]), "1_5");
    assert_eq!(up, strs(&["/a/p_x1_5.png", "/c/nsay_upscale/q.png", "/c/nsay_upscale/r.png"]));
    let four = upscale::derive_output_paths(&strs(&["/a/p.png"]), "4");
    assert_eq!(four, strs(&["/a/p_x4.png"]));
    let bare = derive_output_paths(&strs(&["x.png", "y.tar.gz", ".hidden"]));
    assert_eq!(bare, strs(&["nsay_rembg/x.png", "nsay_rembg/y.tar.png", "nsay_rembg/.hidden.png"]));
}
