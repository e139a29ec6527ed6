use nsay::sidecar::args::ArgError;
use nsay::sidecar::interp::{self, pad_source_offset, padded_dim, InterpSchedule};
use nsay::sidecar::progress::{frame_line, progress_line};
use nsay::sidecar::rembg::{
    self, choke_mask, compose_rgba, mask_dims, threshold_binary, MaskShapeError, Preset,
    ResizeFilter,
};
use nsay::sidecar::upscale::{
    self, canvas_index, check_tile_output, needs_tiling, tile_extent, tile_starts, TileShapeError,
};
use nsay::sidecar::vidsr::{self, pad_chunk};
use nsay::tools::rembg::parse_progress;
use nsay::tools::video::parse_frame_line;

fn args(v: &[&str]) -> Vec<String> {
    v.iter().map(|s| s.to_string()).collect()
}

fn numeric(v: &[String]) -> Vec<bool> {
    v.iter().map(|s| s.parse::<f32>().is_ok()).collect()
}

fn in_range(v: &[String]) -> Vec<bool> {
    v.iter().map(|s| s.parse::<f32>().map(|f| (1.0..=4.0).contains(&f)).unwrap_or(false)).collect()
}

fn rembg_parse(v: &[String]) -> Result<rembg::Args, ArgError> {
    rembg::parse_args(&v.to_vec(), &numeric(v))
}

fn upscale_parse(v: &[String]) -> Result<upscale::Args, ArgError> {
    upscale::parse_args(&v.to_vec(), &numeric(v), &in_range(v))
}

#[test]
fn presets() {
    assert!(matches!(Preset::parse("bria-rmbg"), Ok(Preset::BriaRmbg)));
    assert!(matches!(Preset::parse("ben2"), Ok(Preset::Ben2)));
    assert!(matches!(Preset::parse("u2net"), Err(ArgError::UnknownPreset { name }) if name == "u2net"));
    assert_eq!(Preset::Ben2.input_size(), 1024);
    assert!(matches!(Preset::BriaRmbg.resize_filter(), ResizeFilter::Triangle));
    assert!(matches!(Preset::Ben2.resize_filter(), ResizeFilter::Lanczos3));
    assert!(!Preset::Ben2.needs_sigmoid());
    assert!(matches!(Preset::parse("birefnet"), Ok(Preset::Birefnet)));
    assert!(matches!(Preset::parse("modnet"), Ok(Preset::Modnet)));
    assert!(Preset::Birefnet.needs_sigmoid());
    assert!(!Preset::Modnet.needs_sigmoid());
    assert_eq!(Preset::Modnet.input_size(), 512);
    assert_eq!(Preset::Birefnet.input_size(), 1024);
    assert!(matches!(Preset::Modnet.resize_filter(), ResizeFilter::Triangle));
    assert!(matches!(Preset::Birefnet.resize_filter(), ResizeFilter::Lanczos3));
}

#[test]
fn catalogue_rembg_presets_all_parse() {
    for m in nsay::models::catalog().iter().filter(|m| m.family == "rembg") {
        assert!(Preset::parse(m.preset).is_ok(), "{}", m.id);
    }
}

#[test]
fn rembg_command_line() {
    let a = rembg_parse(&args(&["--model", "m.onnx", "--input", "i.png", "--output", "o.png", "--choke", "0.3"]))
        .ok()
        .unwrap();
    assert_eq!(a.model, "m.onnx");
    assert_eq!(a.input, "i.png");
    assert_eq!(a.output, "o.png");
    assert!(matches!(a.preset, Preset::BriaRmbg));
    assert_eq!(a.choke_texts, vec![(6, "0.3".to_string())]);
}

#[test]
fn rembg_command_line_errors() {
    assert!(matches!(
        rembg_parse(&args(&["--model", "m", "--frobnicate"])),
        Err(ArgError::Unknown { arg, at: 2 }) if arg == "--frobnicate"
    ));
    assert!(matches!(
        rembg_parse(&args(&["--model"])),
        Err(ArgError::NeedsValue { flag: "--model", at: 0 })
    ));
    assert!(matches!(
        rembg_parse(&args(&["--input", "i", "--output", "o"])),
        Err(ArgError::Required { flag: "--model" })
    ));
    assert!(matches!(
        rembg_parse(&args(&["--model", "m", "--output", "o"])),
        Err(ArgError::Required { flag: "--input" })
    ));
    assert!(matches!(
        rembg_parse(&args(&["--model", "m", "--input", "i", "--output", "o", "--preset", "x"])),
        Err(ArgError::UnknownPreset { name }) if name == "x"
    ));
}

#[test]
fn upscale_command_line_modes() {
    let f = upscale_parse(&args(&["--model", "m", "--input", "a", "--output", "b", "--scale", "2.5"]))
        .ok()
        .unwrap();
    assert_eq!(f.model_scale, 4);
    assert!(!f.stream);
    assert_eq!(f.scale_texts, vec![(6, "2.5".to_string())]);
    let s = upscale_parse(&args(&["--stream", "--width", "640", "--height", "360", "--model", "m", "--model-scale", "2"]))
        .ok()
        .unwrap();
    assert!(s.stream);
    assert_eq!((s.width, s.height, s.model_scale), (640, 360, 2));
    assert!(s.input.is_none());
}

#[test]
fn upscale_command_line_errors() {
    assert!(matches!(
        upscale_parse(&args(&["--model", "m", "--input", "a", "--output", "b", "--model-scale", "8"])),
        Err(ArgError::OutOfRange { flag: "--model-scale", value: 8 })
    ));
    assert!(matches!(
        upscale_parse(&args(&["--model", "m", "--stream", "--width", "10"])),
        Err(ArgError::DimsRequired)
    ));
    assert!(matches!(
        upscale_parse(&args(&["--model", "m", "--input", "a"])),
        Err(ArgError::FileModeNeedsPaths)
    ));
    assert!(matches!(
        upscale_parse(&args(&["--input", "a", "--output", "b"])),
        Err(ArgError::Required { flag: "--model" })
    ));
    assert!(matches!(
        upscale_parse(&args(&["--model", "m", "--width", "wide", "--bogus"])),
        Err(ArgError::BadNumber { flag: "--width", text, at: 2 }) if text == "wide"
    ));
}

#[test]
fn upscale_ignores_choke() {
    let a = upscale_parse(&args(&["--model", "m", "--input", "a", "--output", "b", "--choke", "0.5"]))
        .ok()
        .unwrap();
    assert_eq!(a.model, "m");
    // A trailing `--choke` without a value is accepted too.
    assert!(upscale_parse(&args(&["--model", "m", "--input", "a", "--output", "b", "--choke"])).is_ok());
}

#[test]
fn vidsr_command_line() {
    let a = vidsr::parse_args(&args(&["--stream", "--model", "v.pt", "--width", "320", "--height", "240"]))
        .ok()
        .unwrap();
    assert_eq!((a.width, a.height, a.scale, a.window), (320, 240, 4, 15));
    assert!(matches!(
        vidsr::parse_args(&args(&["--model", "v.pt", "--width", "320", "--height", "240"])),
        Err(ArgError::StreamRequired)
    ));
    assert!(matches!(
        vidsr::parse_args(&args(&["--stream", "--model", "v", "--width", "3", "--height", "3", "--window", "31"])),
        Err(ArgError::OutOfRange { flag: "--window", value: 31 })
    ));
    assert!(matches!(
        vidsr::parse_args(&args(&["--stream", "--model", "v", "--width", "3", "--height", "3", "--scale", "5"])),
        Err(ArgError::OutOfRange { flag: "--scale", value: 5 })
    ));
}

#[test]
fn interp_command_line() {
    let a = interp::parse_args(&args(&["--stream", "--width", "64", "--height", "48", "--factor", "4", "--model", "r.onnx"]))
        .ok()
        .unwrap();
    assert_eq!((a.width, a.height, a.factor), (64, 48, 4));
    assert_eq!(a.model, "r.onnx");
    assert!(matches!(
        interp::parse_args(&args(&["--stream", "--width", "64", "--height", "48", "--factor", "17", "--model", "r"])),
        Err(ArgError::OutOfRange { flag: "--factor", value: 17 })
    ));
    assert!(matches!(
        interp::parse_args(&args(&["--stream", "--width", "0", "--height", "48", "--model", "r"])),
        Err(ArgError::DimsRequired)
    ));
}

#[test]
fn interp_padding() {
    assert_eq!(padded_dim(1080), 1088);
    assert_eq!(padded_dim(64), 64);
    assert_eq!(padded_dim(0), 0);
    // Inside the frame: the pixel itself; in the overhang: the last row/column.
    assert_eq!(pad_source_offset(1, 1, 4, 3), (1 * 4 + 1) * 3);
    assert_eq!(pad_source_offset(10, 10, 4, 3), (2 * 4 + 3) * 3);
}

#[test]
fn interp_schedule_emits_one_plus_k_per_pair() {
    let mut s = InterpSchedule::new(3);
    assert_eq!(s.on_input_frame(), 0);
    assert_eq!(s.on_input_frame(), 2);
    assert_eq!(s.on_input_frame(), 2);
    assert_eq!(s.inputs, 3);
    assert_eq!(s.emitted, 7);
    assert_eq!(nsay::tools::video::interp_output_frames(3, 3), 7);
}

#[test]
fn mask_shape_checks() {
    assert_eq!(mask_dims(&vec![1, 1, 4, 6], 24).ok(), Some((4, 6)));
    assert!(matches!(mask_dims(&vec![1, 0, 4], 0), Err(MaskShapeError::NonPositive)));
    assert!(matches!(mask_dims(&vec![1, 4, 6], 20), Err(MaskShapeError::SizeMismatch { product: 24 })));
    assert!(matches!(mask_dims(&vec![2, 4, 6], 48), Err(MaskShapeError::Layout)));
}

#[test]
fn threshold_and_compose() {
    assert_eq!(threshold_binary(&vec![0, 128, 129, 255], 128), vec![0, 0, 255, 255]);
    assert_eq!(
        compose_rgba(&vec![1, 2, 3, 4, 5, 6, 7, 8], &vec![90, 91]),
        vec![1, 2, 3, 90, 5, 6, 7, 91]
    );
}

#[test]
fn choke_erodes_the_mask_edge() {
    // A 9x9 mask: a 7x7 block of 200 with a hole in the middle.
    let mut soft = vec![0u8; 81];
    for y in 1..8 {
        for x in 1..8 {
            soft[y * 9 + x] = 200;
        }
    }
    soft[4 * 9 + 4] = 0;
    let out = choke_mask(&soft, 9, 9, 1);
    let mut expect = vec![0u8; 81];
    for y in 2..7 {
        for x in 2..7 {
            let near_hole = (y as i32 - 4).abs() <= 1 && (x as i32 - 4).abs() <= 1;
            if !near_hole {
                expect[y * 9 + x] = 200;
            }
        }
    }
    assert_eq!(out, expect);
}

#[test]
fn choke_drops_weak_pixels() {
    let soft = vec![128u8, 250, 250, 250];
    let out = choke_mask(&soft, 4, 1, 0);
    assert_eq!(out, vec![0, 250, 250, 250]);
}

#[test]
fn tiles_cover_with_overlap() {
    assert!(!needs_tiling(1024, 1024));
    assert!(needs_tiling(1025, 10));
    assert_eq!(tile_starts(500), vec![0]);
    assert_eq!(tile_starts(1000), vec![0, 480, 488]);
    assert_eq!(tile_starts(992), vec![0, 480]);
    assert_eq!(tile_extent(500, 0), 500);
    assert_eq!(tile_extent(1000, 488), 512);
    assert_eq!(canvas_index(8, 4, 1, 2, 16, 10), (6 * 16 + 9) as usize);
}

#[test]
fn tile_output_shape() {
    assert!(check_tile_output(&vec![1, 3, 64, 128], 32, 16, 4).is_ok());
    assert!(matches!(check_tile_output(&vec![3, 64, 128], 32, 16, 4), Err(TileShapeError::Rank)));
    assert!(matches!(
        check_tile_output(&vec![1, 3, 60, 128], 32, 16, 4),
        Err(TileShapeError::Size { got_w: 128, got_h: 60 })
    ));
}

#[test]
fn chunk_padding_repeats_last_frame() {
    let mut buf = vec![1, 1, 2, 2, 9, 9, 9, 9];
    pad_chunk(&mut buf, 2, 4, 2);
    assert_eq!(buf, vec![1, 1, 2, 2, 2, 2, 2, 2]);
}

#[test]
fn progress_lines_round_trip() {
    let line = progress_line("infer", 73);
    assert_eq!(line, "stage=infer pct=73");
    assert_eq!(parse_progress(&line), Some(("infer".to_string(), 73)));
    let f = frame_line(1234);
    assert_eq!(f, "frame 1234");
    assert_eq!(parse_frame_line(&f), Some(1234));
}

#[test]
fn app_command_lines_read_back() {
    let a = nsay::tools::rembg::sidecar_args("m.onnx", "in put.png", "--out", "birefnet", "0.5000");
    let r = rembg_parse(&a).ok().unwrap();
    assert_eq!((r.model.as_str(), r.input.as_str(), r.output.as_str()), ("m.onnx", "in put.png", "--out"));
    assert!(matches!(r.preset, Preset::Birefnet));
    assert_eq!(r.choke_texts, vec![(8, "0.5000".to_string())]);

    let u = nsay::tools::upscale::sidecar_args("m", "a", "b", "1.5", 2);
    let p = upscale_parse(&u).ok().unwrap();
    assert_eq!((p.model_scale, p.stream), (2, false));
    assert_eq!(p.scale_texts, vec![(6, "1.5".to_string())]);

    let s = nsay::tools::video::upscale_stream_args(640, 360, "2", 4, "m");
    let q = upscale_parse(&s).ok().unwrap();
    assert_eq!((q.stream, q.width, q.height, q.model_scale), (true, 640, 360, 4));
    assert_eq!(q.scale_texts, vec![(5, "2".to_string())]);

    let i = nsay::tools::video::interp_stream_args(64, 48, 3, "r.onnx");
    let ia = interp::parse_args(&i).ok().unwrap();
    assert_eq!((ia.width, ia.height, ia.factor, ia.model.as_str()), (64, 48, 3, "r.onnx"));
}

#[test]
fn chunk_stream_writes_only_real_frames() {
    let mut s = vidsr::ChunkStream::new(4);
    assert!(matches!(s.on_chunk(4), vidsr::ChunkStep::Process { pad: false, emit: 4, last: false }));
    assert!(matches!(s.on_chunk(2), vidsr::ChunkStep::Process { pad: true, emit: 2, last: true }));
    assert!(s.finished);
    assert_eq!((s.frames_in, s.frames_out), (6, 6));
    let mut e = vidsr::ChunkStream::new(4);
    assert!(matches!(e.on_chunk(0), vidsr::ChunkStep::End));
    assert_eq!(e.frames_out, 0);
}

#[test]
fn number_faults_are_reported_in_argument_order() {
    assert!(matches!(
        rembg_parse(&args(&["--choke", "soft", "--bogus"])),
        Err(ArgError::BadNumber { flag: "--choke", text, at: 0 }) if text == "soft"
    ));
    assert!(matches!(
        rembg_parse(&args(&["--bogus", "--choke", "soft"])),
        Err(ArgError::Unknown { arg, at: 0 }) if arg == "--bogus"
    ));
    assert!(matches!(
        rembg_parse(&args(&["--input", "i", "--choke", "x"])),
        Err(ArgError::BadNumber { flag: "--choke", at: 2, .. })
    ));
    assert!(matches!(
        upscale_parse(&args(&["--scale", "big", "--model-scale", "x"])),
        Err(ArgError::BadNumber { flag: "--scale", at: 0, .. })
    ));
    assert!(matches!(
        upscale_parse(&args(&["--model", "m", "--input", "a", "--output", "b", "--scale", "9", "--model-scale", "8"])),
        Err(ArgError::ScaleOutOfRange { text }) if text == "9"
    ));
    assert!(upscale_parse(&args(&["--model", "m", "--input", "a", "--output", "b", "--scale", "9", "--scale", "3"])).is_ok());
}
