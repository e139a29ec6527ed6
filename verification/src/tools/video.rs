//! Video runs: three processes joined by pipes, ffmpeg decoding to raw RGB,
//! the sidecar in stream mode, ffmpeg encoding (and muxing the source's
//! audio). This module holds their command lines, the arithmetic of rates,
//! sizes and frame counts, the reading of the sidecar's `frame N` lines,
//! and the verdict on the three exit statuses.
use vstd::prelude::*;

use crate::sidecar::interp::spec_output_frames;
use crate::text::{
    concat2, dec_digits, eq_ignore_ascii_case, eq_ignore_case, exit_code_debug, exit_code_text,
    parse_decimal, parse_unsigned, strip_prefix_chars, to_chars, trim, trim_chars, u64_to_text,
    has_prefix,
};
use crate::tools::rembg::arg_views;

verus! {

/// What a finished video run reports.
pub struct VideoResult {
    pub output: String,
    pub frames: u64,
    pub backend: String,
    pub encoder: String,
}

// ---------------------------------------------------------------------
// Rates, sizes, frame counts
// ---------------------------------------------------------------------

/// Whether the interpolation mode asks for slow motion ("slow" in any
/// case); anything else is the frame-rate boost.
pub fn is_slow_mode(mode: &str) -> (r: bool)
    ensures
        r == eq_ignore_ascii_case(mode@, "slow"@),
{
    eq_ignore_case(mode, "slow")
}

/// The output frame rate of an interpolation: unchanged in slow motion
/// (the clip lasts `factor` times longer), else the numerator times the
/// factor (saturating), which keeps rationals such as 30000/1001 exact.
pub open spec fn spec_interp_rate(fps_num: nat, fps_den: nat, factor: nat, slow: bool) -> (
    nat,
    nat,
) {
    if slow {
        (fps_num, fps_den)
    } else {
        (if fps_num * factor > u32::MAX {
            u32::MAX as nat
        } else {
            fps_num * factor
        }, fps_den)
    }
}

/// A boost keeps the clip's duration: the frame rate is multiplied by
/// exactly the factor (the denominator kept), saturating at `u32::MAX`;
/// slow motion keeps the rate, so the clip lasts `factor` times longer.
pub proof fn lemma_boost_rate(fps_num: nat, fps_den: nat, factor: nat)
    ensures
        spec_interp_rate(fps_num, fps_den, factor, false).1 == fps_den,
        fps_num * factor <= 0xffff_ffff ==> spec_interp_rate(fps_num, fps_den, factor, false).0
            * fps_den == fps_num * factor * fps_den,
        fps_num * factor > 0xffff_ffff ==> spec_interp_rate(fps_num, fps_den, factor, false).0
            == 0xffff_ffff,
        spec_interp_rate(fps_num, fps_den, factor, false).0 <= fps_num * factor,
        spec_interp_rate(fps_num, fps_den, factor, true) == (fps_num, fps_den),
{
}

pub fn interp_output_rate(fps_num: u32, fps_den: u32, factor: u32, slow: bool) -> (r: (u32, u32))
    ensures
        (r.0 as nat, r.1 as nat) == spec_interp_rate(
            fps_num as nat,
            fps_den as nat,
            factor as nat,
            slow,
        ),
{
    if slow {
        (fps_num, fps_den)
    } else {
        assert((fps_num as nat) * (factor as nat) <= 0xffff_ffff * 0xffff_ffff) by (nonlinear_arith)
            requires
                fps_num <= 0xffff_ffffu32,
                factor <= 0xffff_ffffu32,
        ;
        let p: u64 = (fps_num as u64) * (factor as u64);
        let n: u32 = if p > 0xffff_ffffu64 {
            0xffff_ffffu32
        } else {
            p as u32
        };
        (n, fps_den)
    }
}

/// The frames an interpolation should produce from `total` input frames:
/// the first frame once, then `factor` frames for each following one.
pub open spec fn spec_interp_frames(total: nat, factor: nat) -> nat {
    1 + (if total > 0 {
        (total - 1) as nat
    } else {
        0nat
    }) * factor
}

pub fn interp_output_frames(total: u64, factor: u32) -> (r: u64)
    requires
        spec_interp_frames(total as nat, factor as nat) <= u64::MAX,
    ensures
        r == spec_interp_frames(total as nat, factor as nat),
{
    let before: u64 = total.saturating_sub(1);
    proof {
        assert(before as nat * factor as nat <= u64::MAX - 1);
    }
    1 + before * (factor as u64)
}

/// What the runner expects is what the stream sidecar emits: for a video
/// with at least one frame, `1 + (N - 1) * K` frames. (For an empty video
/// the runner still expects one frame, while the sidecar emits none.)
pub proof fn lemma_expected_frames_match_stream(total: nat, factor: nat)
    requires
        total >= 1,
    ensures
        spec_interp_frames(total, factor) as int == spec_output_frames(total as int, factor as int),
{
}

/// The output size of an upscale: each side resized to `rounded` (at least
/// 1), then multiplied by the model's native ratio.
pub fn upscale_output_dims(rounded_w: u32, rounded_h: u32, model_scale: u32) -> (r: (u32, u32))
    requires
        (if rounded_w == 0 { 1 } else { rounded_w as int }) * model_scale <= u32::MAX,
        (if rounded_h == 0 { 1 } else { rounded_h as int }) * model_scale <= u32::MAX,
    ensures
        r.0 == (if rounded_w == 0 { 1 } else { rounded_w as int }) * model_scale,
        r.1 == (if rounded_h == 0 { 1 } else { rounded_h as int }) * model_scale,
{
    let w: u32 = if rounded_w == 0 {
        1
    } else {
        rounded_w
    };
    let h: u32 = if rounded_h == 0 {
        1
    } else {
        rounded_h
    };
    (w * model_scale, h * model_scale)
}

// ---------------------------------------------------------------------
// Progress
// ---------------------------------------------------------------------

/// The frame number of a sidecar line `frame N` (spaces around `N`
/// allowed); `None` for any other line.
pub open spec fn spec_frame_line(line: Seq<char>) -> Option<nat> {
    if has_prefix(line, "frame "@) {
        parse_unsigned(trim(line.skip(6)), u64::MAX as nat)
    } else {
        None
    }
}

pub fn parse_frame_line(line: &str) -> (r: Option<u64>)
    ensures
        r is Some <==> spec_frame_line(line@) is Some,
        r matches Some(n) ==> spec_frame_line(line@) == Some(n as nat),
{
    let cs = to_chars(line);
    match strip_prefix_chars(cs.as_slice(), "frame ") {
        Some(rest) => {
            proof {
                reveal_strlit("frame ");
            }
            let t = trim_chars(rest.as_slice());
            parse_decimal(t.as_slice(), 0xffff_ffff_ffff_ffff)
        },
        None => None,
    }
}

/// Percentage done after `frame` of `total` frames, capped at 100; 0 when
/// the total is unknown.
pub open spec fn spec_frame_pct(frame: nat, total: nat) -> nat {
    if total == 0 {
        0
    } else if frame * 100 / total > 100 {
        100
    } else {
        frame * 100 / total
    }
}

pub fn frame_pct(frame: u64, total: u64) -> (r: u64)
    requires
        frame <= u64::MAX / 100,
    ensures
        r == spec_frame_pct(frame as nat, total as nat),
{
    if total == 0 {
        return 0;
    }
    let p = (frame * 100) / total;
    if p > 100 {
        100
    } else {
        p
    }
}

/// The percentage is the floor of `100 * frame / total`: `p` is the one
/// number with `p * total <= 100 * frame < (p + 1) * total` while the frame
/// is within the total, and it is 100 once all frames are through.
pub proof fn lemma_frame_pct_exact(frame: nat, total: nat)
    requires
        total > 0,
    ensures
        frame <= total ==> spec_frame_pct(frame, total) * total <= 100 * frame,
        frame <= total ==> 100 * frame < (spec_frame_pct(frame, total) + 1) * total,
        frame >= total ==> spec_frame_pct(frame, total) == 100,
        spec_frame_pct(frame, total) <= 100,
{
    crate::text::lemma_div_bounds(frame * 100, total);
    let q = frame * 100 / total;
    if frame <= total {
        assert(frame * 100 <= total * 100) by (nonlinear_arith)
            requires
                frame <= total,
        ;
        if q > 100 {
            assert(q * total >= 101 * total) by (nonlinear_arith)
                requires
                    q >= 101,
            ;
        }
        assert(frame * 100 == 100 * frame);
    } else {
        assert(frame * 100 >= total * 100) by (nonlinear_arith)
            requires
                frame >= total,
        ;
        if q < 100 {
            assert((q + 1) * total <= 100 * total) by (nonlinear_arith)
                requires
                    q + 1 <= 100,
            ;
        }
    }
    if frame == total {
        assert(frame * 100 == 100 * total);
        if q < 100 {
            assert((q + 1) * total <= 100 * total) by (nonlinear_arith)
                requires
                    q + 1 <= 100,
            ;
        }
        if q > 100 {
            assert(q * total >= 101 * total) by (nonlinear_arith)
                requires
                    q >= 101,
            ;
        }
    }
}

/// The progress bar never goes back and never passes 100: a later frame
/// gives at least the percentage of an earlier one.
pub proof fn lemma_frame_pct_monotone(f1: nat, f2: nat, total: nat)
    requires
        f1 <= f2,
    ensures
        spec_frame_pct(f1, total) <= spec_frame_pct(f2, total),
        spec_frame_pct(f2, total) <= 100,
{
    if total > 0 {
        assert(f1 * 100 <= f2 * 100) by (nonlinear_arith)
            requires
                f1 <= f2,
        ;
        vstd::arithmetic::div_mod::lemma_div_is_ordered(
            (f1 * 100) as int,
            (f2 * 100) as int,
            total as int,
        );
    }
}

// ---------------------------------------------------------------------
// Command lines
// ---------------------------------------------------------------------

fn push_arg(v: &mut Vec<String>, s: &str)
    ensures
        arg_views(final(v)@) == arg_views(old(v)@).push(s@),
{
    v.push(String::from_str(s));
    assert(arg_views(v@) =~= arg_views(old(v)@).push(s@));
}

fn push_owned(v: &mut Vec<String>, s: String)
    ensures
        arg_views(final(v)@) == arg_views(old(v)@).push(s@),
{
    let ghost sv = s@;
    v.push(s);
    assert(arg_views(v@) =~= arg_views(old(v)@).push(sv));
}

/// `n/d`, as a frame rate is written for ffmpeg.
pub open spec fn rate_text(n: nat, d: nat) -> Seq<char> {
    dec_digits(n) + "/"@ + dec_digits(d)
}

/// `WxH`, as a frame size is written for ffmpeg.
pub open spec fn dims_text(w: nat, h: nat) -> Seq<char> {
    dec_digits(w) + "x"@ + dec_digits(h)
}

fn pair_text(a: u64, sep: &str, b: u64) -> (r: String)
    ensures
        r@ == dec_digits(a as nat) + sep@ + dec_digits(b as nat),
{
    let mut s = u64_to_text(a);
    s.append(sep);
    let t = u64_to_text(b);
    s.append(t.as_str());
    s
}

/// ffmpeg decoding the input to raw RGB on its standard output.
pub open spec fn spec_read_args(input: Seq<char>) -> Seq<Seq<char>> {
    seq![
        "-hide_banner"@,
        "-loglevel"@,
        "error"@,
        "-i"@,
        input,
        "-f"@,
        "rawvideo"@,
        "-pix_fmt"@,
        "rgb24"@,
        "-"@,
    ]
}

pub fn read_args(input: &str) -> (r: Vec<String>)
    ensures
        arg_views(r@) == spec_read_args(input@),
{
    let mut v: Vec<String> = Vec::new();
    push_arg(&mut v, "-hide_banner");
    push_arg(&mut v, "-loglevel");
    push_arg(&mut v, "error");
    push_arg(&mut v, "-i");
    push_arg(&mut v, input);
    push_arg(&mut v, "-f");
    push_arg(&mut v, "rawvideo");
    push_arg(&mut v, "-pix_fmt");
    push_arg(&mut v, "rgb24");
    push_arg(&mut v, "-");
    assert(arg_views(v@) =~= spec_read_args(input@));
    v
}

/// The upscale sidecar in stream mode: source size, requested scale (as
/// text), the model's native ratio and the model file.
pub open spec fn spec_upscale_stream_args(
    width: nat,
    height: nat,
    scale: Seq<char>,
    model_scale: nat,
    model: Seq<char>,
) -> Seq<Seq<char>> {
    seq![
        "--stream"@,
        "--width"@,
        dec_digits(width),
        "--height"@,
        dec_digits(height),
        "--scale"@,
        scale,
        "--model-scale"@,
        dec_digits(model_scale),
        "--model"@,
        model,
    ]
}

pub fn upscale_stream_args(width: u32, height: u32, scale: &str, model_scale: u32, model: &str) -> (r:
    Vec<String>)
    ensures
        arg_views(r@) == spec_upscale_stream_args(
            width as nat,
            height as nat,
            scale@,
            model_scale as nat,
            model@,
        ),
{
    let mut v: Vec<String> = Vec::new();
    push_arg(&mut v, "--stream");
    push_arg(&mut v, "--width");
    push_owned(&mut v, u64_to_text(width as u64));
    push_arg(&mut v, "--height");
    push_owned(&mut v, u64_to_text(height as u64));
    push_arg(&mut v, "--scale");
    push_arg(&mut v, scale);
    push_arg(&mut v, "--model-scale");
    push_owned(&mut v, u64_to_text(model_scale as u64));
    push_arg(&mut v, "--model");
    push_arg(&mut v, model);
    assert(arg_views(v@) =~= spec_upscale_stream_args(
        width as nat,
        height as nat,
        scale@,
        model_scale as nat,
        model@,
    ));
    v
}

/// The interpolation sidecar in stream mode.
pub open spec fn spec_interp_stream_args(width: nat, height: nat, factor: nat, model: Seq<char>) -> Seq<
    Seq<char>,
> {
    seq![
        "--stream"@,
        "--width"@,
        dec_digits(width),
        "--height"@,
        dec_digits(height),
        "--factor"@,
        dec_digits(factor),
        "--model"@,
        model,
    ]
}

pub fn interp_stream_args(width: u32, height: u32, factor: u32, model: &str) -> (r: Vec<String>)
    ensures
        arg_views(r@) == spec_interp_stream_args(width as nat, height as nat, factor as nat, model@),
{
    let mut v: Vec<String> = Vec::new();
    push_arg(&mut v, "--stream");
    push_arg(&mut v, "--width");
    push_owned(&mut v, u64_to_text(width as u64));
    push_arg(&mut v, "--height");
    push_owned(&mut v, u64_to_text(height as u64));
    push_arg(&mut v, "--factor");
    push_owned(&mut v, u64_to_text(factor as u64));
    push_arg(&mut v, "--model");
    push_arg(&mut v, model);
    assert(arg_views(v@) =~= spec_interp_stream_args(
        width as nat,
        height as nat,
        factor as nat,
        model@,
    ));
    v
}

/// The raw-video input of the encoding ffmpeg, read from standard input.
pub open spec fn spec_raw_input(fps_num: nat, fps_den: nat, w: nat, h: nat) -> Seq<Seq<char>> {
    seq![
        "-hide_banner"@,
        "-loglevel"@,
        "error"@,
        "-y"@,
        "-framerate"@,
        rate_text(fps_num, fps_den),
        "-f"@,
        "rawvideo"@,
        "-pix_fmt"@,
        "rgb24"@,
        "-s"@,
        dims_text(w, h),
        "-i"@,
        "-"@,
    ]
}

/// Encoding that keeps the source's audio (when it has any) and stops
/// with the shorter stream.
pub open spec fn spec_keep_audio(input: Seq<char>, h264: Seq<char>) -> Seq<Seq<char>> {
    seq![
        "-i"@,
        input,
        "-map"@,
        "0:v"@,
        "-map"@,
        "1:a?"@,
        "-c:v"@,
        h264,
        "-pix_fmt"@,
        "yuv420p"@,
        "-c:a"@,
        "copy"@,
        "-shortest"@,
    ]
}

/// Encoding without audio.
pub open spec fn spec_drop_audio(h264: Seq<char>) -> Seq<Seq<char>> {
    seq!["-map"@, "0:v"@, "-an"@, "-c:v"@, h264, "-pix_fmt"@, "yuv420p"@]
}

/// The encoding ffmpeg's arguments: audio kept from `input` unless
/// `drop_audio`, output to `output`.
pub open spec fn spec_write_args(
    fps_num: nat,
    fps_den: nat,
    w: nat,
    h: nat,
    input: Seq<char>,
    h264: Seq<char>,
    drop_audio: bool,
    output: Seq<char>,
) -> Seq<Seq<char>> {
    spec_raw_input(fps_num, fps_den, w, h) + (if drop_audio {
        spec_drop_audio(h264)
    } else {
        spec_keep_audio(input, h264)
    }) + seq![output]
}

/// The encoding ffmpeg of a video run. An upscale always keeps the audio;
/// an interpolation drops it in slow motion, where the clip outlasts the
/// source's sound.
pub fn write_args(
    fps_num: u32,
    fps_den: u32,
    w: u32,
    h: u32,
    input: &str,
    h264: &str,
    drop_audio: bool,
    output: &str,
) -> (r: Vec<String>)
    ensures
        arg_views(r@) == spec_write_args(
            fps_num as nat,
            fps_den as nat,
            w as nat,
            h as nat,
            input@,
            h264@,
            drop_audio,
            output@,
        ),
{
    let mut v: Vec<String> = Vec::new();
    push_arg(&mut v, "-hide_banner");
    push_arg(&mut v, "-loglevel");
    push_arg(&mut v, "error");
    push_arg(&mut v, "-y");
    push_arg(&mut v, "-framerate");
    push_owned(&mut v, pair_text(fps_num as u64, "/", fps_den as u64));
    push_arg(&mut v, "-f");
    push_arg(&mut v, "rawvideo");
    push_arg(&mut v, "-pix_fmt");
    push_arg(&mut v, "rgb24");
    push_arg(&mut v, "-s");
    push_owned(&mut v, pair_text(w as u64, "x", h as u64));
    push_arg(&mut v, "-i");
    push_arg(&mut v, "-");
    let ghost head = arg_views(v@);
    assert(head =~= spec_raw_input(fps_num as nat, fps_den as nat, w as nat, h as nat));
    if drop_audio {
        push_arg(&mut v, "-map");
        push_arg(&mut v, "0:v");
        push_arg(&mut v, "-an");
        push_arg(&mut v, "-c:v");
        push_arg(&mut v, h264);
        push_arg(&mut v, "-pix_fmt");
        push_arg(&mut v, "yuv420p");
        assert(arg_views(v@) =~= head + spec_drop_audio(h264@));
    } else {
        push_arg(&mut v, "-i");
        push_arg(&mut v, input);
        push_arg(&mut v, "-map");
        push_arg(&mut v, "0:v");
        push_arg(&mut v, "-map");
        push_arg(&mut v, "1:a?");
        push_arg(&mut v, "-c:v");
        push_arg(&mut v, h264);
        push_arg(&mut v, "-pix_fmt");
        push_arg(&mut v, "yuv420p");
        push_arg(&mut v, "-c:a");
        push_arg(&mut v, "copy");
        push_arg(&mut v, "-shortest");
        assert(arg_views(v@) =~= head + spec_keep_audio(input@, h264@));
    }
    push_arg(&mut v, output);
    assert(arg_views(v@) =~= spec_write_args(
        fps_num as nat,
        fps_den as nat,
        w as nat,
        h as nat,
        input@,
        h264@,
        drop_audio,
        output@,
    ));
    v
}

// ---------------------------------------------------------------------
// The verdict on the three processes
// ---------------------------------------------------------------------

/// How a process ended: whether it succeeded, and its exit code if any.
pub struct ExitStatus {
    pub success: bool,
    pub code: Option<i32>,
}

/// The error of a pipeline, checked in pipe order: the decoder, then the
/// sidecar (`side_label` names it), then the encoder; `None` when all
/// three succeeded.
pub open spec fn spec_pipeline_error(
    read: ExitStatus,
    side: ExitStatus,
    write: ExitStatus,
    side_label: Seq<char>,
) -> Option<Seq<char>> {
    if !read.success {
        Some("ffmpeg-read exited "@ + exit_code_debug(read.code))
    } else if !side.success {
        Some(side_label + " exited "@ + exit_code_debug(side.code))
    } else if !write.success {
        Some("ffmpeg-write exited "@ + exit_code_debug(write.code))
    } else {
        None
    }
}

pub fn pipeline_error(read: ExitStatus, side: ExitStatus, write: ExitStatus, side_label: &str) -> (r:
    Option<String>)
    ensures
        r is Some <==> spec_pipeline_error(read, side, write, side_label@) is Some,
        r matches Some(m) ==> spec_pipeline_error(read, side, write, side_label@) == Some(m@),
{
    if !read.success {
        let mut m = String::from_str("ffmpeg-read exited ");
        let c = exit_code_text(read.code);
        m.append(c.as_str());
        return Some(m);
    }
    if !side.success {
        let mut m = concat2(side_label, " exited ");
        let c = exit_code_text(side.code);
        m.append(c.as_str());
        return Some(m);
    }
    if !write.success {
        let mut m = String::from_str("ffmpeg-write exited ");
        let c = exit_code_text(write.code);
        m.append(c.as_str());
        return Some(m);
    }
    None
}

/// The message of a batch sidecar that failed: `<label> sidecar exited
/// with <code>`.
pub fn sidecar_exit_message(label: &str, code: Option<i32>) -> (r: String)
    ensures
        r@ == label@ + " sidecar exited with "@ + exit_code_debug(code),
{
    let mut m = concat2(label, " sidecar exited with ");
    let c = exit_code_text(code);
    m.append(c.as_str());
    m
}

} // verus!
