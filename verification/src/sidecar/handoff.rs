//! The command lines the application builds for the sidecars are read back
//! by the sidecars as meant.
use vstd::prelude::*;

use crate::sidecar::args::{
    flag_index, lemma_differ_at, lemma_flag_at, spec_scan, ScanErrorView, TokenView,
};
use crate::sidecar::interp::{interp_fold, interp_table, interp_token};
use crate::sidecar::rembg::{rembg_fold, rembg_table, rembg_token};
use crate::sidecar::upscale::{upscale_fold, upscale_table, upscale_token};
use crate::text::{dec_digits, lemma_parse_dec_digits};
use crate::tools::video::{spec_interp_stream_args, spec_upscale_stream_args};

verus! {

/// The flags of the background-removal table are all spelled differently.
proof fn lemma_rembg_flags()
    ensures
        flag_index(rembg_table(), "--model"@, 0) == Some(0int),
        flag_index(rembg_table(), "--input"@, 0) == Some(1int),
        flag_index(rembg_table(), "--output"@, 0) == Some(2int),
        flag_index(rembg_table(), "--preset"@, 0) == Some(3int),
        flag_index(rembg_table(), "--choke"@, 0) == Some(4int),
{
    reveal_strlit("--model");
    reveal_strlit("--input");
    reveal_strlit("--output");
    reveal_strlit("--preset");
    reveal_strlit("--choke");
    let t = rembg_table();
    lemma_flag_at(t, "--model"@, 0);
    lemma_differ_at("--model"@, "--input"@, 2);
    lemma_flag_at(t, "--input"@, 1);
    lemma_differ_at("--model"@, "--output"@, 2);
    lemma_differ_at("--input"@, "--output"@, 2);
    lemma_flag_at(t, "--output"@, 2);
    lemma_differ_at("--model"@, "--preset"@, 2);
    lemma_differ_at("--input"@, "--preset"@, 2);
    lemma_differ_at("--output"@, "--preset"@, 2);
    lemma_flag_at(t, "--preset"@, 3);
    lemma_differ_at("--model"@, "--choke"@, 2);
    lemma_differ_at("--input"@, "--choke"@, 2);
    lemma_differ_at("--output"@, "--choke"@, 2);
    lemma_differ_at("--preset"@, "--choke"@, 2);
    lemma_flag_at(t, "--choke"@, 4);
}

/// What the application hands the background-removal sidecar, the sidecar
/// reads back: the model, input and output paths as given, the preset the
/// catalogue names, and the choke text at its position — whatever the
/// values are (each follows a value-taking flag, so it is never read as a
/// flag), as long as the choke text reads as a number (`numeric[i]` for
/// argument `i`).
pub proof fn lemma_rembg_handoff(
    model: Seq<char>,
    input: Seq<char>,
    output: Seq<char>,
    preset: Seq<char>,
    choke: Seq<char>,
    numeric: Seq<bool>,
)
    requires
        crate::sidecar::rembg::spec_preset(preset) is Some,
        numeric.len() == 10,
        numeric[9],
    ensures
        crate::sidecar::rembg::spec_parse_args(
            crate::tools::rembg::spec_sidecar_args(model, input, output, preset, choke),
            numeric,
        ) == Ok::<crate::sidecar::rembg::ArgsView, crate::sidecar::args::ArgErrorView>(
            crate::sidecar::rembg::ArgsView {
                model,
                input,
                output,
                preset: crate::sidecar::rembg::spec_preset(preset)->0,
                choke_texts: seq![(8int, choke)],
            },
        ),
{
    lemma_rembg_flags();
    let t = rembg_table();
    let a = crate::tools::rembg::spec_sidecar_args(model, input, output, preset, choke);
    let t0 = TokenView { flag: 0, at: 0, value: Some(model) };
    let t1 = TokenView { flag: 1, at: 2, value: Some(input) };
    let t2 = TokenView { flag: 2, at: 4, value: Some(output) };
    let t3 = TokenView { flag: 3, at: 6, value: Some(preset) };
    let t4 = TokenView { flag: 4, at: 8, value: Some(choke) };
    assert(spec_scan(t, a, 10) == (Seq::<TokenView>::empty(), None::<ScanErrorView>));
    assert(spec_scan(t, a, 8) == (seq![t4], None::<ScanErrorView>));
    assert(spec_scan(t, a, 6) == (seq![t3, t4], None::<ScanErrorView>));
    assert(spec_scan(t, a, 4) == (seq![t2, t3, t4], None::<ScanErrorView>));
    assert(spec_scan(t, a, 2) == (seq![t1, t2, t3, t4], None::<ScanErrorView>));
    assert(spec_scan(t, a, 0) == (seq![t0, t1, t2, t3, t4], None::<ScanErrorView>));
    let toks = seq![t0, t1, t2, t3, t4];
    assert(toks.drop_last() =~= seq![t0, t1, t2, t3]);
    assert(seq![t0, t1, t2, t3].drop_last() =~= seq![t0, t1, t2]);
    assert(seq![t0, t1, t2].drop_last() =~= seq![t0, t1]);
    assert(seq![t0, t1].drop_last() =~= seq![t0]);
    assert(seq![t0].drop_last() =~= Seq::<TokenView>::empty());
    let f0 = rembg_fold(Seq::<TokenView>::empty(), numeric);
    let f1 = rembg_fold(seq![t0], numeric);
    let f2 = rembg_fold(seq![t0, t1], numeric);
    let f3 = rembg_fold(seq![t0, t1, t2], numeric);
    let f4 = rembg_fold(seq![t0, t1, t2, t3], numeric);
    assert(f1 == rembg_token(f0, t0, numeric));
    assert(f2 == rembg_token(f1, t1, numeric));
    assert(f3 == rembg_token(f2, t2, numeric));
    assert(f4 == rembg_token(f3, t3, numeric));
    let s = rembg_fold(toks, numeric);
    assert(s == rembg_token(f4, t4, numeric));
    assert(s.model == Some(model));
    assert(s.input == Some(input));
    assert(s.output == Some(output));
    assert(s.preset == preset);
    assert(s.bad_choke is None);
    assert(s.choke_texts =~= seq![(8int, choke)]);
}

/// Every background-removal entry of the model catalogue names a preset
/// that the sidecar accepts, so the command line built for it is read back
/// without error.
pub proof fn lemma_catalogue_presets_known(i: int)
    requires
        0 <= i < crate::models::spec_catalog().len(),
        crate::models::spec_catalog()[i].family@ == "rembg"@,
    ensures
        crate::sidecar::rembg::spec_preset(crate::models::spec_catalog()[i].preset@) is Some,
{
    reveal_strlit("rembg");
    reveal_strlit("upscale");
    reveal_strlit("interp");
    reveal_strlit("vidsr");
    reveal_strlit("bria-rmbg");
    reveal_strlit("ben2");
    reveal_strlit("birefnet");
    reveal_strlit("modnet");
    let c = crate::models::spec_catalog();
    if i >= 5 {
        let f = c[i].family@;
        assert(f == "upscale"@ || f == "interp"@ || f == "vidsr"@);
        assert(f[0] != "rembg"@[0] || f.len() != "rembg"@.len());
    }
}

/// The upscale sidecar's flags are all spelled differently.
proof fn lemma_upscale_flags()
    ensures
        flag_index(upscale_table(), "--model"@, 0) == Some(0int),
        flag_index(upscale_table(), "--input"@, 0) == Some(1int),
        flag_index(upscale_table(), "--output"@, 0) == Some(2int),
        flag_index(upscale_table(), "--scale"@, 0) == Some(3int),
        flag_index(upscale_table(), "--model-scale"@, 0) == Some(4int),
        flag_index(upscale_table(), "--stream"@, 0) == Some(5int),
        flag_index(upscale_table(), "--width"@, 0) == Some(6int),
        flag_index(upscale_table(), "--height"@, 0) == Some(7int),
{
    reveal_strlit("--model");
    reveal_strlit("--input");
    reveal_strlit("--output");
    reveal_strlit("--scale");
    reveal_strlit("--model-scale");
    reveal_strlit("--stream");
    reveal_strlit("--width");
    reveal_strlit("--height");
    let t = upscale_table();
    lemma_flag_at(t, "--model"@, 0);
    lemma_differ_at("--model"@, "--input"@, 2);
    lemma_flag_at(t, "--input"@, 1);
    lemma_differ_at("--model"@, "--output"@, 2);
    lemma_differ_at("--input"@, "--output"@, 2);
    lemma_flag_at(t, "--output"@, 2);
    lemma_differ_at("--model"@, "--scale"@, 2);
    lemma_differ_at("--input"@, "--scale"@, 2);
    lemma_differ_at("--output"@, "--scale"@, 2);
    lemma_flag_at(t, "--scale"@, 3);
    assert("--model"@.len() != "--model-scale"@.len());
    lemma_differ_at("--input"@, "--model-scale"@, 2);
    lemma_differ_at("--output"@, "--model-scale"@, 2);
    lemma_differ_at("--scale"@, "--model-scale"@, 2);
    lemma_flag_at(t, "--model-scale"@, 4);
    lemma_differ_at("--model"@, "--stream"@, 2);
    lemma_differ_at("--input"@, "--stream"@, 2);
    lemma_differ_at("--output"@, "--stream"@, 2);
    lemma_differ_at("--scale"@, "--stream"@, 3);
    lemma_differ_at("--model-scale"@, "--stream"@, 2);
    lemma_flag_at(t, "--stream"@, 5);
    lemma_differ_at("--model"@, "--width"@, 2);
    lemma_differ_at("--input"@, "--width"@, 2);
    lemma_differ_at("--output"@, "--width"@, 2);
    lemma_differ_at("--scale"@, "--width"@, 2);
    lemma_differ_at("--model-scale"@, "--width"@, 2);
    lemma_differ_at("--stream"@, "--width"@, 2);
    lemma_flag_at(t, "--width"@, 6);
    lemma_differ_at("--model"@, "--height"@, 2);
    lemma_differ_at("--input"@, "--height"@, 2);
    lemma_differ_at("--output"@, "--height"@, 2);
    lemma_differ_at("--scale"@, "--height"@, 2);
    lemma_differ_at("--model-scale"@, "--height"@, 2);
    lemma_differ_at("--stream"@, "--height"@, 2);
    lemma_differ_at("--width"@, "--height"@, 2);
    lemma_flag_at(t, "--height"@, 7);
}

/// What the application hands the upscale sidecar for one image, the
/// sidecar reads back, for any native ratio the sidecar supports (2 to 4;
/// it refuses others) and a factor whose text reads as a number within 1
/// to 4 (`numeric[i]` and `in_range[i]` for argument `i`).
pub proof fn lemma_upscale_file_handoff(
    model: Seq<char>,
    input: Seq<char>,
    output: Seq<char>,
    scale: Seq<char>,
    model_scale: nat,
    numeric: Seq<bool>,
    in_range: Seq<bool>,
)
    requires
        2 <= model_scale <= 4,
        numeric.len() == 10 && in_range.len() == 10,
        numeric[7] && in_range[7],
    ensures
        crate::sidecar::upscale::spec_parse_args(
            crate::tools::upscale::spec_sidecar_args(model, input, output, scale, model_scale),
            numeric,
            in_range,
        ) == Ok::<crate::sidecar::upscale::ArgsView, crate::sidecar::args::ArgErrorView>(
            crate::sidecar::upscale::ArgsView {
                model,
                input: Some(input),
                output: Some(output),
                scale_texts: seq![(6int, scale)],
                model_scale,
                stream: false,
                width: 0,
                height: 0,
            },
        ),
{
    lemma_upscale_flags();
    lemma_parse_dec_digits(model_scale, 0xffff_ffff);
    let t = upscale_table();
    let a = crate::tools::upscale::spec_sidecar_args(model, input, output, scale, model_scale);
    let t0 = TokenView { flag: 0, at: 0, value: Some(model) };
    let t1 = TokenView { flag: 1, at: 2, value: Some(input) };
    let t2 = TokenView { flag: 2, at: 4, value: Some(output) };
    let t3 = TokenView { flag: 3, at: 6, value: Some(scale) };
    let t4 = TokenView { flag: 4, at: 8, value: Some(dec_digits(model_scale)) };
    assert(spec_scan(t, a, 10) == (Seq::<TokenView>::empty(), None::<ScanErrorView>));
    assert(spec_scan(t, a, 8) == (seq![t4], None::<ScanErrorView>));
    assert(spec_scan(t, a, 6) == (seq![t3, t4], None::<ScanErrorView>));
    assert(spec_scan(t, a, 4) == (seq![t2, t3, t4], None::<ScanErrorView>));
    assert(spec_scan(t, a, 2) == (seq![t1, t2, t3, t4], None::<ScanErrorView>));
    assert(spec_scan(t, a, 0) == (seq![t0, t1, t2, t3, t4], None::<ScanErrorView>));
    let toks = seq![t0, t1, t2, t3, t4];
    assert(toks.drop_last() =~= seq![t0, t1, t2, t3]);
    assert(seq![t0, t1, t2, t3].drop_last() =~= seq![t0, t1, t2]);
    assert(seq![t0, t1, t2].drop_last() =~= seq![t0, t1]);
    assert(seq![t0, t1].drop_last() =~= seq![t0]);
    assert(seq![t0].drop_last() =~= Seq::<TokenView>::empty());
    let f0 = upscale_fold(Seq::<TokenView>::empty(), numeric, in_range)->Ok_0;
    let f1 = upscale_token(f0, t0, numeric, in_range)->Ok_0;
    let f2 = upscale_token(f1, t1, numeric, in_range)->Ok_0;
    let f3 = upscale_token(f2, t2, numeric, in_range)->Ok_0;
    let f4 = upscale_token(f3, t3, numeric, in_range)->Ok_0;
    assert(upscale_fold(seq![t0], numeric, in_range) == upscale_token(f0, t0, numeric, in_range));
    assert(upscale_fold(seq![t0, t1], numeric, in_range) == upscale_token(f1, t1, numeric, in_range));
    assert(upscale_fold(seq![t0, t1, t2], numeric, in_range) == upscale_token(f2, t2, numeric, in_range));
    assert(upscale_fold(seq![t0, t1, t2, t3], numeric, in_range) == upscale_token(f3, t3, numeric, in_range));
    assert(upscale_fold(toks, numeric, in_range) == upscale_token(f4, t4, numeric, in_range));
    let s = upscale_token(f4, t4, numeric, in_range)->Ok_0;
    assert(s.scale_texts =~= seq![(6int, scale)]);
}

/// What the video runner hands the upscale sidecar in stream mode, the
/// sidecar reads back, for a non-empty frame size that fits a `u32`, a
/// native ratio it supports and a factor whose text reads as a number
/// within 1 to 4.
pub proof fn lemma_upscale_stream_handoff(
    width: nat,
    height: nat,
    scale: Seq<char>,
    model_scale: nat,
    model: Seq<char>,
    numeric: Seq<bool>,
    in_range: Seq<bool>,
)
    requires
        0 < width <= u32::MAX,
        0 < height <= u32::MAX,
        2 <= model_scale <= 4,
        numeric.len() == 11 && in_range.len() == 11,
        numeric[6] && in_range[6],
    ensures
        crate::sidecar::upscale::spec_parse_args(
            spec_upscale_stream_args(width, height, scale, model_scale, model),
            numeric,
            in_range,
        ) == Ok::<crate::sidecar::upscale::ArgsView, crate::sidecar::args::ArgErrorView>(
            crate::sidecar::upscale::ArgsView {
                model,
                input: None,
                output: None,
                scale_texts: seq![(5int, scale)],
                model_scale,
                stream: true,
                width,
                height,
            },
        ),
{
    lemma_upscale_flags();
    lemma_parse_dec_digits(width, 0xffff_ffff);
    lemma_parse_dec_digits(height, 0xffff_ffff);
    lemma_parse_dec_digits(model_scale, 0xffff_ffff);
    let t = upscale_table();
    let a = spec_upscale_stream_args(width, height, scale, model_scale, model);
    let t0 = TokenView { flag: 5, at: 0, value: None };
    let t1 = TokenView { flag: 6, at: 1, value: Some(dec_digits(width)) };
    let t2 = TokenView { flag: 7, at: 3, value: Some(dec_digits(height)) };
    let t3 = TokenView { flag: 3, at: 5, value: Some(scale) };
    let t4 = TokenView { flag: 4, at: 7, value: Some(dec_digits(model_scale)) };
    let t5 = TokenView { flag: 0, at: 9, value: Some(model) };
    assert(spec_scan(t, a, 11) == (Seq::<TokenView>::empty(), None::<ScanErrorView>));
    assert(spec_scan(t, a, 9) == (seq![t5], None::<ScanErrorView>));
    assert(spec_scan(t, a, 7) == (seq![t4, t5], None::<ScanErrorView>));
    assert(spec_scan(t, a, 5) == (seq![t3, t4, t5], None::<ScanErrorView>));
    assert(spec_scan(t, a, 3) == (seq![t2, t3, t4, t5], None::<ScanErrorView>));
    assert(spec_scan(t, a, 1) == (seq![t1, t2, t3, t4, t5], None::<ScanErrorView>));
    assert(spec_scan(t, a, 0) == (seq![t0, t1, t2, t3, t4, t5], None::<ScanErrorView>));
    let toks = seq![t0, t1, t2, t3, t4, t5];
    assert(toks.drop_last() =~= seq![t0, t1, t2, t3, t4]);
    assert(seq![t0, t1, t2, t3, t4].drop_last() =~= seq![t0, t1, t2, t3]);
    assert(seq![t0, t1, t2, t3].drop_last() =~= seq![t0, t1, t2]);
    assert(seq![t0, t1, t2].drop_last() =~= seq![t0, t1]);
    assert(seq![t0, t1].drop_last() =~= seq![t0]);
    assert(seq![t0].drop_last() =~= Seq::<TokenView>::empty());
    let f0 = upscale_fold(Seq::<TokenView>::empty(), numeric, in_range)->Ok_0;
    let f1 = upscale_token(f0, t0, numeric, in_range)->Ok_0;
    let f2 = upscale_token(f1, t1, numeric, in_range)->Ok_0;
    let f3 = upscale_token(f2, t2, numeric, in_range)->Ok_0;
    let f4 = upscale_token(f3, t3, numeric, in_range)->Ok_0;
    let f5 = upscale_token(f4, t4, numeric, in_range)->Ok_0;
    assert(upscale_fold(seq![t0], numeric, in_range) == upscale_token(f0, t0, numeric, in_range));
    assert(upscale_fold(seq![t0, t1], numeric, in_range) == upscale_token(f1, t1, numeric, in_range));
    assert(upscale_fold(seq![t0, t1, t2], numeric, in_range) == upscale_token(f2, t2, numeric, in_range));
    assert(upscale_fold(seq![t0, t1, t2, t3], numeric, in_range) == upscale_token(f3, t3, numeric, in_range));
    assert(upscale_fold(seq![t0, t1, t2, t3, t4], numeric, in_range) == upscale_token(f4, t4, numeric, in_range));
    assert(upscale_fold(toks, numeric, in_range) == upscale_token(f5, t5, numeric, in_range));
    let s = upscale_token(f5, t5, numeric, in_range)->Ok_0;
    assert(s.scale_texts =~= seq![(5int, scale)]);
}

/// The interpolation sidecar's flags are all spelled differently.
proof fn lemma_interp_flags()
    ensures
        flag_index(interp_table(), "--model"@, 0) == Some(0int),
        flag_index(interp_table(), "--width"@, 0) == Some(1int),
        flag_index(interp_table(), "--height"@, 0) == Some(2int),
        flag_index(interp_table(), "--factor"@, 0) == Some(3int),
        flag_index(interp_table(), "--stream"@, 0) == Some(4int),
{
    reveal_strlit("--model");
    reveal_strlit("--width");
    reveal_strlit("--height");
    reveal_strlit("--factor");
    reveal_strlit("--stream");
    let t = interp_table();
    lemma_flag_at(t, "--model"@, 0);
    lemma_differ_at("--model"@, "--width"@, 2);
    lemma_flag_at(t, "--width"@, 1);
    lemma_differ_at("--model"@, "--height"@, 2);
    lemma_differ_at("--width"@, "--height"@, 2);
    lemma_flag_at(t, "--height"@, 2);
    lemma_differ_at("--model"@, "--factor"@, 2);
    lemma_differ_at("--width"@, "--factor"@, 2);
    lemma_differ_at("--height"@, "--factor"@, 2);
    lemma_flag_at(t, "--factor"@, 3);
    lemma_differ_at("--model"@, "--stream"@, 2);
    lemma_differ_at("--width"@, "--stream"@, 2);
    lemma_differ_at("--height"@, "--stream"@, 2);
    lemma_differ_at("--factor"@, "--stream"@, 2);
    lemma_flag_at(t, "--stream"@, 4);
}

/// What the video runner hands the interpolation sidecar, the sidecar
/// reads back, for a non-empty frame size that fits a `u32` and the
/// factors the runner uses (2 to 16).
pub proof fn lemma_interp_handoff(width: nat, height: nat, factor: nat, model: Seq<char>)
    requires
        0 < width <= u32::MAX,
        0 < height <= u32::MAX,
        2 <= factor <= 16,
    ensures
        crate::sidecar::interp::spec_parse_args(spec_interp_stream_args(width, height, factor, model))
            == Ok::<crate::sidecar::interp::ArgsView, crate::sidecar::args::ArgErrorView>(
            crate::sidecar::interp::ArgsView { model, width, height, factor },
        ),
{
    lemma_interp_flags();
    lemma_parse_dec_digits(width, 0xffff_ffff);
    lemma_parse_dec_digits(height, 0xffff_ffff);
    lemma_parse_dec_digits(factor, 0xffff_ffff);
    let t = interp_table();
    let a = spec_interp_stream_args(width, height, factor, model);
    let t0 = TokenView { flag: 4, at: 0, value: None };
    let t1 = TokenView { flag: 1, at: 1, value: Some(dec_digits(width)) };
    let t2 = TokenView { flag: 2, at: 3, value: Some(dec_digits(height)) };
    let t3 = TokenView { flag: 3, at: 5, value: Some(dec_digits(factor)) };
    let t4 = TokenView { flag: 0, at: 7, value: Some(model) };
    assert(spec_scan(t, a, 9) == (Seq::<TokenView>::empty(), None::<ScanErrorView>));
    assert(spec_scan(t, a, 7) == (seq![t4], None::<ScanErrorView>));
    assert(spec_scan(t, a, 5) == (seq![t3, t4], None::<ScanErrorView>));
    assert(spec_scan(t, a, 3) == (seq![t2, t3, t4], None::<ScanErrorView>));
    assert(spec_scan(t, a, 1) == (seq![t1, t2, t3, t4], None::<ScanErrorView>));
    assert(spec_scan(t, a, 0) == (seq![t0, t1, t2, t3, t4], None::<ScanErrorView>));
    let toks = seq![t0, t1, t2, t3, t4];
    assert(toks.drop_last() =~= seq![t0, t1, t2, t3]);
    assert(seq![t0, t1, t2, t3].drop_last() =~= seq![t0, t1, t2]);
    assert(seq![t0, t1, t2].drop_last() =~= seq![t0, t1]);
    assert(seq![t0, t1].drop_last() =~= seq![t0]);
    assert(seq![t0].drop_last() =~= Seq::<TokenView>::empty());
    let f0 = interp_fold(Seq::<TokenView>::empty())->Ok_0;
    let f1 = interp_token(f0, t0)->Ok_0;
    let f2 = interp_token(f1, t1)->Ok_0;
    let f3 = interp_token(f2, t2)->Ok_0;
    let f4 = interp_token(f3, t3)->Ok_0;
    assert(interp_fold(seq![t0]) == interp_token(f0, t0));
    assert(interp_fold(seq![t0, t1]) == interp_token(f1, t1));
    assert(interp_fold(seq![t0, t1, t2]) == interp_token(f2, t2));
    assert(interp_fold(seq![t0, t1, t2, t3]) == interp_token(f3, t3));
    assert(interp_fold(toks) == interp_token(f4, t4));
}

} // verus!
