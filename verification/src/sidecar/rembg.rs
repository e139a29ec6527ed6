//! Background-removal sidecar: presets, command line, the checks on the
//! model's output, the optional choke (erosion) of the alpha mask and the
//! final RGBA composition.
//!
//! Protocol: `--model <onnx> --input <path> --output <png>
//! [--preset bria-rmbg|ben2|birefnet|modnet] [--choke F]`. `--choke` is a real number; its
//! text is handed back with the argument position so the caller can read
//! and clamp it.
use vstd::prelude::*;

use crate::sidecar::args::{
    scan, scan_error, scan_error_view, spec_scan, table_view, tokens_view, args_view, ArgError,
    ArgErrorView, TokenView, token_value, token_value_of,
};
use crate::sidecar::upscale::{opt_view, scales_view};
use crate::text::str_eq;

verus! {

// ---------------------------------------------------------------------
// Presets
// ---------------------------------------------------------------------

/// Per-model pre/post-processing flavour; the model catalogue names one
/// for each background-removal entry.
#[derive(Debug, Clone, Copy)]
pub enum Preset {
    /// BRIA RMBG 1.4: 1024 square input, triangle resize, no sigmoid.
    BriaRmbg,
    /// BEN2: 1024 square input, Lanczos resize, sigmoid inside the model.
    Ben2,
    /// BiRefNet: 1024 square input, Lanczos resize, raw logits (the
    /// sigmoid is applied here).
    Birefnet,
    /// MODNet: 512 square input, triangle resize, no sigmoid.
    Modnet,
}

/// Resampling filter used to bring the input to the model's size.
#[derive(Debug, Clone, Copy)]
pub enum ResizeFilter {
    Triangle,
    Lanczos3,
}

/// The preset a `--preset` value names.
pub open spec fn spec_preset(s: Seq<char>) -> Option<Preset> {
    if s == "bria-rmbg"@ {
        Some(Preset::BriaRmbg)
    } else if s == "ben2"@ {
        Some(Preset::Ben2)
    } else if s == "birefnet"@ {
        Some(Preset::Birefnet)
    } else if s == "modnet"@ {
        Some(Preset::Modnet)
    } else {
        None
    }
}

impl Preset {
    pub fn parse(s: &str) -> (r: Result<Preset, ArgError>)
        ensures
            r is Ok <==> spec_preset(s@) is Some,
            r matches Ok(p) ==> spec_preset(s@) == Some(p),
            r matches Err(e) ==> e.view() == (ArgErrorView::UnknownPreset { name: s@ }),
    {
        if str_eq(s, "bria-rmbg") {
            Ok(Preset::BriaRmbg)
        } else if str_eq(s, "ben2") {
            Ok(Preset::Ben2)
        } else if str_eq(s, "birefnet") {
            Ok(Preset::Birefnet)
        } else if str_eq(s, "modnet") {
            Ok(Preset::Modnet)
        } else {
            Err(ArgError::UnknownPreset { name: String::from_str(s) })
        }
    }

    /// Side of the square model input.
    pub fn input_size(&self) -> (r: u32)
        ensures
            *self is Modnet ==> r == 512,
            !(*self is Modnet) ==> r == 1024,
    {
        match self {
            Preset::BriaRmbg | Preset::Ben2 | Preset::Birefnet => 1024,
            Preset::Modnet => 512,
        }
    }

    pub fn resize_filter(&self) -> (r: ResizeFilter)
        ensures
            (*self is BriaRmbg || *self is Modnet) ==> r is Triangle,
            (*self is Ben2 || *self is Birefnet) ==> r is Lanczos3,
    {
        match self {
            Preset::BriaRmbg | Preset::Modnet => ResizeFilter::Triangle,
            Preset::Ben2 | Preset::Birefnet => ResizeFilter::Lanczos3,
        }
    }

    /// Whether a sigmoid is applied to the raw output before min-max
    /// normalisation: only for a model that outputs raw logits.
    pub fn needs_sigmoid(&self) -> (r: bool)
        ensures
            r <==> *self is Birefnet,
    {
        match self {
            Preset::Birefnet => true,
            Preset::BriaRmbg | Preset::Ben2 | Preset::Modnet => false,
        }
    }
}

// ---------------------------------------------------------------------
// Command line
// ---------------------------------------------------------------------

pub struct Args {
    pub model: String,
    pub input: String,
    pub output: String,
    pub preset: Preset,
    /// Every `--choke` value with the position of its flag, in order.
    pub choke_texts: Vec<(usize, String)>,
}

pub struct ArgsView {
    pub model: Seq<char>,
    pub input: Seq<char>,
    pub output: Seq<char>,
    pub preset: Preset,
    pub choke_texts: Seq<(int, Seq<char>)>,
}

impl Args {
    pub open spec fn view(&self) -> ArgsView {
        ArgsView {
            model: self.model@,
            input: self.input@,
            output: self.output@,
            preset: self.preset,
            choke_texts: scales_view(self.choke_texts@),
        }
    }
}

pub open spec fn rembg_table() -> Seq<(Seq<char>, bool)> {
    seq![
        ("--model"@, true),
        ("--input"@, true),
        ("--output"@, true),
        ("--preset"@, true),
        ("--choke"@, true),
    ]
}

fn table() -> (t: Vec<(&'static str, bool)>)
    ensures
        table_view(t@) == rembg_table(),
{
    let t = vec![
        ("--model", true),
        ("--input", true),
        ("--output", true),
        ("--preset", true),
        ("--choke", true),
    ];
    assert(table_view(t@) =~= rembg_table());
    t
}

pub struct RembgScan {
    pub model: Option<Seq<char>>,
    pub input: Option<Seq<char>>,
    pub output: Option<Seq<char>>,
    pub preset: Seq<char>,
    pub choke_texts: Seq<(int, Seq<char>)>,
    /// The first `--choke` whose value is not a number: its position and
    /// text.
    pub bad_choke: Option<(int, Seq<char>)>,
}

pub open spec fn rembg_scan_init() -> RembgScan {
    RembgScan {
        model: None,
        input: None,
        output: None,
        preset: "bria-rmbg"@,
        choke_texts: seq![],
        bad_choke: None,
    }
}

/// `numeric[i]` tells whether argument `i` reads as a real number.
pub open spec fn value_is_number(numeric: Seq<bool>, at: int) -> bool {
    0 <= at + 1 < numeric.len() ==> numeric[at + 1]
}

pub open spec fn rembg_token(s: RembgScan, t: TokenView, numeric: Seq<bool>) -> RembgScan {
    let v = token_value(t);
    if t.flag == 0 {
        RembgScan { model: Some(v), ..s }
    } else if t.flag == 1 {
        RembgScan { input: Some(v), ..s }
    } else if t.flag == 2 {
        RembgScan { output: Some(v), ..s }
    } else if t.flag == 3 {
        RembgScan { preset: v, ..s }
    } else {
        RembgScan {
            choke_texts: s.choke_texts.push((t.at, v)),
            bad_choke: if s.bad_choke is None && !value_is_number(numeric, t.at) {
                Some((t.at, v))
            } else {
                s.bad_choke
            },
            ..s
        }
    }
}

pub open spec fn rembg_fold(toks: Seq<TokenView>, numeric: Seq<bool>) -> RembgScan
    decreases toks.len(),
{
    if toks.len() == 0 {
        rembg_scan_init()
    } else {
        rembg_token(rembg_fold(toks.drop_last(), numeric), toks.last(), numeric)
    }
}

/// What `parse_args` answers for an argument list (program name excluded),
/// `numeric[i]` telling whether argument `i` reads as a real number. The
/// arguments are read in order and the first fault met is reported: a
/// `--choke` value that is not a number comes before any later unknown or
/// value-less flag, and all of these before a missing flag or an unknown
/// preset.
pub open spec fn spec_parse_args(args: Seq<Seq<char>>, numeric: Seq<bool>) -> Result<
    ArgsView,
    ArgErrorView,
> {
    let sc = spec_scan(rembg_table(), args, 0);
    let s = rembg_fold(sc.0, numeric);
    match (s.bad_choke, sc.1) {
        (Some((at, text)), _) => Err(ArgErrorView::BadNumber { flag: "--choke"@, text, at }),
        (None, Some(e)) => Err(scan_error_view(e)),
        (None, None) => match (s.model, s.input, s.output) {
            (None, _, _) => Err(ArgErrorView::Required { flag: "--model"@ }),
            (Some(_), None, _) => Err(ArgErrorView::Required { flag: "--input"@ }),
            (Some(_), Some(_), None) => Err(ArgErrorView::Required { flag: "--output"@ }),
            (Some(m), Some(i), Some(o)) => match spec_preset(s.preset) {
                None => Err(ArgErrorView::UnknownPreset { name: s.preset }),
                Some(p) => Ok(
                    ArgsView {
                        model: m,
                        input: i,
                        output: o,
                        preset: p,
                        choke_texts: s.choke_texts,
                    },
                ),
            },
        },
    }
}

pub open spec fn result_view(r: Result<Args, ArgError>) -> Result<ArgsView, ArgErrorView> {
    match r {
        Ok(a) => Ok(a.view()),
        Err(e) => Err(e.view()),
    }
}

/// Parse the sidecar's command line (program name excluded); `numeric[i]`
/// tells whether argument `i` reads as a real number. The value of
/// `--choke` is handed back as text: see `Args::choke_texts`.
pub fn parse_args(args: &Vec<String>, numeric: &Vec<bool>) -> (r: Result<Args, ArgError>)
    requires
        numeric@.len() == args@.len(),
    ensures
        result_view(r) == spec_parse_args(args_view(args@), numeric@),
{
    let t = table();
    let (toks, err) = scan(&t, args);
    let ghost tv = tokens_view(toks@);
    let mut model: Option<String> = None;
    let mut input: Option<String> = None;
    let mut output: Option<String> = None;
    let mut preset = String::from_str("bria-rmbg");
    let mut choke_texts: Vec<(usize, String)> = Vec::new();
    let mut bad_choke: Option<(usize, String)> = None;
    let mut k: usize = 0;
    assert(tv.take(0) =~= Seq::<TokenView>::empty());
    assert(scales_view(choke_texts@) =~= Seq::<(int, Seq<char>)>::empty());
    while k < toks.len()
        invariant
            tv == tokens_view(toks@),
            k <= toks@.len(),
            numeric@.len() == args@.len(),
            rembg_fold(tv.take(k as int), numeric@) == (RembgScan {
                model: opt_view(model),
                input: opt_view(input),
                output: opt_view(output),
                preset: preset@,
                choke_texts: scales_view(choke_texts@),
                bad_choke: match bad_choke {
                    Some(b) => Some((b.0 as int, b.1@)),
                    None => None,
                },
            }),
        decreases toks@.len() - k,
    {
        let tok = &toks[k];
        proof {
            assert(tv.take(k + 1).drop_last() =~= tv.take(k as int));
            assert(tv.take(k + 1).last() == tok.view());
        }
        let v = token_value_of(tok);
        if tok.flag == 0 {
            model = Some(v);
        } else if tok.flag == 1 {
            input = Some(v);
        } else if tok.flag == 2 {
            output = Some(v);
        } else if tok.flag == 3 {
            preset = v;
        } else {
            let ghost old_cv = scales_view(choke_texts@);
            let number = if tok.at < numeric.len() && tok.at + 1 < numeric.len() {
                numeric[tok.at + 1]
            } else {
                true
            };
            if bad_choke.is_none() && !number {
                bad_choke = Some((tok.at, v.clone()));
            }
            choke_texts.push((tok.at, v));
            proof {
                assert(scales_view(choke_texts@) =~= old_cv.push(
                    (tok.at as int, token_value(tok.view())),
                ));
            }
        }
        k = k + 1;
    }
    assert(tv.take(k as int) =~= tv);
    match bad_choke {
        Some((at, text)) => {
            return Err(ArgError::BadNumber { flag: "--choke", text, at });
        },
        None => {},
    }
    match err {
        Some(e) => {
            return Err(scan_error(e));
        },
        None => {},
    }
    let model = match model {
        Some(m) => m,
        None => {
            return Err(ArgError::Required { flag: "--model" });
        },
    };
    let input = match input {
        Some(m) => m,
        None => {
            return Err(ArgError::Required { flag: "--input" });
        },
    };
    let output = match output {
        Some(m) => m,
        None => {
            return Err(ArgError::Required { flag: "--output" });
        },
    };
    let preset = Preset::parse(preset.as_str())?;
    Ok(Args { model, input, output, preset, choke_texts })
}

// ---------------------------------------------------------------------
// Model output
// ---------------------------------------------------------------------

pub open spec fn all_positive(shape: Seq<i64>) -> bool {
    forall|i: int| 0 <= i < shape.len() ==> shape[i] > 0
}

/// Product of the dimensions.
pub open spec fn shape_product(shape: Seq<i64>) -> int
    decreases shape.len(),
{
    if shape.len() == 0 {
        1
    } else {
        shape_product(shape.drop_last()) * shape.last()
    }
}

/// Why the model's output was refused.
pub enum MaskShapeError {
    /// Some dimension is zero or negative.
    NonPositive,
    /// The dimensions' product is not the number of values.
    SizeMismatch { product: usize },
    /// The last two dimensions do not multiply to the number of values.
    Layout,
}

/// What `mask_dims` answers: `(height, width)` taken from the last two
/// dimensions, after checking that every dimension is positive, that
/// their product is the number of values, and that height x width is too.
pub open spec fn spec_mask_dims(shape: Seq<i64>, len: nat) -> Result<(nat, nat), MaskShapeError> {
    if !all_positive(shape) {
        Err(MaskShapeError::NonPositive)
    } else if shape_product(shape) != len {
        Err(MaskShapeError::SizeMismatch { product: shape_product(shape) as usize })
    } else {
        let h = shape[shape.len() - 2] as nat;
        let w = shape[shape.len() - 1] as nat;
        if h * w != len {
            Err(MaskShapeError::Layout)
        } else {
            Ok((h, w))
        }
    }
}

proof fn lemma_product_positive(shape: Seq<i64>, k: int)
    requires
        0 <= k <= shape.len(),
        all_positive(shape),
    ensures
        shape_product(shape.take(k)) >= 1,
    decreases k,
{
    if k > 0 {
        lemma_product_positive(shape, k - 1);
        assert(shape.take(k).drop_last() =~= shape.take(k - 1));
        let p = shape_product(shape.take(k - 1));
        assert(p * shape[k - 1] >= 1) by (nonlinear_arith)
            requires
                p >= 1,
                shape[k - 1] >= 1,
        ;
    } else {
        assert(shape.take(0).len() == 0);
    }
}

/// For positive dimensions, the product of a prefix times the next
/// dimension is a prefix product, and prefix products and single
/// dimensions never exceed the whole product.
proof fn lemma_product_bounds(shape: Seq<i64>, k: int)
    requires
        0 <= k < shape.len(),
        all_positive(shape),
    ensures
        shape_product(shape.take(k + 1)) == shape_product(shape.take(k)) * shape[k],
        shape_product(shape.take(k + 1)) <= shape_product(shape),
        shape[k] <= shape_product(shape),
    decreases shape.len() - k,
{
    assert(shape.take(k + 1).drop_last() =~= shape.take(k));
    lemma_product_positive(shape, k);
    let p = shape_product(shape.take(k));
    let l = shape[k] as int;
    assert(l <= p * l) by (nonlinear_arith)
        requires
            p >= 1,
            l >= 1,
    ;
    if k + 1 < shape.len() {
        lemma_product_bounds(shape, k + 1);
        lemma_product_positive(shape, k + 1);
        let q = shape_product(shape.take(k + 1));
        let m = shape[k + 1] as int;
        assert(q <= q * m) by (nonlinear_arith)
            requires
                q >= 1,
                m >= 1,
        ;
    } else {
        assert(shape.take(k + 1) =~= shape);
    }
}

/// Check the shape of the model's first output against the number of
/// values it holds, and read the mask's height and width.
pub fn mask_dims(shape: &Vec<i64>, len: usize) -> (r: Result<(usize, usize), MaskShapeError>)
    requires
        all_positive(shape@) ==> shape_product(shape@) <= usize::MAX,
        all_positive(shape@) && shape_product(shape@) == len ==> shape@.len() >= 2,
    ensures
        match r {
            Ok((h, w)) => spec_mask_dims(shape@, len as nat) == Ok::<(nat, nat), MaskShapeError>(
                (h as nat, w as nat),
            ),
            Err(e) => spec_mask_dims(shape@, len as nat) == Err::<(nat, nat), MaskShapeError>(e),
        },
{
    let n = shape.len();
    let mut i: usize = 0;
    while i < n
        invariant
            n == shape@.len(),
            i <= n,
            forall|j: int| 0 <= j < i ==> shape@[j] > 0,
        decreases n - i,
    {
        if shape[i] <= 0 {
            return Err(MaskShapeError::NonPositive);
        }
        i = i + 1;
    }
    assert(all_positive(shape@));
    let mut total: usize = 1;
    let mut k: usize = 0;
    assert(shape@.take(0).len() == 0);
    while k < n
        invariant
            n == shape@.len(),
            k <= n,
            all_positive(shape@),
            shape_product(shape@) <= usize::MAX,
            total as int == shape_product(shape@.take(k as int)),
        decreases n - k,
    {
        proof {
            lemma_product_bounds(shape@, k as int);
        }
        total = total * (shape[k] as usize);
        k = k + 1;
    }
    assert(shape@.take(n as int) =~= shape@);
    if total != len {
        return Err(MaskShapeError::SizeMismatch { product: total });
    }
    proof {
        lemma_product_bounds(shape@, n - 2);
        lemma_product_bounds(shape@, n - 1);
    }
    let h = shape[n - 2] as usize;
    let w = shape[n - 1] as usize;
    match h.checked_mul(w) {
        Some(hw) => {
            if hw != len {
                return Err(MaskShapeError::Layout);
            }
        },
        None => {
            return Err(MaskShapeError::Layout);
        },
    }
    Ok((h, w))
}

// ---------------------------------------------------------------------
// Mask post-processing
// ---------------------------------------------------------------------

/// `imageproc::contrast::threshold` with `ThresholdType::Binary`: pixels
/// above `t` become 255, the others 0.
pub open spec fn spec_threshold(pixels: Seq<u8>, t: u8) -> Seq<u8> {
    Seq::new(pixels.len(), |i: int| if pixels[i] > t { 255u8 } else { 0u8 })
}

pub fn threshold_binary(pixels: &Vec<u8>, t: u8) -> (r: Vec<u8>)
    ensures
        r@ == spec_threshold(pixels@, t),
{
    let mut out: Vec<u8> = Vec::new();
    let mut i: usize = 0;
    while i < pixels.len()
        invariant
            i <= pixels@.len(),
            out@ == spec_threshold(pixels@, t).take(i as int),
        decreases pixels@.len() - i,
    {
        out.push(if pixels[i] > t { 255u8 } else { 0u8 });
        i = i + 1;
        assert(out@ =~= spec_threshold(pixels@, t).take(i as int));
    }
    assert(out@ =~= spec_threshold(pixels@, t));
    out
}

/// A zero pixel of the `width` x `height` image lies within L-infinity
/// distance `k` of pixel (`x`, `y`).
pub open spec fn near_zero(width: nat, height: nat, pixels: Seq<u8>, x: int, y: int, k: nat) -> bool {
    exists|x2: int, y2: int|
        0 <= x2 < width && 0 <= y2 < height && #[trigger] pixels[y2 * width + x2] == 0 && x - k
            <= x2 <= x + k && y - k <= y2 <= y + k
}

/// `imageproc::morphology::erode` with the L-infinity norm on a `width` x
/// `height` grey image (row-major): a pixel becomes 0 when its distance to
/// the nearest zero pixel, capped at `min(width + height, 255)` (the cap
/// is the distance of an image without one), is at most `k`, and 255
/// otherwise.
pub open spec fn spec_erode_linf(width: nat, height: nat, pixels: Seq<u8>, k: nat) -> Seq<u8> {
    let cap: nat = if width + height < 255 {
        width + height
    } else {
        255
    };
    Seq::new(
        width * height,
        |i: int|
            if near_zero(width, height, pixels, i % width as int, i / width as int, k) || cap <= k {
                0u8
            } else {
                255u8
            },
    )
}

/// `imageproc::morphology::erode(_, Norm::LInf, k)`: the distance
/// transform from the zero pixels (two passes over the 8-neighbourhood,
/// which give the exact L-infinity distance, saturated at
/// `min(width + height, 255)`), then 0 where it is at most `k` and 255
/// elsewhere. Claimed here: the result is `spec_erode_linf`; with it, that
/// it has one value per pixel, holds only 0 and 255, and keeps zero pixels
/// at zero.
#[verifier::external_body]
fn erode_linf(width: u32, height: u32, pixels: Vec<u8>, k: u8) -> (r: Vec<u8>)
    requires
        pixels@.len() == width as int * height as int,
    ensures
        r@ == spec_erode_linf(width as nat, height as nat, pixels@, k as nat),
        r@.len() == pixels@.len(),
        forall|i: int| 0 <= i < r@.len() ==> r@[i] == 0 || r@[i] == 255,
        forall|i: int| 0 <= i < r@.len() && pixels@[i] == 0 ==> r@[i] == 0,
{
    let img = image::GrayImage::from_raw(width, height, pixels).unwrap();
    imageproc::morphology::erode(&img, imageproc::distance_transform::Norm::LInf, k).into_raw()
}

/// The choked mask: `soft` where the thresholded-then-eroded mask keeps the
/// pixel, 0 elsewhere.
pub open spec fn spec_choke_mask(width: nat, height: nat, soft: Seq<u8>, iterations: nat) -> Seq<u8> {
    let eroded = spec_erode_linf(width, height, spec_threshold(soft, 128), iterations);
    Seq::new(soft.len(), |i: int| if eroded[i] > 0 { soft[i] } else { 0u8 })
}

/// Choke a `width` x `height` soft mask: binarise it at 128, erode the
/// binary mask `iterations` times (L-infinity), and keep the soft value
/// only where the eroded mask survives.
pub fn choke_mask(soft: &Vec<u8>, width: u32, height: u32, iterations: u8) -> (r: Vec<u8>)
    requires
        soft@.len() == width as int * height as int,
    ensures
        r@ == spec_choke_mask(width as nat, height as nat, soft@, iterations as nat),
        forall|i: int| 0 <= i < r@.len() ==> #[trigger] r@[i] <= soft@[i],
        forall|i: int| 0 <= i < r@.len() && soft@[i] <= 128 ==> #[trigger] r@[i] == 0,
{
    let bin = threshold_binary(soft, 128);
    let eroded = erode_linf(width, height, bin, iterations);
    let mut out: Vec<u8> = Vec::new();
    let mut i: usize = 0;
    let ghost spec = spec_choke_mask(width as nat, height as nat, soft@, iterations as nat);
    while i < soft.len()
        invariant
            i <= soft@.len(),
            eroded@.len() == soft@.len(),
            eroded@ == spec_erode_linf(
                width as nat,
                height as nat,
                spec_threshold(soft@, 128),
                iterations as nat,
            ),
            spec == spec_choke_mask(width as nat, height as nat, soft@, iterations as nat),
            out@ == spec.take(i as int),
        decreases soft@.len() - i,
    {
        out.push(if eroded[i] > 0 { soft[i] } else { 0u8 });
        i = i + 1;
        assert(out@ =~= spec.take(i as int));
    }
    proof {
        assert(out@ =~= spec);
        assert forall|i: int| 0 <= i < out@.len() && soft@[i] <= 128 implies #[trigger] out@[i] == 0 by {
            assert(spec_threshold(soft@, 128)[i] == 0);
            assert(eroded@[i] == 0);
        }
    }
    out
}

/// The output image: the source's colour channels with the mask as alpha.
pub open spec fn spec_compose_rgba(rgba: Seq<u8>, mask: Seq<u8>) -> Seq<u8> {
    Seq::new(rgba.len(), |i: int| if i % 4 == 3 { mask[i / 4] } else { rgba[i] })
}

/// Replace the alpha channel of an RGBA buffer by `mask` (one value per
/// pixel, same pixel order).
pub fn compose_rgba(rgba: &Vec<u8>, mask: &Vec<u8>) -> (r: Vec<u8>)
    requires
        rgba@.len() == 4 * mask@.len(),
    ensures
        r@ == spec_compose_rgba(rgba@, mask@),
{
    let mut out: Vec<u8> = Vec::new();
    let mut p: usize = 0;
    let total = rgba.len();
    while p < mask.len()
        invariant
            rgba@.len() == 4 * mask@.len(),
            total == rgba@.len(),
            p <= mask@.len(),
            out@ == spec_compose_rgba(rgba@, mask@).take(4 * p),
        decreases mask@.len() - p,
    {
        let b = 4 * p;
        out.push(rgba[b]);
        out.push(rgba[b + 1]);
        out.push(rgba[b + 2]);
        out.push(mask[p]);
        proof {
            let sp = spec_compose_rgba(rgba@, mask@);
            assert((b + 3) % 4 == 3 && (b + 3) / 4 == p) by (nonlinear_arith)
                requires
                    b == 4 * p,
            ;
            assert(b % 4 == 0 && (b + 1) % 4 == 1 && (b + 2) % 4 == 2) by (nonlinear_arith)
                requires
                    b == 4 * p,
            ;
            assert(out@ =~= sp.take(4 * p + 4));
        }
        p = p + 1;
    }
    assert(out@ =~= spec_compose_rgba(rgba@, mask@));
    out
}

} // verus!
