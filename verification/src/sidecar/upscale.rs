//! Super-resolution sidecar: command line and tile geometry.
//!
//! Protocol: file mode `--model <onnx> --input <path> --output <png>
//! [--scale F] [--model-scale N]`, or stream mode `--model <onnx> --stream
//! --width W --height H [--scale F] [--model-scale N]`. Images whose sides
//! both fit `SINGLE_PASS_LIMIT` are inferred in one pass; larger ones are
//! cut into `TILE_SIZE` tiles that overlap by at least `OVERLAP` pixels and
//! are blended back together.
//!
//! `--scale` is a real number; its text is handed back with the argument
//! position so the caller can read and range-check it.
use vstd::prelude::*;

use crate::sidecar::args::{
    scan, scan_error, scan_error_view, spec_scan, spec_u32_arg, table_view, tokens_view, u32_arg,
    args_view, ArgError, ArgErrorView, ScanError, ScanErrorView, TokenView, token_value,
    token_value_of,
};
use crate::sidecar::rembg::value_is_number;
use crate::text::str_eq;

verus! {

pub const SINGLE_PASS_LIMIT: u32 = 1024;

pub const TILE_SIZE: u32 = 512;

pub const OVERLAP: u32 = 32;

// ---------------------------------------------------------------------
// Command line
// ---------------------------------------------------------------------

pub struct Args {
    pub model: String,
    pub input: Option<String>,
    pub output: Option<String>,
    /// Every `--scale` value with the position of its flag, in order.
    pub scale_texts: Vec<(usize, String)>,
    pub model_scale: u32,
    pub stream: bool,
    pub width: u32,
    pub height: u32,
}

pub struct ArgsView {
    pub model: Seq<char>,
    pub input: Option<Seq<char>>,
    pub output: Option<Seq<char>>,
    pub scale_texts: Seq<(int, Seq<char>)>,
    pub model_scale: nat,
    pub stream: bool,
    pub width: nat,
    pub height: nat,
}

pub open spec fn opt_view(o: Option<String>) -> Option<Seq<char>> {
    match o {
        Some(s) => Some(s@),
        None => None,
    }
}

pub open spec fn scales_view(v: Seq<(usize, String)>) -> Seq<(int, Seq<char>)> {
    Seq::new(v.len(), |i: int| (v[i].0 as int, v[i].1@))
}

impl Args {
    pub open spec fn view(&self) -> ArgsView {
        ArgsView {
            model: self.model@,
            input: opt_view(self.input),
            output: opt_view(self.output),
            scale_texts: scales_view(self.scale_texts@),
            model_scale: self.model_scale as nat,
            stream: self.stream,
            width: self.width as nat,
            height: self.height as nat,
        }
    }
}

pub open spec fn upscale_table() -> Seq<(Seq<char>, bool)> {
    seq![
        ("--model"@, true),
        ("--input"@, true),
        ("--output"@, true),
        ("--scale"@, true),
        ("--model-scale"@, true),
        ("--stream"@, false),
        ("--width"@, true),
        ("--height"@, true),
        ("--choke"@, true),
    ]
}

fn table() -> (t: Vec<(&'static str, bool)>)
    ensures
        table_view(t@) == upscale_table(),
{
    let t = vec![
        ("--model", true),
        ("--input", true),
        ("--output", true),
        ("--scale", true),
        ("--model-scale", true),
        ("--stream", false),
        ("--width", true),
        ("--height", true),
        ("--choke", true),
    ];
    assert(table_view(t@) =~= upscale_table());
    t
}

pub struct UpscaleScan {
    pub model: Option<Seq<char>>,
    pub input: Option<Seq<char>>,
    pub output: Option<Seq<char>>,
    pub scale_texts: Seq<(int, Seq<char>)>,
    pub model_scale: nat,
    pub stream: bool,
    pub width: nat,
    pub height: nat,
    /// The last `--scale` (or the default, 4) is within 1 to 4.
    pub scale_in_range: bool,
}

pub open spec fn upscale_scan_init() -> UpscaleScan {
    UpscaleScan {
        model: None,
        input: None,
        output: None,
        scale_texts: seq![],
        model_scale: 4,
        stream: false,
        width: 0,
        height: 0,
        scale_in_range: true,
    }
}

/// One token read, `numeric[i]` telling whether argument `i` reads as a
/// real number and `in_range[i]` whether it reads as one within 1 to 4.
pub open spec fn upscale_token(s: UpscaleScan, t: TokenView, numeric: Seq<bool>, in_range: Seq<
    bool,
>) -> Result<UpscaleScan, ArgErrorView> {
    let v = token_value(t);
    if t.flag == 0 {
        Ok(UpscaleScan { model: Some(v), ..s })
    } else if t.flag == 1 {
        Ok(UpscaleScan { input: Some(v), ..s })
    } else if t.flag == 2 {
        Ok(UpscaleScan { output: Some(v), ..s })
    } else if t.flag == 3 {
        if !value_is_number(numeric, t.at) {
            Err(ArgErrorView::BadNumber { flag: "--scale"@, text: v, at: t.at })
        } else {
            Ok(
                UpscaleScan {
                    scale_texts: s.scale_texts.push((t.at, v)),
                    scale_in_range: value_is_number(in_range, t.at),
                    ..s
                },
            )
        }
    } else if t.flag == 4 {
        match spec_u32_arg("--model-scale"@, v, t.at) {
            Ok(n) => Ok(UpscaleScan { model_scale: n, ..s }),
            Err(e) => Err(e),
        }
    } else if t.flag == 5 {
        Ok(UpscaleScan { stream: true, ..s })
    } else if t.flag == 6 {
        match spec_u32_arg("--width"@, v, t.at) {
            Ok(n) => Ok(UpscaleScan { width: n, ..s }),
            Err(e) => Err(e),
        }
    } else if t.flag == 7 {
        match spec_u32_arg("--height"@, v, t.at) {
            Ok(n) => Ok(UpscaleScan { height: n, ..s }),
            Err(e) => Err(e),
        }
    } else {
        Ok(s)
    }
}

pub open spec fn upscale_fold(toks: Seq<TokenView>, numeric: Seq<bool>, in_range: Seq<bool>) -> Result<
    UpscaleScan,
    ArgErrorView,
>
    decreases toks.len(),
{
    if toks.len() == 0 {
        Ok(upscale_scan_init())
    } else {
        match upscale_fold(toks.drop_last(), numeric, in_range) {
            Ok(s) => upscale_token(s, toks.last(), numeric, in_range),
            Err(e) => Err(e),
        }
    }
}

/// What `parse_args` answers for an argument list (program name excluded),
/// `numeric[i]` telling whether argument `i` reads as a real number and
/// `in_range[i]` whether it reads as one within 1 to 4. The arguments are
/// read in order and the first fault met is reported; then the factor's
/// range, the native ratio, the mode's needs and the model are checked, in
/// that order.
pub open spec fn spec_parse_args(args: Seq<Seq<char>>, numeric: Seq<bool>, in_range: Seq<bool>) -> Result<
    ArgsView,
    ArgErrorView,
> {
    let sc = spec_scan(upscale_table(), args, 0);
    match upscale_fold(sc.0, numeric, in_range) {
        Err(e) => Err(e),
        Ok(s) => if sc.1 is Some && !choke_tail(sc.1->Some_0) {
            Err(scan_error_view(sc.1->Some_0))
        } else {
            if !s.scale_in_range {
                Err(ArgErrorView::ScaleOutOfRange { text: s.scale_texts.last().1 })
            } else if !(2 <= s.model_scale <= 4) {
                Err(ArgErrorView::OutOfRange { flag: "--model-scale"@, value: s.model_scale })
            } else if s.stream && (s.width == 0 || s.height == 0) {
                Err(ArgErrorView::DimsRequired)
            } else if !s.stream && (s.input is None || s.output is None) {
                Err(ArgErrorView::FileModeNeedsPaths)
            } else {
                match s.model {
                    None => Err(ArgErrorView::Required { flag: "--model"@ }),
                    Some(m) => Ok(
                        ArgsView {
                            model: m,
                            input: s.input,
                            output: s.output,
                            scale_texts: s.scale_texts,
                            model_scale: s.model_scale,
                            stream: s.stream,
                            width: s.width,
                            height: s.height,
                        },
                    ),
                }
            }
        },
    }
}

/// `--choke` is accepted and ignored for uniformity with background
/// removal; left without a value at the end of the line it ends the
/// arguments without error.
pub open spec fn choke_tail(e: ScanErrorView) -> bool {
    e matches ScanErrorView::NeedsValue { flag, .. } && flag == "--choke"@
}

fn is_choke_tail(e: &ScanError) -> (r: bool)
    ensures
        r == choke_tail(e.view()),
{
    match e {
        ScanError::NeedsValue { flag, .. } => str_eq(flag, "--choke"),
        ScanError::Unknown { .. } => false,
    }
}

pub open spec fn result_view(r: Result<Args, ArgError>) -> Result<ArgsView, ArgErrorView> {
    match r {
        Ok(a) => Ok(a.view()),
        Err(e) => Err(e.view()),
    }
}

proof fn lemma_parse_err(
    args: Seq<Seq<char>>,
    tv: Seq<TokenView>,
    numeric: Seq<bool>,
    in_range: Seq<bool>,
    e: ArgErrorView,
)
    requires
        tv == spec_scan(upscale_table(), args, 0).0,
        upscale_fold(tv, numeric, in_range) == Err::<UpscaleScan, ArgErrorView>(e),
    ensures
        spec_parse_args(args, numeric, in_range) == Err::<ArgsView, ArgErrorView>(e),
{
}

proof fn lemma_fold_err_sticks(toks: Seq<TokenView>, numeric: Seq<bool>, in_range: Seq<bool>, k: int)
    requires
        0 <= k <= toks.len(),
        upscale_fold(toks.take(k), numeric, in_range) is Err,
    ensures
        upscale_fold(toks, numeric, in_range) == upscale_fold(toks.take(k), numeric, in_range),
    decreases toks.len() - k,
{
    if k < toks.len() {
        assert(toks.take(k + 1).drop_last() =~= toks.take(k));
        lemma_fold_err_sticks(toks, numeric, in_range, k + 1);
    } else {
        assert(toks.take(k) =~= toks);
    }
}

/// Parse the sidecar's command line (program name excluded);
/// `numeric[i]` tells whether argument `i` reads as a real number and
/// `in_range[i]` whether it reads as one within 1 to 4. The value of
/// `--scale` is handed back as text: see `Args::scale_texts`.
pub fn parse_args(args: &Vec<String>, numeric: &Vec<bool>, in_range: &Vec<bool>) -> (r: Result<
    Args,
    ArgError,
>)
    requires
        numeric@.len() == args@.len(),
        in_range@.len() == args@.len(),
    ensures
        result_view(r) == spec_parse_args(args_view(args@), numeric@, in_range@),
{
    let t = table();
    let (toks, err) = scan(&t, args);
    let ghost tv = tokens_view(toks@);
    let mut model: Option<String> = None;
    let mut input: Option<String> = None;
    let mut output: Option<String> = None;
    let mut scale_texts: Vec<(usize, String)> = Vec::new();
    let mut model_scale: u32 = 4;
    let mut stream = false;
    let mut width: u32 = 0;
    let mut height: u32 = 0;
    let mut scale_ok = true;
    let mut k: usize = 0;
    assert(tv.take(0) =~= Seq::<TokenView>::empty());
    assert(scales_view(scale_texts@) =~= Seq::<(int, Seq<char>)>::empty());
    while k < toks.len()
        invariant
            tv == tokens_view(toks@),
            tv == spec_scan(upscale_table(), args_view(args@), 0).0,
            k <= toks@.len(),
            numeric@.len() == args@.len(),
            in_range@.len() == args@.len(),
            !scale_ok ==> scale_texts@.len() > 0,
            upscale_fold(tv.take(k as int), numeric@, in_range@) == Ok::<UpscaleScan, ArgErrorView>(
                UpscaleScan {
                    model: opt_view(model),
                    input: opt_view(input),
                    output: opt_view(output),
                    scale_texts: scales_view(scale_texts@),
                    model_scale: model_scale as nat,
                    stream,
                    width: width as nat,
                    height: height as nat,
                    scale_in_range: scale_ok,
                },
            ),
        decreases toks@.len() - k,
    {
        let tok = &toks[k];
        proof {
            assert(tv.take(k + 1).drop_last() =~= tv.take(k as int));
            assert(tv.take(k + 1).last() == tok.view());
            assert(upscale_fold(tv.take(k + 1), numeric@, in_range@) == upscale_token(
                upscale_fold(tv.take(k as int), numeric@, in_range@)->Ok_0,
                tok.view(),
                numeric@,
                in_range@,
            ));
        }
        let v = token_value_of(tok);
        let ghost sc = upscale_fold(tv.take(k as int), numeric@, in_range@)->Ok_0;
        assert(token_value(tok.view()) == v@);
        if tok.flag == 0 {
            model = Some(v);
        } else if tok.flag == 1 {
            input = Some(v);
        } else if tok.flag == 2 {
            output = Some(v);
        } else if tok.flag == 3 {
            let marked = tok.at < numeric.len() && tok.at + 1 < numeric.len();
            let number = if marked {
                numeric[tok.at + 1]
            } else {
                true
            };
            let ranged = if marked {
                in_range[tok.at + 1]
            } else {
                true
            };
            if !number {
                let e = ArgError::BadNumber { flag: "--scale", text: v, at: tok.at };
                proof {
                    assert(upscale_fold(tv.take(k + 1), numeric@, in_range@) == Err::<
                        UpscaleScan,
                        ArgErrorView,
                    >(e.view()));
                    lemma_fold_err_sticks(tv, numeric@, in_range@, k as int + 1);
                    lemma_parse_err(args_view(args@), tv, numeric@, in_range@, e.view());
                }
                return Err(e);
            }
            scale_ok = ranged;
            let ghost old_sv = scales_view(scale_texts@);
            scale_texts.push((tok.at, v));
            proof {
                assert(scales_view(scale_texts@) =~= old_sv.push((tok.at as int, token_value(tok.view()))));
            }
        } else if tok.flag == 4 {
            match u32_arg("--model-scale", &v, tok.at) {
                Ok(n) => {
                    model_scale = n;
                },
                Err(e) => {
                    proof {
                        assert(upscale_fold(tv.take(k + 1), numeric@, in_range@) == Err::<
                            UpscaleScan,
                            ArgErrorView,
                        >(e.view()));
                        lemma_fold_err_sticks(tv, numeric@, in_range@, k as int + 1);
                        lemma_parse_err(args_view(args@), tv, numeric@, in_range@, e.view());
                    }
                    return Err(e);
                },
            }
        } else if tok.flag == 5 {
            stream = true;
        } else if tok.flag == 6 {
            match u32_arg("--width", &v, tok.at) {
                Ok(n) => {
                    width = n;
                },
                Err(e) => {
                    proof {
                        assert(upscale_fold(tv.take(k + 1), numeric@, in_range@) == Err::<
                            UpscaleScan,
                            ArgErrorView,
                        >(e.view()));
                        lemma_fold_err_sticks(tv, numeric@, in_range@, k as int + 1);
                        lemma_parse_err(args_view(args@), tv, numeric@, in_range@, e.view());
                    }
                    return Err(e);
                },
            }
        } else if tok.flag == 7 {
            match u32_arg("--height", &v, tok.at) {
                Ok(n) => {
                    height = n;
                },
                Err(e) => {
                    proof {
                        assert(upscale_fold(tv.take(k + 1), numeric@, in_range@) == Err::<
                            UpscaleScan,
                            ArgErrorView,
                        >(e.view()));
                        lemma_fold_err_sticks(tv, numeric@, in_range@, k as int + 1);
                        lemma_parse_err(args_view(args@), tv, numeric@, in_range@, e.view());
                    }
                    return Err(e);
                },
            }
        }
        k = k + 1;
    }
    assert(tv.take(k as int) =~= tv);
    match err {
        Some(e) => {
            if !is_choke_tail(&e) {
                return Err(scan_error(e));
            }
        },
        None => {},
    }
    if !scale_ok {
        let last = scale_texts.len() - 1;
        return Err(ArgError::ScaleOutOfRange { text: scale_texts[last].1.clone() });
    }
    if !(2 <= model_scale && model_scale <= 4) {
        return Err(ArgError::OutOfRange { flag: "--model-scale", value: model_scale as u64 });
    }
    if stream {
        if width == 0 || height == 0 {
            return Err(ArgError::DimsRequired);
        }
    } else if input.is_none() || output.is_none() {
        return Err(ArgError::FileModeNeedsPaths);
    }
    match model {
        None => Err(ArgError::Required { flag: "--model" }),
        Some(m) => Ok(
            Args { model: m, input, output, scale_texts, model_scale, stream, width, height },
        ),
    }
}

// ---------------------------------------------------------------------
// Tiling
// ---------------------------------------------------------------------

/// Whether a `w` x `h` input is cut into tiles rather than inferred whole.
pub open spec fn spec_needs_tiling(w: nat, h: nat) -> bool {
    !(w <= SINGLE_PASS_LIMIT && h <= SINGLE_PASS_LIMIT)
}

/// An input is inferred in one pass exactly when neither side exceeds
/// 1024 pixels: one side over 1024, whatever the other, means tiles.
pub proof fn lemma_tiling_threshold(w: nat, h: nat)
    ensures
        w > 1024 ==> spec_needs_tiling(w, h),
        h > 1024 ==> spec_needs_tiling(w, h),
        w <= 1024 && h <= 1024 ==> !spec_needs_tiling(w, h),
{
}

pub fn needs_tiling(w: u32, h: u32) -> (r: bool)
    ensures
        r == spec_needs_tiling(w as nat, h as nat),
{
    !(w <= SINGLE_PASS_LIMIT && h <= SINGLE_PASS_LIMIT)
}

/// Distance between the starts of consecutive tiles.
pub open spec fn tile_step() -> nat {
    (TILE_SIZE - OVERLAP) as nat
}

/// How many tiles start at a multiple of the step, before the last tile
/// that ends flush with the edge.
pub open spec fn inner_tiles(total: nat) -> nat {
    ((total - TILE_SIZE + tile_step() - 1) / (tile_step() as int)) as nat
}

/// Tile start offsets along a side of `total` pixels: one tile at 0 when
/// the side fits one tile; else tiles every `tile_step()` pixels while a
/// tile still ends before the edge, then one tile ending exactly at the
/// edge.
pub open spec fn spec_tile_starts(total: nat) -> Seq<nat> {
    if total <= TILE_SIZE {
        seq![0]
    } else {
        let k = inner_tiles(total);
        Seq::new(
            k + 1,
            |i: int|
                if i < k {
                    (i * tile_step()) as nat
                } else {
                    (total - TILE_SIZE) as nat
                },
        )
    }
}

/// The tile start offsets along a side of `total` pixels.
pub fn tile_starts(total: u32) -> (v: Vec<u32>)
    requires
        total <= u32::MAX - TILE_SIZE,
    ensures
        v@.len() == spec_tile_starts(total as nat).len(),
        forall|i: int| 0 <= i < v@.len() ==> #[trigger] v@[i] as nat == spec_tile_starts(total as nat)[i],
{
    if total <= TILE_SIZE {
        return vec![0];
    }
    let step = TILE_SIZE - OVERLAP;
    let mut s: Vec<u32> = Vec::new();
    let mut x: u32 = 0;
    while x + TILE_SIZE < total
        invariant
            TILE_SIZE < total <= u32::MAX - TILE_SIZE,
            step == tile_step(),
            x as int == s@.len() * 480,
            x < total,
            forall|j: int| 0 <= j < s@.len() ==> #[trigger] s@[j] as int == j * 480,
            s@.len() > 0 ==> (s@.len() - 1) * 480 + TILE_SIZE < total,
        decreases total - x,
    {
        s.push(x);
        x = x + step;
    }
    let ghost i = s@.len() as int;
    proof {
        let d = total - TILE_SIZE;
        assert(i >= 1) by {
            if i == 0 {
                assert(x == 0);
            }
        }
        assert((i - 1) * 480 + TILE_SIZE < total);
        assert(i * 480 >= d);
        assert(inner_tiles(total as nat) == i) by (nonlinear_arith)
            requires
                d == total - TILE_SIZE,
                (i - 1) * 480 < d,
                i * 480 >= d,
                step == 480,
                d > 0,
                inner_tiles(total as nat) == (d + 479) / 480,
        ;
    }
    s.push(total - TILE_SIZE);
    s
}

/// Width of the tile starting at `x0` along a side of `total` pixels.
pub open spec fn spec_tile_extent(total: nat, x0: nat) -> nat {
    let end: int = if total < x0 + TILE_SIZE {
        total as int
    } else {
        x0 + TILE_SIZE
    };
    let w = end - x0;
    if w < TILE_SIZE {
        w as nat
    } else {
        TILE_SIZE as nat
    }
}

pub fn tile_extent(total: u32, x0: u32) -> (r: u32)
    requires
        x0 <= total <= u32::MAX - TILE_SIZE,
    ensures
        r as nat == spec_tile_extent(total as nat, x0 as nat),
{
    let end = if total < x0 + TILE_SIZE {
        total
    } else {
        x0 + TILE_SIZE
    };
    let w = end - x0;
    if w < TILE_SIZE {
        w
    } else {
        TILE_SIZE
    }
}

/// Every tile lies inside the side, is `min(total, TILE_SIZE)` wide, the
/// first starts at 0 and the last ends at the edge.
pub proof fn lemma_tiles_inside(total: nat)
    requires
        total > 0,
    ensures
        spec_tile_starts(total).len() >= 1,
        spec_tile_starts(total)[0] == 0,
        spec_tile_starts(total)[spec_tile_starts(total).len() - 1] + spec_tile_extent(
            total,
            spec_tile_starts(total)[spec_tile_starts(total).len() - 1],
        ) == total,
        forall|i: int|
            0 <= i < spec_tile_starts(total).len() ==> {
                &&& #[trigger] spec_tile_starts(total)[i] + spec_tile_extent(
                    total,
                    spec_tile_starts(total)[i],
                ) <= total
                &&& spec_tile_extent(total, spec_tile_starts(total)[i]) == (if total < TILE_SIZE {
                    total
                } else {
                    TILE_SIZE as nat
                })
            },
{
    let st = spec_tile_starts(total);
    if total > TILE_SIZE {
        let k = inner_tiles(total);
        assert(k >= 1) by (nonlinear_arith)
            requires
                total > 512,
                k == (total - 512 + 479) / 480,
        ;
        assert forall|i: int| 0 <= i < st.len() implies {
            &&& #[trigger] st[i] + spec_tile_extent(total, st[i]) <= total
            &&& spec_tile_extent(total, st[i]) == TILE_SIZE as nat
        } by {
            if i < k {
                assert(i * 480 + 512 <= total) by (nonlinear_arith)
                    requires
                        0 <= i < k,
                        k == (total - 512 + 479) / 480,
                        total > 512,
                ;
                assert(st[i] == i * 480);
            }
        }
        assert(st[0] == 0);
    }
}

/// Consecutive tiles advance by at least one pixel and at most
/// `tile_step()`, so neighbours overlap by at least `OVERLAP` pixels.
pub proof fn lemma_tiles_overlap(total: nat)
    requires
        total > TILE_SIZE,
    ensures
        forall|i: int|
            0 <= i < spec_tile_starts(total).len() - 1 ==> {
                &&& spec_tile_starts(total)[i] < #[trigger] spec_tile_starts(total)[i + 1]
                &&& spec_tile_starts(total)[i + 1] <= spec_tile_starts(total)[i] + tile_step()
            },
{
    let k = inner_tiles(total);
    let st = spec_tile_starts(total);
    assert forall|i: int| 0 <= i < st.len() - 1 implies {
        &&& st[i] < #[trigger] st[i + 1]
        &&& st[i + 1] <= st[i] + tile_step()
    } by {
        assert(st[i] == i * 480);
        if i + 1 < k {
            assert(st[i + 1] == (i + 1) * 480);
        } else {
            assert(i == k - 1);
            assert(st[i + 1] == total - 512);
            assert((k - 1) * 480 < total - 512 && total - 512 <= k * 480) by (nonlinear_arith)
                requires
                    k == (total - 512 + 479) / 480,
                    total > 512,
            ;
        }
    }
}

/// Every pixel of the side lies in some tile.
pub proof fn lemma_tiles_cover(total: nat, p: nat)
    requires
        p < total,
    ensures
        exists|i: int|
            0 <= i < spec_tile_starts(total).len() && #[trigger] spec_tile_starts(total)[i] <= p < spec_tile_starts(
                total,
            )[i] + spec_tile_extent(total, spec_tile_starts(total)[i]),
{
    let st = spec_tile_starts(total);
    lemma_tiles_inside(total);
    if total <= TILE_SIZE {
        assert(st[0] <= p < st[0] + spec_tile_extent(total, st[0]));
    } else {
        let k = inner_tiles(total);
        let last = (total - TILE_SIZE) as nat;
        if p >= last {
            assert(st[k as int] == last);
            assert(st[k as int] <= p < st[k as int] + spec_tile_extent(total, st[k as int]));
        } else {
            let i = p / 480;
            assert(i * 480 <= p < i * 480 + 480) by (nonlinear_arith)
                requires
                    i == p / 480,
            ;
            assert(i < k) by (nonlinear_arith)
                requires
                    i * 480 <= p,
                    p < total - 512,
                    k == (total - 512 + 479) / 480,
                    total > 512,
            ;
            assert(st[i as int] == i * 480);
            assert(st[i as int] <= p < st[i as int] + spec_tile_extent(total, st[i as int]));
        }
    }
}

/// Index into a row-major `out_w`-wide canvas of the pixel at (`lx`, `ly`)
/// inside the output tile whose corner is (`ox0`, `oy0`).
pub fn canvas_index(ox0: u32, oy0: u32, lx: u32, ly: u32, out_w: u32, out_h: u32) -> (r: usize)
    requires
        ox0 + lx < out_w,
        oy0 + ly < out_h,
        out_w as int * out_h as int <= usize::MAX,
    ensures
        r as int == (oy0 + ly) * out_w + (ox0 + lx),
        r < out_w as int * out_h as int,
{
    let cx = (ox0 + lx) as usize;
    let cy = (oy0 + ly) as usize;
    proof {
        assert(cy * out_w + cx < out_w as int * out_h as int) by (nonlinear_arith)
            requires
                cx < out_w,
                cy < out_h,
        ;
    }
    cy * out_w as usize + cx
}

/// Why a tile's inference output was refused.
pub enum TileShapeError {
    /// Fewer than four dimensions.
    Rank,
    /// The last two dimensions are not the scaled tile size.
    Size { got_w: u32, got_h: u32 },
}

/// Check the shape of a tile's output: at least four dimensions, the last
/// two (read as `u32`) being the tile's height and width times the model's
/// scale.
pub fn check_tile_output(shape: &Vec<i64>, in_w: u32, in_h: u32, model_scale: u32) -> (r: Result<
    (),
    TileShapeError,
>)
    requires
        in_w * model_scale <= u32::MAX,
        in_h * model_scale <= u32::MAX,
    ensures
        shape@.len() < 4 <==> r matches Err(TileShapeError::Rank),
        shape@.len() >= 4 ==> (r is Ok <==> (shape@[shape@.len() - 2] as u32 == in_h * model_scale
            && shape@[shape@.len() - 1] as u32 == in_w * model_scale)),
        r matches Err(TileShapeError::Size { got_w, got_h }) ==> got_h == shape@[shape@.len() - 2] as u32
            && got_w == shape@[shape@.len() - 1] as u32,
{
    let n = shape.len();
    if n < 4 {
        return Err(TileShapeError::Rank);
    }
    let oh = shape[n - 2] as u32;
    let ow = shape[n - 1] as u32;
    if oh != in_h * model_scale || ow != in_w * model_scale {
        return Err(TileShapeError::Size { got_w: ow, got_h: oh });
    }
    Ok(())
}

} // verus!
