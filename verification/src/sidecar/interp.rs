//! Frame-interpolation sidecar (RIFE): command line, model-side padding and
//! the emission schedule.
//!
//! Protocol: `--model <onnx> --stream --width W --height H --factor K`;
//! raw RGB frames in, raw RGB frames out. The first input frame is emitted
//! as is; every further frame `b` is preceded by `K - 1` frames
//! interpolated between the previous frame and `b`. N input frames give
//! `1 + (N - 1) * K` output frames.
use vstd::prelude::*;

use crate::sidecar::args::{
    scan, scan_error, scan_error_view, spec_scan, spec_u32_arg, table_view, tokens_view, u32_arg,
    args_view, ArgError, ArgErrorView, TokenView, token_value, token_value_of,
};

verus! {

/// Model inputs are padded up to a multiple of this.
pub const ALIGN: u32 = 32;

pub struct Args {
    pub model: String,
    pub width: u32,
    pub height: u32,
    pub factor: u32,
}

pub struct ArgsView {
    pub model: Seq<char>,
    pub width: nat,
    pub height: nat,
    pub factor: nat,
}

impl Args {
    pub open spec fn view(&self) -> ArgsView {
        ArgsView {
            model: self.model@,
            width: self.width as nat,
            height: self.height as nat,
            factor: self.factor as nat,
        }
    }
}

pub open spec fn interp_table() -> Seq<(Seq<char>, bool)> {
    seq![
        ("--model"@, true),
        ("--width"@, true),
        ("--height"@, true),
        ("--factor"@, true),
        ("--stream"@, false),
    ]
}

fn table() -> (t: Vec<(&'static str, bool)>)
    ensures
        table_view(t@) == interp_table(),
{
    let t = vec![
        ("--model", true),
        ("--width", true),
        ("--height", true),
        ("--factor", true),
        ("--stream", false),
    ];
    assert(table_view(t@) =~= interp_table());
    t
}

/// What the flags read so far have set.
pub struct InterpScan {
    pub model: Option<Seq<char>>,
    pub width: nat,
    pub height: nat,
    pub factor: nat,
    pub stream: bool,
}

pub open spec fn interp_scan_init() -> InterpScan {
    InterpScan { model: None, width: 0, height: 0, factor: 2, stream: false }
}

pub open spec fn interp_token(s: InterpScan, t: TokenView) -> Result<InterpScan, ArgErrorView> {
    let v = token_value(t);
    if t.flag == 0 {
        Ok(InterpScan { model: Some(v), ..s })
    } else if t.flag == 1 {
        match spec_u32_arg("--width"@, v, t.at) {
            Ok(n) => Ok(InterpScan { width: n, ..s }),
            Err(e) => Err(e),
        }
    } else if t.flag == 2 {
        match spec_u32_arg("--height"@, v, t.at) {
            Ok(n) => Ok(InterpScan { height: n, ..s }),
            Err(e) => Err(e),
        }
    } else if t.flag == 3 {
        match spec_u32_arg("--factor"@, v, t.at) {
            Ok(n) => Ok(InterpScan { factor: n, ..s }),
            Err(e) => Err(e),
        }
    } else {
        Ok(InterpScan { stream: true, ..s })
    }
}

pub open spec fn interp_fold(toks: Seq<TokenView>) -> Result<InterpScan, ArgErrorView>
    decreases toks.len(),
{
    if toks.len() == 0 {
        Ok(interp_scan_init())
    } else {
        match interp_fold(toks.drop_last()) {
            Ok(s) => interp_token(s, toks.last()),
            Err(e) => Err(e),
        }
    }
}

/// What `parse_args` answers for an argument list (program name excluded).
pub open spec fn spec_parse_args(args: Seq<Seq<char>>) -> Result<ArgsView, ArgErrorView> {
    let sc = spec_scan(interp_table(), args, 0);
    match interp_fold(sc.0) {
        Err(e) => Err(e),
        Ok(s) => match sc.1 {
            Some(e) => Err(scan_error_view(e)),
            None => if !s.stream {
                Err(ArgErrorView::StreamRequired)
            } else if s.width == 0 || s.height == 0 {
                Err(ArgErrorView::DimsRequired)
            } else if !(2 <= s.factor <= 16) {
                Err(ArgErrorView::OutOfRange { flag: "--factor"@, value: s.factor })
            } else {
                match s.model {
                    None => Err(ArgErrorView::Required { flag: "--model"@ }),
                    Some(m) => Ok(
                        ArgsView { model: m, width: s.width, height: s.height, factor: s.factor },
                    ),
                }
            },
        },
    }
}

pub open spec fn result_view(r: Result<Args, ArgError>) -> Result<ArgsView, ArgErrorView> {
    match r {
        Ok(a) => Ok(a.view()),
        Err(e) => Err(e.view()),
    }
}

/// Parse the sidecar's command line (program name excluded).
pub fn parse_args(args: &Vec<String>) -> (r: Result<Args, ArgError>)
    ensures
        result_view(r) == spec_parse_args(args_view(args@)),
{
    let t = table();
    let (toks, err) = scan(&t, args);
    let ghost tv = tokens_view(toks@);
    let mut model: Option<String> = None;
    let mut width: u32 = 0;
    let mut height: u32 = 0;
    let mut factor: u32 = 2;
    let mut stream = false;
    let mut k: usize = 0;
    assert(tv.take(0) =~= Seq::<TokenView>::empty());
    while k < toks.len()
        invariant
            tv == tokens_view(toks@),
            tv == spec_scan(interp_table(), args_view(args@), 0).0,
            k <= toks@.len(),
            interp_fold(tv.take(k as int)) == Ok::<InterpScan, ArgErrorView>(
                InterpScan {
                    model: match model {
                        Some(m) => Some(m@),
                        None => None,
                    },
                    width: width as nat,
                    height: height as nat,
                    factor: factor as nat,
                    stream,
                },
            ),
        decreases toks@.len() - k,
    {
        let tok = &toks[k];
        proof {
            assert(tv.take(k + 1).drop_last() =~= tv.take(k as int));
            assert(tv.take(k + 1).last() == tok.view());
            assert(interp_fold(tv.take(k + 1)) == interp_token(
                interp_fold(tv.take(k as int))->Ok_0,
                tok.view(),
            ));
        }
        let v = token_value_of(tok);
        let ghost sc = interp_fold(tv.take(k as int))->Ok_0;
        assert(token_value(tok.view()) == v@);
        if tok.flag == 0 {
            model = Some(v);
        } else if tok.flag == 1 {
            match u32_arg("--width", &v, tok.at) {
                Ok(n) => {
                    assert(interp_token(sc, tok.view()) == Ok::<InterpScan, ArgErrorView>(
                        InterpScan { width: n as nat, ..sc },
                    ));
                    width = n;
                },
                Err(e) => {
                    proof {
                        assert(interp_fold(tv.take(k + 1)) == Err::<InterpScan, ArgErrorView>(
                            e.view(),
                        ));
                        lemma_fold_err_sticks(tv, k as int + 1);
                        lemma_parse_err(args_view(args@), tv, e.view());
                    }
                    return Err(e);
                },
            }
        } else if tok.flag == 2 {
            match u32_arg("--height", &v, tok.at) {
                Ok(n) => {
                    assert(interp_token(sc, tok.view()) == Ok::<InterpScan, ArgErrorView>(
                        InterpScan { height: n as nat, ..sc },
                    ));
                    height = n;
                },
                Err(e) => {
                    proof {
                        assert(interp_fold(tv.take(k + 1)) == Err::<InterpScan, ArgErrorView>(
                            e.view(),
                        ));
                        lemma_fold_err_sticks(tv, k as int + 1);
                        lemma_parse_err(args_view(args@), tv, e.view());
                    }
                    return Err(e);
                },
            }
        } else if tok.flag == 3 {
            match u32_arg("--factor", &v, tok.at) {
                Ok(n) => {
                    assert(interp_token(sc, tok.view()) == Ok::<InterpScan, ArgErrorView>(
                        InterpScan { factor: n as nat, ..sc },
                    ));
                    factor = n;
                },
                Err(e) => {
                    proof {
                        assert(interp_fold(tv.take(k + 1)) == Err::<InterpScan, ArgErrorView>(
                            e.view(),
                        ));
                        lemma_fold_err_sticks(tv, k as int + 1);
                        lemma_parse_err(args_view(args@), tv, e.view());
                    }
                    return Err(e);
                },
            }
        } else {
            stream = true;
        }
        k = k + 1;
    }
    assert(tv.take(k as int) =~= tv);
    match err {
        Some(e) => {
            return Err(scan_error(e));
        },
        None => {},
    }
    if !stream {
        return Err(ArgError::StreamRequired);
    }
    if width == 0 || height == 0 {
        return Err(ArgError::DimsRequired);
    }
    if !(2 <= factor && factor <= 16) {
        return Err(ArgError::OutOfRange { flag: "--factor", value: factor as u64 });
    }
    match model {
        None => Err(ArgError::Required { flag: "--model" }),
        Some(m) => Ok(Args { model: m, width, height, factor }),
    }
}

proof fn lemma_parse_err(args: Seq<Seq<char>>, tv: Seq<TokenView>, e: ArgErrorView)
    requires
        tv == spec_scan(interp_table(), args, 0).0,
        interp_fold(tv) == Err::<InterpScan, ArgErrorView>(e),
    ensures
        spec_parse_args(args) == Err::<ArgsView, ArgErrorView>(e),
{
}

/// An error part-way through the flags is the fold's answer.
proof fn lemma_fold_err_sticks(toks: Seq<TokenView>, k: int)
    requires
        0 <= k <= toks.len(),
        interp_fold(toks.take(k)) is Err,
    ensures
        interp_fold(toks) == interp_fold(toks.take(k)),
    decreases toks.len() - k,
{
    if k < toks.len() {
        assert(toks.take(k + 1).drop_last() =~= toks.take(k));
        lemma_fold_err_sticks(toks, k + 1);
    } else {
        assert(toks.take(k) =~= toks);
    }
}

/// `d` rounded up to a multiple of `ALIGN`.
pub fn padded_dim(d: u32) -> (r: u32)
    requires
        d <= u32::MAX - 32,
    ensures
        r as int == (d as int + 31) / 32 * 32,
        r % 32 == 0,
        d <= r < d + 32,
{
    ((d + ALIGN - 1) / ALIGN) * ALIGN
}

/// Byte offset, in a `src_w` x `src_h` RGB frame, of the pixel that fills
/// position (`x`, `y`) of the padded model input: the overhang repeats the
/// last row and column.
pub fn pad_source_offset(x: u32, y: u32, src_w: u32, src_h: u32) -> (r: usize)
    requires
        src_w > 0,
        src_h > 0,
        src_w as int * src_h as int * 3 <= usize::MAX,
    ensures
        r as int == ((if y < src_h {
            y as int
        } else {
            src_h - 1
        }) * src_w + (if x < src_w {
            x as int
        } else {
            src_w - 1
        })) * 3,
        r + 2 < src_w as int * src_h as int * 3,
{
    let sy: usize = if y < src_h {
        y as usize
    } else {
        (src_h - 1) as usize
    };
    let sx: usize = if x < src_w {
        x as usize
    } else {
        (src_w - 1) as usize
    };
    proof {
        assert(sy * src_w + sx < src_w as int * src_h as int) by (nonlinear_arith)
            requires
                sy < src_h,
                sx < src_w,
        ;
    }
    (sy * src_w as usize + sx) * 3
}

/// The sidecar's emission schedule: how many frames it has written.
pub struct InterpSchedule {
    pub factor: u32,
    pub inputs: u64,
    pub emitted: u64,
}

impl InterpSchedule {
    /// `emitted` is what `inputs` frames give at this factor.
    pub open spec fn wf(&self) -> bool {
        &&& 2 <= self.factor <= 16
        &&& self.emitted as int == spec_output_frames(self.inputs as int, self.factor as int)
    }

    pub fn new(factor: u32) -> (s: Self)
        requires
            2 <= factor <= 16,
        ensures
            s.wf(),
            s.factor == factor,
            s.inputs == 0,
            s.emitted == 0,
    {
        InterpSchedule { factor, inputs: 0, emitted: 0 }
    }

    /// Account for one more input frame; the answer is how many
    /// interpolated frames go out before it (none for the first frame).
    pub fn on_input_frame(&mut self) -> (interpolated: u32)
        requires
            old(self).wf(),
            spec_output_frames(old(self).inputs + 1, old(self).factor as int) <= u64::MAX,
        ensures
            final(self).wf(),
            final(self).factor == old(self).factor,
            final(self).inputs == old(self).inputs + 1,
            interpolated == (if old(self).inputs == 0 {
                0
            } else {
                old(self).factor - 1
            }),
            final(self).emitted == old(self).emitted + interpolated + 1,
    {
        let before = self.inputs;
        let n = if before == 0 {
            0
        } else {
            self.factor - 1
        };
        let ghost k = self.factor as int;
        proof {
            assert(1 + (before as int) * k == 1 + (before - 1) * k + k) by (nonlinear_arith);
            assert(before + 1 <= 1 + (before as int) * k) by (nonlinear_arith)
                requires
                    k >= 2,
                    before >= 0,
            ;
        }
        self.inputs = before + 1;
        self.emitted = self.emitted + n as u64 + 1;
        proof {
            if before == 0 {
                assert((1 - 1) * k == 0) by (nonlinear_arith);
            } else {
                assert(spec_output_frames(before + 1, k) == 1 + (before as int) * k);
                assert(spec_output_frames(before as int, k) == 1 + (before - 1) * k);
            }
        }
        n
    }
}

/// Output frames for `n` input frames at factor `k`.
pub open spec fn spec_output_frames(n: int, k: int) -> int {
    if n <= 0 {
        0
    } else {
        1 + (n - 1) * k
    }
}

} // verus!
