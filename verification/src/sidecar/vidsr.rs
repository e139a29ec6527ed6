//! Video super-resolution sidecar (RealBasicVSR): command line and the
//! chunking of the frame stream.
//!
//! Protocol: `--model <pt> --stream --width W --height H --scale K
//! [--window N]`; frames are processed in chunks of N. A last, partial
//! chunk is filled up by repeating its final frame, and only the real
//! frames of the output are emitted.
use vstd::prelude::*;

use crate::sidecar::args::{
    scan, scan_error, scan_error_view, spec_scan, spec_u32_arg, table_view, tokens_view, u32_arg,
    args_view, ArgError, ArgErrorView, TokenView, token_value, token_value_of,
};

verus! {

pub struct Args {
    pub model: String,
    pub width: u32,
    pub height: u32,
    pub scale: u32,
    pub window: u32,
}

pub struct ArgsView {
    pub model: Seq<char>,
    pub width: nat,
    pub height: nat,
    pub scale: nat,
    pub window: nat,
}

impl Args {
    pub open spec fn view(&self) -> ArgsView {
        ArgsView {
            model: self.model@,
            width: self.width as nat,
            height: self.height as nat,
            scale: self.scale as nat,
            window: self.window as nat,
        }
    }
}

pub open spec fn vidsr_table() -> Seq<(Seq<char>, bool)> {
    seq![
        ("--model"@, true),
        ("--width"@, true),
        ("--height"@, true),
        ("--scale"@, true),
        ("--window"@, true),
        ("--stream"@, false),
    ]
}

fn table() -> (t: Vec<(&'static str, bool)>)
    ensures
        table_view(t@) == vidsr_table(),
{
    let t = vec![
        ("--model", true),
        ("--width", true),
        ("--height", true),
        ("--scale", true),
        ("--window", true),
        ("--stream", false),
    ];
    assert(table_view(t@) =~= vidsr_table());
    t
}

/// What the flags read so far have set.
pub struct VidsrScan {
    pub model: Option<Seq<char>>,
    pub width: nat,
    pub height: nat,
    pub scale: nat,
    pub window: nat,
    pub stream: bool,
}

pub open spec fn vidsr_scan_init() -> VidsrScan {
    VidsrScan { model: None, width: 0, height: 0, scale: 4, window: 15, stream: false }
}

pub open spec fn vidsr_token(s: VidsrScan, t: TokenView) -> Result<VidsrScan, ArgErrorView> {
    let v = token_value(t);
    if t.flag == 0 {
        Ok(VidsrScan { model: Some(v), ..s })
    } else if t.flag == 1 {
        match spec_u32_arg("--width"@, v, t.at) {
            Ok(n) => Ok(VidsrScan { width: n, ..s }),
            Err(e) => Err(e),
        }
    } else if t.flag == 2 {
        match spec_u32_arg("--height"@, v, t.at) {
            Ok(n) => Ok(VidsrScan { height: n, ..s }),
            Err(e) => Err(e),
        }
    } else if t.flag == 3 {
        match spec_u32_arg("--scale"@, v, t.at) {
            Ok(n) => Ok(VidsrScan { scale: n, ..s }),
            Err(e) => Err(e),
        }
    } else if t.flag == 4 {
        match spec_u32_arg("--window"@, v, t.at) {
            Ok(n) => Ok(VidsrScan { window: n, ..s }),
            Err(e) => Err(e),
        }
    } else {
        Ok(VidsrScan { stream: true, ..s })
    }
}

pub open spec fn vidsr_fold(toks: Seq<TokenView>) -> Result<VidsrScan, ArgErrorView>
    decreases toks.len(),
{
    if toks.len() == 0 {
        Ok(vidsr_scan_init())
    } else {
        match vidsr_fold(toks.drop_last()) {
            Ok(s) => vidsr_token(s, toks.last()),
            Err(e) => Err(e),
        }
    }
}

/// What `parse_args` answers for an argument list (program name excluded).
pub open spec fn spec_parse_args(args: Seq<Seq<char>>) -> Result<ArgsView, ArgErrorView> {
    let sc = spec_scan(vidsr_table(), args, 0);
    match vidsr_fold(sc.0) {
        Err(e) => Err(e),
        Ok(s) => match sc.1 {
            Some(e) => Err(scan_error_view(e)),
            None => if !s.stream {
                Err(ArgErrorView::StreamRequired)
            } else if s.width == 0 || s.height == 0 {
                Err(ArgErrorView::DimsRequired)
            } else if !(2 <= s.scale <= 4) {
                Err(ArgErrorView::OutOfRange { flag: "--scale"@, value: s.scale })
            } else if !(3 <= s.window <= 30) {
                Err(ArgErrorView::OutOfRange { flag: "--window"@, value: s.window })
            } else {
                match s.model {
                    None => Err(ArgErrorView::Required { flag: "--model"@ }),
                    Some(m) => Ok(
                        ArgsView {
                            model: m,
                            width: s.width,
                            height: s.height,
                            scale: s.scale,
                            window: s.window,
                        },
                    ),
                }
            },
        },
    }
}

pub open spec fn result_view(r: Result<Args, ArgError>) -> Result<ArgsView, ArgErrorView> {
    match r {
        Ok(a) => Ok(a.view()),
        Err(e) => Err(e.view()),
    }
}

/// Parse the sidecar's command line (program name excluded).
pub fn parse_args(args: &Vec<String>) -> (r: Result<Args, ArgError>)
    ensures
        result_view(r) == spec_parse_args(args_view(args@)),
{
    let t = table();
    let (toks, err) = scan(&t, args);
    let ghost tv = tokens_view(toks@);
    let mut model: Option<String> = None;
    let mut width: u32 = 0;
    let mut height: u32 = 0;
    let mut scale: u32 = 4;
    let mut window: u32 = 15;
    let mut stream = false;
    let mut k: usize = 0;
    assert(tv.take(0) =~= Seq::<TokenView>::empty());
    while k < toks.len()
        invariant
            tv == tokens_view(toks@),
            tv == spec_scan(vidsr_table(), args_view(args@), 0).0,
            k <= toks@.len(),
            vidsr_fold(tv.take(k as int)) == Ok::<VidsrScan, ArgErrorView>(
                VidsrScan {
                    model: match model {
                        Some(m) => Some(m@),
                        None => None,
                    },
                    width: width as nat,
                    height: height as nat,
                    scale: scale as nat,
                    window: window as nat,
                    stream,
                },
            ),
        decreases toks@.len() - k,
    {
        let tok = &toks[k];
        proof {
            assert(tv.take(k + 1).drop_last() =~= tv.take(k as int));
            assert(tv.take(k + 1).last() == tok.view());
            assert(vidsr_fold(tv.take(k + 1)) == vidsr_token(
                vidsr_fold(tv.take(k as int))->Ok_0,
                tok.view(),
            ));
        }
        let v = token_value_of(tok);
        let ghost sc = vidsr_fold(tv.take(k as int))->Ok_0;
        assert(token_value(tok.view()) == v@);
        if tok.flag == 0 {
            model = Some(v);
        } else if tok.flag == 1 {
            match u32_arg("--width", &v, tok.at) {
                Ok(n) => {
                    assert(vidsr_token(sc, tok.view()) == Ok::<VidsrScan, ArgErrorView>(
                        VidsrScan { width: n as nat, ..sc },
                    ));
                    width = n;
                },
                Err(e) => {
                    proof {
                        assert(vidsr_fold(tv.take(k + 1)) == Err::<VidsrScan, ArgErrorView>(
                            e.view(),
                        ));
                        lemma_fold_err_sticks(tv, k as int + 1);
                        lemma_parse_err(args_view(args@), tv, e.view());
                    }
                    return Err(e);
                },
            }
        } else if tok.flag == 2 {
            match u32_arg("--height", &v, tok.at) {
                Ok(n) => {
                    assert(vidsr_token(sc, tok.view()) == Ok::<VidsrScan, ArgErrorView>(
                        VidsrScan { height: n as nat, ..sc },
                    ));
                    height = n;
                },
                Err(e) => {
                    proof {
                        assert(vidsr_fold(tv.take(k + 1)) == Err::<VidsrScan, ArgErrorView>(
                            e.view(),
                        ));
                        lemma_fold_err_sticks(tv, k as int + 1);
                        lemma_parse_err(args_view(args@), tv, e.view());
                    }
                    return Err(e);
                },
            }
        } else if tok.flag == 3 {
            match u32_arg("--scale", &v, tok.at) {
                Ok(n) => {
                    assert(vidsr_token(sc, tok.view()) == Ok::<VidsrScan, ArgErrorView>(
                        VidsrScan { scale: n as nat, ..sc },
                    ));
                    scale = n;
                },
                Err(e) => {
                    proof {
                        assert(vidsr_fold(tv.take(k + 1)) == Err::<VidsrScan, ArgErrorView>(
                            e.view(),
                        ));
                        lemma_fold_err_sticks(tv, k as int + 1);
                        lemma_parse_err(args_view(args@), tv, e.view());
                    }
                    return Err(e);
                },
            }
        } else if tok.flag == 4 {
            match u32_arg("--window", &v, tok.at) {
                Ok(n) => {
                    assert(vidsr_token(sc, tok.view()) == Ok::<VidsrScan, ArgErrorView>(
                        VidsrScan { window: n as nat, ..sc },
                    ));
                    window = n;
                },
                Err(e) => {
                    proof {
                        assert(vidsr_fold(tv.take(k + 1)) == Err::<VidsrScan, ArgErrorView>(
                            e.view(),
                        ));
                        lemma_fold_err_sticks(tv, k as int + 1);
                        lemma_parse_err(args_view(args@), tv, e.view());
                    }
                    return Err(e);
                },
            }
        } else {
            stream = true;
        }
        k = k + 1;
    }
    assert(tv.take(k as int) =~= tv);
    match err {
        Some(e) => {
            return Err(scan_error(e));
        },
        None => {},
    }
    if !stream {
        return Err(ArgError::StreamRequired);
    }
    if width == 0 || height == 0 {
        return Err(ArgError::DimsRequired);
    }
    if !(2 <= scale && scale <= 4) {
        return Err(ArgError::OutOfRange { flag: "--scale", value: scale as u64 });
    }
    if !(3 <= window && window <= 30) {
        return Err(ArgError::OutOfRange { flag: "--window", value: window as u64 });
    }
    match model {
        None => Err(ArgError::Required { flag: "--model" }),
        Some(m) => Ok(Args { model: m, width, height, scale, window }),
    }
}

proof fn lemma_parse_err(args: Seq<Seq<char>>, tv: Seq<TokenView>, e: ArgErrorView)
    requires
        tv == spec_scan(vidsr_table(), args, 0).0,
        vidsr_fold(tv) == Err::<VidsrScan, ArgErrorView>(e),
    ensures
        spec_parse_args(args) == Err::<ArgsView, ArgErrorView>(e),
{
}

/// An error part-way through the flags is the fold's answer.
proof fn lemma_fold_err_sticks(toks: Seq<TokenView>, k: int)
    requires
        0 <= k <= toks.len(),
        vidsr_fold(toks.take(k)) is Err,
    ensures
        vidsr_fold(toks) == vidsr_fold(toks.take(k)),
    decreases toks.len() - k,
{
    if k < toks.len() {
        assert(toks.take(k + 1).drop_last() =~= toks.take(k));
        lemma_fold_err_sticks(toks, k + 1);
    } else {
        assert(toks.take(k) =~= toks);
    }
}

/// Byte `b` of frame `f` in a buffer of `fb`-byte frames.
pub open spec fn frame_byte(s: Seq<u8>, fb: int, f: int, b: int) -> u8 {
    s[f * fb + b]
}

/// Pad a chunk holding `filled` real frames of `frame_bytes` bytes each up
/// to `window` frames by repeating the last real frame.
pub fn pad_chunk(buf: &mut Vec<u8>, filled: usize, window: usize, frame_bytes: usize)
    requires
        0 < filled <= window,
        window * frame_bytes <= usize::MAX,
        old(buf)@.len() == window * frame_bytes,
    ensures
        final(buf)@.len() == old(buf)@.len(),
        forall|i: int| 0 <= i < filled * frame_bytes ==> #[trigger] final(buf)@[i] == old(buf)@[i],
        forall|f: int, b: int|
            filled <= f < window && 0 <= b < frame_bytes ==> #[trigger] frame_byte(
                final(buf)@,
                frame_bytes as int,
                f,
                b,
            ) == frame_byte(old(buf)@, frame_bytes as int, filled - 1, b),
{
    let ghost orig = buf@;
    proof {
        assert((filled - 1) * frame_bytes <= window * frame_bytes) by (nonlinear_arith)
            requires
                filled <= window,
        ;
    }
    let last_off = (filled - 1) * frame_bytes;
    proof {
        assert(filled * frame_bytes <= window * frame_bytes) by (nonlinear_arith)
            requires
                filled <= window,
        ;
        assert(last_off + frame_bytes == filled * frame_bytes) by (nonlinear_arith)
            requires
                last_off == (filled - 1) * frame_bytes,
                filled > 0,
        ;
    }
    let mut f = filled;
    while f < window
        invariant
            0 < filled <= f <= window,
            buf@.len() == orig.len(),
            orig.len() == window * frame_bytes,
            window * frame_bytes <= usize::MAX,
            last_off == (filled - 1) * frame_bytes,
            last_off + frame_bytes == filled * frame_bytes,
            forall|i: int| 0 <= i < filled * frame_bytes ==> #[trigger] buf@[i] == orig[i],
            forall|g: int, b: int|
                filled <= g < f && 0 <= b < frame_bytes ==> #[trigger] frame_byte(
                    buf@,
                    frame_bytes as int,
                    g,
                    b,
                ) == frame_byte(orig, frame_bytes as int, filled - 1, b),
        decreases window - f,
    {
        proof {
            assert(f * frame_bytes <= window * frame_bytes) by (nonlinear_arith)
                requires
                    f <= window,
            ;
        }
        let off = f * frame_bytes;
        proof {
            assert(off + frame_bytes <= window * frame_bytes) by (nonlinear_arith)
                requires
                    off == f * frame_bytes,
                    f < window,
            ;
            assert(off >= filled * frame_bytes) by (nonlinear_arith)
                requires
                    off == f * frame_bytes,
                    f >= filled,
            ;
        }
        let mut b: usize = 0;
        while b < frame_bytes
            invariant
                0 < filled <= f < window,
                buf@.len() == orig.len(),
                orig.len() == window * frame_bytes,
                off == f * frame_bytes,
                window * frame_bytes <= usize::MAX,
                off + frame_bytes <= window * frame_bytes,
                off >= filled * frame_bytes,
                last_off == (filled - 1) * frame_bytes,
                last_off + frame_bytes == filled * frame_bytes,
                b <= frame_bytes,
                forall|i: int| 0 <= i < filled * frame_bytes ==> #[trigger] buf@[i] == orig[i],
                forall|g: int, c: int|
                    filled <= g < f && 0 <= c < frame_bytes ==> #[trigger] frame_byte(
                        buf@,
                        frame_bytes as int,
                        g,
                        c,
                    ) == frame_byte(orig, frame_bytes as int, filled - 1, c),
                forall|c: int|
                    0 <= c < b ==> #[trigger] frame_byte(buf@, frame_bytes as int, f as int, c)
                        == frame_byte(orig, frame_bytes as int, filled - 1, c),
            decreases frame_bytes - b,
        {
            let v = buf[last_off + b];
            let ghost pre = buf@;
            buf.set(off + b, v);
            proof {
                assert(v == orig[(filled - 1) * frame_bytes + b]);
                assert forall|i: int| 0 <= i < filled * frame_bytes implies #[trigger] buf@[i]
                    == orig[i] by {
                    assert(i != off + b);
                    assert(buf@[i] == pre[i]);
                }
                assert forall|c: int|
                    0 <= c < b + 1 implies #[trigger] frame_byte(
                    buf@,
                    frame_bytes as int,
                    f as int,
                    c,
                ) == frame_byte(orig, frame_bytes as int, filled - 1, c) by {
                    if c < b {
                        assert(frame_byte(pre, frame_bytes as int, f as int, c) == frame_byte(
                            orig,
                            frame_bytes as int,
                            filled - 1,
                            c,
                        ));
                    }
                }
                assert forall|g: int, c: int|
                    filled <= g < f && 0 <= c < frame_bytes implies #[trigger] frame_byte(
                    buf@,
                    frame_bytes as int,
                    g,
                    c,
                ) == frame_byte(orig, frame_bytes as int, filled - 1, c) by {
                    assert(g * frame_bytes + c < off) by (nonlinear_arith)
                        requires
                            g < f,
                            c < frame_bytes,
                            0 <= c,
                            off == f * frame_bytes,
                    ;
                    assert(frame_byte(pre, frame_bytes as int, g, c) == frame_byte(
                        orig,
                        frame_bytes as int,
                        filled - 1,
                        c,
                    ));
                }
            }
            b = b + 1;
        }
        proof {
            assert forall|g: int, c: int|
                filled <= g < f + 1 && 0 <= c < frame_bytes implies #[trigger] frame_byte(
                buf@,
                frame_bytes as int,
                g,
                c,
            ) == frame_byte(orig, frame_bytes as int, filled - 1, c) by {
                if g == f {
                    assert(g * frame_bytes + c == off + c);
                }
            }
        }
        f = f + 1;
    }
}


// ---------------------------------------------------------------------
// The chunk loop
// ---------------------------------------------------------------------

/// What to do with a chunk once `filled` frames were read into it.
pub enum ChunkStep {
    /// Nothing was read: the stream is over.
    End,
    /// Run the model on the chunk (padding it first when `pad`), write the
    /// first `emit` output frames, and stop after them when `last`.
    Process { pad: bool, emit: usize, last: bool },
}

/// The frames read and written so far, chunk by chunk.
pub struct ChunkStream {
    pub window: usize,
    pub frames_in: u64,
    pub frames_out: u64,
    pub finished: bool,
}

impl ChunkStream {
    /// Every frame read is written once: the padding never reaches the
    /// output.
    pub open spec fn wf(&self) -> bool {
        &&& self.window > 0
        &&& self.frames_out == self.frames_in
    }

    pub fn new(window: usize) -> (r: ChunkStream)
        requires
            window > 0,
        ensures
            r.wf(),
            r.window == window,
            r.frames_in == 0,
            !r.finished,
    {
        ChunkStream { window, frames_in: 0, frames_out: 0, finished: false }
    }

    /// Account for a chunk of `filled` real frames: an empty chunk ends the
    /// stream; a short one is padded, written without its padding, and is
    /// the last.
    pub fn on_chunk(&mut self, filled: usize) -> (r: ChunkStep)
        requires
            old(self).wf(),
            !old(self).finished,
            filled <= old(self).window,
            old(self).frames_in + filled <= u64::MAX,
        ensures
            final(self).wf(),
            final(self).window == old(self).window,
            filled == 0 ==> r is End && final(self).finished && final(self).frames_in
                == old(self).frames_in,
            filled > 0 ==> r == (ChunkStep::Process {
                pad: filled < old(self).window,
                emit: filled,
                last: filled < old(self).window,
            }),
            filled > 0 ==> final(self).frames_in == old(self).frames_in + filled,
            final(self).finished == (filled < old(self).window),
    {
        if filled == 0 {
            self.finished = true;
            return ChunkStep::End;
        }
        self.frames_in = self.frames_in + filled as u64;
        self.frames_out = self.frames_out + filled as u64;
        let short = filled < self.window;
        self.finished = short;
        ChunkStep::Process { pad: short, emit: filled, last: short }
    }
}

} // verus!
