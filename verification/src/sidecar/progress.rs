//! The progress lines the sidecars write on standard error, and the
//! guarantee that the application reads back what they wrote.
use vstd::prelude::*;

use crate::text::{
    concat2, dec_digits, is_ws, lemma_dec_digits_value, lemma_parse_dec_digits,
    lemma_trim_dec_digits, lemma_words_two, u64_to_text,
};
use crate::tools::rembg::{progress_fold, progress_step, spec_parse_progress};
use crate::tools::video::spec_frame_line;

verus! {

/// `stage=<stage> pct=<pct>`, the per-image progress line.
pub open spec fn progress_text(stage: Seq<char>, pct: nat) -> Seq<char> {
    "stage="@ + stage + " pct="@ + dec_digits(pct)
}

pub fn progress_line(stage: &str, pct: u8) -> (r: String)
    ensures
        r@ == progress_text(stage@, pct as nat),
{
    let mut s = concat2("stage=", stage);
    s.append(" pct=");
    let p = u64_to_text(pct as u64);
    s.append(p.as_str());
    s
}

/// `frame <n>`, written after each frame of a stream.
pub open spec fn frame_text(n: nat) -> Seq<char> {
    "frame "@ + dec_digits(n)
}

pub fn frame_line(n: u64) -> (r: String)
    ensures
        r@ == frame_text(n as nat),
{
    let d = u64_to_text(n);
    concat2("frame ", d.as_str())
}

/// What a sidecar reports per image is what the application reads: for a
/// stage name without whitespace, reading the progress line gives back the
/// stage and the percentage.
pub proof fn lemma_progress_round_trip(stage: Seq<char>, pct: nat)
    requires
        pct <= 255,
        forall|i: int| 0 <= i < stage.len() ==> !is_ws(#[trigger] stage[i]),
    ensures
        spec_parse_progress(progress_text(stage, pct)) == Some((stage, pct)),
{
    reveal_strlit("stage=");
    reveal_strlit(" pct=");
    reveal_strlit("pct=");
    let digits = dec_digits(pct);
    lemma_dec_digits_value(pct);
    let a = "stage="@ + stage;
    let b = "pct="@ + digits;
    assert forall|i: int| 0 <= i < a.len() implies !is_ws(#[trigger] a[i]) by {
        if i >= 6 {
            assert(a[i] == stage[i - 6]);
        }
    }
    assert forall|i: int| 0 <= i < b.len() implies !is_ws(#[trigger] b[i]) by {
        if i >= 4 {
            assert(b[i] == digits[i - 4]);
        }
    }
    assert(progress_text(stage, pct) =~= a + seq![' '] + b);
    lemma_words_two(a, b);
    let toks = seq![a, b];
    assert(toks.drop_last() =~= seq![a]);
    assert(seq![a].drop_last() =~= Seq::<Seq<char>>::empty());
    assert(a.take(6) =~= "stage="@);
    assert(a.skip(6) =~= stage);
    assert(b.take(4) =~= "pct="@);
    assert(b.skip(4) =~= digits);
    assert(b[0] == 'p');
    assert("stage="@[0] == 's');
    if b.len() >= 6 && b.take(6) == "stage="@ {
        assert(b.take(6)[0] == b[0]);
        assert(false);
    }
    lemma_parse_dec_digits(pct, 255);
    let e = Seq::<Seq<char>>::empty();
    assert(progress_fold(e) == (None::<Seq<char>>, None::<nat>));
    assert(progress_fold(seq![a]) == progress_step(progress_fold(e), a));
    assert(progress_step((None, None), a) == (Some(stage), None::<nat>));
    assert(progress_fold(toks) == progress_step(progress_fold(seq![a]), b));
    assert(progress_step((Some(stage), None), b) == (Some(stage), Some(pct)));
    assert(progress_fold(toks) == (Some(stage), Some(pct)));
}

/// What a stream sidecar reports per frame is what the application reads:
/// the `frame` line of `n` reads back as `n`.
pub proof fn lemma_frame_round_trip(n: nat)
    requires
        n <= u64::MAX,
    ensures
        spec_frame_line(frame_text(n)) == Some(n),
{
    reveal_strlit("frame ");
    let line = frame_text(n);
    assert(line.take(6) =~= "frame "@);
    assert(line.skip(6) =~= dec_digits(n));
    lemma_trim_dec_digits(n);
    lemma_parse_dec_digits(n, u64::MAX as nat);
}

} // verus!
