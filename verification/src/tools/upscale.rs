//! Image upscale runs: the same batch rules as background removal, with
//! the `_x<scale>` suffix and the `nsay_upscale` sub-folder.
use vstd::prelude::*;

use crate::text::{concat2, dec_digits, u64_to_text};
use crate::tools::{all_plain_files, batch_output_ok, batch_output_paths};
use crate::paths::no_colon;
use crate::tools::rembg::{arg_views, spec_parse_progress};

verus! {

/// The outcome of one input of a batch.
pub type ItemResult = crate::tools::rembg::ItemResult;

/// Read a sidecar progress line ("stage=tile pct=40").
pub fn parse_progress(line: &str) -> (r: Option<(String, u8)>)
    ensures
        r is Some <==> spec_parse_progress(line@) is Some,
        r matches Some(x) ==> spec_parse_progress(line@) == Some((x.0@, x.1 as nat)),
{
    crate::tools::rembg::parse_progress(line)
}

/// `text` with every `.` replaced by `_`.
pub open spec fn dots_to_underscores(text: Seq<char>) -> Seq<char> {
    Seq::new(text.len(), |i: int| if text[i] == '.' { '_' } else { text[i] })
}

/// The scale as it appears in file names: a whole scale as its integer
/// ("4"), any other with its decimal point made an underscore ("1_5"), so
/// that no stray dot reads as an extension. `whole` is the scale when it is
/// a whole number, `text` its decimal rendering.
pub open spec fn spec_scale_tag(whole: Option<u32>, text: Seq<char>) -> Seq<char> {
    match whole {
        Some(n) => dec_digits(n as nat),
        None => dots_to_underscores(text),
    }
}

pub fn scale_tag(whole: Option<u32>, text: &str) -> (r: String)
    ensures
        r@ == spec_scale_tag(whole, text@),
{
    match whole {
        Some(n) => u64_to_text(n as u64),
        None => {
            let cs = crate::text::to_chars(text);
            let mut out: Vec<char> = Vec::new();
            let mut i: usize = 0;
            while i < cs.len()
                invariant
                    cs@ == text@,
                    i <= cs@.len(),
                    out@ == dots_to_underscores(text@).take(i as int),
                decreases cs@.len() - i,
            {
                let c = if cs[i] == '.' {
                    '_'
                } else {
                    cs[i]
                };
                out.push(c);
                i = i + 1;
                assert(out@ =~= dots_to_underscores(text@).take(i as int));
            }
            assert(out@ =~= dots_to_underscores(text@));
            crate::text::string_from_chars(out.as_slice())
        },
    }
}

/// Output paths for a batch, in input order: `<dir>/<stem>_x<tag>.png`
/// for a lone input of its directory, `<dir>/nsay_upscale/<stem>.png`
/// otherwise (`tag` from `scale_tag`).
pub fn derive_output_paths(inputs: &Vec<String>, tag: &str) -> (r: Vec<String>)
    ensures
        r@.len() == inputs@.len(),
        all_plain_files(inputs@) && no_colon(tag@) ==> forall|i: int|
            0 <= i < r@.len() ==> batch_output_ok(
                #[trigger] r@[i]@,
                inputs@,
                i,
                "_x"@ + tag@ + ".png"@,
                "nsay_upscale"@,
            ),
{
    let mut suffix = concat2("_x", tag);
    suffix.append(".png");
    proof {
        reveal_strlit("_x");
        reveal_strlit(".png");
        reveal_strlit("nsay_upscale");
        let sx = suffix@;
        assert(sx.last() == 'g');
        if no_colon(tag@) {
            assert forall|i: int| 0 <= i < sx.len() implies sx[i] != ':' by {
                if 2 <= i < 2 + tag@.len() {
                    assert(sx[i] == tag@[i - 2]);
                }
            }
        }
    }
    batch_output_paths(inputs, suffix.as_str(), "nsay_upscale")
}

/// The sidecar's command line for one image.
pub open spec fn spec_sidecar_args(
    model: Seq<char>,
    input: Seq<char>,
    output: Seq<char>,
    scale: Seq<char>,
    model_scale: nat,
) -> Seq<Seq<char>> {
    seq![
        "--model"@,
        model,
        "--input"@,
        input,
        "--output"@,
        output,
        "--scale"@,
        scale,
        "--model-scale"@,
        dec_digits(model_scale),
    ]
}

/// The sidecar's arguments for one image: the requested scale as text and
/// the model's native ratio.
pub fn sidecar_args(model: &str, input: &str, output: &str, scale: &str, model_scale: u32) -> (r:
    Vec<String>)
    ensures
        arg_views(r@) == spec_sidecar_args(model@, input@, output@, scale@, model_scale as nat),
{
    let v = vec![
        String::from_str("--model"),
        String::from_str(model),
        String::from_str("--input"),
        String::from_str(input),
        String::from_str("--output"),
        String::from_str(output),
        String::from_str("--scale"),
        String::from_str(scale),
        String::from_str("--model-scale"),
        u64_to_text(model_scale as u64),
    ];
    assert(arg_views(v@) =~= spec_sidecar_args(model@, input@, output@, scale@, model_scale as nat));
    v
}

} // verus!
