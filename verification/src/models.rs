//! The catalogue of downloadable models.
use vstd::prelude::*;

use crate::text::str_eq;

verus! {

/// One downloadable model. `family` is "rembg" | "upscale" | "interp" |
/// "vidsr"; `output_scale` is the native output:input ratio of upscale
/// models (0 for other families); `preset` names the pre/post-processing
/// flavour the sidecar uses; an empty `sha256` means "not checked".
#[derive(Clone, Copy)]
pub struct ModelEntry {
    pub id: &'static str,
    pub family: &'static str,
    pub label: &'static str,
    pub url: &'static str,
    pub filename: &'static str,
    pub size_mb: u32,
    pub sha256: &'static str,
    pub output_scale: u32,
    pub preset: &'static str,
}

pub open spec fn spec_entry(
    id: &'static str,
    family: &'static str,
    label: &'static str,
    url: &'static str,
    filename: &'static str,
    size_mb: u32,
    sha256: &'static str,
    output_scale: u32,
    preset: &'static str,
) -> ModelEntry {
    ModelEntry { id, family, label, url, filename, size_mb, sha256, output_scale, preset }
}

fn entry(
    id: &'static str,
    family: &'static str,
    label: &'static str,
    url: &'static str,
    filename: &'static str,
    size_mb: u32,
    sha256: &'static str,
    output_scale: u32,
    preset: &'static str,
) -> (e: ModelEntry)
    ensures
        e == spec_entry(id, family, label, url, filename, size_mb, sha256, output_scale, preset),
{
    ModelEntry { id, family, label, url, filename, size_mb, sha256, output_scale, preset }
}

/// The catalogue, in display order.
pub open spec fn spec_catalog() -> Seq<ModelEntry> {
    seq![
        spec_entry(
            "bria-rmbg-1.4",
            "rembg",
            "BRIA-RMBG 1.4 (fp32)",
            "https://huggingface.co/briaai/RMBG-1.4/resolve/main/onnx/model.onnx",
            "bria-rmbg-1.4.onnx",
            176,
            "",
            0,
            "bria-rmbg",
        ),
        spec_entry(
            "bria-rmbg-1.4-fp16",
            "rembg",
            "BRIA-RMBG 1.4 (fp16)",
            "https://huggingface.co/briaai/RMBG-1.4/resolve/main/onnx/model_fp16.onnx",
            "bria-rmbg-1.4-fp16.onnx",
            88,
            "",
            0,
            "bria-rmbg",
        ),
        spec_entry(
            "ben2-base",
            "rembg",
            "BEN2 base (general)",
            "https://huggingface.co/PramaLLC/BEN2/resolve/main/BEN2_Base.onnx",
            "ben2-base.onnx",
            223,
            "",
            0,
            "ben2",
        ),
        spec_entry(
            "birefnet-fp16",
            "rembg",
            "BiRefNet (fp16, sharp edges)",
            "https://huggingface.co/onnx-community/BiRefNet-ONNX/resolve/main/onnx/model_fp16.onnx",
            "birefnet-fp16.onnx",
            490,
            "",
            0,
            "birefnet",
        ),
        spec_entry(
            "modnet-portrait",
            "rembg",
            "MODNet (portrait, fast)",
            "https://huggingface.co/Xenova/modnet/resolve/main/onnx/model.onnx",
            "modnet-portrait.onnx",
            26,
            "",
            0,
            "modnet",
        ),
        spec_entry(
            "real-esrgan-x4",
            "upscale",
            "Real-ESRGAN ×4 (general)",
            "https://huggingface.co/crj/dl-ws/resolve/main/real_esrgan_x4.onnx",
            "real-esrgan-x4.onnx",
            67,
            "",
            4,
            "esrgan",
        ),
        spec_entry(
            "real-esrgan-x2",
            "upscale",
            "Real-ESRGAN ×2 (general)",
            "https://huggingface.co/crj/dl-ws/resolve/main/real_esrgan_x2.onnx",
            "real-esrgan-x2.onnx",
            67,
            "",
            2,
            "esrgan",
        ),
        spec_entry(
            "real-esrgan-x4-fp16",
            "upscale",
            "Real-ESRGAN ×4 (fp16, Ampere+)",
            "https://huggingface.co/crj/dl-ws/resolve/main/real_esrgan_x4_fp16.onnx",
            "real-esrgan-x4-fp16.onnx",
            36,
            "",
            4,
            "esrgan",
        ),
        spec_entry(
            "real-esrgan-x2-fp16",
            "upscale",
            "Real-ESRGAN ×2 (fp16, Ampere+)",
            "https://huggingface.co/crj/dl-ws/resolve/main/real_esrgan_x2_fp16.onnx",
            "real-esrgan-x2-fp16.onnx",
            36,
            "",
            2,
            "esrgan",
        ),
        spec_entry(
            "real-hatgan-x4",
            "upscale",
            "Real-HAT-GAN ×4 (textures)",
            "https://huggingface.co/crj/dl-ws/resolve/main/real_hatgan_x4.onnx",
            "real-hatgan-x4.onnx",
            153,
            "",
            4,
            "hat",
        ),
        spec_entry(
            "lsdir-x4",
            "upscale",
            "LSDIR ×4 (photo, sharp)",
            "https://huggingface.co/crj/dl-ws/resolve/main/lsdir_x4.onnx",
            "lsdir-x4.onnx",
            64,
            "",
            4,
            "esrgan",
        ),
        spec_entry(
            "nomos8k-x4",
            "upscale",
            "Nomos8k ×4 (photo, natural)",
            "https://huggingface.co/crj/dl-ws/resolve/main/nomos8k_sc_x4.onnx",
            "nomos8k-x4.onnx",
            64,
            "",
            4,
            "esrgan",
        ),
        spec_entry(
            "span-x4",
            "upscale",
            "SPAN ×4 (lightweight, fast)",
            "https://huggingface.co/crj/dl-ws/resolve/main/span_kendata_x4.onnx",
            "span-x4.onnx",
            2,
            "",
            4,
            "esrgan",
        ),
        spec_entry(
            "real-esrgan-anime-x4",
            "upscale",
            "Real-ESRGAN ×4 Anime 6B (quality)",
            "https://github.com/styler00dollar/VSGAN-tensorrt-docker/releases/download/models/RealESRGAN_x4plus_anime_6B_opset16.onnx",
            "real-esrgan-anime-x4.onnx",
            17,
            "",
            4,
            "esrgan",
        ),
        spec_entry(
            "compact-anime-x4",
            "upscale",
            "Compact ×4 Anime Video (fast video)",
            "https://github.com/styler00dollar/VSGAN-tensorrt-docker/releases/download/models/realesr-animevideov3.onnx",
            "compact-anime-x4.onnx",
            3,
            "",
            4,
            "esrgan",
        ),
        spec_entry(
            "compact-anime-x2",
            "upscale",
            "Compact ×2 Anime Video XS (fast video)",
            "https://github.com/styler00dollar/VSGAN-tensorrt-docker/releases/download/models/RealESRGANv2-animevideo-xsx2_op18_sim.onnx",
            "compact-anime-x2.onnx",
            3,
            "",
            2,
            "esrgan",
        ),
        spec_entry(
            "spanimation-v2-x2",
            "upscale",
            "Spanimation V2 ×2 (tiny, fastest)",
            "https://github.com/styler00dollar/VSGAN-tensorrt-docker/releases/download/models/2x_ModernSpanimationV2_clamp_op20.onnx",
            "spanimation-v2-x2.onnx",
            2,
            "",
            2,
            "esrgan",
        ),
        spec_entry(
            "ultrasharp-v2-x4",
            "upscale",
            "UltraSharp V2 ×4 DAT-2 (top quality)",
            "https://huggingface.co/Kim2091/UltraSharpV2/resolve/main/4x-UltraSharpV2_fp32_op17.onnx",
            "ultrasharp-v2-x4.onnx",
            52,
            "",
            4,
            "hat",
        ),
        spec_entry(
            "rife-4.9",
            "interp",
            "RIFE 4.9 (general)",
            "https://huggingface.co/yuvraj108c/rife-onnx/resolve/main/rife49_ensemble_True_scale_1_sim.onnx",
            "rife-4.9.onnx",
            21,
            "",
            0,
            "rife",
        ),
        spec_entry(
            "realbasicvsr-x4",
            "vidsr",
            "RealBasicVSR ×4 (temporal, manual install)",
            "",
            "realbasicvsr-x4.pt",
            100,
            "",
            4,
            "realbasicvsr",
        ),
    ]
}

/// The catalogue, in display order.
pub fn catalog() -> (v: Vec<ModelEntry>)
    ensures
        v@ == spec_catalog(),
{
    let v = vec![
        entry(
            "bria-rmbg-1.4",
            "rembg",
            "BRIA-RMBG 1.4 (fp32)",
            "https://huggingface.co/briaai/RMBG-1.4/resolve/main/onnx/model.onnx",
            "bria-rmbg-1.4.onnx",
            176,
            "",
            0,
            "bria-rmbg",
        ),
        entry(
            "bria-rmbg-1.4-fp16",
            "rembg",
            "BRIA-RMBG 1.4 (fp16)",
            "https://huggingface.co/briaai/RMBG-1.4/resolve/main/onnx/model_fp16.onnx",
            "bria-rmbg-1.4-fp16.onnx",
            88,
            "",
            0,
            "bria-rmbg",
        ),
        entry(
            "ben2-base",
            "rembg",
            "BEN2 base (general)",
            "https://huggingface.co/PramaLLC/BEN2/resolve/main/BEN2_Base.onnx",
            "ben2-base.onnx",
            223,
            "",
            0,
            "ben2",
        ),
        entry(
            "birefnet-fp16",
            "rembg",
            "BiRefNet (fp16, sharp edges)",
            "https://huggingface.co/onnx-community/BiRefNet-ONNX/resolve/main/onnx/model_fp16.onnx",
            "birefnet-fp16.onnx",
            490,
            "",
            0,
            "birefnet",
        ),
        entry(
            "modnet-portrait",
            "rembg",
            "MODNet (portrait, fast)",
            "https://huggingface.co/Xenova/modnet/resolve/main/onnx/model.onnx",
            "modnet-portrait.onnx",
            26,
            "",
            0,
            "modnet",
        ),
        entry(
            "real-esrgan-x4",
            "upscale",
            "Real-ESRGAN ×4 (general)",
            "https://huggingface.co/crj/dl-ws/resolve/main/real_esrgan_x4.onnx",
            "real-esrgan-x4.onnx",
            67,
            "",
            4,
            "esrgan",
        ),
        entry(
            "real-esrgan-x2",
            "upscale",
            "Real-ESRGAN ×2 (general)",
            "https://huggingface.co/crj/dl-ws/resolve/main/real_esrgan_x2.onnx",
            "real-esrgan-x2.onnx",
            67,
            "",
            2,
            "esrgan",
        ),
        entry(
            "real-esrgan-x4-fp16",
            "upscale",
            "Real-ESRGAN ×4 (fp16, Ampere+)",
            "https://huggingface.co/crj/dl-ws/resolve/main/real_esrgan_x4_fp16.onnx",
            "real-esrgan-x4-fp16.onnx",
            36,
            "",
            4,
            "esrgan",
        ),
        entry(
            "real-esrgan-x2-fp16",
            "upscale",
            "Real-ESRGAN ×2 (fp16, Ampere+)",
            "https://huggingface.co/crj/dl-ws/resolve/main/real_esrgan_x2_fp16.onnx",
            "real-esrgan-x2-fp16.onnx",
            36,
            "",
            2,
            "esrgan",
        ),
        entry(
            "real-hatgan-x4",
            "upscale",
            "Real-HAT-GAN ×4 (textures)",
            "https://huggingface.co/crj/dl-ws/resolve/main/real_hatgan_x4.onnx",
            "real-hatgan-x4.onnx",
            153,
            "",
            4,
            "hat",
        ),
        entry(
            "lsdir-x4",
            "upscale",
            "LSDIR ×4 (photo, sharp)",
            "https://huggingface.co/crj/dl-ws/resolve/main/lsdir_x4.onnx",
            "lsdir-x4.onnx",
            64,
            "",
            4,
            "esrgan",
        ),
        entry(
            "nomos8k-x4",
            "upscale",
            "Nomos8k ×4 (photo, natural)",
            "https://huggingface.co/crj/dl-ws/resolve/main/nomos8k_sc_x4.onnx",
            "nomos8k-x4.onnx",
            64,
            "",
            4,
            "esrgan",
        ),
        entry(
            "span-x4",
            "upscale",
            "SPAN ×4 (lightweight, fast)",
            "https://huggingface.co/crj/dl-ws/resolve/main/span_kendata_x4.onnx",
            "span-x4.onnx",
            2,
            "",
            4,
            "esrgan",
        ),
        entry(
            "real-esrgan-anime-x4",
            "upscale",
            "Real-ESRGAN ×4 Anime 6B (quality)",
            "https://github.com/styler00dollar/VSGAN-tensorrt-docker/releases/download/models/RealESRGAN_x4plus_anime_6B_opset16.onnx",
            "real-esrgan-anime-x4.onnx",
            17,
            "",
            4,
            "esrgan",
        ),
        entry(
            "compact-anime-x4",
            "upscale",
            "Compact ×4 Anime Video (fast video)",
            "https://github.com/styler00dollar/VSGAN-tensorrt-docker/releases/download/models/realesr-animevideov3.onnx",
            "compact-anime-x4.onnx",
            3,
            "",
            4,
            "esrgan",
        ),
        entry(
            "compact-anime-x2",
            "upscale",
            "Compact ×2 Anime Video XS (fast video)",
            "https://github.com/styler00dollar/VSGAN-tensorrt-docker/releases/download/models/RealESRGANv2-animevideo-xsx2_op18_sim.onnx",
            "compact-anime-x2.onnx",
            3,
            "",
            2,
            "esrgan",
        ),
        entry(
            "spanimation-v2-x2",
            "upscale",
            "Spanimation V2 ×2 (tiny, fastest)",
            "https://github.com/styler00dollar/VSGAN-tensorrt-docker/releases/download/models/2x_ModernSpanimationV2_clamp_op20.onnx",
            "spanimation-v2-x2.onnx",
            2,
            "",
            2,
            "esrgan",
        ),
        entry(
            "ultrasharp-v2-x4",
            "upscale",
            "UltraSharp V2 ×4 DAT-2 (top quality)",
            "https://huggingface.co/Kim2091/UltraSharpV2/resolve/main/4x-UltraSharpV2_fp32_op17.onnx",
            "ultrasharp-v2-x4.onnx",
            52,
            "",
            4,
            "hat",
        ),
        entry(
            "rife-4.9",
            "interp",
            "RIFE 4.9 (general)",
            "https://huggingface.co/yuvraj108c/rife-onnx/resolve/main/rife49_ensemble_True_scale_1_sim.onnx",
            "rife-4.9.onnx",
            21,
            "",
            0,
            "rife",
        ),
        entry(
            "realbasicvsr-x4",
            "vidsr",
            "RealBasicVSR ×4 (temporal, manual install)",
            "",
            "realbasicvsr-x4.pt",
            100,
            "",
            4,
            "realbasicvsr",
        ),
    ];
    assert(v@ =~= spec_catalog());
    v
}

/// Index of the first catalogue entry whose id is `id`.
pub open spec fn first_with_id(cat: Seq<ModelEntry>, id: Seq<char>, from: int) -> Option<int>
    decreases cat.len() - from,
{
    if from < 0 || from >= cat.len() {
        None
    } else if cat[from].id@ == id {
        Some(from)
    } else {
        first_with_id(cat, id, from + 1)
    }
}

/// What `find` returns for `id`.
pub open spec fn spec_find(id: Seq<char>) -> Option<ModelEntry> {
    match first_with_id(spec_catalog(), id, 0) {
        Some(i) => Some(spec_catalog()[i]),
        None => None,
    }
}

proof fn lemma_first_with_id_skip(cat: Seq<ModelEntry>, id: Seq<char>, i: int)
    requires
        0 <= i <= cat.len(),
        forall|k: int| 0 <= k < i ==> cat[k].id@ != id,
    ensures
        first_with_id(cat, id, 0) == first_with_id(cat, id, i),
    decreases i,
{
    if i > 0 {
        lemma_first_with_id_skip(cat, id, i - 1);
    }
}

/// The catalogue entry with the given id.
pub fn find(id: &str) -> (r: Option<ModelEntry>)
    ensures
        r == spec_find(id@),
{
    let cat = catalog();
    let mut i: usize = 0;
    while i < cat.len()
        invariant
            cat@ == spec_catalog(),
            i <= cat@.len(),
            forall|k: int| 0 <= k < i ==> cat@[k].id@ != id@,
        decreases cat@.len() - i,
    {
        if str_eq(cat[i].id, id) {
            proof {
                lemma_first_with_id_skip(cat@, id@, i as int);
            }
            return Some(cat[i]);
        }
        i = i + 1;
    }
    proof {
        lemma_first_with_id_skip(cat@, id@, i as int);
    }
    None
}

} // verus!
