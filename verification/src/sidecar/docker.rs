//! Container-backed video super-resolution: command line, the `docker run`
//! argument list, the reading of the container's progress output and the
//! identification of the file it produced.
use vstd::prelude::*;

use crate::paths::{
    ends_in_parent, is_join_of, join_base, join_part, last_segment, lemma_join_of_base,
    lemma_join_one, lemma_join_step, name_extension, normal_name, only_separators, path_extension,
    path_file_name, path_join, portable_path,
};
use crate::sidecar::args::{
    scan, scan_error, scan_error_view, spec_scan, spec_u32_arg, table_view, tokens_view, u32_arg,
    args_view, ArgError, ArgErrorView, TokenView, token_value, token_value_of,
};
use crate::sidecar::upscale::opt_view;
use crate::text::{
    concat2, dec_digits, eq_ignore_ascii_case, eq_ignore_case, parse_decimal, parse_unsigned,
    str_eq, string_from_chars, to_chars, trim, trim_chars, u64_to_text,
};

verus! {

pub open spec fn spec_default_image() -> Seq<char> {
    "flashvsr-pro:latest"@
}

pub open spec fn spec_container_input_dir() -> Seq<char> {
    "/in"@
}

pub open spec fn spec_container_output_dir() -> Seq<char> {
    "/out"@
}

pub open spec fn spec_container_weights_dir() -> Seq<char> {
    "/workspace/FlashVSR-Pro/models/FlashVSR-v1.1"@
}

// ---------------------------------------------------------------------
// Command line
// ---------------------------------------------------------------------

pub struct Args {
    pub input: String,
    pub output: String,
    pub scale: u32,
    pub mode: String,
    pub tile_vae: bool,
    pub tile_dit: bool,
    pub keep_audio: bool,
    pub weights_dir: String,
    pub image: String,
}

pub struct ArgsView {
    pub input: Seq<char>,
    pub output: Seq<char>,
    pub scale: nat,
    pub mode: Seq<char>,
    pub tile_vae: bool,
    pub tile_dit: bool,
    pub keep_audio: bool,
    pub weights_dir: Seq<char>,
    pub image: Seq<char>,
}

impl Args {
    pub open spec fn view(&self) -> ArgsView {
        ArgsView {
            input: self.input@,
            output: self.output@,
            scale: self.scale as nat,
            mode: self.mode@,
            tile_vae: self.tile_vae,
            tile_dit: self.tile_dit,
            keep_audio: self.keep_audio,
            weights_dir: self.weights_dir@,
            image: self.image@,
        }
    }
}

pub open spec fn docker_table() -> Seq<(Seq<char>, bool)> {
    seq![
        ("--input"@, true),
        ("-i"@, true),
        ("--output"@, true),
        ("-o"@, true),
        ("--scale"@, true),
        ("--mode"@, true),
        ("--tile-vae"@, false),
        ("--no-tile-vae"@, false),
        ("--tile-dit"@, false),
        ("--no-tile-dit"@, false),
        ("--keep-audio"@, false),
        ("--no-keep-audio"@, false),
        ("--weights-dir"@, true),
        ("--image"@, true),
        ("--model"@, true),
    ]
}

fn table() -> (t: Vec<(&'static str, bool)>)
    ensures
        table_view(t@) == docker_table(),
{
    let t = vec![
        ("--input", true),
        ("-i", true),
        ("--output", true),
        ("-o", true),
        ("--scale", true),
        ("--mode", true),
        ("--tile-vae", false),
        ("--no-tile-vae", false),
        ("--tile-dit", false),
        ("--no-tile-dit", false),
        ("--keep-audio", false),
        ("--no-keep-audio", false),
        ("--weights-dir", true),
        ("--image", true),
        ("--model", true),
    ];
    assert(table_view(t@) =~= docker_table());
    t
}

pub struct DockerScan {
    pub input: Option<Seq<char>>,
    pub output: Option<Seq<char>>,
    pub scale: nat,
    pub mode: Seq<char>,
    pub tile_vae: bool,
    pub tile_dit: bool,
    pub keep_audio: bool,
    pub weights_dir: Option<Seq<char>>,
    pub image: Seq<char>,
}

pub open spec fn docker_scan_init() -> DockerScan {
    DockerScan {
        input: None,
        output: None,
        scale: 4,
        mode: "tiny"@,
        tile_vae: true,
        tile_dit: true,
        keep_audio: true,
        weights_dir: None,
        image: spec_default_image(),
    }
}

pub open spec fn docker_token(s: DockerScan, t: TokenView) -> Result<DockerScan, ArgErrorView> {
    let v = token_value(t);
    if t.flag == 0 || t.flag == 1 {
        Ok(DockerScan { input: Some(v), ..s })
    } else if t.flag == 2 || t.flag == 3 {
        Ok(DockerScan { output: Some(v), ..s })
    } else if t.flag == 4 {
        match spec_u32_arg("--scale"@, v, t.at) {
            Ok(n) => Ok(DockerScan { scale: n, ..s }),
            Err(e) => Err(e),
        }
    } else if t.flag == 5 {
        if v != "tiny"@ && v != "full"@ {
            Err(ArgErrorView::BadMode { mode: v })
        } else {
            Ok(DockerScan { mode: v, ..s })
        }
    } else if t.flag == 6 {
        Ok(DockerScan { tile_vae: true, ..s })
    } else if t.flag == 7 {
        Ok(DockerScan { tile_vae: false, ..s })
    } else if t.flag == 8 {
        Ok(DockerScan { tile_dit: true, ..s })
    } else if t.flag == 9 {
        Ok(DockerScan { tile_dit: false, ..s })
    } else if t.flag == 10 {
        Ok(DockerScan { keep_audio: true, ..s })
    } else if t.flag == 11 {
        Ok(DockerScan { keep_audio: false, ..s })
    } else if t.flag == 12 {
        Ok(DockerScan { weights_dir: Some(v), ..s })
    } else if t.flag == 13 {
        Ok(DockerScan { image: v, ..s })
    } else {
        Ok(s)
    }
}

pub open spec fn docker_fold(toks: Seq<TokenView>) -> Result<DockerScan, ArgErrorView>
    decreases toks.len(),
{
    if toks.len() == 0 {
        Ok(docker_scan_init())
    } else {
        match docker_fold(toks.drop_last()) {
            Ok(s) => docker_token(s, toks.last()),
            Err(e) => Err(e),
        }
    }
}

/// What `parse_args` answers for an argument list (program name
/// excluded); `default_weights` is where the weights are looked for when
/// `--weights-dir` is not given.
pub open spec fn spec_parse_args(args: Seq<Seq<char>>, default_weights: Option<Seq<char>>) -> Result<
    ArgsView,
    ArgErrorView,
> {
    let sc = spec_scan(docker_table(), args, 0);
    match docker_fold(sc.0) {
        Err(e) => Err(e),
        Ok(s) => match sc.1 {
            Some(e) => Err(scan_error_view(e)),
            None => match (s.input, s.output) {
                (None, _) => Err(ArgErrorView::Required { flag: "--input"@ }),
                (Some(_), None) => Err(ArgErrorView::Required { flag: "--output"@ }),
                (Some(i), Some(o)) => {
                    let w = match s.weights_dir {
                        Some(w) => Some(w),
                        None => default_weights,
                    };
                    match w {
                        None => Err(ArgErrorView::NoWeightsDir),
                        Some(w) => Ok(
                            ArgsView {
                                input: i,
                                output: o,
                                scale: s.scale,
                                mode: s.mode,
                                tile_vae: s.tile_vae,
                                tile_dit: s.tile_dit,
                                keep_audio: s.keep_audio,
                                weights_dir: w,
                                image: s.image,
                            },
                        ),
                    }
                },
            },
        },
    }
}

pub open spec fn result_view(r: Result<Args, ArgError>) -> Result<ArgsView, ArgErrorView> {
    match r {
        Ok(a) => Ok(a.view()),
        Err(e) => Err(e.view()),
    }
}

proof fn lemma_parse_err(
    args: Seq<Seq<char>>,
    default_weights: Option<Seq<char>>,
    tv: Seq<TokenView>,
    e: ArgErrorView,
)
    requires
        tv == spec_scan(docker_table(), args, 0).0,
        docker_fold(tv) == Err::<DockerScan, ArgErrorView>(e),
    ensures
        spec_parse_args(args, default_weights) == Err::<ArgsView, ArgErrorView>(e),
{
}

proof fn lemma_fold_err_sticks(toks: Seq<TokenView>, k: int)
    requires
        0 <= k <= toks.len(),
        docker_fold(toks.take(k)) is Err,
    ensures
        docker_fold(toks) == docker_fold(toks.take(k)),
    decreases toks.len() - k,
{
    if k < toks.len() {
        assert(toks.take(k + 1).drop_last() =~= toks.take(k));
        lemma_fold_err_sticks(toks, k + 1);
    } else {
        assert(toks.take(k) =~= toks);
    }
}

/// Parse the shim's command line (program name excluded).
/// `default_weights` is `default_weights_dir` of the environment.
pub fn parse_args(args: &Vec<String>, default_weights: Option<String>) -> (r: Result<
    Args,
    ArgError,
>)
    ensures
        result_view(r) == spec_parse_args(args_view(args@), opt_view(default_weights)),
{
    let t = table();
    let (toks, err) = scan(&t, args);
    let ghost tv = tokens_view(toks@);
    let mut input: Option<String> = None;
    let mut output: Option<String> = None;
    let mut scale: u32 = 4;
    let mut mode = String::from_str("tiny");
    let mut tile_vae = true;
    let mut tile_dit = true;
    let mut keep_audio = true;
    let mut weights_dir: Option<String> = None;
    let mut image = String::from_str("flashvsr-pro:latest");
    let mut k: usize = 0;
    assert(tv.take(0) =~= Seq::<TokenView>::empty());
    while k < toks.len()
        invariant
            tv == tokens_view(toks@),
            tv == spec_scan(docker_table(), args_view(args@), 0).0,
            k <= toks@.len(),
            docker_fold(tv.take(k as int)) == Ok::<DockerScan, ArgErrorView>(
                DockerScan {
                    input: opt_view(input),
                    output: opt_view(output),
                    scale: scale as nat,
                    mode: mode@,
                    tile_vae,
                    tile_dit,
                    keep_audio,
                    weights_dir: opt_view(weights_dir),
                    image: image@,
                },
            ),
        decreases toks@.len() - k,
    {
        let tok = &toks[k];
        proof {
            assert(tv.take(k + 1).drop_last() =~= tv.take(k as int));
            assert(tv.take(k + 1).last() == tok.view());
            assert(docker_fold(tv.take(k + 1)) == docker_token(
                docker_fold(tv.take(k as int))->Ok_0,
                tok.view(),
            ));
        }
        let v = token_value_of(tok);
        assert(token_value(tok.view()) == v@);
        let f = tok.flag;
        if f == 0 || f == 1 {
            input = Some(v);
        } else if f == 2 || f == 3 {
            output = Some(v);
        } else if f == 4 {
            match u32_arg("--scale", &v, tok.at) {
                Ok(n) => {
                    scale = n;
                },
                Err(e) => {
                    proof {
                        assert(docker_fold(tv.take(k + 1)) == Err::<DockerScan, ArgErrorView>(
                            e.view(),
                        ));
                        lemma_fold_err_sticks(tv, k as int + 1);
                        lemma_parse_err(args_view(args@), opt_view(default_weights), tv, e.view());
                    }
                    return Err(e);
                },
            }
        } else if f == 5 {
            if !str_eq(v.as_str(), "tiny") && !str_eq(v.as_str(), "full") {
                let e = ArgError::BadMode { mode: v };
                proof {
                    assert(docker_fold(tv.take(k + 1)) == Err::<DockerScan, ArgErrorView>(
                        e.view(),
                    ));
                    lemma_fold_err_sticks(tv, k as int + 1);
                    lemma_parse_err(args_view(args@), opt_view(default_weights), tv, e.view());
                }
                return Err(e);
            }
            mode = v;
        } else if f == 6 {
            tile_vae = true;
        } else if f == 7 {
            tile_vae = false;
        } else if f == 8 {
            tile_dit = true;
        } else if f == 9 {
            tile_dit = false;
        } else if f == 10 {
            keep_audio = true;
        } else if f == 11 {
            keep_audio = false;
        } else if f == 12 {
            weights_dir = Some(v);
        } else if f == 13 {
            image = v;
        }
        k = k + 1;
    }
    assert(tv.take(k as int) =~= tv);
    match err {
        Some(e) => {
            return Err(scan_error(e));
        },
        None => {},
    }
    let input = match input {
        Some(x) => x,
        None => {
            return Err(ArgError::Required { flag: "--input" });
        },
    };
    let output = match output {
        Some(x) => x,
        None => {
            return Err(ArgError::Required { flag: "--output" });
        },
    };
    let weights_dir = match weights_dir {
        Some(w) => w,
        None => match default_weights {
            Some(w) => w,
            None => {
                return Err(ArgError::NoWeightsDir);
            },
        },
    };
    Ok(
        Args {
            input,
            output,
            scale,
            mode,
            tile_vae,
            tile_dit,
            keep_audio,
            weights_dir,
            image,
        },
    )
}

/// Read the value of the flag at `raw[*i]`: moves `*i` onto the value and
/// returns it, or reports the flag when the list ends there.
pub fn need_val(raw: &Vec<String>, i: &mut usize, flag: &'static str) -> (r: Result<
    String,
    ArgError,
>)
    requires
        *old(i) < usize::MAX,
    ensures
        *final(i) == *old(i) + 1,
        r is Ok <==> *old(i) + 1 < raw@.len(),
        r matches Ok(v) ==> v@ == raw@[*old(i) + 1]@,
        r matches Err(e) ==> e.view() == (ArgErrorView::NeedsValue {
            flag: flag@,
            at: *old(i) as int,
        }),
{
    let at = *i;
    *i = *i + 1;
    if *i < raw.len() {
        Ok(raw[*i].clone())
    } else {
        Err(ArgError::NeedsValue { flag, at })
    }
}

// ---------------------------------------------------------------------
// Paths
// ---------------------------------------------------------------------

/// The components of the default weights directory under `APPDATA`.
pub open spec fn weights_parts() -> Seq<Seq<char>> {
    seq!["nsay"@, "models"@, "flashvsr-v1.1"@]
}

/// `<appdata>/nsay/models/flashvsr-v1.1`, when `APPDATA` is set.
pub fn default_weights_dir(appdata: Option<String>) -> (r: Option<String>)
    ensures
        r is Some <==> appdata is Some,
        appdata matches Some(a) ==> (join_base(a@) ==> (r matches Some(p) && is_join_of(
            p@,
            a@,
            weights_parts(),
        ))),
{
    match appdata {
        Some(a) => {
            proof {
                reveal_strlit("nsay");
                reveal_strlit("models");
                reveal_strlit("flashvsr-v1.1");
            }
            let p1 = path_join(a.as_str(), "nsay");
            proof {
                if join_base(a@) {
                    lemma_join_one(a@, "nsay"@, p1@);
                    lemma_join_of_base(p1@, a@, seq!["nsay"@]);
                }
            }
            let p2 = path_join(p1.as_str(), "models");
            proof {
                if join_base(a@) {
                    lemma_join_step(p1@, a@, seq!["nsay"@], "models"@, p2@);
                    assert(seq!["nsay"@].push("models"@) =~= seq!["nsay"@, "models"@]);
                    lemma_join_of_base(p2@, a@, seq!["nsay"@, "models"@]);
                }
            }
            let p3 = path_join(p2.as_str(), "flashvsr-v1.1");
            proof {
                if join_base(a@) {
                    lemma_join_step(p2@, a@, seq!["nsay"@, "models"@], "flashvsr-v1.1"@, p3@);
                    assert(seq!["nsay"@, "models"@].push("flashvsr-v1.1"@) =~= weights_parts());
                }
            }
            Some(p3)
        },
        None => None,
    }
}

/// Why the shim stopped.
pub enum DockerError {
    /// The path has no file name.
    NoFileName { path: String },
    /// The weights directory is missing.
    WeightsMissing { dir: String },
    /// The container finished without producing a new mp4.
    NoNewOutput,
    /// The container produced several new mp4 files.
    ManyNewOutputs { files: Vec<String> },
    /// `PATH` is not set.
    PathUnset,
    /// No directory of `PATH` holds the docker binary `bin`.
    DockerNotFound { bin: String },
    /// `docker images -q <image>` failed with this exit code.
    ImageQueryFailed { image: String, code: Option<i32> },
    /// The image is not built locally.
    ImageMissing { image: String },
}

/// The weights directory must exist (`is_dir` says whether it does).
pub fn ensure_weights(weights_dir: &str, is_dir: bool) -> (r: Result<(), DockerError>)
    ensures
        r is Ok <==> is_dir,
        r matches Err(DockerError::WeightsMissing { dir }) ==> dir@ == weights_dir@,
        r is Err ==> r matches Err(DockerError::WeightsMissing { .. }),
{
    if !is_dir {
        return Err(DockerError::WeightsMissing { dir: String::from_str(weights_dir) });
    }
    Ok(())
}

/// The file name of `p`, as handed to the container: for a portable path
/// whose last segment is a normal name, that segment; a path that ends in
/// `..` has none, nor has the root. (Other paths follow the platform's
/// path rules.)
pub fn container_basename(p: &str) -> (r: Result<String, DockerError>)
    ensures
        r matches Err(e) ==> e matches DockerError::NoFileName { path } && path@ == p@,
        portable_path(p@) && normal_name(last_segment(p@)) ==> (r matches Ok(n) && n@
            == last_segment(p@)),
        ends_in_parent(p@) ==> r is Err,
        only_separators(p@) ==> r is Err,
{
    match path_file_name(p) {
        Some(n) => Ok(n),
        None => Err(DockerError::NoFileName { path: String::from_str(p) }),
    }
}

/// The docker binary's file name.
pub open spec fn spec_docker_bin(windows: bool) -> Seq<char> {
    if windows {
        "docker.exe"@
    } else {
        "docker"@
    }
}

pub fn docker_bin(windows: bool) -> (r: &'static str)
    ensures
        r@ == spec_docker_bin(windows),
{
    if windows {
        "docker.exe"
    } else {
        "docker"
    }
}

/// Where docker may be: the binary in each directory of `PATH` (`None`
/// when `PATH` is not set), in order.
pub fn docker_candidates(path_dirs: Option<Vec<String>>, windows: bool) -> (r: Result<
    Vec<String>,
    DockerError,
>)
    ensures
        path_dirs is None <==> r matches Err(DockerError::PathUnset),
        path_dirs matches Some(d) ==> r matches Ok(c) && c@.len() == d@.len(),
        path_dirs matches Some(d) ==> (r matches Ok(c) && forall|i: int|
            0 <= i < c@.len() && join_base(d@[i]@) ==> is_join_of(
                #[trigger] c@[i]@,
                d@[i]@,
                seq![spec_docker_bin(windows)],
            )),
{
    let dirs = match path_dirs {
        Some(d) => d,
        None => {
            return Err(DockerError::PathUnset);
        },
    };
    let bin = docker_bin(windows);
    proof {
        reveal_strlit("docker");
        reveal_strlit("docker.exe");
    }
    let mut out: Vec<String> = Vec::new();
    let mut i: usize = 0;
    while i < dirs.len()
        invariant
            i <= dirs@.len(),
            out@.len() == i,
            bin@ == spec_docker_bin(windows),
            join_part(bin@),
            forall|k: int|
                0 <= k < i && join_base(dirs@[k]@) ==> is_join_of(
                    #[trigger] out@[k]@,
                    dirs@[k]@,
                    seq![spec_docker_bin(windows)],
                ),
        decreases dirs@.len() - i,
    {
        let c = path_join(dirs[i].as_str(), bin);
        proof {
            if join_base(dirs@[i as int]@) {
                lemma_join_one(dirs@[i as int]@, bin@, c@);
            }
        }
        out.push(c);
        i = i + 1;
    }
    Ok(out)
}

/// The first candidate that exists (`exists[i]` for `candidates[i]`), or
/// the report that docker is not on `PATH`.
pub fn pick_docker(candidates: &Vec<String>, exists: &Vec<bool>, windows: bool) -> (r: Result<
    String,
    DockerError,
>)
    requires
        exists@.len() == candidates@.len(),
    ensures
        r is Ok <==> exists|i: int| 0 <= i < exists@.len() && exists@[i],
        r matches Ok(p) ==> exists|i: int|
            0 <= i < exists@.len() && exists@[i] && p@ == candidates@[i]@ && forall|k: int|
                0 <= k < i ==> !exists@[k],
        r matches Err(e) ==> (e matches DockerError::DockerNotFound { bin } && bin@
            == spec_docker_bin(windows)),
{
    let mut i: usize = 0;
    while i < candidates.len()
        invariant
            exists@.len() == candidates@.len(),
            i <= candidates@.len(),
            forall|k: int| 0 <= k < i ==> !exists@[k],
        decreases candidates@.len() - i,
    {
        if exists[i] {
            return Ok(candidates[i].clone());
        }
        i = i + 1;
    }
    Err(DockerError::DockerNotFound { bin: String::from_str(docker_bin(windows)) })
}

/// The verdict on `docker images -q <image>`: the query must succeed and
/// print an image id (anything but whitespace).
pub fn check_image(success: bool, code: Option<i32>, stdout: &str, image: &str) -> (r: Result<
    (),
    DockerError,
>)
    ensures
        !success ==> (r matches Err(DockerError::ImageQueryFailed { image: i, code: c }) && i@
            == image@ && c == code),
        success && trim(stdout@).len() == 0 ==> (r matches Err(DockerError::ImageMissing {
            image: i,
        }) && i@ == image@),
        success && trim(stdout@).len() > 0 ==> r is Ok,
{
    if !success {
        return Err(DockerError::ImageQueryFailed { image: String::from_str(image), code });
    }
    let cs = to_chars(stdout);
    let t = trim_chars(cs.as_slice());
    if t.len() == 0 {
        return Err(DockerError::ImageMissing { image: String::from_str(image) });
    }
    Ok(())
}

/// Whether an extension (as `Path::extension` gave it) is `mp4` in any
/// letter case.
pub fn ext_is_mp4(ext: Option<String>) -> (r: bool)
    ensures
        r <==> (ext matches Some(e) && eq_ignore_ascii_case(e@, "mp4"@)),
{
    match ext {
        Some(e) => eq_ignore_case(e.as_str(), "mp4"),
        None => false,
    }
}

/// Whether the file `p` is an mp4: its extension, taken by `Path::extension`
/// (which depends on the platform's path rules), is `mp4` in any case. For
/// a portable path whose last segment is a normal name, that is the
/// extension of the segment.
pub fn is_mp4(p: &str) -> (r: bool)
    ensures
        portable_path(p@) && normal_name(last_segment(p@)) ==> (r <==> (name_extension(
            last_segment(p@),
        ) matches Some(e) && eq_ignore_ascii_case(e, "mp4"@))),
{
    ext_is_mp4(path_extension(p))
}

// ---------------------------------------------------------------------
// The container's command line
// ---------------------------------------------------------------------

/// What the shim hands to `docker`: mounts for the input directory
/// (read-only), the output directory and the weights (read-only), then the
/// image and the inference script's own arguments.
pub open spec fn spec_docker_run_args(
    input_dir: Seq<char>,
    output_dir: Seq<char>,
    weights_dir: Seq<char>,
    image: Seq<char>,
    input_name: Seq<char>,
    mode: Seq<char>,
    scale: nat,
    tile_vae: bool,
    tile_dit: bool,
    keep_audio: bool,
) -> Seq<Seq<char>> {
    seq![
        "run"@,
        "--rm"@,
        "--gpus"@,
        "all"@,
        "--shm-size=8g"@,
        "-v"@,
        input_dir + ":"@ + spec_container_input_dir() + ":ro"@,
        "-v"@,
        output_dir + ":"@ + spec_container_output_dir(),
        "-v"@,
        weights_dir + ":"@ + spec_container_weights_dir() + ":ro"@,
        image,
        "python"@,
        "infer.py"@,
        "-i"@,
        spec_container_input_dir() + "/"@ + input_name,
        "-o"@,
        spec_container_output_dir() + "/"@,
        "--mode"@,
        mode,
        "--scale"@,
        dec_digits(scale),
    ] + (if tile_vae {
        seq!["--tile-vae"@]
    } else {
        seq![]
    }) + (if tile_dit {
        seq!["--tile-dit"@]
    } else {
        seq![]
    }) + (if keep_audio {
        seq!["--keep-audio"@]
    } else {
        seq![]
    })
}

pub open spec fn strings_view(v: Seq<String>) -> Seq<Seq<char>> {
    Seq::new(v.len(), |i: int| v[i]@)
}

fn push_str(v: &mut Vec<String>, s: &str)
    ensures
        strings_view(final(v)@) == strings_view(old(v)@).push(s@),
{
    v.push(String::from_str(s));
    assert(strings_view(v@) =~= strings_view(old(v)@).push(s@));
}

fn push_string(v: &mut Vec<String>, s: String)
    ensures
        strings_view(final(v)@) == strings_view(old(v)@).push(s@),
{
    let ghost sv = s@;
    v.push(s);
    assert(strings_view(v@) =~= strings_view(old(v)@).push(sv));
}

/// The arguments of `docker` for one run.
pub fn docker_run_args(
    input_dir: &str,
    output_dir: &str,
    weights_dir: &str,
    image: &str,
    input_name: &str,
    mode: &str,
    scale: u32,
    tile_vae: bool,
    tile_dit: bool,
    keep_audio: bool,
) -> (r: Vec<String>)
    ensures
        strings_view(r@) == spec_docker_run_args(
            input_dir@,
            output_dir@,
            weights_dir@,
            image@,
            input_name@,
            mode@,
            scale as nat,
            tile_vae,
            tile_dit,
            keep_audio,
        ),
{
    let mut v: Vec<String> = Vec::new();
    push_str(&mut v, "run");
    push_str(&mut v, "--rm");
    push_str(&mut v, "--gpus");
    push_str(&mut v, "all");
    push_str(&mut v, "--shm-size=8g");
    push_str(&mut v, "-v");
    let mut m1 = concat2(input_dir, ":");
    m1.append("/in");
    m1.append(":ro");
    push_string(&mut v, m1);
    push_str(&mut v, "-v");
    let mut m2 = concat2(output_dir, ":");
    m2.append("/out");
    push_string(&mut v, m2);
    push_str(&mut v, "-v");
    let mut m3 = concat2(weights_dir, ":");
    m3.append("/workspace/FlashVSR-Pro/models/FlashVSR-v1.1");
    m3.append(":ro");
    push_string(&mut v, m3);
    push_str(&mut v, image);
    push_str(&mut v, "python");
    push_str(&mut v, "infer.py");
    push_str(&mut v, "-i");
    let mut inp = concat2("/in", "/");
    inp.append(input_name);
    push_string(&mut v, inp);
    push_str(&mut v, "-o");
    push_string(&mut v, concat2("/out", "/"));
    push_str(&mut v, "--mode");
    push_str(&mut v, mode);
    push_str(&mut v, "--scale");
    push_string(&mut v, u64_to_text(scale as u64));
    let ghost base = strings_view(v@);
    if tile_vae {
        push_str(&mut v, "--tile-vae");
    }
    let ghost b2 = strings_view(v@);
    if tile_dit {
        push_str(&mut v, "--tile-dit");
    }
    let ghost b3 = strings_view(v@);
    if keep_audio {
        push_str(&mut v, "--keep-audio");
    }
    proof {
        let spec = spec_docker_run_args(
            input_dir@,
            output_dir@,
            weights_dir@,
            image@,
            input_name@,
            mode@,
            scale as nat,
            tile_vae,
            tile_dit,
            keep_audio,
        );
        assert(strings_view(v@) =~= spec);
    }
    v
}

// ---------------------------------------------------------------------
// The produced file
// ---------------------------------------------------------------------

/// The entries of `after` that are not in `before`, in order.
pub open spec fn new_entries(before: Seq<String>, after: Seq<String>) -> Seq<Seq<char>>
    decreases after.len(),
{
    if after.len() == 0 {
        seq![]
    } else {
        let rest = new_entries(before, after.drop_last());
        if crate::tools::listed(before, after.last()@) {
            rest
        } else {
            rest.push(after.last()@)
        }
    }
}

/// Which mp4 the container produced, from the listings of the output
/// directory before and after the run.
pub fn pick_produced(before: &Vec<String>, after: &Vec<String>) -> (r: Result<String, DockerError>)
    ensures
        r is Ok <==> new_entries(before@, after@).len() == 1,
        r matches Ok(p) ==> p@ == new_entries(before@, after@)[0],
        r matches Err(DockerError::ManyNewOutputs { files }) ==> strings_view(files@) == new_entries(
            before@,
            after@,
        ) && files@.len() > 1,
        r matches Err(e) ==> (e is NoNewOutput <==> new_entries(before@, after@).len() == 0),
        r matches Err(e) ==> (e is NoNewOutput || e is ManyNewOutputs),
{
    let mut fresh: Vec<String> = Vec::new();
    let mut i: usize = 0;
    assert(after@.take(0) =~= Seq::<String>::empty());
    while i < after.len()
        invariant
            i <= after@.len(),
            strings_view(fresh@) == new_entries(before@, after@.take(i as int)),
        decreases after@.len() - i,
    {
        proof {
            assert(after@.take(i + 1).drop_last() =~= after@.take(i as int));
            assert(after@.take(i + 1).last() == after@[i as int]);
        }
        let mut seen = false;
        let mut j: usize = 0;
        while j < before.len()
            invariant
                j <= before@.len(),
                i < after@.len(),
                seen == (exists|k: int| 0 <= k < j && #[trigger] before@[k]@ == after@[i as int]@),
            decreases before@.len() - j,
        {
            if str_eq(before[j].as_str(), after[i].as_str()) {
                seen = true;
            }
            j = j + 1;
        }
        if !seen {
            push_string(&mut fresh, after[i].clone());
        }
        i = i + 1;
    }
    assert(after@.take(i as int) =~= after@);
    if fresh.len() == 0 {
        return Err(DockerError::NoNewOutput);
    }
    if fresh.len() == 1 {
        let p = fresh[0].clone();
        assert(strings_view(fresh@)[0] == p@);
        return Ok(p);
    }
    Err(DockerError::ManyNewOutputs { files: fresh })
}

// ---------------------------------------------------------------------
// Progress output of the container
// ---------------------------------------------------------------------

/// The first match of `pattern` in `text`: the texts of capture groups 1
/// and 2 (`None` when the pattern does not compile, does not match, or a
/// group did not take part).
pub uninterp spec fn spec_regex_captures2(pattern: Seq<char>, text: Seq<char>) -> Option<
    (Seq<char>, Seq<char>),
>;

/// `regex::Regex::new(pattern)` then `Regex::captures(text)`, reading
/// groups 1 and 2. Claimed here: the answer is a function of the pattern
/// and the text.
#[verifier::external_body]
fn regex_captures2(pattern: &str, text: &str) -> (r: Option<(String, String)>)
    ensures
        r is Some <==> spec_regex_captures2(pattern@, text@) is Some,
        r matches Some(c) ==> spec_regex_captures2(pattern@, text@) == Some((c.0@, c.1@)),
{
    let re = regex::Regex::new(pattern).ok()?;
    let c = re.captures(text)?;
    Some((c.get(1)?.as_str().to_string(), c.get(2)?.as_str().to_string()))
}

/// The tqdm counter pattern: `current / total`.
pub open spec fn spec_tqdm_pattern() -> Seq<char> {
    "(\\d+)\\s*/\\s*(\\d+)"@
}

/// What to do with one line of container output.
pub enum TqdmAction {
    /// An empty line: nothing.
    Skip,
    /// The counter advanced to this frame: report it.
    Frame(u64),
    /// Anything else: echo the trimmed line.
    Echo(String),
}

/// What the action is for a trimmed line whose counter captures are
/// `caps`, when `last` frames were already reported.
pub open spec fn spec_tqdm_decide(last: nat, caps: Option<(Seq<char>, Seq<char>)>) -> Option<nat> {
    match caps {
        Some((a, b)) => {
            let u64max: nat = 0xffff_ffff_ffff_ffff;
            match (parse_unsigned(a, u64max), parse_unsigned(b, u64max)) {
                (Some(cur), Some(_)) => if cur > last {
                    Some(cur)
                } else {
                    None
                },
                _ => None,
            }
        },
        None => None,
    }
}

/// Progress never goes backwards: a line reports a frame only when its
/// counter passes the last frame reported.
pub proof fn lemma_tqdm_advances(last: nat, caps: Option<(Seq<char>, Seq<char>)>)
    ensures
        spec_tqdm_decide(last, caps) matches Some(n) ==> n > last,
{
}

/// Decide on a trimmed, non-empty line from its counter captures.
pub fn tqdm_decide(last: u64, caps: Option<(String, String)>, trimmed: String) -> (r: TqdmAction)
    ensures
        match spec_tqdm_decide(
            last as nat,
            match caps {
                Some(c) => Some((c.0@, c.1@)),
                None => None,
            },
        ) {
            Some(n) => r matches TqdmAction::Frame(f) && f as nat == n,
            None => r matches TqdmAction::Echo(s) && s@ == trimmed@,
        },
{
    match caps {
        Some((a, b)) => {
            let ac = to_chars(a.as_str());
            let bc = to_chars(b.as_str());
            let cur = parse_decimal(ac.as_slice(), 0xffff_ffff_ffff_ffff);
            let tot = parse_decimal(bc.as_slice(), 0xffff_ffff_ffff_ffff);
            match (cur, tot) {
                (Some(c), Some(_)) => {
                    if c > last {
                        return TqdmAction::Frame(c);
                    }
                },
                _ => {},
            }
            TqdmAction::Echo(trimmed)
        },
        None => TqdmAction::Echo(trimmed),
    }
}

/// Read one line of the container's output (either stream). Empty lines
/// are skipped; a line whose tqdm counter passes `last` reports that frame;
/// anything else is echoed trimmed.
pub fn tqdm_line(last: u64, line: &str) -> (r: TqdmAction)
    ensures
        trim(line@).len() == 0 <==> r is Skip,
        trim(line@).len() > 0 ==> match spec_tqdm_decide(
            last as nat,
            spec_regex_captures2(spec_tqdm_pattern(), trim(line@)),
        ) {
            Some(n) => r matches TqdmAction::Frame(f) && f as nat == n,
            None => r matches TqdmAction::Echo(s) && s@ == trim(line@),
        },
{
    let cs = to_chars(line);
    let t = trim_chars(cs.as_slice());
    if t.len() == 0 {
        return TqdmAction::Skip;
    }
    let trimmed = string_from_chars(t.as_slice());
    let caps = regex_captures2("(\\d+)\\s*/\\s*(\\d+)", trimmed.as_str());
    tqdm_decide(last, caps, trimmed)
}

/// The frame a line reports when `last` frames were already reported, if
/// it reports one.
pub open spec fn spec_line_frame(last: nat, line: Seq<char>) -> Option<nat> {
    if trim(line).len() == 0 {
        None
    } else {
        spec_tqdm_decide(last, spec_regex_captures2(spec_tqdm_pattern(), trim(line)))
    }
}

/// The last frame reported after one more line.
pub open spec fn stream_step(last: nat, line: Seq<char>) -> nat {
    match spec_line_frame(last, line) {
        Some(n) => n,
        None => last,
    }
}

/// The last frame reported after a stream of lines, starting from `last0`.
pub open spec fn stream_last(last0: nat, lines: Seq<Seq<char>>) -> nat
    decreases lines.len(),
{
    if lines.len() == 0 {
        last0
    } else {
        stream_step(stream_last(last0, lines.drop_last()), lines.last())
    }
}

/// The frames a stream of lines reports, in order, starting from `last0`.
pub open spec fn stream_frames(last0: nat, lines: Seq<Seq<char>>) -> Seq<nat>
    decreases lines.len(),
{
    if lines.len() == 0 {
        Seq::empty()
    } else {
        let before = stream_frames(last0, lines.drop_last());
        match spec_line_frame(stream_last(last0, lines.drop_last()), lines.last()) {
            Some(n) => before.push(n),
            None => before,
        }
    }
}

/// Over any stream of lines, the frames reported strictly increase and
/// all pass the starting count; the last one reported is where the count
/// stands.
pub proof fn lemma_stream_frames_increase(last0: nat, lines: Seq<Seq<char>>)
    ensures
        forall|i: int, j: int|
            0 <= i < j < stream_frames(last0, lines).len() ==> stream_frames(last0, lines)[i]
                < stream_frames(last0, lines)[j],
        forall|i: int|
            0 <= i < stream_frames(last0, lines).len() ==> stream_frames(last0, lines)[i] > last0,
        forall|i: int|
            0 <= i < stream_frames(last0, lines).len() ==> stream_frames(last0, lines)[i]
                <= stream_last(last0, lines),
        stream_last(last0, lines) >= last0,
    decreases lines.len(),
{
    if lines.len() > 0 {
        let init = lines.drop_last();
        lemma_stream_frames_increase(last0, init);
        let prev = stream_last(last0, init);
        let caps = if trim(lines.last()).len() == 0 {
            None
        } else {
            spec_regex_captures2(spec_tqdm_pattern(), trim(lines.last()))
        };
        lemma_tqdm_advances(prev, caps);
        let fi = stream_frames(last0, init);
        let fs = stream_frames(last0, lines);
        match spec_line_frame(prev, lines.last()) {
            Some(n) => {
                assert(n > prev);
                assert(fs == fi.push(n));
                assert forall|i: int, j: int| 0 <= i < j < fs.len() implies fs[i] < fs[j] by {
                    if j < fi.len() {
                        assert(fs[i] == fi[i] && fs[j] == fi[j]);
                    } else {
                        assert(fs[i] == fi[i]);
                    }
                }
                assert forall|i: int| 0 <= i < fs.len() implies fs[i] > last0 && fs[i]
                    <= stream_last(last0, lines) by {
                    if i < fi.len() {
                        assert(fs[i] == fi[i]);
                    }
                }
            },
            None => {
                assert(fs == fi);
            },
        }
    }
}

/// The progress reader of one output stream of the container: the last
/// frame reported so far.
pub struct TqdmProgress {
    pub last: u64,
}

impl TqdmProgress {
    pub fn new() -> (r: TqdmProgress)
        ensures
            r.last == 0,
    {
        TqdmProgress { last: 0 }
    }

    /// Read the next line: empty lines are skipped, a counter that passes
    /// the last frame reports its frame (which becomes the last), anything
    /// else is echoed trimmed.
    pub fn on_line(&mut self, line: &str) -> (r: TqdmAction)
        ensures
            final(self).last == stream_step(old(self).last as nat, line@),
            trim(line@).len() == 0 <==> r is Skip,
            match spec_line_frame(old(self).last as nat, line@) {
                Some(n) => r matches TqdmAction::Frame(f) && f as nat == n,
                None => trim(line@).len() > 0 ==> (r matches TqdmAction::Echo(s) && s@ == trim(
                    line@,
                )),
            },
    {
        let r = tqdm_line(self.last, line);
        match r {
            TqdmAction::Frame(n) => {
                self.last = n;
            },
            _ => {},
        }
        r
    }
}

/// One step of reading a record that ends at `\n` or `\r`: given the
/// buffered bytes, how many are consumed and whether the record is
/// complete. An empty buffer (end of input) completes the record.
pub struct RecordStep {
    pub consumed: usize,
    pub done: bool,
}

/// Index of the first `\n` or `\r` in `s`.
pub open spec fn first_sep(s: Seq<u8>, from: int) -> Option<int>
    decreases s.len() - from,
{
    if from < 0 || from >= s.len() {
        None
    } else if s[from] == 10u8 || s[from] == 13u8 {
        Some(from)
    } else {
        first_sep(s, from + 1)
    }
}

proof fn lemma_first_sep_skip(s: Seq<u8>, i: int)
    requires
        0 <= i <= s.len(),
        forall|k: int| 0 <= k < i ==> s[k] != 10u8 && s[k] != 13u8,
    ensures
        first_sep(s, 0) == first_sep(s, i),
    decreases i,
{
    if i > 0 {
        lemma_first_sep_skip(s, i - 1);
    }
}

/// Feed the buffered bytes `available` into the record `buf`: bytes before
/// the first separator are appended and the separator is consumed too (the
/// record is then complete); without a separator everything is appended
/// and consumed. `total` counts the bytes consumed for the record.
pub fn read_until_lf_or_cr(available: &[u8], buf: &mut Vec<u8>, total: &mut usize) -> (r:
    RecordStep)
    requires
        *old(total) + available@.len() <= usize::MAX,
    ensures
        available@.len() == 0 ==> r.done && r.consumed == 0 && final(buf)@ == old(buf)@,
        available@.len() > 0 ==> match first_sep(available@, 0) {
            Some(i) => {
                &&& r.done
                &&& r.consumed == i + 1
                &&& final(buf)@ == old(buf)@ + available@.take(i)
            },
            None => {
                &&& !r.done
                &&& r.consumed == available@.len()
                &&& final(buf)@ == old(buf)@ + available@
            },
        },
        *final(total) == *old(total) + r.consumed,
{
    if available.len() == 0 {
        return RecordStep { consumed: 0, done: true };
    }
    let mut i: usize = 0;
    while i < available.len()
        invariant
            i <= available@.len(),
            forall|k: int| 0 <= k < i ==> available@[k] != 10u8 && available@[k] != 13u8,
            buf@ == old(buf)@ + available@.take(i as int),
            *total == *old(total),
            *old(total) + available@.len() <= usize::MAX,
        decreases available@.len() - i,
    {
        let c = available[i];
        if c == 10u8 || c == 13u8 {
            proof {
                lemma_first_sep_skip(available@, i as int);
            }
            *total = *total + i + 1;
            return RecordStep { consumed: i + 1, done: true };
        }
        buf.push(c);
        i = i + 1;
        assert(buf@ =~= old(buf)@ + available@.take(i as int));
    }
    proof {
        lemma_first_sep_skip(available@, i as int);
        assert(available@.take(i as int) =~= available@);
    }
    *total = *total + available.len();
    RecordStep { consumed: available.len(), done: false }
}

} // verus!
